use crust::command::{PipedShellCommand, ShellCommand};
use crust::dispatch::{builtin_of, dispatch, not_found_message, process_input, Action, Builtin};
use crust::pipeline::{parent_dir_of, PipelineAction, PipelineRun, StageEvent};

fn words(v: &[&str]) -> Vec<String> {
    v.iter().map(|s| s.to_string()).collect()
}

fn run_of(line: &str) -> PipelineRun {
    match process_input(line) {
        Some(Action::Pipeline(p)) => PipelineRun::new(p),
        _ => panic!("not a pipeline: {}", line),
    }
}

#[test]
fn builtin_table() {
    assert_eq!(builtin_of("calc"), Some(Builtin::Calc));
    assert_eq!(builtin_of("pwd"), Some(Builtin::Pwd));
    assert_eq!(builtin_of("exit"), None);
    assert_eq!(builtin_of("echoo"), None);
}

#[test]
fn builtin_line_calls_the_builtin() {
    match process_input("cd /tmp") {
        Some(Action::Builtin(b, args)) => {
            assert_eq!(b, Builtin::Cd);
            assert_eq!(args, words(&["/tmp"]));
        }
        _ => panic!("expected a builtin"),
    }
}

#[test]
fn echo_success_end_to_end() {
    match process_input("echo Success") {
        Some(Action::Builtin(b, args)) => {
            assert_eq!(b, Builtin::Echo);
            assert_eq!(args, words(&["Success"]));
            assert_eq!(crust::echo::echo(&args).trim(), "Success");
        }
        _ => panic!("expected a builtin"),
    }
}

#[test]
fn markers_win_over_builtin_names() {
    assert!(matches!(process_input("echo foo | cat"), Some(Action::Pipeline(_))));
}

#[test]
fn unknown_name_is_spawned() {
    match process_input("nonexistent-binary") {
        Some(Action::External(name, args)) => {
            assert_eq!(name, "nonexistent-binary");
            assert!(args.is_empty());
            assert_eq!(
                not_found_message(&name),
                "Sorry, 'nonexistent-binary' was not found!"
            );
        }
        _ => panic!("expected an external command"),
    }
}

#[test]
fn empty_line_does_nothing() {
    assert!(process_input("").is_none());
    assert!(process_input("   ").is_none());
}

#[test]
fn same_line_twice_same_decision() {
    let first = process_input("echo hi");
    let second = process_input("echo hi");
    match (first, second) {
        (Some(Action::Builtin(b1, a1)), Some(Action::Builtin(b2, a2))) => {
            assert_eq!(b1, b2);
            assert_eq!(a1, a2);
            assert_eq!(crust::echo::echo(&a1), crust::echo::echo(&a2));
        }
        _ => panic!("expected builtins"),
    }
}

#[test]
fn dispatch_of_descriptor() {
    let c = ShellCommand::new("ls -a").unwrap();
    assert!(matches!(dispatch(c), Action::Builtin(Builtin::Ls, _)));
}

#[test]
fn redirect_echo_to_file() {
    let mut run = run_of("echo foo > /tmp/out.txt");
    match run.next_action() {
        PipelineAction::WriteFile { dir, path, contents, append } => {
            assert_eq!(dir, Some("/tmp/".to_string()));
            assert_eq!(path, "/tmp/out.txt");
            assert_eq!(contents, "foo ");
            assert!(!append);
        }
        _ => panic!("expected a write"),
    }
}

#[test]
fn append_adds_a_newline() {
    let mut run = run_of("calc 2x4 >> out.txt");
    match run.next_action() {
        PipelineAction::WriteFile { dir, path, contents, append } => {
            assert_eq!(dir, None);
            assert_eq!(path, "out.txt");
            assert_eq!(contents, "8\n");
            assert!(append);
        }
        _ => panic!("expected a write"),
    }
}

#[test]
fn pipeline_spawns_and_carries_output() {
    let mut run = run_of("echo hi | tr a-z A-Z | wc -c");
    match run.next_action() {
        PipelineAction::Spawn { name, args, input } => {
            assert_eq!(name, "tr");
            assert_eq!(args, words(&["a-z", "A-Z"]));
            assert_eq!(input, Some("hi ".to_string()));
        }
        _ => panic!("expected a spawn"),
    }
    run.advance(StageEvent::Output("HI ".to_string()));
    match run.next_action() {
        PipelineAction::Spawn { name, input, .. } => {
            assert_eq!(name, "wc");
            assert_eq!(input, Some("HI ".to_string()));
        }
        _ => panic!("expected a spawn"),
    }
    run.advance(StageEvent::Output("3\n".to_string()));
    match run.next_action() {
        PipelineAction::Print { text } => assert_eq!(text, "3\n"),
        _ => panic!("expected a print"),
    }
}

#[test]
fn first_stage_reads_the_terminal() {
    let mut run = run_of("seq 3 | cat");
    match run.next_action() {
        PipelineAction::Spawn { name, input, .. } => {
            assert_eq!(name, "seq");
            assert_eq!(input, None);
        }
        _ => panic!("expected a spawn"),
    }
    run.advance(StageEvent::Output("1\n2\n3\n".to_string()));
    match run.next_action() {
        PipelineAction::RunBuiltin { builtin, args } => {
            assert_eq!(builtin, Builtin::Cat);
            assert!(args.is_empty());
        }
        _ => panic!("expected a builtin"),
    }
}

#[test]
fn failed_stage_ends_the_run() {
    let mut run = run_of("echo hi | nosuchprogram | cat");
    assert!(matches!(run.next_action(), PipelineAction::Spawn { .. }));
    run.advance(StageEvent::Failed);
    match run.next_action() {
        PipelineAction::Report { text } => assert_eq!(text, "nosuchprogram failed"),
        _ => panic!("expected a report"),
    }
}

#[test]
fn single_stage_pipeline_prints() {
    let p = PipedShellCommand { commands: vec![ShellCommand::new("echo x").unwrap()] };
    let mut run = PipelineRun::new(p);
    match run.next_action() {
        PipelineAction::Print { text } => assert_eq!(text, "x "),
        _ => panic!("expected a print"),
    }
}

#[test]
fn parent_directories() {
    assert_eq!(parent_dir_of("/tmp/a/out.txt"), Some("/tmp/a/".to_string()));
    assert_eq!(parent_dir_of("out.txt"), None);
    assert_eq!(parent_dir_of("dir/"), Some("dir/".to_string()));
}
