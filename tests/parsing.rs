use crust::command::{is_piped, PipedShellCommand, Redirection, ShellCommand};
use crust::lexer::{lex_tokenized_input, tokenize};

fn words(v: &[&str]) -> Vec<String> {
    v.iter().map(|s| s.to_string()).collect()
}

#[test]
fn tokenize_gives_one_token_per_character() {
    assert_eq!(tokenize("a b"), words(&["a", " ", "b"]));
    assert!(tokenize("").is_empty());
}

#[test]
fn lex_keeps_quoted_spaces() {
    assert_eq!(lex_tokenized_input("echo \"a b\" c"), words(&["echo", "a b", "c"]));
    assert_eq!(lex_tokenized_input("echo 'a b' c"), words(&["echo", "a b", "c"]));
}

#[test]
fn lex_collapses_runs_of_spaces() {
    assert_eq!(lex_tokenized_input("echo    a"), words(&["echo", "a"]));
    assert_eq!(lex_tokenized_input("  echo a  "), words(&["echo", "a"]));
    assert!(lex_tokenized_input("   ").is_empty());
    assert!(lex_tokenized_input("").is_empty());
}

#[test]
fn lex_closes_an_unterminated_quote_at_the_end() {
    assert_eq!(lex_tokenized_input("echo \"unterminated"), words(&["echo", "unterminated"]));
}

#[test]
fn lex_drops_empty_quotes() {
    assert_eq!(lex_tokenized_input("echo \"\" a"), words(&["echo", "a"]));
}

#[test]
fn new_command_from_line() {
    let c = ShellCommand::new("echo hi | cat").unwrap();
    assert_eq!(c.name, "echo");
    assert_eq!(c.args, words(&["hi", "|", "cat"]));
    assert_eq!(c.redirection, Redirection::NoOp);
    assert!(ShellCommand::new("    ").is_none());
}

#[test]
fn redirection_detection() {
    assert_eq!(ShellCommand::new("echo a >> f").unwrap().redirection, Redirection::Append);
    assert_eq!(ShellCommand::new("echo a > f").unwrap().redirection, Redirection::Overwrite);
    assert_eq!(ShellCommand::new("echo a>>f").unwrap().redirection, Redirection::Append);
    assert_eq!(ShellCommand::new("echo a").unwrap().redirection, Redirection::NoOp);
}

#[test]
fn split_two_stage_pipeline() {
    let c = ShellCommand::new("echo hi | cat").unwrap();
    let p = PipedShellCommand::from(&c);
    assert_eq!(p.commands.len(), 2);
    assert_eq!(p.commands[0].name, "echo");
    assert_eq!(p.commands[0].args, words(&["hi"]));
    assert_eq!(p.commands[1].name, "cat");
    assert!(p.commands[1].args.is_empty());
}

#[test]
fn split_copies_redirection_to_every_stage() {
    let c = ShellCommand::new("echo a | tr a b >> out.txt").unwrap();
    let p = PipedShellCommand::from(&c);
    assert_eq!(p.commands.len(), 3);
    assert_eq!(p.commands[1].name, "tr");
    assert_eq!(p.commands[1].args, words(&["a", "b"]));
    assert_eq!(p.commands[2].name, "out.txt");
    for s in &p.commands {
        assert_eq!(s.redirection, Redirection::Append);
    }
}

#[test]
fn split_with_empty_stage() {
    let c = ShellCommand::new("echo a |").unwrap();
    let p = PipedShellCommand::from(&c);
    assert_eq!(p.commands.len(), 2);
    assert_eq!(p.commands[1].name, "");
}

#[test]
fn is_piped_builds_pipeline_from_builtin_args() {
    assert!(is_piped(&words(&["a", "b"]), "echo").is_none());
    let p = is_piped(&words(&["a", ">", "f"]), "echo").unwrap();
    assert_eq!(p.commands.len(), 2);
    assert_eq!(p.commands[0].name, "echo");
    assert_eq!(p.commands[1].name, "f");
    assert_eq!(p.commands[1].redirection, Redirection::Overwrite);
}

#[test]
fn return_shellcommand_keeps_parts() {
    let c = crust::command::return_shellcommand("ls".to_string(), words(&["-a"]), Redirection::NoOp);
    assert_eq!(c.name, "ls");
    assert_eq!(c.args, words(&["-a"]));
}

#[test]
fn quoted_marker_does_not_redirect_a_pipe() {
    let c = ShellCommand::new("echo \"x>y\" | cat").unwrap();
    assert_eq!(c.redirection, Redirection::Overwrite);
    let p = PipedShellCommand::from(&c);
    assert_eq!(p.commands.len(), 2);
    assert_eq!(p.commands[1].name, "cat");
    for s in &p.commands {
        assert_eq!(s.redirection, Redirection::NoOp);
    }
}

#[test]
fn stage_redirection_comes_from_the_markers() {
    let c = crust::command::return_shellcommand(
        "a".to_string(),
        words(&[">>", "f"]),
        Redirection::NoOp,
    );
    let p = PipedShellCommand::from(&c);
    assert_eq!(p.commands[1].redirection, Redirection::Append);
}
