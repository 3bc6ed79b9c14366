use crust::shell::{
    apply_option, cd, exit_request, non_interactive_input, parse_option_line, parse_usize_text,
    CdOutcome, ShellState,
};

fn words(v: &[&str]) -> Vec<String> {
    v.iter().map(|s| s.to_string()).collect()
}

fn state() -> ShellState {
    ShellState::init(words(&["crust"]), None, "zeno".to_string(), None)
}

#[test]
fn init_derives_paths() {
    let s = state();
    assert_eq!(s.home, "/home/zeno");
    assert_eq!(s.share_dir, "/home/zeno/.local/share/crust");
    assert_eq!(s.config, "/home/zeno/.config/crust/config");
    assert_eq!(s.history_file, "/home/zeno/.local/share/crust/crust.history");
    assert_eq!(s.prompt, "F<GREEN>B<BLACK>%{b}%{u}[crust]-[%{CL}]:%{re} ");
    assert!(s.cd_prev_dir.is_none());
    let t = ShellState::init(vec![], Some("> ".to_string()), "a".to_string(), Some("/root".to_string()));
    assert_eq!(t.prompt, "> ");
    assert_eq!(t.config_dir, "/root/.config/crust/");
}

#[test]
fn cd_records_the_directory_it_leaves() {
    let mut s = state();
    match cd(&mut s, &words(&["-"]), "/a".to_string()) {
        CdOutcome::NoPrevious => {}
        _ => panic!("no previous directory yet"),
    }
    assert!(s.cd_prev_dir.is_none());
    match cd(&mut s, &words(&["/b"]), "/a".to_string()) {
        CdOutcome::ChangeTo(p) => assert_eq!(p, "/b"),
        _ => panic!(),
    }
    assert_eq!(s.cd_prev_dir, Some("/a".to_string()));
    match cd(&mut s, &words(&["-"]), "/b".to_string()) {
        CdOutcome::ChangeTo(p) => assert_eq!(p, "/a"),
        _ => panic!(),
    }
    assert_eq!(s.cd_prev_dir, Some("/b".to_string()));
    match cd(&mut s, &words(&[]), "/a".to_string()) {
        CdOutcome::ChangeTo(p) => assert_eq!(p, "/home/zeno"),
        _ => panic!(),
    }
}

#[test]
fn exit_lines() {
    assert_eq!(exit_request("exit"), Some(0));
    assert_eq!(exit_request("exit 3"), Some(3));
    assert_eq!(exit_request("exit x"), Some(0));
    assert_eq!(exit_request("exit -2 more"), Some(-2));
    assert_eq!(exit_request("echo exit"), None);
}

#[test]
fn command_line_from_args() {
    assert_eq!(non_interactive_input(&words(&["crust"])), None);
    assert_eq!(non_interactive_input(&words(&["crust", "-x", "a"])), None);
    assert_eq!(
        non_interactive_input(&words(&["crust", "-c", " \"echo hi\" "])),
        Some("echo hi".to_string())
    );
    assert_eq!(non_interactive_input(&words(&["crust", "-c"])), Some(String::new()));
}

#[test]
fn command_line_trims_unicode_whitespace() {
    assert_eq!(
        non_interactive_input(&words(&["crust", "-c", "\u{a0}x\u{3000}"])),
        Some("x".to_string())
    );
    assert_eq!(crust::text::trim("\u{2003}\ta b\u{85}\n"), "a b");
}

#[test]
fn option_lines() {
    assert_eq!(
        parse_option_line("prompt=\"> \""),
        Some(("prompt".to_string(), "> ".to_string()))
    );
    assert_eq!(
        parse_option_line("history size=500"),
        Some(("history size".to_string(), "500".to_string()))
    );
    assert_eq!(parse_option_line("no option here"), None);
}

#[test]
fn options_apply_to_the_state() {
    let mut s = state();
    assert_eq!(apply_option(&mut s, "prompt", "$ "), None);
    assert_eq!(s.prompt, "$ ");
    assert_eq!(apply_option(&mut s, "history size", "42"), None);
    assert_eq!(s.history_size, 42);
    assert_eq!(apply_option(&mut s, "history spaces ignored", "false"), None);
    assert!(!s.history_spaces_ignored);
    assert_eq!(
        apply_option(&mut s, "history size", "many"),
        Some("[WARNING]: 'many' is not a valid value for 'history size', ignoring.".to_string())
    );
    assert_eq!(s.history_size, 42);
    assert_eq!(
        apply_option(&mut s, "should be invalid", "N/A"),
        Some("[WARNING]: 'should be invalid' is an invalid option, ignoring.".to_string())
    );
}

#[test]
fn usize_reading_matches_std() {
    for v in ["0", "+7", "18446744073709551615", "18446744073709551616", "-1", "", "+", "1x"] {
        assert_eq!(parse_usize_text(v), v.parse::<usize>().ok(), "{}", v);
    }
}
