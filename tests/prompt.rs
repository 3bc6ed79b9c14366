use crust::command::Redirection;
use crust::prompt::{
    finish_prompt, get_commands_from_input, get_files_from_input, parse_prompt_effects,
    substitute_spans, BgColor, Color, EsBuilder, EscapeSequence, FgColor, FontEffects,
    PromptContext,
};

fn context() -> PromptContext {
    PromptContext {
        cwd: "/home/zeno/src".to_string(),
        date: "Mon Jan 01".to_string(),
        time12: "01:00 PM".to_string(),
        time24: "13:00".to_string(),
        home: "/home/zeno".to_string(),
        user: "zeno".to_string(),
    }
}

#[test]
fn color_codes() {
    assert_eq!(BgColor::Black.to_u8(), 40);
    assert_eq!(BgColor::White.to_u8(), 47);
    assert_eq!(FgColor::Green.to_u8(), 32);
    assert_eq!(Color::Fg(FgColor::Cyan).to_u8(), 36);
    assert_eq!(Color::Bg(BgColor::Red).to_u8(), 41);
    assert_eq!(FontEffects::Bold.to_u8(), 1);
    assert_eq!(FontEffects::ResetBackground.to_u8(), 49);
}

#[test]
fn escape_builder() {
    let mut b = EscapeSequence::builder();
    b.append(32);
    b.append(1);
    assert_eq!(b.build().sequence(), "\x1b[32;1m");
    assert_eq!(EsBuilder::new().build().sequence(), "\x1bm");
}

#[test]
fn effects_of_the_default_prompt() {
    assert_eq!(
        parse_prompt_effects("F<GREEN>B<BLACK>%{b}%{u}[crust]-[%{CL}]:%{re} "),
        "\x1b[32;40;1;4m[crust]-[%{CL}]:\x1b[0m "
    );
}

#[test]
fn effects_keep_plain_text() {
    assert_eq!(parse_prompt_effects("Bob 100% F"), "Bob 100% F");
    assert_eq!(parse_prompt_effects("F<NOPE>x"), "\x1b[37mx");
}

#[test]
fn prompt_simple() {
    let prompt_string = String::from("crusty> ");
    let filled = substitute_spans(&prompt_string, '(', ')', &vec![], &vec![]);
    assert_eq!(prompt_string, finish_prompt(&filled, &context()));
}

#[test]
fn command_and_file_spans() {
    let cmds = get_commands_from_input("%(whoami)@%(hostname -s)> %()");
    assert_eq!(cmds.len(), 2);
    assert_eq!(cmds[0].name, "whoami");
    assert_eq!(cmds[1].name, "hostname");
    assert_eq!(cmds[1].args, vec!["-s".to_string()]);
    assert_eq!(cmds[1].redirection, Redirection::NoOp);
    assert_eq!(get_files_from_input("a %[/etc/hostname] b"), vec!["/etc/hostname".to_string()]);
}

#[test]
fn spans_and_variables_filled() {
    let spans = crust::prompt::delimited_spans("%(whoami): %{CS}> ", '(', ')');
    let filled = substitute_spans("%(whoami): %{CS}> ", '(', ')', &spans, &vec!["zeno\n".to_string()]);
    assert_eq!(filled, "zeno: %{CS}> ");
    assert_eq!(finish_prompt(&filled, &context()), "zeno: src> ");
    assert_eq!(finish_prompt("%{U}@%{H}\\n%{T24}", &context()), "zeno@/home/zeno\n13:00");
}
