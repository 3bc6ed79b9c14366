use crust::echo::echo;
use crust::files::{cat_request, CatRequest};
use crust::help::help;

fn words(v: &[&str]) -> Vec<String> {
    v.iter().map(|s| s.to_string()).collect()
}

fn check_calc(problem: Vec<String>, solution: String) {
    let output = crust::calc::calc(&problem);
    let output = output.trim();
    assert_eq!(output, solution);
}

#[test]
fn basic_calc_add() {
    let problem: Vec<String> = vec!["1+1".to_string()];
    check_calc(problem, "2".to_string());
}

#[test]
fn basic_calc_sub() {
    let problem: Vec<String> = vec!["2-1".to_string()];
    check_calc(problem, "1".to_string());
}

#[test]
fn basic_calc_mul() {
    let problem: Vec<String> = vec!["2x4".to_string()];
    check_calc(problem, "8".to_string());
}

#[test]
fn basic_calc_div() {
    let problem: Vec<String> = vec!["6/3".to_string()];
    check_calc(problem, "2".to_string());
}

#[test]
fn basic_echo() {
    let arg: Vec<String> = vec![String::from("Success")];
    let output = echo(&arg);
    let output = output.trim();
    assert_eq!(output, String::from("Success"));
}

#[test]
fn echo_with_args() {
    let first = String::from("Still");
    let second = String::from("a");
    let third = String::from("success!");
    let args: Vec<String> = vec![first, second, third];
    let output = echo(&args);
    let output = output.trim();
    assert_eq!(output, String::from("Still a success!"));
}

#[test]
fn echo_keeps_trailing_space_per_argument() {
    assert_eq!(echo(&words(&["a", "b"])), "a b ");
    assert_eq!(echo(&words(&[])), "");
}

#[test]
fn echo_turns_backslash_n_into_newline() {
    assert_eq!(echo(&words(&["a\\nb"])), "a\nb ");
    assert_eq!(echo(&words(&["\\\\n"])), "\\\n ");
}

#[test]
fn calc_other_operators() {
    check_calc(words(&["2*4"]), "8".to_string());
    check_calc(words(&["7%3"]), "1".to_string());
    check_calc(words(&["-7%3"]), "-1".to_string());
    check_calc(words(&["-7/2"]), "-3".to_string());
    check_calc(words(&["40+2"]), "42".to_string());
}

#[test]
fn calc_joins_its_arguments() {
    check_calc(words(&["1", "+", "1"]), "2".to_string());
}

#[test]
fn calc_computes_beyond_i32() {
    check_calc(words(&["2147483647x2147483647"]), "4611686014132420609".to_string());
    check_calc(words(&["-2147483648/-1"]), "2147483648".to_string());
}

#[test]
fn calc_errors() {
    assert_eq!(
        crust::calc::calc(&words(&["12"])),
        "Error, '' is an unsupported operation."
    );
    assert_eq!(
        crust::calc::calc(&words(&["a+1"])),
        "Error, 'a+1' is not a valid expression."
    );
    assert_eq!(
        crust::calc::calc(&words(&["1+99999999999"])),
        "Error, '1+99999999999' is not a valid expression."
    );
    assert_eq!(crust::calc::calc(&words(&["5/0"])), "Error, division by zero.");
    assert_eq!(crust::calc::calc(&words(&["5%0"])), "Error, division by zero.");
}

#[test]
fn calc_vars_split_at_first_operator() {
    assert_eq!(crust::calc::get_calc_vars("1+2+3"), Some(('+', 1, 2)));
    assert_eq!(crust::calc::get_calc_vars("-3x+4"), Some(('x', -3, 4)));
    assert_eq!(crust::calc::get_calc_vars("3"), None);
    assert_eq!(crust::calc::get_operator("6/3"), Some('/'));
}

#[test]
fn parse_i32_matches_std() {
    for s in ["0", "+5", "-5", "2147483647", "-2147483648", "2147483648", "-", "+", "", "1a", "007"] {
        assert_eq!(crust::calc::parse_i32_text(s), s.parse::<i32>().ok(), "{}", s);
    }
}

#[test]
fn help_texts() {
    assert!(help(&words(&[])).contains("builtins:"));
    assert_eq!(help(&words(&["a", "b"])), "Please specify only one command.");
    assert_eq!(help(&words(&["pwd"])), "Prints the working directory.");
    assert!(help(&words(&["nothing"])).starts_with("cRUSTy ["));
    assert!(help(&words(&[])).starts_with("crust ["));
    assert_eq!(help(&words(&["calc"])), "Supports +, -, /, x for two numbers.\nE.g. 1+1, 4/2, 2x4, 2-1");
}

#[test]
fn cat_arguments() {
    assert!(matches!(cat_request(&words(&["-l", "2", "f"])), CatRequest::Line(1, p) if p == "f"));
    assert!(matches!(cat_request(&words(&["-l", "0", "f"])), CatRequest::Missing));
    assert!(matches!(cat_request(&words(&["-n", "f"])), CatRequest::Numbered(p) if p == "f"));
    assert!(matches!(cat_request(&words(&["f"])), CatRequest::Whole(p) if p == "f"));
    assert!(matches!(cat_request(&words(&[])), CatRequest::Missing));
}

#[test]
fn numbered_and_single_lines() {
    assert_eq!(crust::files::number_lines("a\nb"), "0 a\n1 b\n");
    assert_eq!(crust::files::nth_line("a\nb", 1), Some("b".to_string()));
    assert_eq!(crust::files::nth_line("a\nb", 2), None);
}

#[test]
fn ls_arguments_and_entries() {
    assert_eq!(crust::files::ls_path(&words(&[])), ".");
    assert_eq!(crust::files::ls_path(&words(&["src", "--all"])), "src");
    assert_eq!(crust::files::ls_path(&words(&["--all"])), "--all");
    assert_eq!(crust::files::entry_segments("./src/main.rs"), words(&["src", "main.rs"]));
}

#[test]
fn short_working_directory() {
    assert_eq!(crust::files::print(&words(&["spwd"]), "/home/zeno/src"), "/h/z/src");
    assert_eq!(crust::files::print(&words(&["spwd", "."]), "/home"), "/home");
    assert_eq!(crust::files::print(&words(&["spwd", "/usr/local/bin"]), "/x"), "/u/l/bin");
    assert_eq!(crust::files::print(&words(&["spwd", "plain"]), "/x"), "");
}

#[test]
fn simple_calculator() {
    assert_eq!(crust::calc::calc_return("2x4"), 8);
    assert_eq!(crust::calc::calc_return("6/3"), 2);
    assert_eq!(crust::calc::calc_return("1+1"), 2);
    assert_eq!(crust::calc::calc_return("2-1"), 1);
    assert_eq!(crust::calc::calc_return("12"), 123456789);
    assert_eq!(crust::calc::calc_run("-7/2"), Some("-3".to_string()));
    assert_eq!(crust::calc::calc_run("7"), None);
}
