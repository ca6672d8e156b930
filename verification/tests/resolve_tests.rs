use dyn_fetch::config::Value;
use dyn_fetch::error::Error;
use dyn_fetch::resolve::Fetched;
use dyn_fetch::resolve::Request;
use dyn_fetch::style::Color;
use dyn_fetch::style::Style;
use dyn_fetch::text::Text;

fn bold() -> Style {
    Style { fg: Color::Default, bg: Color::Default, bold: true, italic: false, dim: false }
}

#[test]
fn separator_queries_nothing_and_yields_no_content() {
    let v = Value::Separator;
    assert!(matches!(v.query(), Request::Nothing));
    let r = v.resolve(Fetched::Nothing).unwrap();
    assert!(r.is_none());
}

#[test]
fn const_returns_its_text_unchanged() {
    let v = Value::Const { text: Text::Unstyled(String::from("fixed")) };
    assert!(matches!(v.query(), Request::Nothing));
    let t = v.resolve(Fetched::Nothing).unwrap().unwrap();
    assert_eq!(t.flatten(), "fixed");
}

#[test]
fn command_queries_its_program_and_arguments() {
    let v = Value::Command {
        cmd: String::from("uname"),
        args: vec![String::from("-r"), String::from("-s")],
        postfix: None,
        style: None,
    };
    match v.query() {
        Request::Run { program, args } => {
            assert_eq!(program, "uname");
            assert_eq!(args, vec![String::from("-r"), String::from("-s")]);
        }
        other => panic!("expected a run request, got other kind: {}", kind_of(&other)),
    }
}

fn kind_of(r: &Request) -> &'static str {
    match r {
        Request::Nothing => "nothing",
        Request::Run { .. } => "run",
        Request::RunPair { .. } => "run pair",
        Request::LookupEnv { .. } => "env lookup",
    }
}

#[test]
fn shell_expression_runs_through_the_interpreter() {
    let v = Value::Nu { expr: String::from("ls | length"), postfix: None, style: None };
    match v.query() {
        Request::Run { program, args } => {
            assert_eq!(program, "nu");
            assert_eq!(args, vec![String::from("-c"), String::from("ls | length")]);
        }
        other => panic!("expected a run request, got other kind: {}", kind_of(&other)),
    }
}

#[test]
fn hostname_queries_both_lookups() {
    let v = Value::Hostname { username: None, hostname: None, delimiter: None };
    match v.query() {
        Request::RunPair { first, second } => {
            assert_eq!(first, "hostname");
            assert_eq!(second, "whoami");
        }
        other => panic!("expected a pair request, got other kind: {}", kind_of(&other)),
    }
}

#[test]
fn command_output_is_right_trimmed_exactly_once() {
    let v = Value::Command { cmd: String::from("c"), args: vec![], postfix: None, style: None };
    let t = v.resolve(Fetched::Output(Some(String::from("abc\n\n")))).unwrap().unwrap();
    assert_eq!(t.flatten(), "abc");

    let v = Value::Command { cmd: String::from("c"), args: vec![], postfix: None, style: None };
    let t = v.resolve(Fetched::Output(Some(String::from("  abc  \n")))).unwrap().unwrap();
    assert_eq!(t.flatten(), "  abc");
}

#[test]
fn command_interior_whitespace_is_untouched() {
    let v = Value::Command { cmd: String::from("c"), args: vec![], postfix: None, style: None };
    let t = v.resolve(Fetched::Output(Some(String::from("a b\tc \n\t ")))).unwrap().unwrap();
    assert_eq!(t.flatten(), "a b\tc");
}

#[test]
fn command_builds_combine_of_main_and_postfix() {
    let v = Value::Command {
        cmd: String::from("c"),
        args: vec![],
        postfix: Some(Text::Unstyled(String::from("!"))),
        style: Some(bold()),
    };
    let t = v.resolve(Fetched::Output(Some(String::from("out\n")))).unwrap().unwrap();
    match &t {
        Text::Combine(parts) => {
            assert_eq!(parts.len(), 2);
            assert!(matches!(&parts[0], Text::Styled { .. }));
            assert!(matches!(&parts[1], Text::Unstyled(_)));
        }
        other => panic!("expected a combination, got {:?}", other),
    }
    assert_eq!(t.flatten(), "\u{1b}[1;mout\u{1b}[0m!");
}

#[test]
fn command_without_postfix_is_a_singleton_combine() {
    let v = Value::Command { cmd: String::from("c"), args: vec![], postfix: None, style: None };
    let t = v.resolve(Fetched::Output(Some(String::from("x")))).unwrap().unwrap();
    match &t {
        Text::Combine(parts) => assert_eq!(parts.len(), 1),
        other => panic!("expected a combination, got {:?}", other),
    }
}

#[test]
fn undecodable_command_output_fails_with_the_program_name() {
    let v = Value::Command { cmd: String::from("badcmd"), args: vec![], postfix: None, style: None };
    match v.resolve(Fetched::Output(None)) {
        Err(Error::InvalidUtf8 { source }) => assert_eq!(source, "badcmd"),
        other => panic!("expected InvalidUtf8, got {:?}", other.map(|_| ())),
    }
}

#[test]
fn undecodable_shell_output_is_scoped_to_the_expression() {
    let v = Value::Nu { expr: String::from("date now"), postfix: None, style: None };
    match v.resolve(Fetched::Output(None)) {
        Err(Error::InvalidUtf8 { source }) => assert_eq!(source, "date now"),
        other => panic!("expected InvalidUtf8, got {:?}", other.map(|_| ())),
    }
}

#[test]
fn unset_environment_variable_fails_with_env_not_found() {
    let v = Value::EnvVariable { name: String::from("NO_SUCH_VAR"), style: None };
    assert!(matches!(v.query(), Request::LookupEnv { .. }));
    match v.resolve(Fetched::EnvValue(None)) {
        Err(Error::EnvNotFound { name }) => assert_eq!(name, "NO_SUCH_VAR"),
        other => panic!("expected EnvNotFound, got {:?}", other.map(|_| ())),
    }
}

#[test]
fn environment_value_is_taken_verbatim() {
    let v = Value::EnvVariable { name: String::from("V"), style: None };
    let t = v.resolve(Fetched::EnvValue(Some(String::from(" padded \n")))).unwrap().unwrap();
    assert_eq!(t.flatten(), " padded \n");
}

#[test]
fn environment_value_takes_the_style() {
    let v = Value::EnvVariable { name: String::from("V"), style: Some(bold()) };
    let t = v.resolve(Fetched::EnvValue(Some(String::from("val")))).unwrap().unwrap();
    assert_eq!(t.flatten(), "\u{1b}[1;mval\u{1b}[0m");
}

#[test]
fn host_identity_joins_with_default_delimiter() {
    let v = Value::Hostname { username: None, hostname: None, delimiter: None };
    let t = v
        .resolve(Fetched::Outputs(Some(String::from("box\n")), Some(String::from("me\n"))))
        .unwrap()
        .unwrap();
    assert_eq!(t.flatten(), "me@box");
}

#[test]
fn host_identity_takes_a_custom_delimiter_and_styles() {
    let v = Value::Hostname {
        username: Some(bold()),
        hostname: None,
        delimiter: Some(Text::Unstyled(String::from(" at "))),
    };
    let t = v
        .resolve(Fetched::Outputs(Some(String::from("host")), Some(String::from("user"))))
        .unwrap()
        .unwrap();
    assert_eq!(t.flatten(), "\u{1b}[1;muser\u{1b}[0m at host");
}

#[test]
fn host_identity_fails_on_the_hostname_first() {
    let v = Value::Hostname { username: None, hostname: None, delimiter: None };
    match v.resolve(Fetched::Outputs(None, None)) {
        Err(Error::InvalidUtf8 { source }) => assert_eq!(source, "hostname"),
        other => panic!("expected InvalidUtf8, got {:?}", other.map(|_| ())),
    }
    let v = Value::Hostname { username: None, hostname: None, delimiter: None };
    match v.resolve(Fetched::Outputs(Some(String::from("h")), None)) {
        Err(Error::InvalidUtf8 { source }) => assert_eq!(source, "whoami"),
        other => panic!("expected InvalidUtf8, got {:?}", other.map(|_| ())),
    }
}

#[test]
fn trim_removes_only_the_trailing_run() {
    assert_eq!(dyn_fetch::strutil::trim_end_whitespace("abc\n\n"), "abc");
    assert_eq!(dyn_fetch::strutil::trim_end_whitespace("  abc  \n"), "  abc");
    assert_eq!(dyn_fetch::strutil::trim_end_whitespace(""), "");
    assert_eq!(dyn_fetch::strutil::trim_end_whitespace(" \t\r\n"), "");
    assert_eq!(dyn_fetch::strutil::trim_end_whitespace("x\u{a0}"), "x");
}
