use scptdisplay::cmd::Cmd;

#[test]
fn test_cmd_init() {
    let got = Cmd::new("p");
    let want = vec!["p"];
    assert_eq!(want, got.into_vec());
}

#[test]
fn test_cmd_pair() {
    let mut got = Cmd::new("p");
    got.pair("key", Some("value"));
    got.pair("key2", None);
    let want = vec!["p", "key", "value"];
    assert_eq!(want, got.into_vec());
}

#[test]
fn test_cmd_arg() {
    let mut got = Cmd::new("p");
    got.arg(Some("1"));
    got.arg(None);
    let want = vec!["p", "1"];
    assert_eq!(want, got.into_vec());
}

#[test]
fn test_cmd_empty_texts_are_kept() {
    let mut got = Cmd::new("p");
    got.arg(Some(""));
    got.pair("", Some(""));
    assert_eq!(vec!["p", "", "", ""], got.into_vec());
}

#[test]
fn test_cmd_program_and_args() {
    let mut got = Cmd::new("osascript");
    assert_eq!("osascript", got.program());
    assert!(got.args().is_empty());
    got.pair("-e", Some("display dialog \"x\""));
    assert_eq!("osascript", got.program());
    assert_eq!(&vec!["-e", "display dialog \"x\""], got.args());
}

#[test]
fn test_cmd_into_string_joins_with_one_space() {
    let mut got = Cmd::new("display alert");
    got.arg(Some("\"a b\""));
    got.pair("as", Some("warning"));
    assert_eq!("display alert \"a b\" as warning", String::from(got));
}

#[test]
fn test_cmd_into_string_of_program_alone() {
    assert_eq!("p", String::from(Cmd::new("p")));
    assert_eq!("", String::from(Cmd::new("")));
}

#[test]
fn test_cmd_into_string_keeps_empty_arguments() {
    let mut got = Cmd::new("p");
    got.arg(Some(""));
    got.arg(Some("x"));
    assert_eq!("p  x", String::from(got));
}

#[test]
fn test_cmd_clone_and_eq() {
    let mut a = Cmd::new("p");
    a.arg(Some("1"));
    let b = a.clone();
    assert_eq!(a, b);
    a.arg(Some("2"));
    assert_ne!(a, b);
}
