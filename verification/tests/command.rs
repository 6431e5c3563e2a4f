use fakesmtpd::command::parse_command;

#[test]
fn parse_command_test1() {
    let raw = "mail from: <test@example.com>";
    let cmd = parse_command(raw).unwrap();
    assert_eq!(cmd.verb, "MAIL");
    assert_eq!(cmd.args, "from: <test@example.com>");
    assert_eq!(cmd.origin, raw);
}

#[test]
fn parse_command_test2() {
    let raw = "data";
    let cmd = parse_command(raw).unwrap();
    assert_eq!(cmd.verb, "DATA");
    assert_eq!(cmd.args, "");
    assert_eq!(cmd.origin, raw);
}

#[test]
fn parse_command_empty_line() {
    assert!(parse_command("").is_err());
}

#[test]
fn parse_command_all_whitespace() {
    assert!(parse_command("   \t  ").is_err());
}

#[test]
fn parse_command_collapses_whitespace() {
    let cmd = parse_command("rcpt   to:   <a@b>").unwrap();
    assert_eq!(cmd.verb, "RCPT");
    assert_eq!(cmd.args, "to: <a@b>");
    assert_eq!(cmd.origin, "rcpt   to:   <a@b>");
}

#[test]
fn parse_command_keeps_non_ascii_verb() {
    let cmd = parse_command("ab1! x").unwrap();
    assert_eq!(cmd.verb, "AB1!");
    assert_eq!(cmd.args, "x");
}
