use fakesmtpd::reply::Reply;

#[test]
fn render_two_lines() {
    let reply = Reply::ok_many(vec!["fakesmtpd", "8BITMIME"]);
    assert_eq!(reply.render(), "250-fakesmtpd\r\n250 8BITMIME\r\n");
}

#[test]
fn render_single_line() {
    let reply = Reply::ok("Ok");
    assert_eq!(reply.render(), "250 Ok\r\n");
}

#[test]
fn render_three_lines() {
    let reply = Reply::ok_many(vec!["fakesmtpd", "SIZE 73400320", "8BITMIME"]);
    assert_eq!(reply.render(), "250-fakesmtpd\r\n250-SIZE 73400320\r\n250 8BITMIME\r\n");
}

#[test]
fn render_empty_reply_is_empty() {
    let reply = Reply { status: 250, lines: vec![] };
    assert_eq!(reply.render(), "");
}

#[test]
fn fixed_replies() {
    let bye = Reply::bye();
    assert_eq!(bye.status, 221);
    assert_eq!(bye.render(), "221 Bye\r\n");

    let data = Reply::data();
    assert_eq!(data.status, 354);
    assert_eq!(data.render(), "354 End data with <CR><LF>.<CR><LF>\r\n");

    let unknown = Reply::unknown_command();
    assert_eq!(unknown.status, 500);
    assert_eq!(unknown.render(), "500 Invalid or out of order command\r\n");

    let invalid = Reply::invalid_address();
    assert_eq!(invalid.status, 502);
    assert_eq!(invalid.render(), "502 Malformed email address\r\n");

    let too_big = Reply::message_too_big();
    assert_eq!(too_big.status, 556);
    assert_eq!(too_big.render(), "556 Message size exceeds maximum allowed\r\n");

    let unknown_user = Reply::unknown_user();
    assert_eq!(unknown_user.status, 550);
    assert_eq!(unknown_user.render(), "550 User unknown\r\n");

    let too_many = Reply::too_many_recipients();
    assert_eq!(too_many.status, 452);
    assert_eq!(too_many.render(), "452 Too many recipients\r\n");
}
