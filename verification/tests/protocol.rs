use fakesmtpd::command::parse_command;
use fakesmtpd::protocol::{count_rejected_command, count_rejected_data, synthetic_reject,
    BodyStatus, Protocol, MAX_EMAIL_SIZE, RATIO_SCALE};
use fakesmtpd::state::State;

#[test]
fn mail_command_test1() {
    let mut smtp = Protocol::new();
    let raw = "mail from: <test@example.com> size=432445";
    let cmd = parse_command(raw).unwrap();
    let _ = smtp.mail(&cmd);
    assert_eq!(smtp.from, "test@example.com");
    let reply = smtp.mail(&cmd);
    assert!(reply.status == 250);
}

#[test]
fn mail_command_test2() {
    let mut smtp = Protocol::new();
    let raw = "mail from:<test@example.com>";
    let cmd = parse_command(raw).unwrap();
    let _ = smtp.mail(&cmd);
    assert_eq!(smtp.from, "test@example.com");
    let reply = smtp.mail(&cmd);
    assert!(reply.status == 250);
}

#[test]
fn mail_command_test3() {
    let mut smtp = Protocol::new();
    let raw = "mail from:<>";
    let cmd = parse_command(raw).unwrap();
    let _ = smtp.mail(&cmd);
    assert_eq!(smtp.from, "");
    let reply = smtp.mail(&cmd);
    assert!(reply.status == 250);
}

#[test]
fn mail_command_test4() {
    let mut smtp = Protocol::new();
    let raw = "mail from: <test@example.com> size=432445768556";
    let cmd = parse_command(raw).unwrap();
    let _ = smtp.mail(&cmd);
    assert_eq!(smtp.from, "test@example.com");
    let reply = smtp.mail(&cmd);
    assert!(reply.status == 556);
}

#[test]
fn rcpt_command_test1() {
    let mut smtp = Protocol::new();
    let raw = "rcpt to: <test@example.com>";
    let cmd = parse_command(raw).unwrap();
    let _ = smtp.rcpt(&cmd);
    assert_eq!(smtp.recipients[0], "test@example.com");
    let reply = smtp.rcpt(&cmd);
    assert!(reply.status == 250);
}

#[test]
fn rcpt_command_test2() {
    let mut smtp = Protocol::new();
    let raw = "rcpt to:<test@example.com>";
    let cmd = parse_command(raw).unwrap();
    let _ = smtp.rcpt(&cmd);
    assert_eq!(smtp.recipients[0], "test@example.com");
    let reply = smtp.rcpt(&cmd);
    assert!(reply.status == 250);
}

#[test]
fn rcpt_command_test3() {
    let mut smtp = Protocol::new();
    let raw = "rcpt to:<>";
    let cmd = parse_command(raw).unwrap();
    let reply = smtp.rcpt(&cmd);
    assert!(reply.status > 200);
}

#[test]
fn rcpt_appends_on_each_accepted_call() {
    let mut smtp = Protocol::new();
    let cmd = parse_command("rcpt to:<test@example.com>").unwrap();
    let first = smtp.rcpt(&cmd);
    assert_eq!(first.status, 250);
    let second = smtp.rcpt(&cmd);
    assert_eq!(second.status, 250);
    assert_eq!(smtp.recipients.len(), 2);
    assert_eq!(smtp.recipients[0], "test@example.com");
    assert_eq!(smtp.recipients[1], "test@example.com");
}

#[test]
fn rcpt_forced_rejection() {
    let mut smtp = Protocol::new();
    smtp.set_reject_ratio(RATIO_SCALE);
    let cmd = parse_command("rcpt to:<test@example.com>").unwrap();
    let reply = smtp.rcpt(&cmd);
    assert_eq!(reply.status, 550);
    assert!(smtp.recipients.is_empty());
}

#[test]
fn mail_unparseable_size_digits() {
    let mut smtp = Protocol::new();
    let cmd = parse_command("mail from:<a@b> size=99999999999999999999999999").unwrap();
    let reply = smtp.mail(&cmd);
    assert_eq!(reply.status, 500);
    assert_eq!(smtp.from, "a@b");
}

#[test]
fn mail_without_address_shape() {
    let mut smtp = Protocol::new();
    let cmd = parse_command("mail nonsense").unwrap();
    let reply = smtp.mail(&cmd);
    assert_eq!(reply.status, 502);
    assert_eq!(smtp.state, State::Rcpt);
}

#[test]
fn greeting_starts_session() {
    let mut smtp = Protocol::new();
    let greeting = smtp.start();
    assert_eq!(greeting.status, 220);
    assert_eq!(greeting.render(), "220 fakesmtpd ESMTP ready\r\n");
    assert_eq!(smtp.state, State::Establish);
}

#[test]
fn ehlo_capabilities() {
    let mut smtp = Protocol::new();
    let _ = smtp.start();
    let reply = smtp.process_command("EHLO client.example\r\n").unwrap();
    assert_eq!(reply.status, 250);
    assert_eq!(reply.render(), "250-fakesmtpd\r\n250-SIZE 73400320\r\n250 8BITMIME\r\n");
    assert_eq!(smtp.state, State::Mail);
}

#[test]
fn helo_hostname_only() {
    let mut smtp = Protocol::new();
    let _ = smtp.start();
    let reply = smtp.process_command("helo client\r\n").unwrap();
    assert_eq!(reply.status, 250);
    assert_eq!(reply.render(), "250 fakesmtpd\r\n");
}

#[test]
fn data_needs_rcpt_state_and_recipients() {
    let mut smtp = Protocol::new();
    let _ = smtp.start();
    // Not in Rcpt at all.
    let reply = smtp.process_command("DATA\r\n").unwrap();
    assert_eq!(reply.status, 500);
    let _ = smtp.process_command("EHLO c\r\n").unwrap();
    let _ = smtp.process_command("MAIL FROM:<a@b>\r\n").unwrap();
    // In Rcpt, but no recipient yet.
    let reply = smtp.process_command("DATA\r\n").unwrap();
    assert_eq!(reply.status, 500);
    assert_eq!(smtp.state, State::Rcpt);
    let _ = smtp.process_command("RCPT TO:<c@d>\r\n").unwrap();
    let reply = smtp.process_command("DATA\r\n").unwrap();
    assert_eq!(reply.status, 354);
    assert!(smtp.is_data());
}

#[test]
fn body_terminator_truncates_and_resets() {
    let mut smtp = Protocol::new();
    let _ = smtp.start();
    let _ = smtp.process_command("EHLO c\r\n").unwrap();
    let _ = smtp.process_command("MAIL FROM:<a@b>\r\n").unwrap();
    let _ = smtp.process_command("RCPT TO:<c@d>\r\n").unwrap();
    let _ = smtp.process_command("DATA\r\n").unwrap();
    let st = smtp.feed_body(&b"hello\r\n.\r\n"[..]);
    assert_eq!(st, BodyStatus::Done);
    assert_eq!(smtp.message, b"hello\r\n".to_vec());
    assert_eq!(smtp.state, State::Mail);
}

#[test]
fn body_flows_through_session() {
    let mut smtp = Protocol::new();
    let _ = smtp.start();
    let _ = smtp.process_command("EHLO c\r\n").unwrap();
    let _ = smtp.process_command("MAIL FROM:<a@b>\r\n").unwrap();
    let _ = smtp.process_command("RCPT TO:<c@d>\r\n").unwrap();
    let _ = smtp.process_command("DATA\r\n").unwrap();
    assert!(smtp.process_data_chunk(&b"line one\r\n"[..]).is_none());
    assert!(smtp.process_data_chunk(&b"line two"[..]).is_none());
    let reply = smtp.process_data_chunk(&b"\r\n.\r\n"[..]).unwrap();
    assert_eq!(reply.status, 250);
    assert_eq!(smtp.state, State::Mail);
    assert!(smtp.message.is_empty());
    assert!(smtp.recipients.is_empty());
    assert_eq!(smtp.from, "");
}

#[test]
fn body_over_maximum_is_refused() {
    let mut smtp = Protocol::new();
    let _ = smtp.start();
    let _ = smtp.process_command("EHLO c\r\n").unwrap();
    let _ = smtp.process_command("MAIL FROM:<a@b>\r\n").unwrap();
    let _ = smtp.process_command("RCPT TO:<c@d>\r\n").unwrap();
    let _ = smtp.process_command("DATA\r\n").unwrap();
    let chunk = vec![b'x'; MAX_EMAIL_SIZE + 1];
    let reply = smtp.process_data_chunk(&chunk[..]).unwrap();
    assert_eq!(reply.status, 556);
    assert!(smtp.is_data());
}

#[test]
fn quit_is_terminal_from_any_state() {
    let mut smtp = Protocol::new();
    let _ = smtp.start();
    let reply = smtp.process_command("QUIT\r\n").unwrap();
    assert_eq!(reply.status, 221);
    assert!(smtp.is_done());

    let mut smtp = Protocol::new();
    let _ = smtp.start();
    let _ = smtp.process_command("EHLO c\r\n").unwrap();
    let _ = smtp.process_command("MAIL FROM:<a@b>\r\n").unwrap();
    let reply = smtp.process_command("quit\r\n").unwrap();
    assert_eq!(reply.status, 221);
    assert!(smtp.is_done());
}

#[test]
fn rset_clears_transaction() {
    let mut smtp = Protocol::new();
    let _ = smtp.start();
    let _ = smtp.process_command("EHLO c\r\n").unwrap();
    let _ = smtp.process_command("MAIL FROM:<a@b>\r\n").unwrap();
    let _ = smtp.process_command("RCPT TO:<c@d>\r\n").unwrap();
    let reply = smtp.process_command("RSET\r\n").unwrap();
    assert_eq!(reply.status, 250);
    assert_eq!(smtp.state, State::Mail);
    assert_eq!(smtp.from, "");
    assert!(smtp.recipients.is_empty());
}

#[test]
fn noop_changes_nothing() {
    let mut smtp = Protocol::new();
    let _ = smtp.start();
    let reply = smtp.process_command("NOOP\r\n").unwrap();
    assert_eq!(reply.status, 250);
    assert_eq!(smtp.state, State::Establish);
}

#[test]
fn empty_line_is_reported() {
    let mut smtp = Protocol::new();
    let _ = smtp.start();
    assert!(smtp.process_command("\r\n").is_err());
    assert_eq!(smtp.state, State::Establish);
}

#[test]
fn mail_matches_inside_argument_text() {
    let mut smtp = Protocol::new();
    let cmd = parse_command("mail xfrom:<a@b>").unwrap();
    let reply = smtp.mail(&cmd);
    assert_eq!(reply.status, 250);
    assert_eq!(smtp.from, "a@b");
}

#[test]
fn mail_size_boundary() {
    let mut smtp = Protocol::new();
    let cmd = parse_command("mail from:<a@b> size=73400320").unwrap();
    assert_eq!(smtp.mail(&cmd).status, 250);
    let cmd = parse_command("mail from:<a@b> size=73400321").unwrap();
    assert_eq!(smtp.mail(&cmd).status, 556);
}

#[test]
fn mail_trailing_text_after_size_digits() {
    let mut smtp = Protocol::new();
    let cmd = parse_command("mail from:<a@b> size=12 more").unwrap();
    assert_eq!(smtp.mail(&cmd).status, 250);
    assert_eq!(smtp.from, "a@b");
}

#[test]
fn mail_malformed_size_keyword_is_ignored() {
    let mut smtp = Protocol::new();
    let cmd = parse_command("mail from:<a@b> sized=99999999999999999999").unwrap();
    assert_eq!(smtp.mail(&cmd).status, 250);
    assert_eq!(smtp.from, "a@b");
}

#[test]
fn rcpt_trailing_text_is_tolerated() {
    let mut smtp = Protocol::new();
    let cmd = parse_command("rcpt to:<a@b> extra words").unwrap();
    let reply = smtp.rcpt(&cmd);
    assert_eq!(reply.status, 250);
    assert_eq!(smtp.recipients[0], "a@b");
}

#[test]
fn synthetic_rejection_rule() {
    // The literal rule: a draw at or above the ratio rejects, so a
    // higher intermediate ratio rejects fewer draws.
    let half = RATIO_SCALE / 2;
    assert!(synthetic_reject(u32::MAX, half));
    assert!(!synthetic_reject(0, half));
    assert!(!synthetic_reject((half - 1) as u32, half));
    assert!(synthetic_reject(half as u32, half));
    assert!(synthetic_reject(0, 0));
}

#[test]
fn counting_rules() {
    assert!(count_rejected_command(State::Rcpt, 550));
    assert!(!count_rejected_command(State::Rcpt, 500));
    assert!(!count_rejected_command(State::Mail, 550));
    assert!(count_rejected_data(400));
    assert!(count_rejected_data(556));
    assert!(!count_rejected_data(250));
}
