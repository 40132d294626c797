use vsmtp::cli::{Args, Timeout, TimeoutError};
use vsmtp::command::{parse_command, ParseArgsError, Verb};
use vsmtp::params::{decode_xtext, parse_mail_params, parse_rcpt_params, BodyType, DsnReturn, NotifyOn};
use vsmtp::framing::{data_line, find_crlf, is_well_framed, split_message, take_line, DataLine};
use vsmtp::receiver::{Action, AuthOutcome, Config, Decision, Hook, Phase, Session};
use vsmtp::reply::{decimal_string, format_msg_id, Reply};

fn srv() -> Session {
    Session::new(Config::new("srv"), false)
}

fn srv_tls() -> Session {
    let mut c = Config::new("srv");
    c.tls_available = true;
    Session::new(c, false)
}

/// Sends one line under a permissive handler; returns what goes on the wire.
fn send(s: &mut Session, line: &str) -> String {
    match s.on_line(line.as_bytes(), Decision::Accept) {
        Action::Reply(r) | Action::Close(r) | Action::StartTls(r) => r.to_wire(),
        Action::Authenticate(_) => "<auth>".to_string(),
        Action::Continue => String::new(),
        Action::Deliver => "<deliver>".to_string(),
    }
}

#[test]
fn greet_helo_quit() {
    let mut s = srv();
    assert_eq!(s.greeting().to_wire(), "220 srv Service ready\r\n");
    assert_eq!(send(&mut s, "HELO client"), "250 srv\r\n");
    match s.on_line(b"QUIT", Decision::Accept) {
        Action::Close(r) => assert_eq!(r.to_wire(), "221 Bye\r\n"),
        _ => panic!("QUIT must close"),
    }
    assert_eq!(s.phase, Phase::Closed);
}

#[test]
fn ehlo_with_extensions() {
    let mut s = srv_tls();
    assert_eq!(
        send(&mut s, "EHLO client"),
        "250-srv\r\n250-PIPELINING\r\n250-SIZE 10485760\r\n250-8BITMIME\r\n250-DSN\r\n250-ENHANCEDSTATUSCODES\r\n250 STARTTLS\r\n"
    );
    let mut plain = srv();
    assert_eq!(
        send(&mut plain, "ehlo client"),
        "250-srv\r\n250-PIPELINING\r\n250-SIZE 10485760\r\n250-8BITMIME\r\n250-DSN\r\n250 ENHANCEDSTATUSCODES\r\n"
    );
}

#[test]
fn ehlo_advertises_auth_before_starttls() {
    let mut c = Config::new("srv");
    c.tls_available = true;
    c.auth_mechanisms = "PLAIN LOGIN".to_string();
    let mut s = Session::new(c, false);
    let wire = send(&mut s, "EHLO c");
    assert!(wire.ends_with("250-AUTH PLAIN LOGIN\r\n250 STARTTLS\r\n"));
}

#[test]
fn basic_mail() {
    let mut s = srv();
    send(&mut s, "EHLO client");
    assert_eq!(send(&mut s, "MAIL FROM:<a@x> SIZE=10"), "250 2.1.0 Ok\r\n");
    assert_eq!(send(&mut s, "RCPT TO:<b@y> NOTIFY=SUCCESS,FAILURE"), "250 2.1.5 Ok\r\n");
    assert_eq!(send(&mut s, "DATA"), "354 Start mail input; end with <CRLF>.<CRLF>\r\n");
    assert_eq!(send(&mut s, "Subject: hi"), "");
    assert_eq!(send(&mut s, ""), "");
    assert_eq!(send(&mut s, "body"), "");
    assert_eq!(send(&mut s, "."), "<deliver>");
    assert_eq!(s.data, b"Subject: hi\r\n\r\nbody\r\n".to_vec());
    let r = s.message_done(Decision::Accept, "abc123");
    assert_eq!(r.to_wire(), "250 2.0.0 Ok: queued as abc123\r\n");
    assert!(s.envelope.is_none());
    assert!(s.data.is_empty());
    assert_eq!(s.phase, Phase::Command);
}

#[test]
fn envelope_holds_paths_and_params() {
    let mut s = srv();
    send(&mut s, "EHLO client");
    send(&mut s, "MAIL FROM:<a@x> SIZE=10");
    send(&mut s, "RCPT TO:<b@y>");
    send(&mut s, "RCPT TO:<c@z>");
    let e = s.envelope.as_ref().unwrap();
    assert_eq!(e.reverse_path, b"a@x".to_vec());
    assert_eq!(e.params.size, Some(10));
    assert_eq!(e.forward_paths.len(), 2);
    assert_eq!(e.forward_paths[0].path, b"b@y".to_vec());
    assert_eq!(e.forward_paths[1].path, b"c@z".to_vec());
}

#[test]
fn dot_stuffed_body() {
    let mut s = srv();
    send(&mut s, "EHLO client");
    send(&mut s, "MAIL FROM:<a@x>");
    send(&mut s, "RCPT TO:<b@y>");
    send(&mut s, "DATA");
    assert_eq!(send(&mut s, "..dot"), "");
    assert_eq!(send(&mut s, "."), "<deliver>");
    assert_eq!(s.data, b".dot\r\n".to_vec());
}

#[test]
fn sequence_error() {
    let mut s = srv();
    assert_eq!(send(&mut s, "MAIL FROM:<a@x>"), "503 5.5.1 Bad sequence of commands\r\n");
    assert_eq!(send(&mut s, "RCPT TO:<a@x>"), "503 5.5.1 Bad sequence of commands\r\n");
    assert_eq!(send(&mut s, "DATA"), "503 5.5.1 Bad sequence of commands\r\n");
}

#[test]
fn sasl_plain_success() {
    let mut c = Config::new("srv");
    c.auth_mechanisms = "PLAIN LOGIN".to_string();
    c.auth_requires_tls = true;
    let mut s = Session::new(c, true);
    send(&mut s, "EHLO client");
    match s.on_line(b"AUTH PLAIN AGFAYQBi", Decision::Accept) {
        Action::Authenticate(a) => {
            assert_eq!(a.mechanism, b"PLAIN".to_vec());
            assert_eq!(a.initial_response, Some(b"AGFAYQBi".to_vec()));
        }
        _ => panic!("AUTH must start an exchange"),
    }
    let r = s.auth_done(AuthOutcome::Success);
    assert_eq!(r.to_wire(), "235 2.7.0 Authentication successful\r\n");
    assert!(s.authenticated);
    assert_eq!(send(&mut s, "AUTH PLAIN AGFAYQBi"), "503 5.5.1 Already authenticated\r\n");
}

#[test]
fn sasl_failures() {
    let mut c = Config::new("srv");
    c.auth_mechanisms = "PLAIN LOGIN".to_string();
    let mut s = Session::new(c, true);
    send(&mut s, "EHLO client");
    assert_eq!(send(&mut s, "AUTH PLAIN AGFAYQBj"), "<auth>");
    assert_eq!(
        s.auth_done(AuthOutcome::Invalid).to_wire(),
        "535 5.7.8 Authentication credentials invalid\r\n"
    );
    assert!(!s.authenticated);
    match s.on_line(b"auth login", Decision::Accept) {
        Action::Authenticate(a) => {
            assert_eq!(a.mechanism, b"LOGIN".to_vec());
            assert_eq!(a.initial_response, None);
        }
        _ => panic!("AUTH must start an exchange"),
    }
    assert_eq!(
        s.auth_done(AuthOutcome::Cancelled).to_wire(),
        "501 5.0.0 Authentication cancelled\r\n"
    );
    assert_eq!(s.phase, Phase::Command);
}

#[test]
fn auth_over_cleartext_needs_tls() {
    let mut c = Config::new("srv");
    c.auth_mechanisms = "PLAIN".to_string();
    c.auth_requires_tls = true;
    let mut s = Session::new(c, false);
    send(&mut s, "EHLO client");
    assert_eq!(
        send(&mut s, "AUTH PLAIN AGFAYQBi"),
        "538 5.7.11 Encryption required for requested authentication mechanism\r\n"
    );
}

#[test]
fn starttls_resets_state() {
    let mut s = srv_tls();
    send(&mut s, "EHLO a");
    assert_eq!(send(&mut s, "MAIL FROM:<a@x>"), "250 2.1.0 Ok\r\n");
    assert_eq!(send(&mut s, "RSET"), "250 2.0.0 Ok\r\n");
    assert!(s.envelope.is_none());
    assert_eq!(send(&mut s, "STARTTLS"), "220 Ready to start TLS\r\n");
    assert!(s.tls_ready(0).is_none());
    s.tls_established();
    assert!(s.is_tls);
    assert!(s.hello.is_none());
    assert_eq!(send(&mut s, "MAIL FROM:<a@x>"), "503 5.5.1 Bad sequence of commands\r\n");
    assert_eq!(send(&mut s, "STARTTLS"), "503 5.5.1 Bad sequence of commands\r\n");
    assert!(send(&mut s, "EHLO a").starts_with("250-srv\r\n"));
    assert_eq!(send(&mut s, "STARTTLS"), "454 4.7.0 TLS not available\r\n");
}

#[test]
fn starttls_injection_closes() {
    let mut s = srv_tls();
    send(&mut s, "EHLO a");
    send(&mut s, "STARTTLS");
    let r = s.tls_ready(12).unwrap();
    assert_eq!(r.to_wire(), "554 TLS command injection\r\n");
    assert_eq!(s.phase, Phase::Closed);
}

#[test]
fn rset_keeps_hello_and_refuses_rcpt() {
    let mut s = srv();
    send(&mut s, "HELO a");
    send(&mut s, "MAIL FROM:<a@x>");
    send(&mut s, "RCPT TO:<b@y>");
    assert_eq!(send(&mut s, "RSET"), "250 2.0.0 Ok\r\n");
    assert!(s.envelope.is_none());
    assert_eq!(s.hello, Some(b"a".to_vec()));
    assert_eq!(send(&mut s, "RCPT TO:<b@y>"), "503 5.5.1 Bad sequence of commands\r\n");
    assert_eq!(send(&mut s, "DATA"), "503 5.5.1 Bad sequence of commands\r\n");
    assert_eq!(send(&mut s, "MAIL FROM:<a@x>"), "250 2.1.0 Ok\r\n");
}

#[test]
fn long_command_line_is_refused() {
    let mut s = srv();
    send(&mut s, "HELO a");
    let long = format!("MAIL FROM:<{}@x>", "a".repeat(1000));
    assert_eq!(send(&mut s, &long), "500 Line too long\r\n");
    assert!(s.envelope.is_none());
    let exact = "N".repeat(998);
    assert_eq!(send(&mut s, &exact), "500 5.5.2 Syntax error, command unrecognized\r\n");
}

#[test]
fn long_data_line_is_accepted() {
    let mut s = srv();
    send(&mut s, "HELO a");
    send(&mut s, "MAIL FROM:<>");
    send(&mut s, "RCPT TO:<b@y>");
    send(&mut s, "DATA");
    let long = "x".repeat(2000);
    assert_eq!(send(&mut s, &long), "");
    assert_eq!(s.data.len(), 2002);
}

#[test]
fn one_reply_per_command() {
    let mut s = srv();
    let mut replies = 0;
    for l in ["HELO a", "NOOP", "HELP", "VRFY bob", "MAIL FROM:<a@x>", "RCPT TO:<b@y>", "BOGUS", "RSET"] {
        if let Action::Reply(r) = s.on_line(l.as_bytes(), Decision::Accept) {
            assert!(r.to_wire().ends_with("\r\n"));
            replies += 1;
        }
    }
    assert_eq!(replies, 8);
}

#[test]
fn handler_decisions() {
    let mut s = srv();
    send(&mut s, "HELO a");
    let rej = Reply::new(550, "5.7.1 Sender refused");
    match s.on_line(b"MAIL FROM:<spam@x>", Decision::Reject(rej)) {
        Action::Reply(r) => assert_eq!(r.to_wire(), "550 5.7.1 Sender refused\r\n"),
        _ => panic!("a rejection is a reply"),
    }
    assert!(s.envelope.is_none());
    let deny = Reply::new(554, "5.7.1 Go away");
    match s.on_line(b"MAIL FROM:<spam@x>", Decision::DenyClose(deny)) {
        Action::Close(r) => assert_eq!(r.to_wire(), "554 5.7.1 Go away\r\n"),
        _ => panic!("a denial closes"),
    }
    assert_eq!(s.phase, Phase::Closed);
}

#[test]
fn too_many_recipients() {
    let mut c = Config::new("srv");
    c.max_rcpt = 1;
    let mut s = Session::new(c, false);
    send(&mut s, "HELO a");
    send(&mut s, "MAIL FROM:<a@x>");
    assert_eq!(send(&mut s, "RCPT TO:<b@y>"), "250 2.1.5 Ok\r\n");
    assert_eq!(send(&mut s, "RCPT TO:<c@y>"), "452 4.5.3 Too many recipients\r\n");
}

#[test]
fn hooks_of_commands() {
    let s = srv();
    assert_eq!(s.hook_for(b"EHLO a"), Some(Hook::Ehlo));
    assert_eq!(s.hook_for(b"HELO a"), Some(Hook::Helo));
    assert_eq!(s.hook_for(b"MAIL FROM:<a@x>"), None);
    assert_eq!(s.hook_for(b"RCPT TO:<a@x>"), None);
    assert_eq!(s.hook_for(b"NOOP"), None);
    assert_eq!(s.hook_for(b"QUIT"), Some(Hook::Quit));
}

#[test]
fn no_hook_where_the_state_decides() {
    let mut s = srv();
    assert_eq!(s.hook_for(b"MAIL FROM:<a@x>"), None);
    assert_eq!(s.hook_for(b"RSET"), None);
    send(&mut s, "HELO a");
    assert_eq!(s.hook_for(b"MAIL FROM:<a@x>"), Some(Hook::MailFrom));
    assert_eq!(s.hook_for(b"MAIL FROM:<a@x> SIZE=99999999"), None);
    assert_eq!(s.hook_for(b"RCPT TO:<b@y>"), None);
    assert_eq!(s.hook_for(b"RSET"), Some(Hook::Rset));
    send(&mut s, "MAIL FROM:<a@x>");
    assert_eq!(s.hook_for(b"RCPT TO:<b@y>"), Some(Hook::RcptTo));
    assert_eq!(s.hook_for(b"MAIL FROM:<a@x>"), None);
    send(&mut s, "RSET");
    assert_eq!(s.hook_for(b"RCPT TO:<b@y>"), None);
}

#[test]
fn handler_rewrites_rset_and_quit() {
    let mut s = srv();
    send(&mut s, "HELO a");
    send(&mut s, "MAIL FROM:<a@x>");
    match s.on_line(b"RSET", Decision::Reject(Reply::new(450, "4.7.1 Not now"))) {
        Action::Reply(r) => assert_eq!(r.to_wire(), "450 4.7.1 Not now\r\n"),
        _ => panic!("a rejected RSET is answered"),
    }
    assert!(s.envelope.is_some());
    match s.on_line(b"QUIT", Decision::Reject(Reply::new(221, "2.0.0 See you"))) {
        Action::Close(r) => assert_eq!(r.to_wire(), "221 2.0.0 See you\r\n"),
        _ => panic!("QUIT always closes"),
    }
}

#[test]
fn sasl_exchange_lines() {
    let mut c = Config::new("srv");
    c.auth_mechanisms = "LOGIN".to_string();
    let mut s = Session::new(c, true);
    send(&mut s, "EHLO a");
    assert_eq!(send(&mut s, "AUTH LOGIN"), "<auth>");
    assert_eq!(Session::challenge("VXNlcm5hbWU6").to_wire(), "334 VXNlcm5hbWU6\r\n");
    assert!(s.on_auth_line(b"YQ==").is_none());
    assert_eq!(s.phase, Phase::Authenticating);
    let r = s.on_auth_line(b"*").unwrap();
    assert_eq!(r.to_wire(), "501 5.0.0 Authentication cancelled\r\n");
    assert_eq!(s.phase, Phase::Command);
    assert_eq!(send(&mut s, "AUTH LOGIN"), "<auth>");
    assert_eq!(s.on_auth_line(b"a=b=").unwrap().to_wire(), "501 5.5.2 Bad base64\r\n");
    assert_eq!(send(&mut s, "AUTH LOGIN"), "<auth>");
    assert_eq!(s.on_auth_line(b"abc").unwrap().to_wire(), "501 5.5.2 Bad base64\r\n");
}

#[test]
fn decisions_are_checked() {
    assert!(Decision::Accept.is_valid());
    assert!(Decision::Reject(Reply::new(550, "5.7.1 No")).is_valid());
    assert!(!Decision::Reject(Reply::new(550, "No\r\n250 Ok")).is_valid());
    let mut r = Reply::new(550, "x");
    r.code = 99;
    assert!(!Decision::DenyClose(r).is_valid());
}

#[test]
fn parser_arguments() {
    match parse_command(b"MAIL FROM:<> BODY=8BITMIME") {
        Ok(Verb::MailFrom(a)) => {
            assert!(a.reverse_path.is_empty());
            assert_eq!(a.params.body, Some(BodyType::EightBitMime));
        }
        _ => panic!("null reverse-path is legal"),
    }
    assert_eq!(parse_command(b"RCPT TO:<>").err(), Some(ParseArgsError::BadAddress));
    assert_eq!(parse_command(b"MAIL FROM:a@x").err(), Some(ParseArgsError::BadAddress));
    assert_eq!(parse_command(b"MAIL FROM:<a@x").err(), Some(ParseArgsError::BadAddress));
    assert_eq!(parse_command(b"MAIL TO:<a@x>").err(), Some(ParseArgsError::Syntax));
    assert_eq!(parse_command(b"MAIL FROM:<a@x>X").err(), Some(ParseArgsError::Syntax));
    assert_eq!(parse_command(b"DATA now").err(), Some(ParseArgsError::Syntax));
    assert_eq!(parse_command(b"HELO").err(), Some(ParseArgsError::Syntax));
    assert!(matches!(parse_command(b"NOOP hello"), Ok(Verb::Noop)));
    assert!(matches!(parse_command(b"starttls"), Ok(Verb::StartTls)));
    assert!(matches!(parse_command(b"XYZZY"), Ok(Verb::Unknown)));
    let mut s = srv();
    assert_eq!(send(&mut s, "HELO"), "501 5.5.4 Syntax error in parameters or arguments\r\n");
}

#[test]
fn framing_lines() {
    assert_eq!(find_crlf(b"ab\r\ncd"), Some(2));
    assert_eq!(find_crlf(b"ab\ncd\r"), None);
    match take_line(b"NOOP\r\nQUIT\r\n") {
        Some((l, n)) => {
            assert_eq!(l, b"NOOP".to_vec());
            assert_eq!(n, 6);
        }
        None => panic!("a whole line is there"),
    }
    assert!(take_line(b"NOOP\r").is_none());
    assert!(matches!(data_line(b"."), DataLine::End));
    match data_line(b"..x") {
        DataLine::Content(c) => assert_eq!(c, b".x".to_vec()),
        DataLine::End => panic!("not the terminator"),
    }
}

#[test]
fn multi_line_reply_wire() {
    let mut r = Reply::new(250, "one");
    r.lines.push("two".to_string());
    assert_eq!(r.to_wire(), "250-one\r\n250 two\r\n");
    assert_eq!(decimal_string(0), "0");
    assert_eq!(decimal_string(10485760), "10485760");
}

#[test]
fn message_ids() {
    assert_eq!(format_msg_id(1700000000123, "ThreadId(2)"), "1700000000123_ThreadId(2)");
}

#[test]
fn timeouts_and_args() {
    assert_eq!("1s".parse::<Timeout>().unwrap(), Timeout { secs: 1, nanos: 0 });
    assert_eq!(Timeout::parse("2h 37m").unwrap(), Timeout { secs: 9420, nanos: 0 });
    assert_eq!(Timeout::parse("1.5s").unwrap(), Timeout { secs: 1, nanos: 500_000_000 });
    assert_eq!(Timeout::parse(""), Err(TimeoutError::Invalid));
    assert_eq!(Timeout::parse("soon"), Err(TimeoutError::Invalid));
    assert_eq!(
        Timeout::parse("18446744073709551615s 500000000ns 500000000ns"),
        Err(TimeoutError::TooLong)
    );
    assert_eq!(Args::default_config_location(), "/etc/vsmtp/vsmtp.vsl");
}

#[test]
fn error_budget_closes_session() {
    let mut c = Config::new("srv");
    c.soft_error_limit = 1;
    c.hard_error_limit = 3;
    let mut s = Session::new(c, false);
    assert!(!s.in_tarpit());
    assert_eq!(send(&mut s, "BOGUS"), "500 5.5.2 Syntax error, command unrecognized\r\n");
    assert!(s.in_tarpit());
    assert_eq!(send(&mut s, "NOOP"), "250 2.0.0 Ok\r\n");
    assert_eq!(send(&mut s, "RCPT TO:<a@b>"), "503 5.5.1 Bad sequence of commands\r\n");
    assert_eq!(s.errors, 2);
    match s.on_line(b"BOGUS", Decision::Accept) {
        Action::Close(r) => assert_eq!(r.to_wire(), "421 4.7.0 Too many errors\r\n"),
        _ => panic!("the hard limit closes the session"),
    }
    assert_eq!(s.phase, Phase::Closed);
}

#[test]
fn timeout_and_shutdown_close() {
    let mut s = srv();
    assert_eq!(s.read_timeout_secs(), 300);
    assert_eq!(s.on_timeout().to_wire(), "421 Timeout\r\n");
    assert_eq!(s.phase, Phase::Closed);
    let mut t = srv();
    send(&mut t, "HELO a");
    send(&mut t, "MAIL FROM:<a@x>");
    send(&mut t, "RCPT TO:<b@y>");
    send(&mut t, "DATA");
    assert_eq!(t.read_timeout_secs(), 180);
    assert_eq!(t.on_shutdown().to_wire(), "421 Server shutting down\r\n");
}

#[test]
fn mail_parameters() {
    let m = parse_mail_params(b"SIZE=1000 BODY=7bit RET=HDRS ENVID=QQ+2B1 AUTH=<>").unwrap();
    assert_eq!(m.size, Some(1000));
    assert_eq!(m.body, Some(BodyType::SevenBit));
    assert_eq!(m.ret, Some(DsnReturn::Headers));
    assert_eq!(m.envid, Some(b"QQ+1".to_vec()));
    assert_eq!(m.auth, Some(b"<>".to_vec()));
    let none = parse_mail_params(b"").unwrap();
    assert_eq!(none.size, None);
    assert_eq!(parse_mail_params(b"SIZE=1 SIZE=2").err(), Some(ParseArgsError::DuplicateParameter));
    assert_eq!(parse_mail_params(b"SIZE=12a").err(), Some(ParseArgsError::BadParameter));
    assert_eq!(parse_mail_params(b"SIZE").err(), Some(ParseArgsError::BadParameter));
    assert_eq!(
        parse_mail_params(b"SIZE=18446744073709551616").err(),
        Some(ParseArgsError::ValueOutOfRange)
    );
    assert_eq!(parse_mail_params(b"SIZE=18446744073709551615").unwrap().size, Some(u64::MAX));
    assert_eq!(parse_mail_params(b"BODY=9BIT").err(), Some(ParseArgsError::BadParameter));
    assert_eq!(parse_mail_params(b"FOO=1").err(), Some(ParseArgsError::UnknownParameter));
    assert_eq!(parse_mail_params(b"ENVID=a+zz").err(), Some(ParseArgsError::BadParameter));
}

#[test]
fn rcpt_parameters() {
    let r = parse_rcpt_params(b"NOTIFY=SUCCESS,FAILURE ORCPT=rfc822;b+40y").unwrap();
    assert_eq!(
        r.notify,
        Some(NotifyOn { never: false, success: true, failure: true, delay: false })
    );
    let o = r.orcpt.unwrap();
    assert_eq!(o.addr_type, b"rfc822".to_vec());
    assert_eq!(o.address, b"b@y".to_vec());
    assert_eq!(
        parse_rcpt_params(b"NOTIFY=never").unwrap().notify,
        Some(NotifyOn { never: true, success: false, failure: false, delay: false })
    );
    assert_eq!(parse_rcpt_params(b"NOTIFY=NEVER,DELAY").err(), Some(ParseArgsError::BadParameter));
    assert_eq!(parse_rcpt_params(b"NOTIFY=SOMETIMES").err(), Some(ParseArgsError::BadParameter));
    assert_eq!(parse_rcpt_params(b"ORCPT=;x").err(), Some(ParseArgsError::BadParameter));
    assert_eq!(parse_rcpt_params(b"SIZE=1").err(), Some(ParseArgsError::UnknownParameter));
    assert_eq!(decode_xtext(b"a+3Db"), Some(b"a=b".to_vec()));
    assert_eq!(decode_xtext(b"a=b"), None);
}

#[test]
fn parameter_errors_in_session() {
    let mut s = srv();
    send(&mut s, "EHLO a");
    assert_eq!(send(&mut s, "MAIL FROM:<a@x> FOO=1"), "555 5.5.4 Parameter not recognized\r\n");
    assert_eq!(
        send(&mut s, "MAIL FROM:<a@x> SIZE=99999999"),
        "552 5.3.4 Message size exceeds fixed maximum message size\r\n"
    );
    assert_eq!(
        send(&mut s, "MAIL FROM:<a@x> SIZE=x"),
        "501 5.5.4 Syntax error in parameters or arguments\r\n"
    );
    assert!(s.envelope.is_none());
}

#[test]
fn oversized_message_is_refused_after_terminator() {
    let mut c = Config::new("srv");
    c.max_message_size = 10;
    let mut s = Session::new(c, false);
    send(&mut s, "HELO a");
    send(&mut s, "MAIL FROM:<a@x>");
    send(&mut s, "RCPT TO:<b@y>");
    send(&mut s, "DATA");
    assert_eq!(send(&mut s, "12345678"), "");
    assert_eq!(send(&mut s, "more"), "");
    assert_eq!(
        send(&mut s, "."),
        "552 5.3.4 Message size exceeds fixed maximum message size\r\n"
    );
    assert!(s.envelope.is_none());
    assert_eq!(s.phase, Phase::Command);
    assert_eq!(send(&mut s, "NOOP"), "250 2.0.0 Ok\r\n");
}

#[test]
fn bare_line_ends_are_refused() {
    let mut s = srv();
    assert_eq!(send(&mut s, "HELO a\nMAIL FROM:<a@x>"), "500 Bad framing\r\n");
    assert!(s.hello.is_none());
    assert_eq!(send(&mut s, "NOOP\r"), "500 Bad framing\r\n");
    assert!(is_well_framed(b"NOOP"));
    assert!(!is_well_framed(b"NO\rOP"));
}

#[test]
fn message_is_split_at_first_blank_line() {
    let (h, b) = split_message(b"Subject: hi\r\n\r\nbody\r\n\r\nmore\r\n");
    assert_eq!(h, b"Subject: hi\r\n".to_vec());
    assert_eq!(b, b"body\r\n\r\nmore\r\n".to_vec());
    let (h, b) = split_message(b"\r\nonly body\r\n");
    assert!(h.is_empty());
    assert_eq!(b, b"only body\r\n".to_vec());
    let (h, b) = split_message(b"X: y\r\n");
    assert_eq!(h, b"X: y\r\n".to_vec());
    assert!(b.is_empty());
}

#[test]
fn auth_parameter_of_unauthenticated_client_is_null() {
    let mut s = srv();
    send(&mut s, "EHLO a");
    assert_eq!(send(&mut s, "MAIL FROM:<a@x> AUTH=e+2Bf@x"), "250 2.1.0 Ok\r\n");
    assert_eq!(s.envelope.as_ref().unwrap().params.auth, Some(b"<>".to_vec()));

    let mut c = Config::new("srv");
    c.auth_mechanisms = "PLAIN".to_string();
    let mut t = Session::new(c, true);
    send(&mut t, "EHLO a");
    send(&mut t, "AUTH PLAIN AGFAYQBi");
    t.auth_done(AuthOutcome::Success);
    assert_eq!(send(&mut t, "MAIL FROM:<a@x> AUTH=e+2Bf@x"), "250 2.1.0 Ok\r\n");
    assert_eq!(t.envelope.as_ref().unwrap().params.auth, Some(b"e+f@x".to_vec()));
}

#[test]
fn reply_text_must_be_plain() {
    assert!(Reply::new(250, "Ok").has_plain_text());
    assert!(!Reply::new(250, "Ok\r\n250 injected").has_plain_text());
    assert!(!Reply::new(250, "caf\u{e9}").has_plain_text());
}

#[test]
fn opening_goes_through_the_handler() {
    let mut s = srv();
    match s.open(Decision::Accept) {
        Action::Reply(r) => assert_eq!(r.to_wire(), "220 srv Service ready\r\n"),
        _ => panic!("the greeting is a reply"),
    }
    let mut t = srv();
    match t.open(Decision::DenyClose(Reply::new(554, "5.7.1 No service"))) {
        Action::Close(r) => assert_eq!(r.to_wire(), "554 5.7.1 No service\r\n"),
        _ => panic!("a refused connection closes"),
    }
    assert_eq!(t.phase, Phase::Closed);
}
