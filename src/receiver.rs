//! The receiver's session: what each line from the client does to the session,
//! and what the server answers.
//!
//! The session makes no I/O. The connection task opens it with the handler's
//! decision on the connection (`open`), then reads a line, asks the handler
//! for its `Decision` where `hook_for` names a hook (never where the session's
//! state alone decides the reply), hands both to `on_line`, and performs the
//! `Action` that comes back.
use vstd::prelude::*;
use crate::command::{parse_command, parse_spec, AuthArgs, ParseArgsError, Verb, VerbV};
use crate::params::{MailParams, MailParamsV, RcptParams, RcptParamsV};
use crate::framing::{
    data_line, is_terminator, is_well_framed, unstuff_line, well_framed, DataLine, CR, LF,
    MAX_COMMAND_LINE,
};
use crate::reply::{decimal, lines_view, plain_text, push_decimal, Reply, ReplyV};

verus! {

/// Where the session stands.
#[derive(PartialEq, Eq, Structural, Clone, Copy, Debug)]
pub enum Phase {
    /// Reading commands.
    Command,
    /// Reading the mail data, up to the terminator.
    Data,
    /// The mail data is complete and waits for the handler's verdict.
    Delivering,
    /// A SASL exchange runs; its outcome is awaited.
    Authenticating,
    /// STARTTLS was accepted; the handshake is awaited.
    TlsPending,
    /// The connection is to be closed.
    Closed,
}

/// The fixed settings of the receiver, taken at startup.
pub struct Config {
    /// The name the server greets with.
    pub server_name: String,
    /// The largest message, in octets, advertised with SIZE.
    pub max_message_size: u64,
    /// The most recipients of one message.
    pub max_rcpt: usize,
    /// A certificate is configured: STARTTLS can be offered.
    pub tls_available: bool,
    /// MAIL FROM is refused until TLS is active.
    pub require_tls: bool,
    /// MAIL FROM is refused until the client has authenticated.
    pub require_auth: bool,
    /// The SASL mechanisms offered, separated by spaces; empty for none.
    pub auth_mechanisms: String,
    /// AUTH is refused, and not advertised, over cleartext.
    pub auth_requires_tls: bool,
    /// From this many client errors on, replies are slowed down.
    pub soft_error_limit: u64,
    /// At this many client errors the session is closed.
    pub hard_error_limit: u64,
}

impl Config {
    /// The defaults: 10 MiB messages, 100 recipients, no TLS, no SASL.
    pub fn new(server_name: &str) -> (r: Config)
        ensures
            r.server_name@ == server_name@,
            r.max_message_size == 10485760,
            r.max_rcpt == 100,
            !r.tls_available,
            !r.require_tls,
            !r.require_auth,
            r.auth_mechanisms@.len() == 0,
            !r.auth_requires_tls,
            r.soft_error_limit == 10,
            r.hard_error_limit == 20,
    {
        Config {
            server_name: String::from_str(server_name),
            max_message_size: 10485760,
            max_rcpt: 100,
            tls_available: false,
            require_tls: false,
            require_auth: false,
            auth_mechanisms: String::new(),
            auth_requires_tls: false,
            soft_error_limit: 10,
            hard_error_limit: 20,
        }
    }
}

/// The envelope of the message being received.
pub struct Envelope {
    /// The MAIL FROM path; empty for the null reverse-path.
    pub reverse_path: Vec<u8>,
    /// The MAIL FROM parameters.
    pub params: MailParams,
    /// The accepted recipients, in order.
    pub forward_paths: Vec<Recipient>,
}

/// An accepted RCPT TO.
pub struct Recipient {
    pub path: Vec<u8>,
    pub params: RcptParams,
}

pub ghost struct EnvelopeV {
    pub reverse_path: Seq<u8>,
    pub params: MailParamsV,
    pub forward_paths: Seq<(Seq<u8>, RcptParamsV)>,
}

impl View for Envelope {
    type V = EnvelopeV;

    open spec fn view(&self) -> EnvelopeV {
        EnvelopeV {
            reverse_path: self.reverse_path@,
            params: self.params@,
            forward_paths: self.forward_paths@.map_values(|r: Recipient| (r.path@, r.params@)),
        }
    }
}

/// The state of one session.
pub struct Session {
    pub config: Config,
    pub phase: Phase,
    /// The EHLO/HELO argument, once given.
    pub hello: Option<Vec<u8>>,
    pub is_tls: bool,
    pub authenticated: bool,
    pub envelope: Option<Envelope>,
    /// The mail data received so far, dot-stuffing reversed, lines ending in CRLF.
    pub data: Vec<u8>,
    /// The mail data outgrew the size limit and is being skipped.
    pub oversized: bool,
    /// How many commands were refused for the client's own mistakes.
    pub errors: u64,
}

pub ghost struct SessionV {
    pub phase: Phase,
    pub hello: Option<Seq<u8>>,
    pub is_tls: bool,
    pub authenticated: bool,
    pub envelope: Option<EnvelopeV>,
    pub data: Seq<u8>,
    pub oversized: bool,
    pub errors: u64,
}

impl View for Session {
    type V = SessionV;

    open spec fn view(&self) -> SessionV {
        SessionV {
            phase: self.phase,
            hello: match self.hello {
                Some(h) => Some(h@),
                None => None,
            },
            is_tls: self.is_tls,
            authenticated: self.authenticated,
            envelope: match self.envelope {
                Some(e) => Some(e@),
                None => None,
            },
            data: self.data@,
            oversized: self.oversized,
            errors: self.errors,
        }
    }
}

/// What the policy handler said of a command.
pub enum Decision {
    /// Go on, with the receiver's own reply.
    Accept,
    /// Refuse the command with this reply; the session goes on.
    Reject(Reply),
    /// Refuse with this reply and close the connection.
    DenyClose(Reply),
}

pub ghost enum DecisionV {
    Accept,
    Reject(ReplyV),
    DenyClose(ReplyV),
}

impl View for Decision {
    type V = DecisionV;

    open spec fn view(&self) -> DecisionV {
        match self {
            Decision::Accept => DecisionV::Accept,
            Decision::Reject(r) => DecisionV::Reject(r@),
            Decision::DenyClose(r) => DecisionV::DenyClose(r@),
        }
    }
}

/// A reply from the handler: well formed, and every line printable ASCII, so
/// that it cannot break the framing of the replies.
pub open spec fn handler_reply_ok(r: Reply) -> bool {
    r.wf() && forall|i: int| 0 <= i < r.lines@.len() ==> #[trigger] plain_text(r.lines@[i]@)
}

impl Decision {
    pub open spec fn wf(&self) -> bool {
        match self {
            Decision::Accept => true,
            Decision::Reject(r) => handler_reply_ok(*r),
            Decision::DenyClose(r) => handler_reply_ok(*r),
        }
    }

    /// Whether the decision can be handed to the session as it is.
    pub fn is_valid(&self) -> (r: bool)
        ensures
            r == self.wf(),
    {
        match self {
            Decision::Accept => true,
            Decision::Reject(r) => 200 <= r.code && r.code <= 599 && r.lines.len() >= 1
                && r.has_plain_text(),
            Decision::DenyClose(r) => 200 <= r.code && r.code <= 599 && r.lines.len() >= 1
                && r.has_plain_text(),
        }
    }
}

/// The hooks of the policy handler that commands consult.
#[derive(PartialEq, Eq, Structural, Clone, Copy, Debug)]
pub enum Hook {
    /// On connect, before the greeting.
    Connect,
    Helo,
    Ehlo,
    MailFrom,
    RcptTo,
    Rset,
    Quit,
}

/// What the connection task does next.
pub enum Action {
    /// Send the reply and read on.
    Reply(Reply),
    /// Send the reply and close the connection.
    Close(Reply),
    /// Send the reply, then check the read buffer with `tls_ready` and run
    /// the TLS handshake.
    StartTls(Reply),
    /// Run the SASL exchange for this mechanism, then report with `auth_done`.
    Authenticate(AuthArgs),
    /// A line of mail data was taken in; nothing is sent.
    Continue,
    /// The mail data is complete: hand `data` to the handler and report with
    /// `message_done`.
    Deliver,
}

pub ghost enum ActionV {
    Reply(ReplyV),
    Close(ReplyV),
    StartTls(ReplyV),
    Authenticate(Seq<u8>, Option<Seq<u8>>),
    Continue,
    Deliver,
}

impl View for Action {
    type V = ActionV;

    open spec fn view(&self) -> ActionV {
        match self {
            Action::Reply(r) => ActionV::Reply(r@),
            Action::Close(r) => ActionV::Close(r@),
            Action::StartTls(r) => ActionV::StartTls(r@),
            Action::Authenticate(a) => ActionV::Authenticate(
                a.mechanism@,
                match a.initial_response {
                    Some(x) => Some(x@),
                    None => None,
                },
            ),
            Action::Continue => ActionV::Continue,
            Action::Deliver => ActionV::Deliver,
        }
    }
}

/// How a SASL exchange ended.
#[derive(PartialEq, Eq, Structural, Clone, Copy, Debug)]
pub enum AuthOutcome {
    Success,
    /// The credentials were refused.
    Invalid,
    /// The client sent `*`.
    Cancelled,
    /// A response was not valid base64.
    BadBase64,
    /// The mechanism is not offered.
    Unsupported,
    /// The credentials could not be checked now.
    TemporaryFailure,
}

pub open spec fn one_line(code: u16, text: Seq<char>) -> ReplyV {
    ReplyV { code, text: seq![text] }
}

pub open spec fn greeting_reply(c: Config) -> ReplyV {
    one_line(220, c.server_name@ + " Service ready"@)
}

pub open spec fn bad_sequence() -> ReplyV {
    one_line(503, "5.5.1 Bad sequence of commands"@)
}

pub open spec fn line_too_long() -> ReplyV {
    one_line(500, "Line too long"@)
}

pub open spec fn bad_framing() -> ReplyV {
    one_line(500, "Bad framing"@)
}

pub open spec fn syntax_error() -> ReplyV {
    one_line(501, "5.5.4 Syntax error in parameters or arguments"@)
}

pub open spec fn unknown_parameter() -> ReplyV {
    one_line(555, "5.5.4 Parameter not recognized"@)
}

/// The reply to a line that does not parse.
pub open spec fn parse_error_reply(e: ParseArgsError) -> ReplyV {
    if e is UnknownParameter {
        unknown_parameter()
    } else {
        syntax_error()
    }
}

pub open spec fn unrecognized() -> ReplyV {
    one_line(500, "5.5.2 Syntax error, command unrecognized"@)
}

pub open spec fn ok_reply() -> ReplyV {
    one_line(250, "2.0.0 Ok"@)
}

pub open spec fn mail_ok() -> ReplyV {
    one_line(250, "2.1.0 Ok"@)
}

pub open spec fn rcpt_ok() -> ReplyV {
    one_line(250, "2.1.5 Ok"@)
}

pub open spec fn too_many_rcpt() -> ReplyV {
    one_line(452, "4.5.3 Too many recipients"@)
}

pub open spec fn start_data() -> ReplyV {
    one_line(354, "Start mail input; end with <CRLF>.<CRLF>"@)
}

pub open spec fn bye() -> ReplyV {
    one_line(221, "Bye"@)
}

pub open spec fn help_reply() -> ReplyV {
    one_line(214, "2.0.0 See RFC 5321"@)
}

pub open spec fn vrfy_reply() -> ReplyV {
    one_line(252, "2.1.5 Cannot VRFY user, but will accept message"@)
}

pub open spec fn tls_ready_reply() -> ReplyV {
    one_line(220, "Ready to start TLS"@)
}

pub open spec fn tls_unavailable() -> ReplyV {
    one_line(454, "4.7.0 TLS not available"@)
}

pub open spec fn tls_required() -> ReplyV {
    one_line(530, "5.7.0 Must issue a STARTTLS command first"@)
}

pub open spec fn auth_required() -> ReplyV {
    one_line(530, "5.7.0 Authentication required"@)
}

pub open spec fn already_authenticated() -> ReplyV {
    one_line(503, "5.5.1 Already authenticated"@)
}

pub open spec fn encryption_required() -> ReplyV {
    one_line(538, "5.7.11 Encryption required for requested authentication mechanism"@)
}

pub open spec fn injection_reply() -> ReplyV {
    one_line(554, "TLS command injection"@)
}

pub open spec fn queued_reply(id: Seq<char>) -> ReplyV {
    one_line(250, "2.0.0 Ok: queued as "@ + id)
}

pub open spec fn auth_reply(o: AuthOutcome) -> ReplyV {
    match o {
        AuthOutcome::Success => one_line(235, "2.7.0 Authentication successful"@),
        AuthOutcome::Invalid => one_line(535, "5.7.8 Authentication credentials invalid"@),
        AuthOutcome::Cancelled => one_line(501, "5.0.0 Authentication cancelled"@),
        AuthOutcome::BadBase64 => one_line(501, "5.5.2 Bad base64"@),
        AuthOutcome::Unsupported => one_line(504, "5.5.4 Mechanism is not supported"@),
        AuthOutcome::TemporaryFailure => one_line(454, "4.7.0 Temporary authentication failure"@),
    }
}

/// STARTTLS is offered: a certificate is configured and TLS is not active yet.
pub open spec fn starttls_offered(c: Config, is_tls: bool) -> bool {
    c.tls_available && !is_tls
}

/// AUTH is offered: some mechanism is configured, and the channel is fit for it.
pub open spec fn auth_offered(c: Config, is_tls: bool) -> bool {
    c.auth_mechanisms@.len() > 0 && (is_tls || !c.auth_requires_tls)
}

/// The lines of the EHLO reply: the server's name first, the extensions,
/// STARTTLS last when it is offered.
pub open spec fn ehlo_lines(c: Config, is_tls: bool) -> Seq<Seq<char>> {
    seq![
        c.server_name@,
        "PIPELINING"@,
        "SIZE "@ + decimal(c.max_message_size as nat),
        "8BITMIME"@,
        "DSN"@,
        "ENHANCEDSTATUSCODES"@,
    ] + (if auth_offered(c, is_tls) {
        seq!["AUTH "@ + c.auth_mechanisms@]
    } else {
        Seq::empty()
    }) + (if starttls_offered(c, is_tls) {
        seq!["STARTTLS"@]
    } else {
        Seq::empty()
    })
}

pub open spec fn too_many_errors() -> ReplyV {
    one_line(421, "4.7.0 Too many errors"@)
}

pub open spec fn timeout_reply() -> ReplyV {
    one_line(421, "Timeout"@)
}

pub open spec fn shutdown_reply() -> ReplyV {
    one_line(421, "Server shutting down"@)
}

/// A command refused for the client's own mistake: the error is counted, and
/// once the hard limit is reached the session closes with 421.
pub open spec fn error_step(c: Config, s: SessionV, r: ReplyV) -> (SessionV, ActionV) {
    if s.errors + 1 >= c.hard_error_limit {
        (SessionV { phase: Phase::Closed, ..s }, ActionV::Close(too_many_errors()))
    } else {
        (SessionV { errors: (s.errors + 1) as u64, ..s }, ActionV::Reply(r))
    }
}

/// The MAIL FROM parameters as kept: the AUTH identity of a client that has
/// not authenticated is not trusted, and is taken as `<>`.
pub open spec fn trusted_params(q: MailParamsV, authenticated: bool) -> MailParamsV {
    if !authenticated && q.auth is Some {
        MailParamsV { auth: Some(seq![60u8, 62u8]), ..q }
    } else {
        q
    }
}

/// A command that consults the handler: on accept the session becomes `next`
/// and the reply is `ok`.
pub open spec fn hooked(s: SessionV, d: DecisionV, next: SessionV, ok: ReplyV) -> (SessionV, ActionV) {
    match d {
        DecisionV::Accept => (next, ActionV::Reply(ok)),
        DecisionV::Reject(r) => (s, ActionV::Reply(r)),
        DecisionV::DenyClose(r) => (SessionV { phase: Phase::Closed, ..s }, ActionV::Close(r)),
    }
}

/// What a parsed command does, in the command phase.
pub open spec fn verb_step(c: Config, s: SessionV, v: VerbV, d: DecisionV) -> (SessionV, ActionV) {
    match v {
        VerbV::Helo(a) => hooked(
            s,
            d,
            SessionV { hello: Some(a), envelope: None, ..s },
            one_line(250, c.server_name@),
        ),
        VerbV::Ehlo(a) => hooked(
            s,
            d,
            SessionV { hello: Some(a), envelope: None, ..s },
            ReplyV { code: 250, text: ehlo_lines(c, s.is_tls) },
        ),
        VerbV::MailFrom(p, q) => if s.hello is None || s.envelope is Some {
            error_step(c, s, bad_sequence())
        } else if c.require_tls && !s.is_tls {
            (s, ActionV::Reply(tls_required()))
        } else if c.require_auth && !s.authenticated {
            (s, ActionV::Reply(auth_required()))
        } else if q.size matches Some(n) && n > c.max_message_size {
            (s, ActionV::Reply(too_big()))
        } else {
            hooked(
                s,
                d,
                SessionV {
                    envelope: Some(
                        EnvelopeV {
                            reverse_path: p,
                            params: trusted_params(q, s.authenticated),
                            forward_paths: seq![],
                        },
                    ),
                    ..s
                },
                mail_ok(),
            )
        },
        VerbV::RcptTo(p, q) => match s.envelope {
            None => error_step(c, s, bad_sequence()),
            Some(e) => if e.forward_paths.len() >= c.max_rcpt {
                (s, ActionV::Reply(too_many_rcpt()))
            } else {
                hooked(
                    s,
                    d,
                    SessionV {
                        envelope: Some(EnvelopeV { forward_paths: e.forward_paths.push((p, q)), ..e }),
                        ..s
                    },
                    rcpt_ok(),
                )
            },
        },
        VerbV::Data => match s.envelope {
            Some(e) => if e.forward_paths.len() > 0 {
                (
                    SessionV { phase: Phase::Data, data: seq![], oversized: false, ..s },
                    ActionV::Reply(start_data()),
                )
            } else {
                error_step(c, s, bad_sequence())
            },
            None => error_step(c, s, bad_sequence()),
        },
        VerbV::Rset => if s.hello is None {
            error_step(c, s, bad_sequence())
        } else {
            hooked(s, d, SessionV { envelope: None, ..s }, ok_reply())
        },
        VerbV::Quit => (
            SessionV { phase: Phase::Closed, ..s },
            ActionV::Close(
                match d {
                    DecisionV::Accept => bye(),
                    DecisionV::Reject(r) => r,
                    DecisionV::DenyClose(r) => r,
                },
            ),
        ),
        VerbV::Noop => (s, ActionV::Reply(ok_reply())),
        VerbV::Help => (s, ActionV::Reply(help_reply())),
        VerbV::Vrfy(_a) => if s.hello is None {
            error_step(c, s, bad_sequence())
        } else {
            (s, ActionV::Reply(vrfy_reply()))
        },
        VerbV::StartTls => if s.hello is None || s.envelope is Some {
            error_step(c, s, bad_sequence())
        } else if !starttls_offered(c, s.is_tls) {
            (s, ActionV::Reply(tls_unavailable()))
        } else {
            (SessionV { phase: Phase::TlsPending, ..s }, ActionV::StartTls(tls_ready_reply()))
        },
        VerbV::Auth(m, i) => if s.hello is None || s.envelope is Some {
            error_step(c, s, bad_sequence())
        } else if s.authenticated {
            (s, ActionV::Reply(already_authenticated()))
        } else if c.auth_requires_tls && !s.is_tls {
            (s, ActionV::Reply(encryption_required()))
        } else if c.auth_mechanisms@.len() == 0 {
            error_step(c, s, bad_sequence())
        } else {
            (SessionV { phase: Phase::Authenticating, ..s }, ActionV::Authenticate(m, i))
        },
        VerbV::Unknown => error_step(c, s, unrecognized()),
    }
}

/// The handler hook that a command consults in the session `s`: none where
/// the session's state alone decides the reply.
pub open spec fn verb_hook(c: Config, s: SessionV, v: VerbV) -> Option<Hook> {
    match v {
        VerbV::Helo(_) => Some(Hook::Helo),
        VerbV::Ehlo(_) => Some(Hook::Ehlo),
        VerbV::MailFrom(_, q) => if s.hello is None || s.envelope is Some || (c.require_tls
            && !s.is_tls) || (c.require_auth && !s.authenticated) || (q.size matches Some(n) && n
            > c.max_message_size) {
            None
        } else {
            Some(Hook::MailFrom)
        },
        VerbV::RcptTo(_, _) => match s.envelope {
            Some(e) => if e.forward_paths.len() >= c.max_rcpt {
                None
            } else {
                Some(Hook::RcptTo)
            },
            None => None,
        },
        VerbV::Rset => if s.hello is None {
            None
        } else {
            Some(Hook::Rset)
        },
        VerbV::Quit => Some(Hook::Quit),
        _ => None,
    }
}

/// The handler hook that a line consults, in the command phase.
pub open spec fn line_hook(c: Config, s: SessionV, l: Seq<u8>) -> Option<Hook> {
    if s.phase != Phase::Command || l.len() > MAX_COMMAND_LINE || !well_framed(l) {
        None
    } else {
        match parse_spec(l) {
            Ok(v) => verb_hook(c, s, v),
            Err(_) => None,
        }
    }
}

/// The client's `*`: it gives up the SASL exchange.
pub open spec fn is_cancel(l: Seq<u8>) -> bool {
    l.len() == 1 && l[0] == 42
}

pub open spec fn is_base64_char(b: u8) -> bool {
    (65 <= b <= 90) || (97 <= b <= 122) || (48 <= b <= 57) || b == 43 || b == 47
}

/// The shape of base64 text: groups of four characters of the alphabet, the
/// last group ending in at most two `=`.
pub open spec fn base64_shaped(l: Seq<u8>) -> bool {
    &&& l.len() % 4 == 0
    &&& forall|i: int|
        0 <= i < l.len() ==> #[trigger] is_base64_char(l[i]) || (l[i] == 61 && i >= l.len() - 2
            && (i + 1 < l.len() ==> l[i + 1] == 61))
}

/// A SASL challenge, already base64-encoded, as the 334 reply that carries it.
pub open spec fn challenge_reply(payload: Seq<char>) -> ReplyV {
    one_line(334, payload)
}

/// What the session does with a client line during a SASL exchange: `*`
/// cancels, text that is not base64 fails, anything else is for the
/// mechanism (`None`).
pub open spec fn auth_line_step(s: SessionV, l: Seq<u8>) -> (SessionV, Option<ReplyV>) {
    if is_cancel(l) {
        (SessionV { phase: Phase::Command, ..s }, Some(auth_reply(AuthOutcome::Cancelled)))
    } else if !base64_shaped(l) {
        (SessionV { phase: Phase::Command, ..s }, Some(auth_reply(AuthOutcome::BadBase64)))
    } else {
        (s, None)
    }
}

fn is_base64_shaped(l: &[u8]) -> (r: bool)
    ensures
        r == base64_shaped(l@),
{
    let n = l.len();
    if n % 4 != 0 {
        return false;
    }
    let mut i: usize = 0;
    while i < n
        invariant
            n == l@.len(),
            n % 4 == 0,
            i <= n,
            forall|j: int|
                0 <= j < i ==> #[trigger] is_base64_char(l@[j]) || (l@[j] == 61 && j >= n - 2 && (
                j + 1 < n ==> l@[j + 1] == 61)),
        decreases n - i,
    {
        let b = l[i];
        let alpha = (65 <= b && b <= 90) || (97 <= b && b <= 122) || (48 <= b && b <= 57) || b
            == 43 || b == 47;
        if !alpha {
            let ghost ii = i as int;
            if b != 61 || i + 2 < n {
                assert(!(is_base64_char(l@[ii]) || (l@[ii] == 61 && ii >= n - 2 && (ii + 1 < n
                    ==> l@[ii + 1] == 61))));
                return false;
            }
            if i + 1 < n && l[i + 1] != 61 {
                assert(!(is_base64_char(l@[ii]) || (l@[ii] == 61 && ii >= n - 2 && (ii + 1 < n
                    ==> l@[ii + 1] == 61))));
                return false;
            }
        }
        i += 1;
    }
    true
}

/// What a line does in the command phase.
pub open spec fn command_step(c: Config, s: SessionV, l: Seq<u8>, d: DecisionV) -> (SessionV, ActionV) {
    if l.len() > MAX_COMMAND_LINE {
        error_step(c, s, line_too_long())
    } else if !well_framed(l) {
        error_step(c, s, bad_framing())
    } else {
        match parse_spec(l) {
            Err(e) => error_step(c, s, parse_error_reply(e)),
            Ok(v) => verb_step(c, s, v, d),
        }
    }
}

pub open spec fn too_big() -> ReplyV {
    one_line(552, "5.3.4 Message size exceeds fixed maximum message size"@)
}

/// What a line does in the data phase. Past the size limit the data is
/// dropped, but read on to the terminator, so that the session stays in step
/// with the client; the terminator is then answered with 552.
pub open spec fn data_step(c: Config, s: SessionV, l: Seq<u8>) -> (SessionV, ActionV) {
    if is_terminator(l) {
        if s.oversized {
            (
                SessionV { phase: Phase::Command, envelope: None, oversized: false, ..s },
                ActionV::Reply(too_big()),
            )
        } else {
            (SessionV { phase: Phase::Delivering, ..s }, ActionV::Deliver)
        }
    } else if s.oversized || s.data.len() + unstuff_line(l).len() + 2 > c.max_message_size {
        (SessionV { oversized: true, data: seq![], ..s }, ActionV::Continue)
    } else {
        (SessionV { data: s.data + unstuff_line(l) + seq![CR, LF], ..s }, ActionV::Continue)
    }
}

/// What one line from the client does.
pub open spec fn step(c: Config, s: SessionV, l: Seq<u8>, d: DecisionV) -> (SessionV, ActionV) {
    if s.phase == Phase::Data {
        data_step(c, s, l)
    } else {
        command_step(c, s, l, d)
    }
}

/// The session once the TLS handshake succeeded: everything negotiated in
/// cleartext is forgotten.
pub open spec fn after_tls(s: SessionV) -> SessionV {
    SessionV {
        phase: Phase::Command,
        hello: None,
        is_tls: true,
        authenticated: false,
        envelope: None,
        ..s
    }
}

/// The session once the handler has had the message.
pub open spec fn after_message(s: SessionV, d: DecisionV) -> SessionV {
    SessionV {
        phase: if d is DenyClose {
            Phase::Closed
        } else {
            Phase::Command
        },
        envelope: None,
        data: seq![],
        ..s
    }
}

pub open spec fn message_reply(d: DecisionV, id: Seq<char>) -> ReplyV {
    match d {
        DecisionV::Accept => queued_reply(id),
        DecisionV::Reject(r) => r,
        DecisionV::DenyClose(r) => r,
    }
}

fn line(code: u16, text: &str) -> (r: Reply)
    requires
        200 <= code <= 599,
    ensures
        r@ == one_line(code, text@),
        r.wf(),
{
    let r = Reply::new(code, text);
    r
}

impl Session {
    pub open spec fn wf(&self) -> bool {
        &&& self.envelope matches Some(e) ==> e.forward_paths@.len() <= self.config.max_rcpt
        &&& self.data@.len() <= self.config.max_message_size
    }

    /// A new session, before the greeting; `tunneled` when TLS wraps the
    /// socket from the first byte.
    pub fn new(config: Config, tunneled: bool) -> (r: Session)
        ensures
            r.config == config,
            r@ == (SessionV {
                phase: Phase::Command,
                hello: None,
                is_tls: tunneled,
                authenticated: false,
                envelope: None,
                data: seq![],
                oversized: false,
                errors: 0,
            }),
            r.wf(),
    {
        Session {
            config,
            phase: Phase::Command,
            hello: None,
            is_tls: tunneled,
            authenticated: false,
            envelope: None,
            data: Vec::new(),
            oversized: false,
            errors: 0,
        }
    }

    /// The greeting sent on connect.
    pub fn greeting(&self) -> (r: Reply)
        ensures
            r@ == greeting_reply(self.config),
            r.wf(),
    {
        let mut t = self.config.server_name.clone();
        t.append(" Service ready");
        Reply::from_string(220, t)
    }

    /// Opens the session with the handler's decision on the connection: the
    /// greeting, a custom reply of the handler, or a refusal that closes.
    pub fn open(&mut self, d: Decision) -> (r: Action)
        requires
            old(self).phase == Phase::Command,
            d.wf(),
        ensures
            d is Accept ==> (r matches Action::Reply(x) && x@ == greeting_reply(old(self).config)),
            d matches Decision::Reject(x) ==> (r matches Action::Reply(y) && y@ == x@),
            d matches Decision::DenyClose(x) ==> (r matches Action::Close(y) && y@ == x@),
            d is DenyClose ==> final(self)@ == (SessionV { phase: Phase::Closed, ..old(self)@ }),
            !(d is DenyClose) ==> final(self)@ == old(self)@,
            final(self).config == old(self).config,
            old(self).wf() ==> final(self).wf(),
    {
        match d {
            Decision::Accept => Action::Reply(self.greeting()),
            Decision::Reject(r) => Action::Reply(r),
            Decision::DenyClose(r) => {
                self.phase = Phase::Closed;
                Action::Close(r)
            },
        }
    }

    fn ehlo_reply(&self) -> (r: Reply)
        ensures
            r@ == (ReplyV { code: 250, text: ehlo_lines(self.config, self.is_tls) }),
            r.wf(),
    {
        let mut lines: Vec<String> = Vec::new();
        lines.push(self.config.server_name.clone());
        lines.push(String::from_str("PIPELINING"));
        let mut size = String::from_str("SIZE ");
        push_decimal(&mut size, self.config.max_message_size);
        lines.push(size);
        lines.push(String::from_str("8BITMIME"));
        lines.push(String::from_str("DSN"));
        lines.push(String::from_str("ENHANCEDSTATUSCODES"));
        let ghost base = lines_view(lines@);
        if self.config.auth_mechanisms.unicode_len() > 0 && (self.is_tls
            || !self.config.auth_requires_tls) {
            let mut a = String::from_str("AUTH ");
            a.append(self.config.auth_mechanisms.as_str());
            lines.push(a);
        }
        let ghost with_auth = lines_view(lines@);
        assert(with_auth =~= base + (if auth_offered(self.config, self.is_tls) {
            seq!["AUTH "@ + self.config.auth_mechanisms@]
        } else {
            Seq::empty()
        }));
        if self.config.tls_available && !self.is_tls {
            lines.push(String::from_str("STARTTLS"));
        }
        let r = Reply { code: 250, lines };
        assert(r@.text =~= ehlo_lines(self.config, self.is_tls));
        r
    }

    /// Which handler hook a line consults: none where the session's state
    /// alone decides the reply, so the handler is asked only about commands
    /// that its verdict can settle.
    pub fn hook_for(&self, l: &[u8]) -> (r: Option<Hook>)
        ensures
            r == line_hook(self.config, self@, l@),
    {
        if self.phase != Phase::Command || l.len() > MAX_COMMAND_LINE || !is_well_framed(l) {
            return None;
        }
        match parse_command(l) {
            Ok(Verb::Helo(_)) => Some(Hook::Helo),
            Ok(Verb::Ehlo(_)) => Some(Hook::Ehlo),
            Ok(Verb::MailFrom(m)) => {
                let too_big = match m.params.size {
                    Some(n) => n > self.config.max_message_size,
                    None => false,
                };
                if self.hello.is_none() || self.envelope.is_some() || (self.config.require_tls
                    && !self.is_tls) || (self.config.require_auth && !self.authenticated)
                    || too_big {
                    None
                } else {
                    Some(Hook::MailFrom)
                }
            },
            Ok(Verb::RcptTo(_)) => match &self.envelope {
                Some(e) => if e.forward_paths.len() >= self.config.max_rcpt {
                    None
                } else {
                    Some(Hook::RcptTo)
                },
                None => None,
            },
            Ok(Verb::Rset) => if self.hello.is_none() {
                None
            } else {
                Some(Hook::Rset)
            },
            Ok(Verb::Quit) => Some(Hook::Quit),
            _ => None,
        }
    }

    /// Takes one line from the client (without its CRLF) with the handler's
    /// decision on it (`Accept` where the command consults no hook).
    pub fn on_line(&mut self, l: &[u8], d: Decision) -> (r: Action)
        requires
            old(self).phase == Phase::Command || old(self).phase == Phase::Data,
            old(self).wf(),
            d.wf(),
        ensures
            (final(self)@, r@) == step(old(self).config, old(self)@, l@, d@),
            final(self).config == old(self).config,
            final(self).wf(),
    {
        if self.phase == Phase::Data {
            match data_line(l) {
                DataLine::End => {
                    if self.oversized {
                        self.phase = Phase::Command;
                        self.envelope = None;
                        self.oversized = false;
                        Action::Reply(
                            line(552, "5.3.4 Message size exceeds fixed maximum message size"),
                        )
                    } else {
                        self.phase = Phase::Delivering;
                        Action::Deliver
                    }
                },
                DataLine::Content(mut c) => {
                    if self.oversized || (self.data.len() as u128) + (c.len() as u128) + 2
                        > self.config.max_message_size as u128 {
                        self.oversized = true;
                        self.data = Vec::new();
                    } else {
                        let ghost before = self.data@;
                        self.data.append(&mut c);
                        self.data.push(CR);
                        self.data.push(LF);
                        assert(self.data@ =~= before + unstuff_line(l@) + seq![CR, LF]);
                    }
                    Action::Continue
                },
            }
        } else if l.len() > MAX_COMMAND_LINE {
            self.count_error(line(500, "Line too long"))
        } else if !is_well_framed(l) {
            self.count_error(line(500, "Bad framing"))
        } else {
            match parse_command(l) {
                Err(ParseArgsError::UnknownParameter) => self.count_error(
                    line(555, "5.5.4 Parameter not recognized"),
                ),
                Err(_) => self.count_error(line(501, "5.5.4 Syntax error in parameters or arguments")),
                Ok(v) => self.on_verb(v, d),
            }
        }
    }

    /// Counts a command refused for the client's mistake; closes the session
    /// with 421 once the hard limit is reached.
    fn count_error(&mut self, r: Reply) -> (a: Action)
        requires
            r.wf(),
            old(self).wf(),
        ensures
            (final(self)@, a@) == error_step(old(self).config, old(self)@, r@),
            final(self).config == old(self).config,
            final(self).envelope == old(self).envelope,
            final(self).wf(),
    {
        let hard = self.config.hard_error_limit;
        if hard <= self.errors || hard - self.errors <= 1 {
            self.phase = Phase::Closed;
            Action::Close(line(421, "4.7.0 Too many errors"))
        } else {
            self.errors = self.errors + 1;
            Action::Reply(r)
        }
    }

    /// Whether replies are to be slowed down: the client has made at least
    /// the soft limit of errors.
    pub fn in_tarpit(&self) -> (r: bool)
        ensures
            r == (self.errors >= self.config.soft_error_limit),
    {
        self.errors >= self.config.soft_error_limit
    }

    /// The client let a deadline pass: 421, and the session closes.
    pub fn on_timeout(&mut self) -> (r: Reply)
        ensures
            r@ == timeout_reply(),
            r.wf(),
            final(self)@ == (SessionV { phase: Phase::Closed, ..old(self)@ }),
            final(self).config == old(self).config,
            old(self).wf() ==> final(self).wf(),
    {
        self.phase = Phase::Closed;
        line(421, "Timeout")
    }

    /// The server shuts down: 421, and the session closes.
    pub fn on_shutdown(&mut self) -> (r: Reply)
        ensures
            r@ == shutdown_reply(),
            r.wf(),
            final(self)@ == (SessionV { phase: Phase::Closed, ..old(self)@ }),
            final(self).config == old(self).config,
            old(self).wf() ==> final(self).wf(),
    {
        self.phase = Phase::Closed;
        line(421, "Server shutting down")
    }

    /// How long, in seconds, to wait for the client's next line: three
    /// minutes within the mail data, five otherwise.
    pub fn read_timeout_secs(&self) -> (r: u64)
        ensures
            r == if self.phase == Phase::Data {
                180u64
            } else {
                300u64
            },
    {
        if self.phase == Phase::Data {
            180
        } else {
            300
        }
    }

    /// Applies a refusal of the handler; `None` when it accepted.
    fn refused(&mut self, d: Decision) -> (r: Option<Action>)
        requires
            d.wf(),
        ensures
            d is Accept ==> r is None && final(self)@ == old(self)@,
            d matches Decision::Reject(x) ==> (r matches Some(a) && a@ == ActionV::Reply(x@)),
            d is Reject ==> final(self)@ == old(self)@,
            d matches Decision::DenyClose(x) ==> (r matches Some(a) && a@ == ActionV::Close(x@)),
            d is DenyClose ==> final(self)@ == (SessionV { phase: Phase::Closed, ..old(self)@ }),
            final(self).config == old(self).config,
            final(self).envelope == old(self).envelope,
    {
        match d {
            Decision::Accept => None,
            Decision::Reject(r) => Some(Action::Reply(r)),
            Decision::DenyClose(r) => {
                self.phase = Phase::Closed;
                Some(Action::Close(r))
            },
        }
    }

    fn on_verb(&mut self, v: Verb, d: Decision) -> (r: Action)
        requires
            old(self).phase == Phase::Command,
            old(self).wf(),
            d.wf(),
        ensures
            (final(self)@, r@) == verb_step(old(self).config, old(self)@, v@, d@),
            final(self).config == old(self).config,
            final(self).wf(),
    {
        match v {
            Verb::Helo(a) => {
                let ok = Reply::from_string(250, self.config.server_name.clone());
                match self.refused(d) {
                    Some(x) => x,
                    None => {
                        self.hello = Some(a);
                        self.envelope = None;
                        Action::Reply(ok)
                    },
                }
            },
            Verb::Ehlo(a) => {
                let ok = self.ehlo_reply();
                match self.refused(d) {
                    Some(x) => x,
                    None => {
                        self.hello = Some(a);
                        self.envelope = None;
                        Action::Reply(ok)
                    },
                }
            },
            Verb::MailFrom(m) => {
                if self.hello.is_none() || self.envelope.is_some() {
                    self.count_error(line(503, "5.5.1 Bad sequence of commands"))
                } else if self.config.require_tls && !self.is_tls {
                    Action::Reply(line(530, "5.7.0 Must issue a STARTTLS command first"))
                } else if self.config.require_auth && !self.authenticated {
                    Action::Reply(line(530, "5.7.0 Authentication required"))
                } else if m.params.size.is_some() && m.params.size.unwrap()
                    > self.config.max_message_size {
                    Action::Reply(line(552, "5.3.4 Message size exceeds fixed maximum message size"))
                } else {
                    let ok = line(250, "2.1.0 Ok");
                    let mut params = m.params;
                    if !self.authenticated && params.auth.is_some() {
                        let mut null_path: Vec<u8> = Vec::new();
                        null_path.push(60u8);
                        null_path.push(62u8);
                        assert(null_path@ =~= seq![60u8, 62u8]);
                        params.auth = Some(null_path);
                    }
                    let e = Envelope {
                        reverse_path: m.reverse_path,
                        params,
                        forward_paths: Vec::new(),
                    };
                    assert(e@.forward_paths =~= Seq::<(Seq<u8>, RcptParamsV)>::empty());
                    match self.refused(d) {
                        Some(x) => x,
                        None => {
                            self.envelope = Some(e);
                            Action::Reply(ok)
                        },
                    }
                }
            },
            Verb::RcptTo(a) => {
                let count: Option<usize> = match &self.envelope {
                    None => None,
                    Some(e) => Some(e.forward_paths.len()),
                };
                let n: usize = match count {
                    None => {
                        return self.count_error(line(503, "5.5.1 Bad sequence of commands"));
                    },
                    Some(n) => n,
                };
                if n >= self.config.max_rcpt {
                    return Action::Reply(line(452, "4.5.3 Too many recipients"));
                }
                let ok = line(250, "2.1.5 Ok");
                match self.refused(d) {
                    Some(x) => x,
                    None => {
                        let ghost p = (a.forward_path@, a.params@);
                        let ghost before = self@;
                        match &mut self.envelope {
                            Some(e) => {
                                let ghost fw = e@.forward_paths;
                                e.forward_paths.push(
                                    Recipient { path: a.forward_path, params: a.params },
                                );
                                assert(e@.forward_paths =~= fw.push(p));
                            },
                            None => {},
                        }
                        Action::Reply(ok)
                    },
                }
            },
            Verb::Data => {
                let ready = match &self.envelope {
                    Some(e) => e.forward_paths.len() > 0,
                    None => false,
                };
                if ready {
                    self.phase = Phase::Data;
                    self.data = Vec::new();
                    self.oversized = false;
                    Action::Reply(line(354, "Start mail input; end with <CRLF>.<CRLF>"))
                } else {
                    self.count_error(line(503, "5.5.1 Bad sequence of commands"))
                }
            },
            Verb::Rset => {
                if self.hello.is_none() {
                    self.count_error(line(503, "5.5.1 Bad sequence of commands"))
                } else {
                    match self.refused(d) {
                        Some(x) => x,
                        None => {
                            self.envelope = None;
                            Action::Reply(line(250, "2.0.0 Ok"))
                        },
                    }
                }
            },
            Verb::Quit => {
                self.phase = Phase::Closed;
                match d {
                    Decision::Accept => Action::Close(line(221, "Bye")),
                    Decision::Reject(r) => Action::Close(r),
                    Decision::DenyClose(r) => Action::Close(r),
                }
            },
            Verb::Noop => Action::Reply(line(250, "2.0.0 Ok")),
            Verb::Help => Action::Reply(line(214, "2.0.0 See RFC 5321")),
            Verb::Vrfy(_) => {
                if self.hello.is_none() {
                    self.count_error(line(503, "5.5.1 Bad sequence of commands"))
                } else {
                    Action::Reply(line(252, "2.1.5 Cannot VRFY user, but will accept message"))
                }
            },
            Verb::StartTls => {
                if self.hello.is_none() || self.envelope.is_some() {
                    self.count_error(line(503, "5.5.1 Bad sequence of commands"))
                } else if !(self.config.tls_available && !self.is_tls) {
                    Action::Reply(line(454, "4.7.0 TLS not available"))
                } else {
                    self.phase = Phase::TlsPending;
                    Action::StartTls(line(220, "Ready to start TLS"))
                }
            },
            Verb::Auth(a) => {
                if self.hello.is_none() || self.envelope.is_some() {
                    self.count_error(line(503, "5.5.1 Bad sequence of commands"))
                } else if self.authenticated {
                    Action::Reply(line(503, "5.5.1 Already authenticated"))
                } else if self.config.auth_requires_tls && !self.is_tls {
                    Action::Reply(
                        line(538, "5.7.11 Encryption required for requested authentication mechanism"),
                    )
                } else if self.config.auth_mechanisms.unicode_len() == 0 {
                    self.count_error(line(503, "5.5.1 Bad sequence of commands"))
                } else {
                    self.phase = Phase::Authenticating;
                    Action::Authenticate(a)
                }
            },
            Verb::Unknown => self.count_error(line(500, "5.5.2 Syntax error, command unrecognized")),
        }
    }

    /// Checks the read buffer once the STARTTLS reply is sent: octets already
    /// waiting there were pipelined behind STARTTLS, and the session is closed.
    pub fn tls_ready(&mut self, buffered: usize) -> (r: Option<Reply>)
        requires
            old(self).phase == Phase::TlsPending,
        ensures
            buffered > 0 ==> (r matches Some(x) && x@ == injection_reply()),
            buffered > 0 ==> final(self)@ == (SessionV { phase: Phase::Closed, ..old(self)@ }),
            buffered == 0 ==> r is None && final(self)@ == old(self)@,
            final(self).config == old(self).config,
            old(self).wf() ==> final(self).wf(),
    {
        if buffered > 0 {
            self.phase = Phase::Closed;
            Some(line(554, "TLS command injection"))
        } else {
            None
        }
    }

    /// The TLS handshake succeeded: the client must greet again.
    pub fn tls_established(&mut self)
        requires
            old(self).phase == Phase::TlsPending,
            old(self).wf(),
        ensures
            final(self)@ == after_tls(old(self)@),
            final(self).config == old(self).config,
            final(self).wf(),
    {
        self.phase = Phase::Command;
        self.hello = None;
        self.is_tls = true;
        self.authenticated = false;
        self.envelope = None;
    }

    /// The TLS handshake failed: the connection is closed.
    pub fn tls_failed(&mut self)
        requires
            old(self).phase == Phase::TlsPending,
        ensures
            final(self)@ == (SessionV { phase: Phase::Closed, ..old(self)@ }),
            final(self).config == old(self).config,
            old(self).wf() ==> final(self).wf(),
    {
        self.phase = Phase::Closed;
    }

    /// The 334 reply that carries a SASL challenge, already base64-encoded.
    pub fn challenge(payload: &str) -> (r: Reply)
        ensures
            r@ == challenge_reply(payload@),
            r.wf(),
    {
        line(334, payload)
    }

    /// A client line during the SASL exchange: `*` ends it as cancelled,
    /// text that is not base64 ends it with 501; any other line is for the
    /// mechanism (`None`), which decodes it.
    pub fn on_auth_line(&mut self, l: &[u8]) -> (r: Option<Reply>)
        requires
            old(self).phase == Phase::Authenticating,
        ensures
            (final(self)@, match r {
                Some(x) => Some(x@),
                None => None,
            }) == auth_line_step(old(self)@, l@),
            final(self).config == old(self).config,
            old(self).wf() ==> final(self).wf(),
    {
        if l.len() == 1 && l[0] == 42 {
            self.phase = Phase::Command;
            Some(line(501, "5.0.0 Authentication cancelled"))
        } else if !is_base64_shaped(l) {
            self.phase = Phase::Command;
            Some(line(501, "5.5.2 Bad base64"))
        } else {
            None
        }
    }

    /// The SASL exchange ended; the session reads commands again.
    pub fn auth_done(&mut self, o: AuthOutcome) -> (r: Reply)
        requires
            old(self).phase == Phase::Authenticating,
        ensures
            r@ == auth_reply(o),
            r.wf(),
            final(self)@ == (SessionV {
                phase: Phase::Command,
                authenticated: old(self).authenticated || o is Success,
                ..old(self)@
            }),
            final(self).config == old(self).config,
            old(self).wf() ==> final(self).wf(),
    {
        self.phase = Phase::Command;
        match o {
            AuthOutcome::Success => {
                self.authenticated = true;
                line(235, "2.7.0 Authentication successful")
            },
            AuthOutcome::Invalid => line(535, "5.7.8 Authentication credentials invalid"),
            AuthOutcome::Cancelled => line(501, "5.0.0 Authentication cancelled"),
            AuthOutcome::BadBase64 => line(501, "5.5.2 Bad base64"),
            AuthOutcome::Unsupported => line(504, "5.5.4 Mechanism is not supported"),
            AuthOutcome::TemporaryFailure => line(
                454,
                "4.7.0 Temporary authentication failure",
            ),
        }
    }

    /// The handler has had the message; `queue_id` names it in the queue.
    /// The envelope and the data are dropped whatever the decision.
    pub fn message_done(&mut self, d: Decision, queue_id: &str) -> (r: Reply)
        requires
            old(self).phase == Phase::Delivering,
            d.wf(),
        ensures
            r@ == message_reply(d@, queue_id@),
            r.wf(),
            final(self)@ == after_message(old(self)@, d@),
            final(self).config == old(self).config,
            final(self).wf(),
    {
        self.envelope = None;
        self.data = Vec::new();
        match d {
            Decision::Accept => {
                self.phase = Phase::Command;
                let mut t = String::from_str("2.0.0 Ok: queued as ");
                t.append(queue_id);
                Reply::from_string(250, t)
            },
            Decision::Reject(r) => {
                self.phase = Phase::Command;
                r
            },
            Decision::DenyClose(r) => {
                self.phase = Phase::Closed;
                r
            },
        }
    }
}

} // verus!
