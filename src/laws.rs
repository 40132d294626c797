//! What holds of every session, whatever the client sends and whatever the
//! handler decides.
use vstd::prelude::*;
use crate::command::{parse_spec, VerbV};
use crate::framing::{
    is_terminator, lemma_unstuff_stuff, stuff_line, well_framed, CR, DOT, LF, MAX_COMMAND_LINE,
};
use crate::receiver::{
    after_message, after_tls, command_step, verb_step, auth_line_step, bad_sequence, line_hook, AuthOutcome, data_step, error_step, line_too_long, step, ActionV, Config, DecisionV, Phase,
    SessionV,
};

verus! {

/// How many final replies an action stands for: the one it carries, or the
/// one that ends the exchange it starts (the SASL outcome, whose 334
/// challenges are not counted, or the verdict on the mail data).
pub open spec fn replies_owed(a: ActionV) -> nat {
    match a {
        ActionV::Continue => 0,
        _ => 1,
    }
}

/// Every command line is answered by exactly one reply; in the data phase
/// only the terminator is.
pub proof fn law_one_reply_per_command(c: Config, s: SessionV, l: Seq<u8>, d: DecisionV)
    requires
        s.phase == Phase::Command || s.phase == Phase::Data,
    ensures
        s.phase == Phase::Command ==> replies_owed(step(c, s, l, d).1) == 1,
        s.phase == Phase::Data ==> replies_owed(step(c, s, l, d).1) == if is_terminator(l) {
            1nat
        } else {
            0nat
        },
{
}

/// Runs the lines `ls` with the decisions `ds` while the session reads lines:
/// the session after them, the replies owed, and the lines that call for a
/// reply (the commands, and the terminator of the mail data).
pub open spec fn run(c: Config, s: SessionV, ls: Seq<Seq<u8>>, ds: Seq<DecisionV>) -> (
    SessionV,
    nat,
    nat,
)
    decreases ls.len(),
{
    if ls.len() == 0 || ds.len() == 0 || !(s.phase == Phase::Command || s.phase == Phase::Data) {
        (s, 0, 0)
    } else {
        let (s1, a) = step(c, s, ls[0], ds[0]);
        let rest = run(c, s1, ls.drop_first(), ds.drop_first());
        (
            rest.0,
            rest.1 + replies_owed(a),
            rest.2 + if s.phase == Phase::Command || is_terminator(ls[0]) {
                1nat
            } else {
                0nat
            },
        )
    }
}

/// Over any run of lines, the replies are as many as the commands sent, the
/// lines of the mail data not counted.
pub proof fn law_replies_match_commands(
    c: Config,
    s: SessionV,
    ls: Seq<Seq<u8>>,
    ds: Seq<DecisionV>,
)
    ensures
        run(c, s, ls, ds).1 == run(c, s, ls, ds).2,
    decreases ls.len(),
{
    if ls.len() == 0 || ds.len() == 0 || !(s.phase == Phase::Command || s.phase == Phase::Data) {
    } else {
        law_one_reply_per_command(c, s, ls[0], ds[0]);
        law_replies_match_commands(c, step(c, s, ls[0], ds[0]).0, ls.drop_first(), ds.drop_first());
    }
}

/// What happens to a session: a line from the client with the handler's
/// decision, a line within a SASL exchange, the outcome of that exchange, the
/// end of a TLS handshake, or the handler's verdict on a message.
pub ghost enum EventV {
    Line(Seq<u8>, DecisionV),
    AuthLine(Seq<u8>),
    AuthDone(AuthOutcome),
    TlsDone(bool),
    MessageDone(DecisionV),
}

/// A reply is owed for the exchange under way: a SASL exchange, or a message
/// waiting for the handler.
pub open spec fn owed(p: Phase) -> nat {
    if p == Phase::Authenticating || p == Phase::Delivering {
        1
    } else {
        0
    }
}

/// Whether the event can come in the session's phase.
pub open spec fn fits(s: SessionV, e: EventV) -> bool {
    match e {
        EventV::Line(_, _) => s.phase == Phase::Command || s.phase == Phase::Data,
        EventV::AuthLine(_) => s.phase == Phase::Authenticating,
        EventV::AuthDone(_) => s.phase == Phase::Authenticating,
        EventV::TlsDone(_) => s.phase == Phase::TlsPending,
        EventV::MessageDone(_) => s.phase == Phase::Delivering,
    }
}

/// One event: the session after it, the replies sent (334 challenges not
/// counted), and the commands it stands for (the data terminator counted as
/// one, the other data lines not).
pub open spec fn event_step(c: Config, s: SessionV, e: EventV) -> (SessionV, nat, nat) {
    match e {
        EventV::Line(l, d) => {
            let (s1, a) = step(c, s, l, d);
            (
                s1,
                match a {
                    ActionV::Reply(_) => 1nat,
                    ActionV::Close(_) => 1nat,
                    ActionV::StartTls(_) => 1nat,
                    _ => 0nat,
                },
                if s.phase == Phase::Command || is_terminator(l) {
                    1nat
                } else {
                    0nat
                },
            )
        },
        EventV::AuthLine(l) => {
            let (s1, r) = auth_line_step(s, l);
            (
                s1,
                if r is Some {
                    1nat
                } else {
                    0nat
                },
                0,
            )
        },
        EventV::AuthDone(o) => (
            SessionV {
                phase: Phase::Command,
                authenticated: s.authenticated || o is Success,
                ..s
            },
            1,
            0,
        ),
        EventV::TlsDone(ok) => (
            if ok {
                after_tls(s)
            } else {
                SessionV { phase: Phase::Closed, ..s }
            },
            0,
            0,
        ),
        EventV::MessageDone(d) => (after_message(s, d), 1, 0),
    }
}

/// A run of events, stopped at the first that does not fit: the session
/// after it, the replies sent, and the commands.
pub open spec fn run_events(c: Config, s: SessionV, es: Seq<EventV>) -> (SessionV, nat, nat)
    decreases es.len(),
{
    if es.len() == 0 || !fits(s, es[0]) {
        (s, 0, 0)
    } else {
        let (s1, r, k) = event_step(c, s, es[0]);
        let rest = run_events(c, s1, es.drop_first());
        (rest.0, rest.1 + r, rest.2 + k)
    }
}

/// A reply sent at once, or an exchange opened that owes one.
pub open spec fn answers_now(a: ActionV, next: Phase) -> bool {
    match a {
        ActionV::Reply(_) => owed(next) == 0,
        ActionV::Close(_) => owed(next) == 0,
        ActionV::StartTls(_) => owed(next) == 0,
        ActionV::Authenticate(_, _) => next == Phase::Authenticating,
        _ => false,
    }
}

proof fn lemma_verb_balance(c: Config, s: SessionV, v: VerbV, d: DecisionV)
    requires
        s.phase == Phase::Command,
    ensures
        answers_now(verb_step(c, s, v, d).1, verb_step(c, s, v, d).0.phase),
{
    match v {
        VerbV::Helo(_) => {},
        VerbV::Ehlo(_) => {},
        VerbV::MailFrom(_, _) => {},
        VerbV::RcptTo(_, _) => {},
        VerbV::Data => {},
        VerbV::Rset => {},
        VerbV::Quit => {},
        VerbV::Noop => {},
        VerbV::Help => {},
        VerbV::Vrfy(_) => {},
        VerbV::StartTls => {},
        VerbV::Auth(_, _) => {},
        VerbV::Unknown => {},
    }
}

proof fn lemma_command_balance(c: Config, s: SessionV, l: Seq<u8>, d: DecisionV)
    requires
        s.phase == Phase::Command,
    ensures
        answers_now(command_step(c, s, l, d).1, command_step(c, s, l, d).0.phase),
{
    if l.len() <= MAX_COMMAND_LINE && well_framed(l) {
        if let Ok(v) = parse_spec(l) {
            lemma_verb_balance(c, s, v, d);
        }
    }
}

proof fn lemma_event_balance(c: Config, s: SessionV, e: EventV)
    requires
        fits(s, e),
    ensures
        event_step(c, s, e).1 + owed(event_step(c, s, e).0.phase) == event_step(c, s, e).2
            + owed(s.phase),
{
    match e {
        EventV::Line(l, d) => {
            if s.phase == Phase::Command {
                lemma_command_balance(c, s, l, d);
            }
        },
        _ => {},
    }
}

/// Over a whole session, SASL exchanges, TLS upgrades and deliveries
/// included, every command is answered by exactly one reply, once the
/// exchange it opened has ended.
pub proof fn law_session_replies(c: Config, s: SessionV, es: Seq<EventV>)
    ensures
        run_events(c, s, es).1 + owed(run_events(c, s, es).0.phase) == run_events(c, s, es).2
            + owed(s.phase),
    decreases es.len(),
{
    if es.len() > 0 && fits(s, es[0]) {
        lemma_event_balance(c, s, es[0]);
        law_session_replies(c, event_step(c, s, es[0]).0, es.drop_first());
    }
}

/// The lines of a message, each ended by CRLF.
pub open spec fn crlf_lines(ls: Seq<Seq<u8>>) -> Seq<u8>
    decreases ls.len(),
{
    if ls.len() == 0 {
        Seq::empty()
    } else {
        ls[0] + seq![CR, LF] + crlf_lines(ls.drop_first())
    }
}

/// The session after the data lines `ls`.
pub open spec fn feed_data(c: Config, s: SessionV, ls: Seq<Seq<u8>>) -> SessionV
    decreases ls.len(),
{
    if ls.len() == 0 {
        s
    } else {
        feed_data(c, data_step(c, s, ls[0]).0, ls.drop_first())
    }
}

/// A body within the size limit, sent dot-stuffed and followed by the
/// terminator, is held, once delivered, byte for byte as it was before
/// stuffing.
pub proof fn law_data_transparency(c: Config, s: SessionV, body: Seq<Seq<u8>>, d: DecisionV)
    requires
        s.phase == Phase::Data,
        s.data.len() == 0,
        !s.oversized,
        crlf_lines(body).len() <= c.max_message_size,
    ensures
        feed_data(c, s, body.map_values(|l: Seq<u8>| stuff_line(l))).phase == Phase::Data,
        feed_data(c, s, body.map_values(|l: Seq<u8>| stuff_line(l))).data == crlf_lines(body),
        step(c, feed_data(c, s, body.map_values(|l: Seq<u8>| stuff_line(l))), seq![DOT], d).1
            == ActionV::Deliver,
        step(c, feed_data(c, s, body.map_values(|l: Seq<u8>| stuff_line(l))), seq![DOT], d).0.phase
            == Phase::Delivering,
{
    lemma_feed_stuffed(c, s, body);
    assert(s.data + crlf_lines(body) =~= crlf_lines(body));
}

proof fn lemma_feed_stuffed(c: Config, s: SessionV, body: Seq<Seq<u8>>)
    requires
        s.phase == Phase::Data,
        !s.oversized,
        s.data.len() + crlf_lines(body).len() <= c.max_message_size,
    ensures
        feed_data(c, s, body.map_values(|l: Seq<u8>| stuff_line(l))).phase == Phase::Data,
        feed_data(c, s, body.map_values(|l: Seq<u8>| stuff_line(l))).data == s.data + crlf_lines(
            body,
        ),
        feed_data(c, s, body.map_values(|l: Seq<u8>| stuff_line(l))) == (SessionV {
            data: s.data + crlf_lines(body),
            ..s
        }),
    decreases body.len(),
{
    let stuffed = body.map_values(|l: Seq<u8>| stuff_line(l));
    if body.len() == 0 {
        assert(s.data + crlf_lines(body) =~= s.data);
    } else {
        lemma_unstuff_stuff(body[0]);
        let s1 = data_step(c, s, stuffed[0]).0;
        assert(crlf_lines(body).len() == body[0].len() + 2 + crlf_lines(body.drop_first()).len());
        assert(s1.data == s.data + body[0] + seq![CR, LF]);
        assert(stuffed.drop_first() =~= body.drop_first().map_values(|l: Seq<u8>| stuff_line(l)));
        lemma_feed_stuffed(c, s1, body.drop_first());
        assert(s.data + body[0] + seq![CR, LF] + crlf_lines(body.drop_first()) =~= s.data
            + crlf_lines(body));
    }
}

/// The handler's decision matters only where the line consults a hook: on
/// every other line the session does the same whatever the handler says.
pub proof fn law_decision_only_where_hooked(c: Config, s: SessionV, l: Seq<u8>, d: DecisionV)
    requires
        s.phase == Phase::Command,
        line_hook(c, s, l) is None,
    ensures
        step(c, s, l, d) == step(c, s, l, DecisionV::Accept),
{
}

/// After an accepted RSET the envelope is gone and the greeting kept; from
/// there no RCPT or DATA is accepted, so MAIL is the only way forward.
pub proof fn law_rset(c: Config, s: SessionV, l: Seq<u8>, d: DecisionV)
    requires
        s.phase == Phase::Command,
        l.len() <= MAX_COMMAND_LINE,
        well_framed(l),
        parse_spec(l) == Ok::<VerbV, crate::command::ParseArgsError>(VerbV::Rset),
        s.hello is Some,
        d is Accept,
    ensures
        step(c, s, l, d).0.envelope is None,
        step(c, s, l, d).0.hello == s.hello,
        step(c, s, l, d).0.phase == Phase::Command,
        forall|l2: Seq<u8>|
            (parse_spec(l2) matches Ok(VerbV::RcptTo(_, _)) || parse_spec(l2) matches Ok(
                VerbV::Data,
            )) ==> #[trigger] line_hook(c, step(c, s, l, d).0, l2) is None,
        forall|l2: Seq<u8>, d2: DecisionV|
            l2.len() <= MAX_COMMAND_LINE && well_framed(l2) && (parse_spec(l2) matches Ok(VerbV::RcptTo(_, _))
                || parse_spec(l2) matches Ok(VerbV::Data)) ==> #[trigger] step(
                c,
                step(c, s, l, d).0,
                l2,
                d2,
            ) == error_step(c, step(c, s, l, d).0, bad_sequence()),
{
}

/// After a successful TLS handshake nothing negotiated before remains, and
/// only EHLO or HELO can give the session a greeting again.
pub proof fn law_starttls_resets(c: Config, s: SessionV)
    requires
        s.phase == Phase::TlsPending,
    ensures
        after_tls(s).hello is None,
        !after_tls(s).authenticated,
        after_tls(s).envelope is None,
        after_tls(s).is_tls,
        forall|l2: Seq<u8>, d2: DecisionV| #[trigger]
            step(c, after_tls(s), l2, d2).0.hello is Some ==> l2.len() <= MAX_COMMAND_LINE
                && well_framed(l2) && (
            parse_spec(l2) matches Ok(VerbV::Helo(_)) || parse_spec(l2) matches Ok(
                VerbV::Ehlo(_),
            )),
        forall|l2: Seq<u8>, d2: DecisionV|
            l2.len() <= MAX_COMMAND_LINE && well_framed(l2) && (parse_spec(l2) matches Ok(VerbV::MailFrom(_, _))
                || parse_spec(l2) matches Ok(VerbV::RcptTo(_, _)) || parse_spec(l2) matches Ok(
                VerbV::Data,
            )) ==> #[trigger] step(c, after_tls(s), l2, d2) == error_step(
                c,
                after_tls(s),
                bad_sequence(),
            ),
{
}

/// After a successful TLS handshake the handler is not consulted on MAIL,
/// RCPT or DATA: the session refuses them until the client greets again.
pub proof fn law_no_mail_hooks_after_tls(c: Config, s: SessionV, l2: Seq<u8>)
    requires
        s.phase == Phase::TlsPending,
        parse_spec(l2) matches Ok(VerbV::MailFrom(_, _)) || parse_spec(l2) matches Ok(
            VerbV::RcptTo(_, _),
        ) || parse_spec(l2) matches Ok(VerbV::Data),
    ensures
        line_hook(c, after_tls(s), l2) is None,
{
}

/// A command line longer than 1000 octets with its CRLF is answered with 500
/// and changes nothing but the error count, while the error budget lasts.
pub proof fn law_long_line(c: Config, s: SessionV, l: Seq<u8>, d: DecisionV)
    requires
        s.phase == Phase::Command,
        l.len() > MAX_COMMAND_LINE,
        s.errors + 1 < c.hard_error_limit,
    ensures
        step(c, s, l, d) == (
            SessionV { errors: (s.errors + 1) as u64, ..s },
            ActionV::Reply(line_too_long()),
        ),
        line_too_long().code == 500,
{
}

} // verus!
