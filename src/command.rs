//! The command parser: one command line to a verb with its arguments.
use vstd::prelude::*;
use crate::framing::{copy_range, find_byte, find_from, SP};
use crate::params::{
    mail_params, parse_mail_params, parse_rcpt_params, rcpt_params, MailParams, MailParamsV,
    RcptParams, RcptParamsV,
};

verus! {

pub const LESS: u8 = 60;

pub const GREATER: u8 = 62;

/// The ASCII upper case of a byte.
pub open spec fn upper(b: u8) -> u8 {
    if 97 <= b <= 122 {
        (b - 32) as u8
    } else {
        b
    }
}

/// `s` is the keyword `kw` (written in upper case), in any case.
pub open spec fn eq_ci(s: Seq<u8>, kw: Seq<u8>) -> bool {
    &&& s.len() == kw.len()
    &&& forall|i: int| 0 <= i < s.len() ==> upper(#[trigger] s[i]) == kw[i]
}

pub open spec fn kw_helo() -> Seq<u8> {
    seq![72u8, 69, 76, 79]
}

pub open spec fn kw_ehlo() -> Seq<u8> {
    seq![69u8, 72, 76, 79]
}

pub open spec fn kw_mail() -> Seq<u8> {
    seq![77u8, 65, 73, 76]
}

pub open spec fn kw_rcpt() -> Seq<u8> {
    seq![82u8, 67, 80, 84]
}

pub open spec fn kw_data() -> Seq<u8> {
    seq![68u8, 65, 84, 65]
}

pub open spec fn kw_rset() -> Seq<u8> {
    seq![82u8, 83, 69, 84]
}

pub open spec fn kw_quit() -> Seq<u8> {
    seq![81u8, 85, 73, 84]
}

pub open spec fn kw_noop() -> Seq<u8> {
    seq![78u8, 79, 79, 80]
}

pub open spec fn kw_help() -> Seq<u8> {
    seq![72u8, 69, 76, 80]
}

pub open spec fn kw_vrfy() -> Seq<u8> {
    seq![86u8, 82, 70, 89]
}

pub open spec fn kw_starttls() -> Seq<u8> {
    seq![83u8, 84, 65, 82, 84, 84, 76, 83]
}

pub open spec fn kw_auth() -> Seq<u8> {
    seq![65u8, 85, 84, 72]
}

/// `FROM:`
pub open spec fn kw_from() -> Seq<u8> {
    seq![70u8, 82, 79, 77, 58]
}

/// `TO:`
pub open spec fn kw_to() -> Seq<u8> {
    seq![84u8, 79, 58]
}

/// Why a command line was refused.
#[derive(Debug, PartialEq, Eq, Clone, Copy)]
pub enum ParseArgsError {
    /// The arguments do not follow the command's grammar.
    Syntax,
    /// A path is not between angle brackets, or is empty where it may not be.
    BadAddress,
    /// A known parameter with a value that it does not take.
    BadParameter,
    /// A parameter that the server does not know.
    UnknownParameter,
    /// A parameter given twice.
    DuplicateParameter,
    /// A number too large to be held.
    ValueOutOfRange,
}

/// A command, as the parser gives it.
pub ghost enum VerbV {
    Helo(Seq<u8>),
    Ehlo(Seq<u8>),
    MailFrom(Seq<u8>, MailParamsV),
    RcptTo(Seq<u8>, RcptParamsV),
    Data,
    Rset,
    Quit,
    Noop,
    Help,
    Vrfy(Seq<u8>),
    StartTls,
    Auth(Seq<u8>, Option<Seq<u8>>),
    Unknown,
}

/// The arguments of MAIL FROM.
pub struct MailFromArgs {
    /// Between the angle brackets; empty for the null reverse-path `<>`.
    pub reverse_path: Vec<u8>,
    /// The ESMTP parameters that follow.
    pub params: MailParams,
}

/// The arguments of RCPT TO.
pub struct RcptToArgs {
    /// Between the angle brackets; never empty.
    pub forward_path: Vec<u8>,
    /// The ESMTP parameters that follow.
    pub params: RcptParams,
}

/// The arguments of AUTH.
pub struct AuthArgs {
    /// The mechanism name, in upper case.
    pub mechanism: Vec<u8>,
    /// The initial response, still base64-encoded.
    pub initial_response: Option<Vec<u8>>,
}

/// A command received from the client.
pub enum Verb {
    Helo(Vec<u8>),
    Ehlo(Vec<u8>),
    MailFrom(MailFromArgs),
    RcptTo(RcptToArgs),
    Data,
    Rset,
    Quit,
    Noop,
    Help,
    Vrfy(Vec<u8>),
    StartTls,
    Auth(AuthArgs),
    Unknown,
}

impl View for Verb {
    type V = VerbV;

    open spec fn view(&self) -> VerbV {
        match self {
            Verb::Helo(a) => VerbV::Helo(a@),
            Verb::Ehlo(a) => VerbV::Ehlo(a@),
            Verb::MailFrom(a) => VerbV::MailFrom(a.reverse_path@, a.params@),
            Verb::RcptTo(a) => VerbV::RcptTo(a.forward_path@, a.params@),
            Verb::Data => VerbV::Data,
            Verb::Rset => VerbV::Rset,
            Verb::Quit => VerbV::Quit,
            Verb::Noop => VerbV::Noop,
            Verb::Help => VerbV::Help,
            Verb::Vrfy(a) => VerbV::Vrfy(a@),
            Verb::StartTls => VerbV::StartTls,
            Verb::Auth(a) => VerbV::Auth(
                a.mechanism@,
                match a.initial_response {
                    Some(r) => Some(r@),
                    None => None,
                },
            ),
            Verb::Unknown => VerbV::Unknown,
        }
    }
}

/// Where the verb of a line ends: at its first space, or at its end.
pub open spec fn verb_end(l: Seq<u8>) -> int {
    match find_from(l, 0, SP) {
        Some(i) => i,
        None => l.len() as int,
    }
}

/// What follows the first space of a line, if it has one.
pub open spec fn argument(l: Seq<u8>) -> Option<Seq<u8>> {
    match find_from(l, 0, SP) {
        Some(i) => Some(l.subrange(i + 1, l.len() as int)),
        None => None,
    }
}

/// An argument that must be there and not be empty.
pub open spec fn required(a: Option<Seq<u8>>) -> Result<Seq<u8>, ParseArgsError> {
    match a {
        Some(s) => if s.len() > 0 {
            Ok(s)
        } else {
            Err(ParseArgsError::Syntax)
        },
        None => Err(ParseArgsError::Syntax),
    }
}

/// `FROM:<path> params` or `TO:<path> params`: the path and the text of the
/// parameters.
pub open spec fn parse_path(a: Seq<u8>, kw: Seq<u8>, allow_empty: bool) -> Result<
    (Seq<u8>, Seq<u8>),
    ParseArgsError,
> {
    let k = kw.len() as int;
    if a.len() < k || !eq_ci(a.subrange(0, k), kw) {
        Err(ParseArgsError::Syntax)
    } else if a.len() <= k || a[k] != LESS {
        Err(ParseArgsError::BadAddress)
    } else {
        match find_from(a, k + 1, GREATER) {
            None => Err(ParseArgsError::BadAddress),
            Some(g) => {
                let path = a.subrange(k + 1, g);
                if path.len() == 0 && !allow_empty {
                    Err(ParseArgsError::BadAddress)
                } else if g + 1 == a.len() {
                    Ok((path, Seq::empty()))
                } else if a[g + 1] == SP {
                    Ok((path, a.subrange(g + 2, a.len() as int)))
                } else {
                    Err(ParseArgsError::Syntax)
                }
            },
        }
    }
}

/// `mechanism [initial-response]`, the mechanism in upper case.
pub open spec fn parse_auth(a: Seq<u8>) -> (Seq<u8>, Option<Seq<u8>>) {
    match find_from(a, 0, SP) {
        Some(i) => (a.subrange(0, i).map_values(|b: u8| upper(b)), Some(a.subrange(i + 1, a.len() as int))),
        None => (a.map_values(|b: u8| upper(b)), None),
    }
}

/// The command that a line (without its CRLF) holds.
pub open spec fn parse_spec(l: Seq<u8>) -> Result<VerbV, ParseArgsError> {
    let v = l.subrange(0, verb_end(l));
    let arg = argument(l);
    if eq_ci(v, kw_helo()) {
        match required(arg) {
            Ok(a) => Ok(VerbV::Helo(a)),
            Err(e) => Err(e),
        }
    } else if eq_ci(v, kw_ehlo()) {
        match required(arg) {
            Ok(a) => Ok(VerbV::Ehlo(a)),
            Err(e) => Err(e),
        }
    } else if eq_ci(v, kw_mail()) {
        match arg {
            None => Err(ParseArgsError::Syntax),
            Some(a) => match parse_path(a, kw_from(), true) {
                Ok((p, q)) => match mail_params(q) {
                    Ok(m) => Ok(VerbV::MailFrom(p, m)),
                    Err(e) => Err(e),
                },
                Err(e) => Err(e),
            },
        }
    } else if eq_ci(v, kw_rcpt()) {
        match arg {
            None => Err(ParseArgsError::Syntax),
            Some(a) => match parse_path(a, kw_to(), false) {
                Ok((p, q)) => match rcpt_params(q) {
                    Ok(m) => Ok(VerbV::RcptTo(p, m)),
                    Err(e) => Err(e),
                },
                Err(e) => Err(e),
            },
        }
    } else if eq_ci(v, kw_data()) {
        if arg is None {
            Ok(VerbV::Data)
        } else {
            Err(ParseArgsError::Syntax)
        }
    } else if eq_ci(v, kw_rset()) {
        Ok(VerbV::Rset)
    } else if eq_ci(v, kw_quit()) {
        Ok(VerbV::Quit)
    } else if eq_ci(v, kw_noop()) {
        Ok(VerbV::Noop)
    } else if eq_ci(v, kw_help()) {
        Ok(VerbV::Help)
    } else if eq_ci(v, kw_vrfy()) {
        match required(arg) {
            Ok(a) => Ok(VerbV::Vrfy(a)),
            Err(e) => Err(e),
        }
    } else if eq_ci(v, kw_starttls()) {
        if arg is None {
            Ok(VerbV::StartTls)
        } else {
            Err(ParseArgsError::Syntax)
        }
    } else if eq_ci(v, kw_auth()) {
        match required(arg) {
            Ok(a) => Ok(VerbV::Auth(parse_auth(a).0, parse_auth(a).1)),
            Err(e) => Err(e),
        }
    } else {
        Ok(VerbV::Unknown)
    }
}

pub open spec fn parsed_view(r: Result<Verb, ParseArgsError>) -> Result<VerbV, ParseArgsError> {
    match r {
        Ok(v) => Ok(v@),
        Err(e) => Err(e),
    }
}

fn upper_byte(b: u8) -> (r: u8)
    ensures
        r == upper(b),
{
    if 97 <= b && b <= 122 {
        b - 32
    } else {
        b
    }
}

/// Whether `s[a..b]` is the keyword `kw`, in any case.
pub(crate) fn matches_keyword(s: &[u8], a: usize, b: usize, kw: &[u8]) -> (r: bool)
    requires
        a <= b <= s@.len(),
    ensures
        r == eq_ci(s@.subrange(a as int, b as int), kw@),
{
    if b - a != kw.len() {
        return false;
    }
    let mut i: usize = 0;
    while i < kw.len()
        invariant
            b - a == kw@.len(),
            a <= b <= s@.len(),
            i <= kw@.len(),
            forall|j: int| 0 <= j < i ==> upper(#[trigger] s@.subrange(a as int, b as int)[j]) == kw@[j],
        decreases kw.len() - i,
    {
        if upper_byte(s[a + i]) != kw[i] {
            assert(s@.subrange(a as int, b as int)[i as int] == s@[a + i]);
            return false;
        }
        i += 1;
    }
    true
}

fn upper_range(s: &[u8], a: usize, b: usize) -> (r: Vec<u8>)
    requires
        a <= b <= s@.len(),
    ensures
        r@ == s@.subrange(a as int, b as int).map_values(|x: u8| upper(x)),
{
    let mut r: Vec<u8> = Vec::new();
    let mut i: usize = a;
    while i < b
        invariant
            a <= i <= b <= s@.len(),
            r@ == s@.subrange(a as int, i as int).map_values(|x: u8| upper(x)),
        decreases b - i,
    {
        r.push(upper_byte(s[i]));
        assert(r@ =~= s@.subrange(a as int, i + 1).map_values(|x: u8| upper(x)));
        i += 1;
    }
    r
}

/// Parses the path argument of MAIL or RCPT, which starts at `start`.
fn parse_path_at(l: &[u8], start: usize, kw: &[u8], allow_empty: bool) -> (r: Result<
    (Vec<u8>, Vec<u8>),
    ParseArgsError,
>)
    requires
        start <= l@.len(),
    ensures
        match (r, parse_path(l@.subrange(start as int, l@.len() as int), kw@, allow_empty)) {
            (Ok((p, q)), Ok((ps, qs))) => p@ == ps && q@ == qs,
            (Err(e), Err(es)) => e == es,
            _ => false,
        },
{
    let ghost a = l@.subrange(start as int, l@.len() as int);
    let n = l.len();
    let k = kw.len();
    if n - start < k || !matches_keyword(l, start, start + k, kw) {
        proof {
            if a.len() >= k {
                assert(a.subrange(0, k as int) =~= l@.subrange(start as int, start + k));
            }
        }
        return Err(ParseArgsError::Syntax);
    }
    assert(a.subrange(0, k as int) =~= l@.subrange(start as int, start + k));
    let p = start + k;
    if n <= p || l[p] != LESS {
        return Err(ParseArgsError::BadAddress);
    }
    match find_byte(l, p + 1, GREATER) {
        None => {
            proof {
                if let Some(g) = find_from(a, k + 1, GREATER) {
                    assert(crate::framing::is_first_from(a, k + 1, GREATER, g));
                    assert(crate::framing::is_first_from(l@, p + 1, GREATER, g + start));
                    crate::framing::lemma_find_from(l@, p + 1, GREATER, g + start);
                }
            }
            Err(ParseArgsError::BadAddress)
        },
        Some(g) => {
            proof {
                let gi = g as int;
                assert(crate::framing::is_first_from(a, k + 1, GREATER, gi - start));
                crate::framing::lemma_find_from(a, k + 1, GREATER, gi - start);
                assert(a.subrange(k + 1, gi - start) =~= l@.subrange(p + 1, gi));
            }
            let path = copy_range(l, p + 1, g);
            if g == p + 1 && !allow_empty {
                Err(ParseArgsError::BadAddress)
            } else if g + 1 == n {
                Ok((path, Vec::new()))
            } else if l[g + 1] == SP {
                proof {
                    assert(a.subrange(g - start + 2, a.len() as int) =~= l@.subrange(g + 2, n as int));
                }
                Ok((path, copy_range(l, g + 2, n)))
            } else {
                Err(ParseArgsError::Syntax)
            }
        },
    }
}

/// Parses one command line, given without its CRLF.
pub fn parse_command(l: &[u8]) -> (r: Result<Verb, ParseArgsError>)
    ensures
        parsed_view(r) == parse_spec(l@),
{
    let n = l.len();
    let sp = find_byte(l, 0, SP);
    let e: usize = match sp {
        Some(i) => i,
        None => n,
    };
    let ghost arg = argument(l@);
    proof {
        assert(verb_end(l@) == e as int);
    }
    let helo: [u8; 4] = [72u8, 69, 76, 79];
    let ehlo: [u8; 4] = [69u8, 72, 76, 79];
    let mail: [u8; 4] = [77u8, 65, 73, 76];
    let rcpt: [u8; 4] = [82u8, 67, 80, 84];
    let data: [u8; 4] = [68u8, 65, 84, 65];
    let rset: [u8; 4] = [82u8, 83, 69, 84];
    let quit: [u8; 4] = [81u8, 85, 73, 84];
    let noop: [u8; 4] = [78u8, 79, 79, 80];
    let help: [u8; 4] = [72u8, 69, 76, 80];
    let vrfy: [u8; 4] = [86u8, 82, 70, 89];
    let starttls: [u8; 8] = [83u8, 84, 65, 82, 84, 84, 76, 83];
    let auth: [u8; 4] = [65u8, 85, 84, 72];
    let from: [u8; 5] = [70u8, 82, 79, 77, 58];
    let to: [u8; 3] = [84u8, 79, 58];
    assert(helo@ == kw_helo());
    assert(ehlo@ == kw_ehlo());
    assert(mail@ == kw_mail());
    assert(rcpt@ == kw_rcpt());
    assert(data@ == kw_data());
    assert(rset@ == kw_rset());
    assert(quit@ == kw_quit());
    assert(noop@ == kw_noop());
    assert(help@ == kw_help());
    assert(vrfy@ == kw_vrfy());
    assert(starttls@ == kw_starttls());
    assert(auth@ == kw_auth());
    assert(from@ == kw_from());
    assert(to@ == kw_to());
    // the argument, when the line has one, starts after the space
    let has_arg = sp.is_some();
    let a0: usize = if has_arg {
        e + 1
    } else {
        n
    };
    proof {
        if has_arg {
            assert(arg == Some(l@.subrange(a0 as int, n as int)));
        } else {
            assert(arg is None);
        }
    }
    let arg_len: usize = n - a0;
    if matches_keyword(l, 0, e, &helo) {
        if has_arg && arg_len > 0 {
            Ok(Verb::Helo(copy_range(l, a0, n)))
        } else {
            Err(ParseArgsError::Syntax)
        }
    } else if matches_keyword(l, 0, e, &ehlo) {
        if has_arg && arg_len > 0 {
            Ok(Verb::Ehlo(copy_range(l, a0, n)))
        } else {
            Err(ParseArgsError::Syntax)
        }
    } else if matches_keyword(l, 0, e, &mail) {
        if !has_arg {
            Err(ParseArgsError::Syntax)
        } else {
            match parse_path_at(l, a0, &from, true) {
                Ok((p, q)) => match parse_mail_params(q.as_slice()) {
                    Ok(m) => Ok(Verb::MailFrom(MailFromArgs { reverse_path: p, params: m })),
                    Err(x) => Err(x),
                },
                Err(x) => Err(x),
            }
        }
    } else if matches_keyword(l, 0, e, &rcpt) {
        if !has_arg {
            Err(ParseArgsError::Syntax)
        } else {
            match parse_path_at(l, a0, &to, false) {
                Ok((p, q)) => match parse_rcpt_params(q.as_slice()) {
                    Ok(m) => Ok(Verb::RcptTo(RcptToArgs { forward_path: p, params: m })),
                    Err(x) => Err(x),
                },
                Err(x) => Err(x),
            }
        }
    } else if matches_keyword(l, 0, e, &data) {
        if has_arg {
            Err(ParseArgsError::Syntax)
        } else {
            Ok(Verb::Data)
        }
    } else if matches_keyword(l, 0, e, &rset) {
        Ok(Verb::Rset)
    } else if matches_keyword(l, 0, e, &quit) {
        Ok(Verb::Quit)
    } else if matches_keyword(l, 0, e, &noop) {
        Ok(Verb::Noop)
    } else if matches_keyword(l, 0, e, &help) {
        Ok(Verb::Help)
    } else if matches_keyword(l, 0, e, &vrfy) {
        if has_arg && arg_len > 0 {
            Ok(Verb::Vrfy(copy_range(l, a0, n)))
        } else {
            Err(ParseArgsError::Syntax)
        }
    } else if matches_keyword(l, 0, e, &starttls) {
        if has_arg {
            Err(ParseArgsError::Syntax)
        } else {
            Ok(Verb::StartTls)
        }
    } else if matches_keyword(l, 0, e, &auth) {
        if has_arg && arg_len > 0 {
            Ok(Verb::Auth(parse_auth_at(l, a0)))
        } else {
            Err(ParseArgsError::Syntax)
        }
    } else {
        Ok(Verb::Unknown)
    }
}

fn parse_auth_at(l: &[u8], start: usize) -> (r: AuthArgs)
    requires
        start <= l@.len(),
    ensures
        (r.mechanism@, match r.initial_response {
            Some(x) => Some(x@),
            None => None,
        }) == parse_auth(l@.subrange(start as int, l@.len() as int)),
{
    let ghost a = l@.subrange(start as int, l@.len() as int);
    let n = l.len();
    match find_byte(l, start, SP) {
        Some(i) => {
            proof {
                assert(crate::framing::is_first_from(a, 0, SP, i - start));
                crate::framing::lemma_find_from(a, 0, SP, i - start);
                assert(a.subrange(0, i - start) =~= l@.subrange(start as int, i as int));
                assert(a.subrange(i - start + 1, a.len() as int) =~= l@.subrange(i + 1, n as int));
            }
            AuthArgs { mechanism: upper_range(l, start, i), initial_response: Some(copy_range(l, i + 1, n)) }
        },
        None => {
            proof {
                if let Some(g) = find_from(a, 0, SP) {
                    assert(crate::framing::is_first_from(a, 0, SP, g));
                    assert(crate::framing::is_first_from(l@, start as int, SP, g + start));
                    crate::framing::lemma_find_from(l@, start as int, SP, g + start);
                }
            }
            AuthArgs { mechanism: upper_range(l, start, n), initial_response: None }
        },
    }
}

} // verus!
