//! The ESMTP parameters of MAIL FROM and RCPT TO: `KEY` or `KEY=VALUE`,
//! separated by single spaces.
use vstd::prelude::*;
use crate::command::{eq_ci, matches_keyword, ParseArgsError};
use crate::framing::{copy_range, find_byte, find_from, SP};

verus! {

pub const EQUALS: u8 = 61;

pub const PLUS: u8 = 43;

pub const COMMA: u8 = 44;

pub const SEMICOLON: u8 = 59;

/// `p` cut at every `sep`; an empty `p` is one empty piece.
pub open spec fn split(p: Seq<u8>, sep: u8) -> Seq<Seq<u8>>
    decreases p.len(),
{
    if p.len() == 0 {
        seq![Seq::empty()]
    } else {
        let t = split(p.drop_last(), sep);
        if p.last() == sep {
            t.push(Seq::empty())
        } else {
            t.update(t.len() - 1, t.last().push(p.last()))
        }
    }
}

pub proof fn lemma_split_len(p: Seq<u8>, sep: u8)
    ensures
        split(p, sep).len() >= 1,
    decreases p.len(),
{
    if p.len() > 0 {
        lemma_split_len(p.drop_last(), sep);
    }
}

pub open spec fn bytes_view(v: Seq<Vec<u8>>) -> Seq<Seq<u8>> {
    v.map_values(|x: Vec<u8>| x@)
}

/// Cuts `p` at every `sep`.
pub fn split_bytes(p: &[u8], sep: u8) -> (r: Vec<Vec<u8>>)
    ensures
        bytes_view(r@) == split(p@, sep),
{
    let mut done: Vec<Vec<u8>> = Vec::new();
    let mut cur: Vec<u8> = Vec::new();
    let mut i: usize = 0;
    while i < p.len()
        invariant
            i <= p@.len(),
            split(p@.subrange(0, i as int), sep) == bytes_view(done@).push(cur@),
        decreases p.len() - i,
    {
        assert(p@.subrange(0, i + 1).drop_last() =~= p@.subrange(0, i as int));
        proof {
            lemma_split_len(p@.subrange(0, i as int), sep);
        }
        if p[i] == sep {
            let ghost d = bytes_view(done@);
            let ghost c = cur@;
            done.push(cur);
            cur = Vec::new();
            assert(bytes_view(done@) =~= d.push(c));
            assert(bytes_view(done@).push(cur@) =~= d.push(c).push(Seq::empty()));
        } else {
            let ghost d = bytes_view(done@);
            cur.push(p[i]);
            assert(bytes_view(done@).push(cur@) =~= d.push(cur@.drop_last()).update(
                d.len() as int,
                cur@,
            ));
        }
        i += 1;
    }
    assert(p@.subrange(0, i as int) =~= p@);
    let ghost d = bytes_view(done@);
    done.push(cur);
    assert(bytes_view(done@) =~= d.push(cur@));
    done
}

/// A parameter list: no pieces when it is empty.
pub open spec fn param_tokens(p: Seq<u8>) -> Seq<Seq<u8>> {
    if p.len() == 0 {
        Seq::empty()
    } else {
        split(p, SP)
    }
}

/// A parameter's name, and its value when it has one.
pub open spec fn key_value(t: Seq<u8>) -> (Seq<u8>, Option<Seq<u8>>) {
    match find_from(t, 0, EQUALS) {
        Some(k) => (t.subrange(0, k), Some(t.subrange(k + 1, t.len() as int))),
        None => (t, None),
    }
}

fn split_key_value(t: &Vec<u8>) -> (r: (Vec<u8>, Option<Vec<u8>>))
    ensures
        (r.0@, match r.1 {
            Some(v) => Some(v@),
            None => None,
        }) == key_value(t@),
{
    let s = t.as_slice();
    let n = s.len();
    match find_byte(s, 0, EQUALS) {
        Some(k) => (copy_range(s, 0, k), Some(copy_range(s, k + 1, n))),
        None => (copy_range(s, 0, s.len()), None),
    }
}

pub open spec fn is_digit(b: u8) -> bool {
    48 <= b <= 57
}

/// The value of a string of decimal digits.
pub open spec fn digits_value(v: Seq<u8>) -> nat
    decreases v.len(),
{
    if v.len() == 0 {
        0
    } else {
        digits_value(v.drop_last()) * 10 + (v.last() - 48) as nat
    }
}

/// A decimal number: digits only, at least one.
pub open spec fn number(v: Seq<u8>) -> Result<u64, ParseArgsError> {
    if v.len() == 0 || !(forall|i: int| 0 <= i < v.len() ==> is_digit(#[trigger] v[i])) {
        Err(ParseArgsError::BadParameter)
    } else if digits_value(v) > u64::MAX {
        Err(ParseArgsError::ValueOutOfRange)
    } else {
        Ok(digits_value(v) as u64)
    }
}

proof fn lemma_digits_grow(v: Seq<u8>, i: int)
    requires
        0 <= i <= v.len(),
        forall|j: int| 0 <= j < v.len() ==> is_digit(#[trigger] v[j]),
    ensures
        digits_value(v.subrange(0, i)) <= digits_value(v),
    decreases v.len() - i,
{
    if i < v.len() {
        lemma_digits_grow(v, i + 1);
        assert(v.subrange(0, i + 1).drop_last() =~= v.subrange(0, i));
    } else {
        assert(v.subrange(0, i) =~= v);
    }
}

fn parse_number(v: &Vec<u8>) -> (r: Result<u64, ParseArgsError>)
    ensures
        r == number(v@),
{
    if v.len() == 0 {
        return Err(ParseArgsError::BadParameter);
    }
    let mut i: usize = 0;
    while i < v.len()
        invariant
            i <= v@.len(),
            forall|j: int| 0 <= j < i ==> is_digit(#[trigger] v@[j]),
        decreases v.len() - i,
    {
        if v[i] < 48 || v[i] > 57 {
            return Err(ParseArgsError::BadParameter);
        }
        i += 1;
    }
    let mut n: u64 = 0;
    let mut i: usize = 0;
    while i < v.len()
        invariant
            i <= v@.len(),
            forall|j: int| 0 <= j < v@.len() ==> is_digit(#[trigger] v@[j]),
            n == digits_value(v@.subrange(0, i as int)),
        decreases v.len() - i,
    {
        assert(v@.subrange(0, i + 1).drop_last() =~= v@.subrange(0, i as int));
        let d = (v[i] - 48) as u64;
        if n > (u64::MAX - d) / 10 {
            proof {
                assert(n * 10 + d > u64::MAX) by (nonlinear_arith)
                    requires
                        n > (u64::MAX - d) / 10,
                        d <= 9,
                ;
                lemma_digits_grow(v@, i + 1);
            }
            return Err(ParseArgsError::ValueOutOfRange);
        }
        assert(n * 10 + d <= u64::MAX) by (nonlinear_arith)
            requires
                n <= (u64::MAX - d) / 10,
                d <= 9,
        ;
        n = n * 10 + d;
        i += 1;
    }
    assert(v@.subrange(0, i as int) =~= v@);
    Ok(n)
}

pub open spec fn is_upper_hex(b: u8) -> bool {
    (48 <= b <= 57) || (65 <= b <= 70)
}

pub open spec fn hex_value(b: u8) -> u8 {
    if b <= 57 {
        (b - 48) as u8
    } else {
        (b - 55) as u8
    }
}

/// A character that stands for itself in xtext.
pub open spec fn is_xchar(b: u8) -> bool {
    33 <= b <= 126 && b != PLUS && b != EQUALS
}

/// The octets that an xtext (RFC 3461) stands for: `+HH` is the octet of
/// hexadecimal value HH.
pub open spec fn xtext(s: Seq<u8>) -> Option<Seq<u8>>
    decreases s.len(),
{
    if s.len() == 0 {
        Some(Seq::empty())
    } else if s[0] == PLUS {
        if s.len() >= 3 && is_upper_hex(s[1]) && is_upper_hex(s[2]) {
            match xtext(s.subrange(3, s.len() as int)) {
                Some(r) => Some(seq![(hex_value(s[1]) * 16 + hex_value(s[2])) as u8] + r),
                None => None,
            }
        } else {
            None
        }
    } else if is_xchar(s[0]) {
        match xtext(s.subrange(1, s.len() as int)) {
            Some(r) => Some(seq![s[0]] + r),
            None => None,
        }
    } else {
        None
    }
}

fn hex_digit(b: u8) -> (r: u8)
    requires
        is_upper_hex(b),
    ensures
        r == hex_value(b),
        r < 16,
{
    if b <= 57 {
        b - 48
    } else {
        b - 55
    }
}

/// Decodes an xtext.
pub fn decode_xtext(s: &[u8]) -> (r: Option<Vec<u8>>)
    ensures
        match r {
            Some(v) => xtext(s@) == Some(v@),
            None => xtext(s@) is None,
        },
{
    let n = s.len();
    let mut out: Vec<u8> = Vec::new();
    let mut i: usize = 0;
    proof {
        assert(s@.subrange(0, n as int) =~= s@);
        match xtext(s@) {
            Some(rest) => {
                assert(out@ + rest =~= rest);
            },
            None => {},
        }
    }
    while i < n
        invariant
            n == s@.len(),
            i <= n,
            xtext(s@) == match xtext(s@.subrange(i as int, n as int)) {
                Some(rest) => Some(out@ + rest),
                None => None,
            },
        decreases n - i,
    {
        let ghost t = s@.subrange(i as int, n as int);
        let b = s[i];
        if b == PLUS {
            if n - i >= 3 && ((48 <= s[i + 1] && s[i + 1] <= 57) || (65 <= s[i + 1] && s[i + 1]
                <= 70)) && ((48 <= s[i + 2] && s[i + 2] <= 57) || (65 <= s[i + 2] && s[i + 2]
                <= 70)) {
                let h = hex_digit(s[i + 1]);
                let l = hex_digit(s[i + 2]);
                let ghost before = out@;
                out.push(h * 16 + l);
                assert(t.subrange(3, t.len() as int) =~= s@.subrange(i + 3, n as int));
                proof {
                    match xtext(s@.subrange(i + 3, n as int)) {
                        Some(rest) => {
                            assert(before + (seq![(h * 16 + l) as u8] + rest) =~= out@ + rest);
                        },
                        None => {},
                    }
                }
                i += 3;
            } else {
                return None;
            }
        } else if 33 <= b && b <= 126 && b != EQUALS {
            let ghost before = out@;
            out.push(b);
            assert(t.subrange(1, t.len() as int) =~= s@.subrange(i + 1, n as int));
            proof {
                match xtext(s@.subrange(i + 1, n as int)) {
                    Some(rest) => {
                        assert(before + (seq![b] + rest) =~= out@ + rest);
                    },
                    None => {},
                }
            }
            i += 1;
        } else {
            return None;
        }
    }
    assert(s@.subrange(n as int, n as int) =~= Seq::<u8>::empty());
    assert(out@ + Seq::<u8>::empty() =~= out@);
    Some(out)
}


pub open spec fn kw_size() -> Seq<u8> {
    seq![83u8, 73, 90, 69]
}

pub open spec fn kw_body() -> Seq<u8> {
    seq![66u8, 79, 68, 89]
}

pub open spec fn kw_ret() -> Seq<u8> {
    seq![82u8, 69, 84]
}

pub open spec fn kw_envid() -> Seq<u8> {
    seq![69u8, 78, 86, 73, 68]
}

pub open spec fn kw_auth_param() -> Seq<u8> {
    seq![65u8, 85, 84, 72]
}

pub open spec fn kw_7bit() -> Seq<u8> {
    seq![55u8, 66, 73, 84]
}

pub open spec fn kw_8bitmime() -> Seq<u8> {
    seq![56u8, 66, 73, 84, 77, 73, 77, 69]
}

pub open spec fn kw_binarymime() -> Seq<u8> {
    seq![66u8, 73, 78, 65, 82, 89, 77, 73, 77, 69]
}

pub open spec fn kw_full() -> Seq<u8> {
    seq![70u8, 85, 76, 76]
}

pub open spec fn kw_hdrs() -> Seq<u8> {
    seq![72u8, 68, 82, 83]
}

pub open spec fn kw_notify() -> Seq<u8> {
    seq![78u8, 79, 84, 73, 70, 89]
}

pub open spec fn kw_orcpt() -> Seq<u8> {
    seq![79u8, 82, 67, 80, 84]
}

pub open spec fn kw_never() -> Seq<u8> {
    seq![78u8, 69, 86, 69, 82]
}

pub open spec fn kw_success() -> Seq<u8> {
    seq![83u8, 85, 67, 67, 69, 83, 83]
}

pub open spec fn kw_failure() -> Seq<u8> {
    seq![70u8, 65, 73, 76, 85, 82, 69]
}

pub open spec fn kw_delay() -> Seq<u8> {
    seq![68u8, 69, 76, 65, 89]
}

/// The BODY parameter of MAIL FROM.
#[derive(PartialEq, Eq, Structural, Clone, Copy, Debug)]
pub enum BodyType {
    SevenBit,
    EightBitMime,
    BinaryMime,
}

/// The RET parameter of MAIL FROM: what a delivery status notification returns.
#[derive(PartialEq, Eq, Structural, Clone, Copy, Debug)]
pub enum DsnReturn {
    Full,
    Headers,
}

/// The parameters of MAIL FROM.
#[derive(Debug)]
pub struct MailParams {
    /// SIZE: the size the client announces, in octets.
    pub size: Option<u64>,
    pub body: Option<BodyType>,
    pub ret: Option<DsnReturn>,
    /// ENVID, xtext decoded.
    pub envid: Option<Vec<u8>>,
    /// AUTH, xtext decoded.
    pub auth: Option<Vec<u8>>,
}

pub ghost struct MailParamsV {
    pub size: Option<u64>,
    pub body: Option<BodyType>,
    pub ret: Option<DsnReturn>,
    pub envid: Option<Seq<u8>>,
    pub auth: Option<Seq<u8>>,
}

pub open spec fn opt_view(o: Option<Vec<u8>>) -> Option<Seq<u8>> {
    match o {
        Some(v) => Some(v@),
        None => None,
    }
}

impl View for MailParams {
    type V = MailParamsV;

    open spec fn view(&self) -> MailParamsV {
        MailParamsV {
            size: self.size,
            body: self.body,
            ret: self.ret,
            envid: opt_view(self.envid),
            auth: opt_view(self.auth),
        }
    }
}

pub open spec fn no_mail_params() -> MailParamsV {
    MailParamsV { size: None, body: None, ret: None, envid: None, auth: None }
}

/// An xtext value that must be there.
pub open spec fn xtext_value(v: Option<Seq<u8>>) -> Result<Seq<u8>, ParseArgsError> {
    match v {
        Some(x) => match xtext(x) {
            Some(d) => Ok(d),
            None => Err(ParseArgsError::BadParameter),
        },
        None => Err(ParseArgsError::BadParameter),
    }
}

/// One MAIL FROM parameter added to those already read.
pub open spec fn mail_param(m: MailParamsV, t: Seq<u8>) -> Result<MailParamsV, ParseArgsError> {
    let k = key_value(t).0;
    let v = key_value(t).1;
    if eq_ci(k, kw_size()) {
        if m.size is Some {
            Err(ParseArgsError::DuplicateParameter)
        } else {
            match v {
                None => Err(ParseArgsError::BadParameter),
                Some(x) => match number(x) {
                    Ok(n) => Ok(MailParamsV { size: Some(n), ..m }),
                    Err(e) => Err(e),
                },
            }
        }
    } else if eq_ci(k, kw_body()) {
        if m.body is Some {
            Err(ParseArgsError::DuplicateParameter)
        } else {
            match v {
                Some(x) => if eq_ci(x, kw_7bit()) {
                    Ok(MailParamsV { body: Some(BodyType::SevenBit), ..m })
                } else if eq_ci(x, kw_8bitmime()) {
                    Ok(MailParamsV { body: Some(BodyType::EightBitMime), ..m })
                } else if eq_ci(x, kw_binarymime()) {
                    Ok(MailParamsV { body: Some(BodyType::BinaryMime), ..m })
                } else {
                    Err(ParseArgsError::BadParameter)
                },
                None => Err(ParseArgsError::BadParameter),
            }
        }
    } else if eq_ci(k, kw_ret()) {
        if m.ret is Some {
            Err(ParseArgsError::DuplicateParameter)
        } else {
            match v {
                Some(x) => if eq_ci(x, kw_full()) {
                    Ok(MailParamsV { ret: Some(DsnReturn::Full), ..m })
                } else if eq_ci(x, kw_hdrs()) {
                    Ok(MailParamsV { ret: Some(DsnReturn::Headers), ..m })
                } else {
                    Err(ParseArgsError::BadParameter)
                },
                None => Err(ParseArgsError::BadParameter),
            }
        }
    } else if eq_ci(k, kw_envid()) {
        if m.envid is Some {
            Err(ParseArgsError::DuplicateParameter)
        } else {
            match xtext_value(v) {
                Ok(d) => Ok(MailParamsV { envid: Some(d), ..m }),
                Err(e) => Err(e),
            }
        }
    } else if eq_ci(k, kw_auth_param()) {
        if m.auth is Some {
            Err(ParseArgsError::DuplicateParameter)
        } else {
            match xtext_value(v) {
                Ok(d) => Ok(MailParamsV { auth: Some(d), ..m }),
                Err(e) => Err(e),
            }
        }
    } else {
        Err(ParseArgsError::UnknownParameter)
    }
}

pub open spec fn fold_mail(toks: Seq<Seq<u8>>) -> Result<MailParamsV, ParseArgsError>
    decreases toks.len(),
{
    if toks.len() == 0 {
        Ok(no_mail_params())
    } else {
        match fold_mail(toks.drop_last()) {
            Ok(m) => mail_param(m, toks.last()),
            Err(e) => Err(e),
        }
    }
}

/// The parameters of MAIL FROM, from the text after the reverse-path.
pub open spec fn mail_params(p: Seq<u8>) -> Result<MailParamsV, ParseArgsError> {
    fold_mail(param_tokens(p))
}

proof fn lemma_fold_mail_err(toks: Seq<Seq<u8>>, i: int, e: ParseArgsError)
    requires
        0 <= i <= toks.len(),
        fold_mail(toks.subrange(0, i)) == Err::<MailParamsV, ParseArgsError>(e),
    ensures
        fold_mail(toks) == Err::<MailParamsV, ParseArgsError>(e),
    decreases toks.len() - i,
{
    if i < toks.len() {
        assert(toks.subrange(0, i + 1).drop_last() =~= toks.subrange(0, i));
        lemma_fold_mail_err(toks, i + 1, e);
    } else {
        assert(toks.subrange(0, i) =~= toks);
    }
}

fn xtext_param(v: &Option<Vec<u8>>) -> (r: Result<Vec<u8>, ParseArgsError>)
    ensures
        match (r, xtext_value(opt_view(*v))) {
            (Ok(a), Ok(b)) => a@ == b,
            (Err(a), Err(b)) => a == b,
            _ => false,
        },
{
    match v {
        Some(x) => match decode_xtext(x.as_slice()) {
            Some(d) => Ok(d),
            None => Err(ParseArgsError::BadParameter),
        },
        None => Err(ParseArgsError::BadParameter),
    }
}

pub open spec fn mail_result_view(r: Result<MailParams, ParseArgsError>) -> Result<MailParamsV, ParseArgsError> {
    match r {
        Ok(m) => Ok(m@),
        Err(e) => Err(e),
    }
}

fn is_kw(t: &Vec<u8>, kw: &[u8]) -> (r: bool)
    ensures
        r == eq_ci(t@, kw@),
{
    let s = t.as_slice();
    assert(s@.subrange(0, s@.len() as int) =~= s@);
    matches_keyword(s, 0, s.len(), kw)
}

fn mail_param_exec(m: MailParams, t: &Vec<u8>) -> (r: Result<MailParams, ParseArgsError>)
    ensures
        mail_result_view(r) == mail_param(m@, t@),
{
    let (k, v) = split_key_value(t);
    let size: [u8; 4] = [83u8, 73, 90, 69];
    let body: [u8; 4] = [66u8, 79, 68, 89];
    let ret: [u8; 3] = [82u8, 69, 84];
    let envid: [u8; 5] = [69u8, 78, 86, 73, 68];
    let auth: [u8; 4] = [65u8, 85, 84, 72];
    let b7: [u8; 4] = [55u8, 66, 73, 84];
    let b8: [u8; 8] = [56u8, 66, 73, 84, 77, 73, 77, 69];
    let bb: [u8; 10] = [66u8, 73, 78, 65, 82, 89, 77, 73, 77, 69];
    let full: [u8; 4] = [70u8, 85, 76, 76];
    let hdrs: [u8; 4] = [72u8, 68, 82, 83];
    assert(size@ == kw_size());
    assert(body@ == kw_body());
    assert(ret@ == kw_ret());
    assert(envid@ == kw_envid());
    assert(auth@ == kw_auth_param());
    assert(b7@ == kw_7bit());
    assert(b8@ == kw_8bitmime());
    assert(bb@ == kw_binarymime());
    assert(full@ == kw_full());
    assert(hdrs@ == kw_hdrs());
    if is_kw(&k, &size) {
        if m.size.is_some() {
            return Err(ParseArgsError::DuplicateParameter);
        }
        match v {
            None => Err(ParseArgsError::BadParameter),
            Some(x) => match parse_number(&x) {
                Ok(n) => Ok(MailParams { size: Some(n), ..m }),
                Err(e) => Err(e),
            },
        }
    } else if is_kw(&k, &body) {
        if m.body.is_some() {
            return Err(ParseArgsError::DuplicateParameter);
        }
        match v {
            Some(x) => if is_kw(&x, &b7) {
                Ok(MailParams { body: Some(BodyType::SevenBit), ..m })
            } else if is_kw(&x, &b8) {
                Ok(MailParams { body: Some(BodyType::EightBitMime), ..m })
            } else if is_kw(&x, &bb) {
                Ok(MailParams { body: Some(BodyType::BinaryMime), ..m })
            } else {
                Err(ParseArgsError::BadParameter)
            },
            None => Err(ParseArgsError::BadParameter),
        }
    } else if is_kw(&k, &ret) {
        if m.ret.is_some() {
            return Err(ParseArgsError::DuplicateParameter);
        }
        match v {
            Some(x) => if is_kw(&x, &full) {
                Ok(MailParams { ret: Some(DsnReturn::Full), ..m })
            } else if is_kw(&x, &hdrs) {
                Ok(MailParams { ret: Some(DsnReturn::Headers), ..m })
            } else {
                Err(ParseArgsError::BadParameter)
            },
            None => Err(ParseArgsError::BadParameter),
        }
    } else if is_kw(&k, &envid) {
        if m.envid.is_some() {
            return Err(ParseArgsError::DuplicateParameter);
        }
        match xtext_param(&v) {
            Ok(d) => Ok(MailParams { envid: Some(d), ..m }),
            Err(e) => Err(e),
        }
    } else if is_kw(&k, &auth) {
        if m.auth.is_some() {
            return Err(ParseArgsError::DuplicateParameter);
        }
        match xtext_param(&v) {
            Ok(d) => Ok(MailParams { auth: Some(d), ..m }),
            Err(e) => Err(e),
        }
    } else {
        Err(ParseArgsError::UnknownParameter)
    }
}

/// Reads the parameters of MAIL FROM.
pub fn parse_mail_params(p: &[u8]) -> (r: Result<MailParams, ParseArgsError>)
    ensures
        mail_result_view(r) == mail_params(p@),
{
    let mut acc = MailParams { size: None, body: None, ret: None, envid: None, auth: None };
    if p.len() == 0 {
        return Ok(acc);
    }
    let toks = split_bytes(p, SP);
    let ghost tv = bytes_view(toks@);
    let mut i: usize = 0;
    assert(tv.subrange(0, 0) =~= Seq::<Seq<u8>>::empty());
    while i < toks.len()
        invariant
            i <= toks@.len(),
            tv == bytes_view(toks@),
            tv == param_tokens(p@),
            fold_mail(tv.subrange(0, i as int)) == Ok::<MailParamsV, ParseArgsError>(acc@),
        decreases toks.len() - i,
    {
        assert(tv.subrange(0, i + 1).drop_last() =~= tv.subrange(0, i as int));
        match mail_param_exec(acc, &toks[i]) {
            Ok(m) => {
                acc = m;
            },
            Err(e) => {
                proof {
                    lemma_fold_mail_err(tv, i + 1, e);
                }
                return Err(e);
            },
        }
        i += 1;
    }
    assert(tv.subrange(0, i as int) =~= tv);
    Ok(acc)
}


/// The NOTIFY parameter of RCPT TO: when to send delivery status notifications.
#[derive(PartialEq, Eq, Structural, Clone, Copy, Debug)]
pub struct NotifyOn {
    pub never: bool,
    pub success: bool,
    pub failure: bool,
    pub delay: bool,
}

/// The ORCPT parameter of RCPT TO: the original recipient.
#[derive(Debug)]
pub struct OriginalRecipient {
    /// The address type, such as `rfc822`.
    pub addr_type: Vec<u8>,
    /// The address, xtext decoded.
    pub address: Vec<u8>,
}

/// The parameters of RCPT TO.
#[derive(Debug)]
pub struct RcptParams {
    pub notify: Option<NotifyOn>,
    pub orcpt: Option<OriginalRecipient>,
}

pub ghost struct RcptParamsV {
    pub notify: Option<NotifyOn>,
    pub orcpt: Option<(Seq<u8>, Seq<u8>)>,
}

impl View for RcptParams {
    type V = RcptParamsV;

    open spec fn view(&self) -> RcptParamsV {
        RcptParamsV {
            notify: self.notify,
            orcpt: match self.orcpt {
                Some(o) => Some((o.addr_type@, o.address@)),
                None => None,
            },
        }
    }
}

pub open spec fn no_notify() -> NotifyOn {
    NotifyOn { never: false, success: false, failure: false, delay: false }
}

/// One item of a NOTIFY list added to those already read.
pub open spec fn notify_item(n: NotifyOn, t: Seq<u8>) -> Result<NotifyOn, ParseArgsError> {
    if eq_ci(t, kw_never()) {
        Ok(NotifyOn { never: true, ..n })
    } else if eq_ci(t, kw_success()) {
        Ok(NotifyOn { success: true, ..n })
    } else if eq_ci(t, kw_failure()) {
        Ok(NotifyOn { failure: true, ..n })
    } else if eq_ci(t, kw_delay()) {
        Ok(NotifyOn { delay: true, ..n })
    } else {
        Err(ParseArgsError::BadParameter)
    }
}

pub open spec fn fold_notify(items: Seq<Seq<u8>>) -> Result<NotifyOn, ParseArgsError>
    decreases items.len(),
{
    if items.len() == 0 {
        Ok(no_notify())
    } else {
        match fold_notify(items.drop_last()) {
            Ok(n) => notify_item(n, items.last()),
            Err(e) => Err(e),
        }
    }
}

/// A NOTIFY value: `NEVER`, or a comma separated list of SUCCESS, FAILURE
/// and DELAY.
pub open spec fn notify(v: Seq<u8>) -> Result<NotifyOn, ParseArgsError> {
    match fold_notify(split(v, COMMA)) {
        Ok(n) => if n.never && (n.success || n.failure || n.delay) {
            Err(ParseArgsError::BadParameter)
        } else {
            Ok(n)
        },
        Err(e) => Err(e),
    }
}

proof fn lemma_fold_notify_err(items: Seq<Seq<u8>>, i: int, e: ParseArgsError)
    requires
        0 <= i <= items.len(),
        fold_notify(items.subrange(0, i)) == Err::<NotifyOn, ParseArgsError>(e),
    ensures
        fold_notify(items) == Err::<NotifyOn, ParseArgsError>(e),
    decreases items.len() - i,
{
    if i < items.len() {
        assert(items.subrange(0, i + 1).drop_last() =~= items.subrange(0, i));
        lemma_fold_notify_err(items, i + 1, e);
    } else {
        assert(items.subrange(0, i) =~= items);
    }
}

fn parse_notify(v: &Vec<u8>) -> (r: Result<NotifyOn, ParseArgsError>)
    ensures
        r == notify(v@),
{
    let never: [u8; 5] = [78u8, 69, 86, 69, 82];
    let success: [u8; 7] = [83u8, 85, 67, 67, 69, 83, 83];
    let failure: [u8; 7] = [70u8, 65, 73, 76, 85, 82, 69];
    let delay: [u8; 5] = [68u8, 69, 76, 65, 89];
    assert(never@ == kw_never());
    assert(success@ == kw_success());
    assert(failure@ == kw_failure());
    assert(delay@ == kw_delay());
    let items = split_bytes(v.as_slice(), COMMA);
    let ghost iv = bytes_view(items@);
    let mut n = NotifyOn { never: false, success: false, failure: false, delay: false };
    let mut i: usize = 0;
    assert(iv.subrange(0, 0) =~= Seq::<Seq<u8>>::empty());
    while i < items.len()
        invariant
            i <= items@.len(),
            iv == bytes_view(items@),
            iv == split(v@, COMMA),
            never@ == kw_never(),
            success@ == kw_success(),
            failure@ == kw_failure(),
            delay@ == kw_delay(),
            fold_notify(iv.subrange(0, i as int)) == Ok::<NotifyOn, ParseArgsError>(n),
        decreases items.len() - i,
    {
        assert(iv.subrange(0, i + 1).drop_last() =~= iv.subrange(0, i as int));
        let t = &items[i];
        assert(iv[i as int] == t@);
        assert(iv.subrange(0, i + 1).last() == t@);
        if is_kw(t, &never) {
            n = NotifyOn { never: true, ..n };

        } else if is_kw(t, &success) {
            n = NotifyOn { success: true, ..n };
        } else if is_kw(t, &failure) {
            n = NotifyOn { failure: true, ..n };
        } else if is_kw(t, &delay) {
            n = NotifyOn { delay: true, ..n };
        } else {
            proof {
                lemma_fold_notify_err(iv, i + 1, ParseArgsError::BadParameter);
            }
            return Err(ParseArgsError::BadParameter);
        }
        i += 1;
    }
    assert(iv.subrange(0, i as int) =~= iv);
    if n.never && (n.success || n.failure || n.delay) {
        Err(ParseArgsError::BadParameter)
    } else {
        Ok(n)
    }
}

/// An ORCPT value: `addr-type;xtext`, the address type not empty.
pub open spec fn orcpt(v: Seq<u8>) -> Result<(Seq<u8>, Seq<u8>), ParseArgsError> {
    match find_from(v, 0, SEMICOLON) {
        Some(k) => if k == 0 {
            Err(ParseArgsError::BadParameter)
        } else {
            match xtext(v.subrange(k + 1, v.len() as int)) {
                Some(d) => Ok((v.subrange(0, k), d)),
                None => Err(ParseArgsError::BadParameter),
            }
        },
        None => Err(ParseArgsError::BadParameter),
    }
}

fn parse_orcpt(v: &Vec<u8>) -> (r: Result<OriginalRecipient, ParseArgsError>)
    ensures
        match (r, orcpt(v@)) {
            (Ok(a), Ok(b)) => (a.addr_type@, a.address@) == b,
            (Err(a), Err(b)) => a == b,
            _ => false,
        },
{
    let s = v.as_slice();
    let n = s.len();
    match find_byte(s, 0, SEMICOLON) {
        Some(k) => {
            if k == 0 {
                return Err(ParseArgsError::BadParameter);
            }
            let rest = copy_range(s, k + 1, n);
            match decode_xtext(rest.as_slice()) {
                Some(d) => Ok(OriginalRecipient { addr_type: copy_range(s, 0, k), address: d }),
                None => Err(ParseArgsError::BadParameter),
            }
        },
        None => Err(ParseArgsError::BadParameter),
    }
}

pub open spec fn no_rcpt_params() -> RcptParamsV {
    RcptParamsV { notify: None, orcpt: None }
}

/// One RCPT TO parameter added to those already read.
pub open spec fn rcpt_param(m: RcptParamsV, t: Seq<u8>) -> Result<RcptParamsV, ParseArgsError> {
    let k = key_value(t).0;
    let v = key_value(t).1;
    if eq_ci(k, kw_notify()) {
        if m.notify is Some {
            Err(ParseArgsError::DuplicateParameter)
        } else {
            match v {
                Some(x) => match notify(x) {
                    Ok(n) => Ok(RcptParamsV { notify: Some(n), ..m }),
                    Err(e) => Err(e),
                },
                None => Err(ParseArgsError::BadParameter),
            }
        }
    } else if eq_ci(k, kw_orcpt()) {
        if m.orcpt is Some {
            Err(ParseArgsError::DuplicateParameter)
        } else {
            match v {
                Some(x) => match orcpt(x) {
                    Ok(o) => Ok(RcptParamsV { orcpt: Some(o), ..m }),
                    Err(e) => Err(e),
                },
                None => Err(ParseArgsError::BadParameter),
            }
        }
    } else {
        Err(ParseArgsError::UnknownParameter)
    }
}

pub open spec fn fold_rcpt(toks: Seq<Seq<u8>>) -> Result<RcptParamsV, ParseArgsError>
    decreases toks.len(),
{
    if toks.len() == 0 {
        Ok(no_rcpt_params())
    } else {
        match fold_rcpt(toks.drop_last()) {
            Ok(m) => rcpt_param(m, toks.last()),
            Err(e) => Err(e),
        }
    }
}

/// The parameters of RCPT TO, from the text after the forward-path.
pub open spec fn rcpt_params(p: Seq<u8>) -> Result<RcptParamsV, ParseArgsError> {
    fold_rcpt(param_tokens(p))
}

pub open spec fn rcpt_result_view(r: Result<RcptParams, ParseArgsError>) -> Result<RcptParamsV, ParseArgsError> {
    match r {
        Ok(m) => Ok(m@),
        Err(e) => Err(e),
    }
}

proof fn lemma_fold_rcpt_err(toks: Seq<Seq<u8>>, i: int, e: ParseArgsError)
    requires
        0 <= i <= toks.len(),
        fold_rcpt(toks.subrange(0, i)) == Err::<RcptParamsV, ParseArgsError>(e),
    ensures
        fold_rcpt(toks) == Err::<RcptParamsV, ParseArgsError>(e),
    decreases toks.len() - i,
{
    if i < toks.len() {
        assert(toks.subrange(0, i + 1).drop_last() =~= toks.subrange(0, i));
        lemma_fold_rcpt_err(toks, i + 1, e);
    } else {
        assert(toks.subrange(0, i) =~= toks);
    }
}

fn rcpt_param_exec(m: RcptParams, t: &Vec<u8>) -> (r: Result<RcptParams, ParseArgsError>)
    ensures
        rcpt_result_view(r) == rcpt_param(m@, t@),
{
    let (k, v) = split_key_value(t);
    let kn: [u8; 6] = [78u8, 79, 84, 73, 70, 89];
    let ko: [u8; 5] = [79u8, 82, 67, 80, 84];
    assert(kn@ == kw_notify());
    assert(ko@ == kw_orcpt());
    if is_kw(&k, &kn) {
        if m.notify.is_some() {
            return Err(ParseArgsError::DuplicateParameter);
        }
        match v {
            Some(x) => match parse_notify(&x) {
                Ok(n) => Ok(RcptParams { notify: Some(n), ..m }),
                Err(e) => Err(e),
            },
            None => Err(ParseArgsError::BadParameter),
        }
    } else if is_kw(&k, &ko) {
        if m.orcpt.is_some() {
            return Err(ParseArgsError::DuplicateParameter);
        }
        match v {
            Some(x) => match parse_orcpt(&x) {
                Ok(o) => Ok(RcptParams { orcpt: Some(o), ..m }),
                Err(e) => Err(e),
            },
            None => Err(ParseArgsError::BadParameter),
        }
    } else {
        Err(ParseArgsError::UnknownParameter)
    }
}

/// Reads the parameters of RCPT TO.
pub fn parse_rcpt_params(p: &[u8]) -> (r: Result<RcptParams, ParseArgsError>)
    ensures
        rcpt_result_view(r) == rcpt_params(p@),
{
    let mut acc = RcptParams { notify: None, orcpt: None };
    if p.len() == 0 {
        return Ok(acc);
    }
    let toks = split_bytes(p, SP);
    let ghost tv = bytes_view(toks@);
    let mut i: usize = 0;
    assert(tv.subrange(0, 0) =~= Seq::<Seq<u8>>::empty());
    while i < toks.len()
        invariant
            i <= toks@.len(),
            tv == bytes_view(toks@),
            tv == param_tokens(p@),
            fold_rcpt(tv.subrange(0, i as int)) == Ok::<RcptParamsV, ParseArgsError>(acc@),
        decreases toks.len() - i,
    {
        assert(tv.subrange(0, i + 1).drop_last() =~= tv.subrange(0, i as int));
        match rcpt_param_exec(acc, &toks[i]) {
            Ok(m) => {
                acc = m;
            },
            Err(e) => {
                proof {
                    lemma_fold_rcpt_err(tv, i + 1, e);
                }
                return Err(e);
            },
        }
        i += 1;
    }
    assert(tv.subrange(0, i as int) =~= tv);
    Ok(acc)
}

} // verus!
