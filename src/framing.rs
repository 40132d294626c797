//! Line framing of the byte stream, and the dot-stuffing of the mail data.
use vstd::prelude::*;

verus! {

pub const CR: u8 = 13;

pub const LF: u8 = 10;

pub const SP: u8 = 32;

pub const DOT: u8 = 46;

/// The longest command line, in octets, without its CRLF (1000 with it).
pub const MAX_COMMAND_LINE: usize = 998;

/// `i` is the first position at or after `start` that holds `b`.
pub open spec fn is_first_from(s: Seq<u8>, start: int, b: u8, i: int) -> bool {
    &&& start <= i < s.len()
    &&& s[i] == b
    &&& forall|j: int| start <= j < i ==> #[trigger] s[j] != b
}

/// The first position at or after `start` that holds `b`.
pub open spec fn find_from(s: Seq<u8>, start: int, b: u8) -> Option<int> {
    if exists|i: int| is_first_from(s, start, b, i) {
        Some(choose|i: int| is_first_from(s, start, b, i))
    } else {
        None
    }
}

pub proof fn lemma_find_from(s: Seq<u8>, start: int, b: u8, i: int)
    requires
        is_first_from(s, start, b, i),
    ensures
        find_from(s, start, b) == Some(i),
{
    let k = choose|k: int| is_first_from(s, start, b, k);
    assert(is_first_from(s, start, b, k));
    if k < i {
        assert(s[k] != b);
    } else if k > i {
        assert(s[i] != b);
    }
}

pub proof fn lemma_find_none(s: Seq<u8>, start: int, b: u8)
    requires
        forall|j: int| start <= j < s.len() ==> #[trigger] s[j] != b,
    ensures
        find_from(s, start, b) is None,
{
    if exists|i: int| is_first_from(s, start, b, i) {
        let k = choose|i: int| is_first_from(s, start, b, i);
        assert(s[k] == b);
    }
}

/// The first position at or after `start` that holds `b`.
pub fn find_byte(s: &[u8], start: usize, b: u8) -> (r: Option<usize>)
    ensures
        r matches Some(i) ==> find_from(s@, start as int, b) == Some(i as int) && is_first_from(
            s@,
            start as int,
            b,
            i as int,
        ),
        r is None ==> find_from(s@, start as int, b) is None && forall|j: int|
            start <= j < s@.len() ==> #[trigger] s@[j] != b,
{
    let mut i: usize = start;
    while i < s.len()
        invariant
            start <= i,
            forall|j: int| start <= j < i ==> #[trigger] s@[j] != b,
        decreases s.len() - i,
    {
        if s[i] == b {
            proof {
                lemma_find_from(s@, start as int, b, i as int);
            }
            return Some(i);
        }
        i += 1;
    }
    proof {
        lemma_find_none(s@, start as int, b);
    }
    None
}

/// The bytes of `s` from `a` to `b`.
pub fn copy_range(s: &[u8], a: usize, b: usize) -> (r: Vec<u8>)
    requires
        a <= b <= s@.len(),
    ensures
        r@ == s@.subrange(a as int, b as int),
{
    let mut r: Vec<u8> = Vec::new();
    let mut i: usize = a;
    while i < b
        invariant
            a <= i <= b <= s@.len(),
            r@ == s@.subrange(a as int, i as int),
        decreases b - i,
    {
        r.push(s[i]);
        assert(r@ =~= s@.subrange(a as int, i + 1));
        i += 1;
    }
    r
}

/// `i` is where the first CRLF of `s` starts.
pub open spec fn is_first_crlf(s: Seq<u8>, i: int) -> bool {
    &&& 0 <= i && i + 1 < s.len()
    &&& s[i] == CR && s[i + 1] == LF
    &&& forall|j: int| 0 <= j < i ==> !(#[trigger] s[j] == CR && s[j + 1] == LF)
}

/// Where the first line of `buf` ends: the position of its CRLF, if `buf`
/// holds a whole line yet.
pub fn find_crlf(buf: &[u8]) -> (r: Option<usize>)
    ensures
        r matches Some(i) ==> is_first_crlf(buf@, i as int),
        r is None ==> forall|i: int| !is_first_crlf(buf@, i),
{
    let mut i: usize = 0;
    while buf.len() - i > 1
        invariant
            i <= buf.len(),
            forall|j: int| 0 <= j < i ==> !(#[trigger] buf@[j] == CR && buf@[j + 1] == LF),
        decreases buf.len() - i,
    {
        if buf[i] == CR && buf[i + 1] == LF {
            return Some(i);
        }
        i += 1;
    }
    None
}

/// Takes the first line off the front of `buf`, if it holds a whole one:
/// the line without its CRLF, and how many octets it took, CRLF included.
/// Length limits are the session's concern: they differ between commands
/// and mail data.
pub fn take_line(buf: &[u8]) -> (r: Option<(Vec<u8>, usize)>)
    ensures
        r is None ==> forall|i: int| !is_first_crlf(buf@, i),
        r matches Some((l, n)) ==> is_first_crlf(buf@, n - 2) && l@ == buf@.subrange(0, n - 2),
{
    match find_crlf(buf) {
        None => None,
        Some(i) => {
            let n = buf.len();
            assert(i + 2 <= n);
            Some((copy_range(buf, 0, i), i + 2))
        },
    }
}

/// No CR or LF stands alone in a line taken off at its first CRLF.
pub open spec fn well_framed(l: Seq<u8>) -> bool {
    forall|i: int| 0 <= i < l.len() ==> #[trigger] l[i] != CR && l[i] != LF
}

/// Whether a line holds no bare CR or LF.
pub fn is_well_framed(l: &[u8]) -> (r: bool)
    ensures
        r == well_framed(l@),
{
    let mut i: usize = 0;
    while i < l.len()
        invariant
            i <= l@.len(),
            forall|j: int| 0 <= j < i ==> #[trigger] l@[j] != CR && l@[j] != LF,
        decreases l.len() - i,
    {
        if l[i] == CR || l[i] == LF {
            return false;
        }
        i += 1;
    }
    true
}

/// The line that ends the mail data: a single dot.
pub open spec fn is_terminator(l: Seq<u8>) -> bool {
    l.len() == 1 && l[0] == DOT
}

/// A data line as the client sends it: a leading dot is doubled.
pub open spec fn stuff_line(l: Seq<u8>) -> Seq<u8> {
    if l.len() > 0 && l[0] == DOT {
        seq![DOT] + l
    } else {
        l
    }
}

/// A received data line with the transparency dot taken off.
pub open spec fn unstuff_line(l: Seq<u8>) -> Seq<u8> {
    if l.len() > 0 && l[0] == DOT {
        l.drop_first()
    } else {
        l
    }
}

/// A data line as the client sends it is never the terminator, and taking
/// the transparency dot off gives back the line.
pub proof fn lemma_unstuff_stuff(l: Seq<u8>)
    ensures
        unstuff_line(stuff_line(l)) == l,
        !is_terminator(stuff_line(l)),
{
    if l.len() > 0 && l[0] == DOT {
        assert((seq![DOT] + l).drop_first() =~= l);
    }
}

/// What one received line is, in the data phase.
pub enum DataLine {
    /// The terminator: the mail data is complete.
    End,
    /// A line of the mail, dot-stuffing reversed.
    Content(Vec<u8>),
}

/// Reads one line of mail data (without its CRLF).
pub fn data_line(line: &[u8]) -> (r: DataLine)
    ensures
        r is End <==> is_terminator(line@),
        r matches DataLine::Content(c) ==> c@ == unstuff_line(line@),
{
    if line.len() == 1 && line[0] == DOT {
        DataLine::End
    } else if line.len() > 0 && line[0] == DOT {
        DataLine::Content(copy_range(line, 1, line.len()))
    } else {
        DataLine::Content(copy_range(line, 0, line.len()))
    }
}

/// `i` is where the first empty line after a header line starts: the first
/// CRLF CRLF of `d`.
pub open spec fn is_first_blank(d: Seq<u8>, i: int) -> bool {
    &&& 0 <= i && i + 3 < d.len()
    &&& d[i] == CR && d[i + 1] == LF && d[i + 2] == CR && d[i + 3] == LF
    &&& forall|j: int|
        0 <= j < i ==> !(#[trigger] d[j] == CR && d[j + 1] == LF && d[j + 2] == CR && d[j + 3]
            == LF)
}

/// Received mail data cut at its first empty line: the header lines, each
/// with its CRLF, and the body after the empty line. Data that does not start
/// with an empty line and holds none is all headers.
pub open spec fn message_split(d: Seq<u8>) -> (Seq<u8>, Seq<u8>) {
    if d.len() >= 2 && d[0] == CR && d[1] == LF {
        (Seq::empty(), d.subrange(2, d.len() as int))
    } else if exists|i: int| is_first_blank(d, i) {
        let i = choose|i: int| is_first_blank(d, i);
        (d.subrange(0, i + 2), d.subrange(i + 4, d.len() as int))
    } else {
        (d, Seq::empty())
    }
}

proof fn lemma_first_blank(d: Seq<u8>, i: int)
    requires
        is_first_blank(d, i),
    ensures
        (choose|k: int| is_first_blank(d, k)) == i,
{
    let k = choose|k: int| is_first_blank(d, k);
    assert(is_first_blank(d, k));
    if k < i {
        assert(!(d[k] == CR && d[k + 1] == LF && d[k + 2] == CR && d[k + 3] == LF));
    } else if k > i {
        assert(!(d[i] == CR && d[i + 1] == LF && d[i + 2] == CR && d[i + 3] == LF));
    }
}

/// Cuts received mail data into its header lines and its body.
pub fn split_message(d: &[u8]) -> (r: (Vec<u8>, Vec<u8>))
    ensures
        (r.0@, r.1@) == message_split(d@),
{
    let n = d.len();
    if n >= 2 && d[0] == CR && d[1] == LF {
        return (Vec::new(), copy_range(d, 2, n));
    }
    let mut i: usize = 0;
    while n - i > 3
        invariant
            n == d@.len(),
            i <= n,
            !(n >= 2 && d@[0] == CR && d@[1] == LF),
            forall|j: int|
                0 <= j < i ==> !(#[trigger] d@[j] == CR && d@[j + 1] == LF && d@[j + 2] == CR
                    && d@[j + 3] == LF),
        decreases n - i,
    {
        if d[i] == CR && d[i + 1] == LF && d[i + 2] == CR && d[i + 3] == LF {
            proof {
                assert(is_first_blank(d@, i as int));
                lemma_first_blank(d@, i as int);
            }
            return (copy_range(d, 0, i + 2), copy_range(d, i + 4, n));
        }
        i += 1;
    }
    proof {
        if exists|k: int| is_first_blank(d@, k) {
            let k = choose|k: int| is_first_blank(d@, k);
            assert(is_first_blank(d@, k));
        }
    }
    (copy_range(d, 0, n), Vec::new())
}

} // verus!
