//! SMTP replies and their wire form.
use vstd::prelude::*;

verus! {

/// The text of one decimal digit.
pub open spec fn digit_text(d: nat) -> Seq<char> {
    seq![(('0' as u32) + d) as char]
}

/// The decimal text of `n`, without leading zeros.
pub open spec fn decimal(n: nat) -> Seq<char>
    decreases n,
{
    if n < 10 {
        digit_text(n)
    } else {
        decimal(n / 10) + digit_text(n % 10)
    }
}

/// One line of a reply: the code, `-` on every line but the last and a space
/// on the last, the text, CRLF.
pub open spec fn reply_line(code: nat, text: Seq<char>, last: bool) -> Seq<char> {
    decimal(code) + (if last {
        " "@
    } else {
        "-"@
    }) + text + "\r\n"@
}

/// The first `k` lines of a reply whose lines are `lines`.
pub open spec fn reply_prefix(code: nat, lines: Seq<Seq<char>>, k: nat) -> Seq<char>
    decreases k,
{
    if k == 0 {
        Seq::empty()
    } else {
        reply_prefix(code, lines, (k - 1) as nat) + reply_line(
            code,
            lines[k - 1],
            k == lines.len(),
        )
    }
}

/// A reply as it is sent.
pub open spec fn reply_wire(code: nat, lines: Seq<Seq<char>>) -> Seq<char> {
    reply_prefix(code, lines, lines.len())
}

/// A reply as the contracts see it.
pub ghost struct ReplyV {
    pub code: u16,
    pub text: Seq<Seq<char>>,
}

impl ReplyV {
    pub open spec fn wf(self) -> bool {
        200 <= self.code <= 599 && self.text.len() >= 1
    }
}

/// A reply: a three-digit code and one or more lines of text.
pub struct Reply {
    pub code: u16,
    pub lines: Vec<String>,
}

pub open spec fn lines_view(v: Seq<String>) -> Seq<Seq<char>> {
    v.map_values(|s: String| s@)
}

impl View for Reply {
    type V = ReplyV;

    open spec fn view(&self) -> ReplyV {
        ReplyV { code: self.code, text: lines_view(self.lines@) }
    }
}

impl Reply {
    /// The reply is well formed: a code from 200 to 599 and at least one line.
    pub open spec fn wf(&self) -> bool {
        200 <= self.code <= 599 && self.lines.len() >= 1
    }

    pub open spec fn text(&self) -> Seq<Seq<char>> {
        lines_view(self.lines@)
    }

    /// A reply of one line.
    pub fn new(code: u16, text: &str) -> (r: Reply)
        requires
            200 <= code <= 599,
        ensures
            r.wf(),
            r.code == code,
            r.text() == seq![text@],
    {
        let mut lines: Vec<String> = Vec::new();
        lines.push(String::from_str(text));
        let r = Reply { code, lines };
        assert(r.text() =~= seq![text@]);
        r
    }

    /// A reply of one line, taking the text.
    pub fn from_string(code: u16, text: String) -> (r: Reply)
        requires
            200 <= code <= 599,
        ensures
            r.wf(),
            r.code == code,
            r.text() == seq![text@],
    {
        let mut lines: Vec<String> = Vec::new();
        lines.push(text);
        let r = Reply { code, lines };
        assert(r.text() =~= seq![text@]);
        r
    }

    /// Whether every line is printable ASCII, so that the reply can go on
    /// the wire as it is.
    pub fn has_plain_text(&self) -> (r: bool)
        ensures
            r == (forall|i: int| 0 <= i < self.lines@.len() ==> #[trigger] plain_text(self.lines@[i]@)),
    {
        let mut i: usize = 0;
        while i < self.lines.len()
            invariant
                i <= self.lines@.len(),
                forall|j: int| 0 <= j < i ==> #[trigger] plain_text(self.lines@[j]@),
            decreases self.lines.len() - i,
        {
            if !is_plain_text(self.lines[i].as_str()) {
                return false;
            }
            i += 1;
        }
        true
    }

    /// The reply as it is sent on the wire.
    pub fn to_wire(&self) -> (r: String)
        requires
            self.wf(),
        ensures
            r@ == reply_wire(self.code as nat, self.text()),
    {
        let ghost ls = self.text();
        let mut r = String::new();
        let mut i: usize = 0;
        while i < self.lines.len()
            invariant
                i <= self.lines.len(),
                self.wf(),
                ls == self.text(),
                r@ == reply_prefix(self.code as nat, ls, i as nat),
            decreases self.lines.len() - i,
        {
            push_decimal(&mut r, self.code as u64);
            if i + 1 == self.lines.len() {
                r.append(" ");
            } else {
                r.append("-");
            }
            r.append(self.lines[i].as_str());
            r.append("\r\n");
            assert(r@ =~= reply_prefix(self.code as nat, ls, (i + 1) as nat));
            i += 1;
        }
        r
    }
}

/// Printable ASCII: no control character, so no CR or LF either.
pub open spec fn plain_text(t: Seq<char>) -> bool {
    forall|i: int| 0 <= i < t.len() ==> ' ' <= #[trigger] t[i] <= '~'
}

/// Whether `t` is printable ASCII.
pub fn is_plain_text(t: &str) -> (r: bool)
    ensures
        r == plain_text(t@),
{
    let n = t.unicode_len();
    let mut i: usize = 0;
    while i < n
        invariant
            n == t@.len(),
            i <= n,
            forall|j: int| 0 <= j < i ==> ' ' <= #[trigger] t@[j] <= '~',
        decreases n - i,
    {
        let c = t.get_char(i);
        if c < ' ' || c > '~' {
            return false;
        }
        i += 1;
    }
    true
}

/// Appends the decimal text of `n`.
pub fn push_decimal(out: &mut String, n: u64)
    ensures
        final(out)@ == old(out)@ + decimal(n as nat),
    decreases n,
{
    if n >= 10 {
        push_decimal(out, n / 10);
    }
    let d = n % 10;
    proof {
        reveal_strlit("0");
        reveal_strlit("1");
        reveal_strlit("2");
        reveal_strlit("3");
        reveal_strlit("4");
        reveal_strlit("5");
        reveal_strlit("6");
        reveal_strlit("7");
        reveal_strlit("8");
        reveal_strlit("9");
    }
    let ghost before = out@;
    if d == 0 {
        out.append("0");
    } else if d == 1 {
        out.append("1");
    } else if d == 2 {
        out.append("2");
    } else if d == 3 {
        out.append("3");
    } else if d == 4 {
        out.append("4");
    } else if d == 5 {
        out.append("5");
    } else if d == 6 {
        out.append("6");
    } else if d == 7 {
        out.append("7");
    } else if d == 8 {
        out.append("8");
    } else {
        out.append("9");
    }
    assert(out@ =~= before + digit_text(d as nat));
}

/// The decimal text of `n`.
pub fn decimal_string(n: u64) -> (r: String)
    ensures
        r@ == decimal(n as nat),
{
    let mut r = String::new();
    push_decimal(&mut r, n);
    assert(r@ =~= decimal(n as nat));
    r
}

/// A message identifier: the time of reception in milliseconds since the
/// epoch, `_`, and the name of the worker that received it.
pub fn format_msg_id(millis: u64, worker: &str) -> (r: String)
    ensures
        r@ == decimal(millis as nat) + "_"@ + worker@,
{
    let mut r = decimal_string(millis);
    r.append("_");
    r.append(worker);
    r
}

} // verus!
