use vstd::prelude::*;

verus! {

/// A header field as it is held in the message: `(name, value)`.
pub type HeaderView = (Seq<char>, Seq<char>);

/// `a` and `b` are the same letter once ASCII case is ignored.
pub open spec fn char_eq_ci(a: char, b: char) -> bool {
    ||| a == b
    ||| ('A' <= a <= 'Z' && a as u32 + 32 == b as u32)
    ||| ('A' <= b <= 'Z' && b as u32 + 32 == a as u32)
}

/// Header names compare without regard to ASCII case.
pub open spec fn name_eq(a: Seq<char>, b: Seq<char>) -> bool {
    &&& a.len() == b.len()
    &&& forall|i: int| 0 <= i < a.len() ==> char_eq_ci(#[trigger] a[i], b[i])
}

/// `i` is the position of the first header called `name`.
pub open spec fn is_first_match(hs: Seq<HeaderView>, name: Seq<char>, i: int) -> bool {
    &&& 0 <= i < hs.len()
    &&& name_eq(hs[i].0, name)
    &&& forall|j: int| 0 <= j < i ==> !name_eq(#[trigger] hs[j].0, name)
}

/// The position of the first header called `name`, if there is one.
pub open spec fn first_match(hs: Seq<HeaderView>, name: Seq<char>) -> Option<int> {
    if exists|i: int| is_first_match(hs, name, i) {
        Some(choose|i: int| is_first_match(hs, name, i))
    } else {
        None
    }
}

/// The value of the first header called `name`.
pub open spec fn lookup(hs: Seq<HeaderView>, name: Seq<char>) -> Option<Seq<char>> {
    match first_match(hs, name) {
        Some(i) => Some(hs[i].1),
        None => None,
    }
}

/// How many headers are called `name`.
pub open spec fn count_matches(hs: Seq<HeaderView>, name: Seq<char>) -> nat
    decreases hs.len(),
{
    if hs.len() == 0 {
        0
    } else {
        count_matches(hs.drop_last(), name) + if name_eq(hs.last().0, name) {
            1nat
        } else {
            0nat
        }
    }
}

/// The values of every header called `name`, in message order.
pub open spec fn matching_values(hs: Seq<HeaderView>, name: Seq<char>) -> Seq<Seq<char>>
    decreases hs.len(),
{
    if hs.len() == 0 {
        Seq::empty()
    } else if name_eq(hs.last().0, name) {
        matching_values(hs.drop_last(), name).push(hs.last().1)
    } else {
        matching_values(hs.drop_last(), name)
    }
}

/// The headers after `set_header`: the first header called `name` takes `value`,
/// or a new header is appended when there is none.
pub open spec fn set_spec(hs: Seq<HeaderView>, name: Seq<char>, value: Seq<char>) -> Seq<HeaderView> {
    match first_match(hs, name) {
        Some(i) => hs.update(i, (hs[i].0, value)),
        None => hs.push((name, value)),
    }
}

/// The headers after `rename_header`: the first header called `old` is called `new`.
pub open spec fn rename_spec(hs: Seq<HeaderView>, old: Seq<char>, new: Seq<char>) -> Seq<HeaderView> {
    match first_match(hs, old) {
        Some(i) => hs.update(i, (new, hs[i].1)),
        None => hs,
    }
}

/// The headers after `remove_header`: the first header called `name` is gone.
pub open spec fn remove_spec(hs: Seq<HeaderView>, name: Seq<char>) -> Seq<HeaderView> {
    match first_match(hs, name) {
        Some(i) => hs.remove(i),
        None => hs,
    }
}

/// One header line as written: `name: value` and CRLF.
pub open spec fn header_line(h: HeaderView) -> Seq<char> {
    h.0 + ": "@ + h.1 + "\r\n"@
}

/// The header block, line after line.
pub open spec fn render_headers(hs: Seq<HeaderView>) -> Seq<char>
    decreases hs.len(),
{
    if hs.len() == 0 {
        Seq::empty()
    } else {
        render_headers(hs.drop_last()) + header_line(hs.last())
    }
}

/// The whole message as text: headers, an empty line, then the body.
pub open spec fn render(hs: Seq<HeaderView>, body: Seq<char>) -> Seq<char> {
    render_headers(hs) + "\r\n"@ + body
}

pub proof fn lemma_first_match(hs: Seq<HeaderView>, name: Seq<char>, i: int)
    requires
        is_first_match(hs, name, i),
    ensures
        first_match(hs, name) == Some(i),
        lookup(hs, name) == Some(hs[i].1),
{
    let k = choose|k: int| is_first_match(hs, name, k);
    assert(is_first_match(hs, name, k));
    if k < i {
        assert(!name_eq(hs[k].0, name));
    } else if k > i {
        assert(!name_eq(hs[i].0, name));
    }
}

pub proof fn lemma_no_match(hs: Seq<HeaderView>, name: Seq<char>)
    requires
        forall|j: int| 0 <= j < hs.len() ==> !name_eq(#[trigger] hs[j].0, name),
    ensures
        first_match(hs, name) is None,
        lookup(hs, name) is None,
{
    if exists|i: int| is_first_match(hs, name, i) {
        let k = choose|i: int| is_first_match(hs, name, i);
        assert(name_eq(hs[k].0, name));
    }
}

/// One header field of a message.
pub struct Header {
    pub name: String,
    pub value: String,
}

/// A received message: its header fields in order, and its body.
pub struct MessageBody {
    pub headers: Vec<Header>,
    pub body: String,
}

impl MessageBody {
    pub open spec fn headers_view(&self) -> Seq<HeaderView> {
        self.headers@.map_values(|h: Header| (h.name@, h.value@))
    }

    /// A message with no header and an empty body.
    pub fn new() -> (r: MessageBody)
        ensures
            r.headers_view() == Seq::<HeaderView>::empty(),
            r.body@ == Seq::<char>::empty(),
    {
        let r = MessageBody { headers: Vec::new(), body: String::new() };
        assert(r.headers_view() =~= Seq::<HeaderView>::empty());
        r
    }

    /// A message with the given headers, in order, and body.
    pub fn from_parts(headers: Vec<Header>, body: String) -> (r: MessageBody)
        ensures
            r.headers@ == headers@,
            r.body == body,
    {
        MessageBody { headers, body }
    }

    /// The position of the first header called `name`.
    pub fn find_header(&self, name: &str) -> (r: Option<usize>)
        ensures
            r matches Some(i) ==> is_first_match(self.headers_view(), name@, i as int)
                && first_match(self.headers_view(), name@) == Some(i as int),
            r is None ==> first_match(self.headers_view(), name@) is None,
            r == None::<usize> <==> lookup(self.headers_view(), name@) is None,
    {
        let ghost hs = self.headers_view();
        let mut i: usize = 0;
        while i < self.headers.len()
            invariant
                i <= self.headers.len(),
                hs == self.headers_view(),
                forall|j: int| 0 <= j < i ==> !name_eq(#[trigger] hs[j].0, name@),
            decreases self.headers.len() - i,
        {
            if names_equal(self.headers[i].name.as_str(), name) {
                proof {
                    lemma_first_match(hs, name@, i as int);
                }
                return Some(i);
            }
            i += 1;
        }
        proof {
            lemma_no_match(hs, name@);
        }
        None
    }

    /// The value of the first header called `name`, compared without regard
    /// to ASCII case.
    pub fn get_header(&self, name: &str) -> (r: Option<String>)
        ensures
            r matches Some(v) ==> lookup(self.headers_view(), name@) == Some(v@),
            r is None <==> lookup(self.headers_view(), name@) is None,
    {
        match self.find_header(name) {
            Some(i) => Some(self.headers[i].value.clone()),
            None => None,
        }
    }

    /// How many headers are called `name`.
    pub fn count_header(&self, name: &str) -> (r: usize)
        ensures
            r == count_matches(self.headers_view(), name@),
    {
        let ghost hs = self.headers_view();
        let mut c: usize = 0;
        let mut i: usize = 0;
        while i < self.headers.len()
            invariant
                i <= self.headers.len(),
                c <= i,
                hs == self.headers_view(),
                c == count_matches(hs.subrange(0, i as int), name@),
            decreases self.headers.len() - i,
        {
            assert(hs.subrange(0, i + 1).drop_last() =~= hs.subrange(0, i as int));
            if names_equal(self.headers[i].name.as_str(), name) {
                c += 1;
            }
            i += 1;
        }
        assert(hs.subrange(0, i as int) =~= hs);
        c
    }

    /// The values of every header called `name`, in message order.
    pub fn header_values(&self, name: &str) -> (r: Vec<String>)
        ensures
            r@.map_values(|s: String| s@) == matching_values(self.headers_view(), name@),
    {
        let ghost hs = self.headers_view();
        let mut r: Vec<String> = Vec::new();
        let mut i: usize = 0;
        while i < self.headers.len()
            invariant
                i <= self.headers.len(),
                hs == self.headers_view(),
                r@.map_values(|s: String| s@) == matching_values(hs.subrange(0, i as int), name@),
            decreases self.headers.len() - i,
        {
            assert(hs.subrange(0, i + 1).drop_last() =~= hs.subrange(0, i as int));
            if names_equal(self.headers[i].name.as_str(), name) {
                let v = self.headers[i].value.clone();
                let ghost before = r@;
                r.push(v);
                assert(r@.map_values(|s: String| s@) =~= before.map_values(|s: String| s@).push(
                    v@,
                ));
            }
            i += 1;
        }
        assert(hs.subrange(0, i as int) =~= hs);
        r
    }

    /// Adds a header after all the others.
    pub fn append_header(&mut self, name: &str, value: &str)
        ensures
            final(self).headers_view() == old(self).headers_view().push((name@, value@)),
            final(self).body == old(self).body,
    {
        let h = Header { name: String::from_str(name), value: String::from_str(value) };
        self.headers.push(h);
        assert(self.headers_view() =~= old(self).headers_view().push((name@, value@)));
    }

    /// Adds a header before all the others.
    pub fn prepend_header(&mut self, name: &str, value: &str)
        ensures
            final(self).headers_view() == seq![(name@, value@)] + old(self).headers_view(),
            final(self).body == old(self).body,
    {
        let h = Header { name: String::from_str(name), value: String::from_str(value) };
        self.headers.insert(0, h);
        assert(self.headers_view() =~= seq![(name@, value@)] + old(self).headers_view());
    }

    /// Gives the first header called `name` the value `value`, or appends
    /// such a header when there is none.
    pub fn set_header(&mut self, name: &str, value: &str)
        ensures
            final(self).headers_view() == set_spec(old(self).headers_view(), name@, value@),
            final(self).body == old(self).body,
    {
        match self.find_header(name) {
            Some(i) => {
                let n = self.headers[i].name.clone();
                self.headers.set(i, Header { name: n, value: String::from_str(value) });
                assert(self.headers_view() =~= set_spec(old(self).headers_view(), name@, value@));
            },
            None => {
                self.append_header(name, value);
            },
        }
    }

    /// Calls the first header called `old_name` `new_name` instead.
    pub fn rename_header(&mut self, old_name: &str, new_name: &str)
        ensures
            final(self).headers_view() == rename_spec(
                old(self).headers_view(),
                old_name@,
                new_name@,
            ),
            final(self).body == old(self).body,
    {
        match self.find_header(old_name) {
            Some(i) => {
                let v = self.headers[i].value.clone();
                self.headers.set(i, Header { name: String::from_str(new_name), value: v });
                assert(self.headers_view() =~= rename_spec(
                    old(self).headers_view(),
                    old_name@,
                    new_name@,
                ));
            },
            None => {},
        }
    }

    /// Removes the first header called `name`; tells whether there was one.
    pub fn remove_header(&mut self, name: &str) -> (r: bool)
        ensures
            final(self).headers_view() == remove_spec(old(self).headers_view(), name@),
            r == first_match(old(self).headers_view(), name@) is Some,
            final(self).body == old(self).body,
    {
        match self.find_header(name) {
            Some(i) => {
                let _ = self.headers.remove(i);
                assert(self.headers_view() =~= remove_spec(old(self).headers_view(), name@));
                true
            },
            None => false,
        }
    }

    /// The header block as text: `name: value` and CRLF for each header.
    pub fn headers_text(&self) -> (r: String)
        ensures
            r@ == render_headers(self.headers_view()),
    {
        let ghost hs = self.headers_view();
        let mut r = String::new();
        let mut i: usize = 0;
        while i < self.headers.len()
            invariant
                i <= self.headers.len(),
                hs == self.headers_view(),
                r@ == render_headers(hs.subrange(0, i as int)),
            decreases self.headers.len() - i,
        {
            assert(hs.subrange(0, i + 1).drop_last() =~= hs.subrange(0, i as int));
            r.append(self.headers[i].name.as_str());
            r.append(": ");
            r.append(self.headers[i].value.as_str());
            r.append("\r\n");
            assert(r@ =~= render_headers(hs.subrange(0, i + 1)));
            i += 1;
        }
        assert(hs.subrange(0, i as int) =~= hs);
        r
    }

    /// The whole message as text: headers, an empty line, then the body.
    pub fn to_text(&self) -> (r: String)
        ensures
            r@ == render(self.headers_view(), self.body@),
    {
        let mut r = self.headers_text();
        r.append("\r\n");
        r.append(self.body.as_str());
        r
    }
}

impl Default for MessageBody {
    fn default() -> (r: MessageBody)
        ensures
            r.headers_view() == Seq::<HeaderView>::empty(),
            r.body@ == Seq::<char>::empty(),
    {
        MessageBody::new()
    }
}

/// Whether two header names are equal once ASCII case is ignored.
pub fn names_equal(a: &str, b: &str) -> (r: bool)
    ensures
        r == name_eq(a@, b@),
{
    let n = a.unicode_len();
    if n != b.unicode_len() {
        return false;
    }
    let mut i: usize = 0;
    while i < n
        invariant
            n == a@.len(),
            n == b@.len(),
            i <= n,
            forall|j: int| 0 <= j < i ==> char_eq_ci(#[trigger] a@[j], b@[j]),
        decreases n - i,
    {
        let x = a.get_char(i);
        let y = b.get_char(i);
        if !chars_equal_ci(x, y) {
            return false;
        }
        i += 1;
    }
    true
}

fn chars_equal_ci(a: char, b: char) -> (r: bool)
    ensures
        r == char_eq_ci(a, b),
{
    let x = a as u32;
    let y = b as u32;
    x == y || ('A' <= a && a <= 'Z' && x + 32 == y) || ('A' <= b && b <= 'Z' && y + 32 == x)
}

} // verus!
