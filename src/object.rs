use vstd::prelude::*;

verus! {

pub open spec fn is_alnum(c: char) -> bool {
    ('a' <= c <= 'z') || ('A' <= c <= 'Z') || ('0' <= c <= '9')
}

pub open spec fn is_label_char(c: char) -> bool {
    is_alnum(c) || c == '-'
}

/// A fully qualified domain name: labels of letters, digits and hyphens,
/// joined by dots, each label starting and ending with a letter or digit,
/// 253 characters at most.
pub open spec fn valid_fqdn(s: Seq<char>) -> bool {
    &&& 0 < s.len() <= 253
    &&& is_alnum(s[0])
    &&& is_alnum(s[s.len() - 1])
    &&& forall|i: int| 0 <= i < s.len() ==> is_label_char(#[trigger] s[i]) || s[i] == '.'
    &&& forall|i: int|
        0 < i < s.len() - 1 && #[trigger] s[i] == '.' ==> is_alnum(s[i - 1]) && is_alnum(s[i + 1])
}

/// A value handed to the scripting API in place of a plain string.
pub enum Object {
    /// A domain name, checked on construction.
    Fqdn(String),
    /// Free text.
    Str(String),
}

/// An object as the scripts share it.
pub type SharedObject = std::sync::Arc<Object>;

#[derive(Debug, PartialEq, Eq)]
pub enum ObjectError {
    /// The text is not a fully qualified domain name.
    InvalidFqdn,
}

impl View for Object {
    type V = Seq<char>;

    /// The text of the object, as `to_string` gives it.
    open spec fn view(&self) -> Seq<char> {
        match self {
            Object::Fqdn(s) => s@,
            Object::Str(s) => s@,
        }
    }
}

impl Object {
    /// A domain name object; refused unless `s` is a fully qualified domain name.
    pub fn new_fqdn(s: &str) -> (r: Result<Object, ObjectError>)
        ensures
            r matches Ok(o) ==> o is Fqdn && o@ == s@,
            r is Err <==> !valid_fqdn(s@),
    {
        if is_fqdn(s) {
            Ok(Object::Fqdn(String::from_str(s)))
        } else {
            Err(ObjectError::InvalidFqdn)
        }
    }

    /// A free text object.
    pub fn new_str(s: &str) -> (r: Object)
        ensures
            r is Str && r@ == s@,
    {
        Object::Str(String::from_str(s))
    }

    /// The text of the object.
    pub fn to_string(&self) -> (r: String)
        ensures
            r@ == self@,
    {
        match self {
            Object::Fqdn(s) => s.clone(),
            Object::Str(s) => s.clone(),
        }
    }
}

fn char_is_alnum(c: char) -> (r: bool)
    ensures
        r == is_alnum(c),
{
    ('a' <= c && c <= 'z') || ('A' <= c && c <= 'Z') || ('0' <= c && c <= '9')
}

/// Whether `s` is a fully qualified domain name.
pub fn is_fqdn(s: &str) -> (r: bool)
    ensures
        r == valid_fqdn(s@),
{
    let n = s.unicode_len();
    if n == 0 || n > 253 {
        return false;
    }
    if !char_is_alnum(s.get_char(0)) || !char_is_alnum(s.get_char(n - 1)) {
        return false;
    }
    let mut i: usize = 0;
    while i < n
        invariant
            n == s@.len(),
            0 < n <= 253,
            is_alnum(s@[0]),
            is_alnum(s@[n - 1]),
            i <= n,
            forall|j: int| 0 <= j < i ==> is_label_char(#[trigger] s@[j]) || s@[j] == '.',
            forall|j: int|
                0 < j < n - 1 && j < i && #[trigger] s@[j] == '.' ==> is_alnum(s@[j - 1])
                    && is_alnum(s@[j + 1]),
        decreases n - i,
    {
        let c = s.get_char(i);
        if c == '.' {
            if i == 0 || i + 1 >= n {
                return false;
            }
            if !char_is_alnum(s.get_char(i - 1)) || !char_is_alnum(s.get_char(i + 1)) {
                return false;
            }
        } else if !char_is_alnum(c) && c != '-' {
            return false;
        }
        i += 1;
    }
    true
}

} // verus!
