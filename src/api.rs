//! The header functions that policy scripts call on the message being received.
use vstd::prelude::*;
use crate::message::{
    count_matches, lookup, matching_values, name_eq, rename_spec, remove_spec, render, set_spec,
    first_match, HeaderView, MessageBody,
};
use crate::object::SharedObject;

verus! {

/// The message as the scripts see it.
pub type Message = MessageBody;

/// The largest integer of the scripting engine.
pub const INT_MAX: u64 = 0x7fff_ffff_ffff_ffff;

#[derive(Debug, PartialEq, Eq)]
pub enum EngineError {
    /// A count does not fit the scripting engine's integer.
    CountOverflow,
}

/// A header as `get_all_headers` lists it: `name: value`.
pub open spec fn header_text(h: HeaderView) -> Seq<char> {
    h.0 + ": "@ + h.1
}

/// Every header called `name`, as `name:value` with the name as it was written.
pub open spec fn untouched_lines(hs: Seq<HeaderView>, name: Seq<char>) -> Seq<Seq<char>>
    decreases hs.len(),
{
    if hs.len() == 0 {
        Seq::empty()
    } else if name_eq(hs.last().0, name) {
        untouched_lines(hs.drop_last(), name).push(hs.last().0 + ":"@ + hs.last().1)
    } else {
        untouched_lines(hs.drop_last(), name)
    }
}

pub open spec fn strings_view(v: Seq<String>) -> Seq<Seq<char>> {
    v.map_values(|s: String| s@)
}

/// Whether a header called `header` exists.
pub fn has_header(message: &mut Message, header: &str) -> (r: bool)
    ensures
        r == lookup(old(message).headers_view(), header@) is Some,
        *final(message) == *old(message),
{
    message.find_header(header).is_some()
}

pub fn has_header_obj(message: &mut Message, header: SharedObject) -> (r: bool)
    ensures
        r == lookup(old(message).headers_view(), header@) is Some,
        *final(message) == *old(message),
{
    has_header(message, header.to_string().as_str())
}

/// How many headers are called `header`.
pub fn count_header(message: &mut Message, header: &str) -> (r: Result<i64, EngineError>)
    ensures
        r matches Ok(c) ==> c as int == count_matches(old(message).headers_view(), header@),
        r is Err <==> count_matches(old(message).headers_view(), header@) > INT_MAX,
        *final(message) == *old(message),
{
    let c = message.count_header(header);
    if c as u64 > INT_MAX {
        Err(EngineError::CountOverflow)
    } else {
        Ok(c as i64)
    }
}

pub fn count_header_obj(message: &mut Message, header: SharedObject) -> (r: Result<i64, EngineError>)
    ensures
        r matches Ok(c) ==> c as int == count_matches(old(message).headers_view(), header@),
        r is Err <==> count_matches(old(message).headers_view(), header@) > INT_MAX,
        *final(message) == *old(message),
{
    count_header(message, header.to_string().as_str())
}

/// The value of the first header called `header`, or an empty string.
pub fn get_header(message: &mut Message, header: &str) -> (r: String)
    ensures
        r@ == match lookup(old(message).headers_view(), header@) {
            Some(v) => v,
            None => Seq::empty(),
        },
        *final(message) == *old(message),
{
    match message.get_header(header) {
        Some(v) => v,
        None => String::new(),
    }
}

pub fn get_header_obj(message: &mut Message, header: SharedObject) -> (r: String)
    ensures
        r@ == match lookup(old(message).headers_view(), header@) {
            Some(v) => v,
            None => Seq::empty(),
        },
        *final(message) == *old(message),
{
    get_header(message, header.to_string().as_str())
}

/// Every header of the message, as `name: value`, in order.
pub fn get_all_headers(message: &mut Message) -> (r: Vec<String>)
    ensures
        strings_view(r@) == old(message).headers_view().map_values(|h: HeaderView| header_text(h)),
        *final(message) == *old(message),
{
    let ghost hs = message.headers_view();
    let mut r: Vec<String> = Vec::new();
    let mut i: usize = 0;
    while i < message.headers.len()
        invariant
            i <= message.headers.len(),
            hs == message.headers_view(),
            strings_view(r@) == hs.subrange(0, i as int).map_values(|h: HeaderView| header_text(h)),
        decreases message.headers.len() - i,
    {
        let mut s = message.headers[i].name.clone();
        s.append(": ");
        s.append(message.headers[i].value.as_str());
        let ghost before = r@;
        r.push(s);
        assert(strings_view(r@) =~= strings_view(before).push(s@));
        assert(hs.subrange(0, i + 1).map_values(|h: HeaderView| header_text(h)) =~= hs.subrange(
            0,
            i as int,
        ).map_values(|h: HeaderView| header_text(h)).push(header_text(hs[i as int])));
        i += 1;
    }
    assert(hs.subrange(0, i as int) =~= hs);
    r
}

/// The values of every header called `name`, in order.
pub fn get_all_headers_str(message: &mut Message, name: &str) -> (r: Vec<String>)
    ensures
        strings_view(r@) == matching_values(old(message).headers_view(), name@),
        *final(message) == *old(message),
{
    message.header_values(name)
}

pub fn get_all_headers_obj(message: &mut Message, name: SharedObject) -> (r: Vec<String>)
    ensures
        strings_view(r@) == matching_values(old(message).headers_view(), name@),
        *final(message) == *old(message),
{
    get_all_headers_str(message, name.to_string().as_str())
}

/// Adds a header at the end of the header block.
pub fn append_header(message: &mut Message, header: &str, value: &str)
    ensures
        final(message).headers_view() == old(message).headers_view().push((header@, value@)),
        final(message).body == old(message).body,
{
    message.append_header(header, value)
}

pub fn append_header_str_obj(message: &mut Message, header: &str, value: SharedObject)
    ensures
        final(message).headers_view() == old(message).headers_view().push((header@, value@)),
        final(message).body == old(message).body,
{
    append_header(message, header, value.to_string().as_str())
}

/// Adds a header at the start of the header block.
pub fn prepend_header(message: &mut Message, header: &str, value: &str)
    ensures
        final(message).headers_view() == seq![(header@, value@)] + old(message).headers_view(),
        final(message).body == old(message).body,
{
    message.prepend_header(header, value)
}

pub fn prepend_header_str_str(message: &mut Message, header: &str, value: &str)
    ensures
        final(message).headers_view() == seq![(header@, value@)] + old(message).headers_view(),
        final(message).body == old(message).body,
{
    prepend_header(message, header, value)
}

pub fn prepend_header_str_obj(message: &mut Message, header: &str, value: SharedObject)
    ensures
        final(message).headers_view() == seq![(header@, value@)] + old(message).headers_view(),
        final(message).body == old(message).body,
{
    prepend_header(message, header, value.to_string().as_str())
}

/// Sets the value of the first header called `header`, or appends it.
pub fn set_header(message: &mut Message, header: &str, value: &str)
    ensures
        final(message).headers_view() == set_spec(old(message).headers_view(), header@, value@),
        final(message).body == old(message).body,
{
    message.set_header(header, value)
}

pub fn set_header_str_obj(message: &mut Message, header: &str, value: SharedObject)
    ensures
        final(message).headers_view() == set_spec(old(message).headers_view(), header@, value@),
        final(message).body == old(message).body,
{
    set_header(message, header, value.to_string().as_str())
}

/// Renames the first header called `old_name`.
pub fn rename_header(message: &mut Message, old_name: &str, new_name: &str)
    ensures
        final(message).headers_view() == rename_spec(
            old(message).headers_view(),
            old_name@,
            new_name@,
        ),
        final(message).body == old(message).body,
{
    message.rename_header(old_name, new_name)
}

pub fn rename_header_str_obj(message: &mut Message, old_name: &str, new_name: SharedObject)
    ensures
        final(message).headers_view() == rename_spec(
            old(message).headers_view(),
            old_name@,
            new_name@,
        ),
        final(message).body == old(message).body,
{
    rename_header(message, old_name, new_name.to_string().as_str())
}

pub fn rename_header_obj_str(message: &mut Message, old_name: SharedObject, new_name: &str)
    ensures
        final(message).headers_view() == rename_spec(
            old(message).headers_view(),
            old_name@,
            new_name@,
        ),
        final(message).body == old(message).body,
{
    rename_header(message, old_name.to_string().as_str(), new_name)
}

pub fn rename_header_obj_obj(
    message: &mut Message,
    old_name: SharedObject,
    new_name: SharedObject,
)
    ensures
        final(message).headers_view() == rename_spec(
            old(message).headers_view(),
            old_name@,
            new_name@,
        ),
        final(message).body == old(message).body,
{
    rename_header(message, old_name.to_string().as_str(), new_name.to_string().as_str())
}

/// The whole message as text.
pub fn mail(this: &mut Message) -> (r: String)
    ensures
        r@ == render(old(this).headers_view(), old(this).body@),
        *final(this) == *old(this),
{
    this.to_text()
}

/// Removes the first header called `header`; tells whether there was one.
pub fn remove_header(message: &mut Message, header: &str) -> (r: bool)
    ensures
        final(message).headers_view() == remove_spec(old(message).headers_view(), header@),
        r == first_match(old(message).headers_view(), header@) is Some,
        final(message).body == old(message).body,
{
    message.remove_header(header)
}

pub fn remove_header_obj(message: &mut Message, header: SharedObject) -> (r: bool)
    ensures
        final(message).headers_view() == remove_spec(old(message).headers_view(), header@),
        r == first_match(old(message).headers_view(), header@) is Some,
        final(message).body == old(message).body,
{
    remove_header(message, header.to_string().as_str())
}

/// Every header called `name`, as `name:value` with the name as written.
pub fn get_header_untouched(this: &mut Message, name: &str) -> (r: Vec<String>)
    ensures
        strings_view(r@) == untouched_lines(old(this).headers_view(), name@),
        *final(this) == *old(this),
{
    let ghost hs = this.headers_view();
    let mut r: Vec<String> = Vec::new();
    let mut i: usize = 0;
    while i < this.headers.len()
        invariant
            i <= this.headers.len(),
            hs == this.headers_view(),
            strings_view(r@) == untouched_lines(hs.subrange(0, i as int), name@),
        decreases this.headers.len() - i,
    {
        assert(hs.subrange(0, i + 1).drop_last() =~= hs.subrange(0, i as int));
        if crate::message::names_equal(this.headers[i].name.as_str(), name) {
            let mut s = this.headers[i].name.clone();
            s.append(":");
            s.append(this.headers[i].value.as_str());
            let ghost before = r@;
            r.push(s);
            assert(strings_view(r@) =~= strings_view(before).push(s@));
        }
        i += 1;
    }
    assert(hs.subrange(0, i as int) =~= hs);
    r
}

} // verus!
