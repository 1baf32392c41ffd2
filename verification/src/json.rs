//! A parsed JSON document, as the emote lists of the providers arrive in it.
//!
//! Each value keeps, beside its structure, its compact rendering as JSON text:
//! the emote lists read some values through that rendering (an id that may be
//! a number or a string is taken from its text, with the quotes trimmed).

use vstd::prelude::*;

verus! {

/// The shape of a JSON value.
#[derive(Debug)]
pub enum JsonKind {
    Null,
    Bool(bool),
    Number,
    Str(String),
    Array(Vec<Json>),
    /// The members in document order, each key at most once.
    Object(Vec<(String, Json)>),
}

/// A JSON value together with its compact text.
#[derive(Debug)]
pub struct Json {
    /// The value written out as compact JSON (a string in quotes, with escapes).
    pub text: String,
    pub kind: JsonKind,
}

/// The text that a missing value renders as.
pub open spec fn null_text() -> Seq<char> {
    seq!['n', 'u', 'l', 'l']
}

/// The value of the first member named `key`, if any.
pub open spec fn find_key(entries: Seq<(String, Json)>, key: Seq<char>) -> Option<Json>
    decreases entries.len(),
{
    if entries.len() == 0 {
        None
    } else if entries[0].0@ == key {
        Some(entries[0].1)
    } else {
        find_key(entries.drop_first(), key)
    }
}

/// `j[key]`: the member `key` of an object; nothing for anything else.
///
/// `None` stands for a missing value, which JSON indexing reads as `null`.
pub open spec fn field(j: Option<Json>, key: Seq<char>) -> Option<Json> {
    match j {
        Some(v) => match v.kind {
            JsonKind::Object(entries) => find_key(entries@, key),
            _ => None,
        },
        None => None,
    }
}

/// `j[i]`: the `i`-th element of an array; nothing for anything else.
pub open spec fn item(j: Option<Json>, i: int) -> Option<Json> {
    match j {
        Some(v) => match v.kind {
            JsonKind::Array(xs) => if 0 <= i < xs@.len() {
                Some(xs@[i])
            } else {
                None
            },
            _ => None,
        },
        None => None,
    }
}

/// The value is `null`, or missing.
pub open spec fn is_null(j: Option<Json>) -> bool {
    match j {
        Some(v) => v.kind is Null,
        None => true,
    }
}

/// The compact text of the value; "null" for a missing one.
pub open spec fn text_of(j: Option<Json>) -> Seq<char> {
    match j {
        Some(v) => v.text@,
        None => null_text(),
    }
}

/// The characters of a string value.
pub open spec fn str_of(j: Option<Json>) -> Option<Seq<char>> {
    match j {
        Some(v) => match v.kind {
            JsonKind::Str(s) => Some(s@),
            _ => None,
        },
        None => None,
    }
}

/// The elements of an array value.
pub open spec fn items_of(j: Option<Json>) -> Option<Seq<Json>> {
    match j {
        Some(v) => match v.kind {
            JsonKind::Array(xs) => Some(xs@),
            _ => None,
        },
        None => None,
    }
}

/// A borrowed optional value, as the value itself.
pub open spec fn opt_ref(j: Option<&Json>) -> Option<Json> {
    match j {
        Some(v) => Some(*v),
        None => None,
    }
}

/// `j[key]`.
pub fn json_field<'a>(j: Option<&'a Json>, key: &str) -> (r: Option<&'a Json>)
    ensures
        opt_ref(r) == field(opt_ref(j), key@),
{
    match j {
        Some(v) => match &v.kind {
            JsonKind::Object(entries) => {
                let mut i: usize = 0;
                assert(entries@.skip(0) == entries@);
                while i < entries.len()
                    invariant
                        i <= entries@.len(),
                        field(opt_ref(j), key@) == find_key(entries@, key@),
                        find_key(entries@, key@) == find_key(entries@.skip(i as int), key@),
                    decreases entries@.len() - i,
                {
                    assert(entries@.skip(i as int).drop_first() == entries@.skip(i + 1));
                    assert(entries@.skip(i as int)[0] == entries@[i as int]);
                    if crate::text::str_eq(entries[i].0.as_str(), key) {
                        assert(entries@.skip(i as int).len() > 0);
                        assert(find_key(entries@.skip(i as int), key@) == Some(entries@[i as int].1));
                        return Some(&entries[i].1);
                    }
                    i += 1;
                }
                None
            },
            _ => None,
        },
        None => None,
    }
}

/// `j[i]`.
pub fn json_item<'a>(j: Option<&'a Json>, i: usize) -> (r: Option<&'a Json>)
    ensures
        opt_ref(r) == item(opt_ref(j), i as int),
{
    match j {
        Some(v) => match &v.kind {
            JsonKind::Array(xs) => if i < xs.len() {
                Some(&xs[i])
            } else {
                None
            },
            _ => None,
        },
        None => None,
    }
}

/// Whether the value is `null` or missing.
pub fn json_is_null(j: Option<&Json>) -> (r: bool)
    ensures
        r == is_null(opt_ref(j)),
{
    match j {
        Some(v) => match &v.kind {
            JsonKind::Null => true,
            _ => false,
        },
        None => true,
    }
}

/// The compact text of the value.
pub fn json_text(j: Option<&Json>) -> (r: String)
    ensures
        r@ == text_of(opt_ref(j)),
{
    match j {
        Some(v) => v.text.clone(),
        None => {
            let mut r = String::new();
            crate::text::push_char(&mut r, 'n');
            crate::text::push_char(&mut r, 'u');
            crate::text::push_char(&mut r, 'l');
            crate::text::push_char(&mut r, 'l');
            r
        },
    }
}

/// The string a value holds, if it is a string.
pub fn json_str<'a>(j: Option<&'a Json>) -> (r: Option<&'a String>)
    ensures
        match r {
            Some(s) => str_of(opt_ref(j)) == Some(s@),
            None => str_of(opt_ref(j)) is None,
        },
{
    match j {
        Some(v) => match &v.kind {
            JsonKind::Str(s) => Some(s),
            _ => None,
        },
        None => None,
    }
}

/// The elements a value holds, if it is an array.
pub fn json_items<'a>(j: Option<&'a Json>) -> (r: Option<&'a Vec<Json>>)
    ensures
        match r {
            Some(xs) => items_of(opt_ref(j)) == Some(xs@),
            None => items_of(opt_ref(j)) is None,
        },
{
    match j {
        Some(v) => match &v.kind {
            JsonKind::Array(xs) => Some(xs),
            _ => None,
        },
        None => None,
    }
}

} // verus!
