//! Decisions made while laying out one chat line: links and ASCII art.

use vstd::prelude::*;
use vstd::utf8::encode_utf8;
use crate::model::Emote;
use crate::name_map::NameMap;
use crate::text::{chars_of, has_prefix, starts_with_spec, views};

verus! {

/// A word is shown as a link when it starts with `http` or is a DGG
/// `#twitch`/`#youtube` embed reference.
pub open spec fn is_url_spec(w: Seq<char>) -> bool {
    starts_with_spec(w, seq!['h', 't', 't', 'p'])
        || starts_with_spec(w, seq!['#', 't', 'w', 'i', 't', 'c', 'h'])
        || starts_with_spec(w, seq!['#', 'y', 'o', 'u', 't', 'u', 'b', 'e'])
}

/// Whether a word is shown as a link.
pub fn is_url(word: &str) -> (r: bool)
    ensures
        r == is_url_spec(word@),
{
    let w = chars_of(word);
    let http = ['h', 't', 't', 'p'];
    let twitch = ['#', 't', 'w', 'i', 't', 'c', 'h'];
    let youtube = ['#', 'y', 'o', 'u', 't', 'u', 'b', 'e'];
    assert(http@ == seq!['h', 't', 't', 'p']);
    assert(twitch@ == seq!['#', 't', 'w', 'i', 't', 'c', 'h']);
    assert(youtube@ == seq!['#', 'y', 'o', 'u', 't', 'u', 'b', 'e']);
    has_prefix(w.as_slice(), http.as_slice()) || has_prefix(w.as_slice(), twitch.as_slice())
        || has_prefix(w.as_slice(), youtube.as_slice())
}

/// The number of lines a run of words must span to count as ASCII art.
pub const ASCII_ART_MIN_LINES: usize = 5;

/// The byte length a word must exceed to count as a line of ASCII art.
pub const ASCII_ART_MIN_LINE_WIDTH: usize = 15;

/// The length in bytes of a word's UTF-8 encoding, as `str::len` reports it.
pub open spec fn byte_len(s: Seq<char>) -> int {
    (encode_utf8(s).len() as usize) as int
}

/// ASCII art starts at word `ix` when at least five words remain, the word is
/// longer than 15 bytes and no emote, and the five words from it all have its
/// length; the art's line width is that length.
pub open spec fn ascii_art_start_spec(words: Seq<Seq<char>>, ix: int, emotes: Map<Seq<char>, &Emote>) -> Option<int> {
    if words.len() - ix >= ASCII_ART_MIN_LINES && byte_len(words[ix]) > ASCII_ART_MIN_LINE_WIDTH
        && !emotes.contains_key(words[ix])
        && forall|k: int| ix <= k < ix + ASCII_ART_MIN_LINES ==> #[trigger] byte_len(words[k]) == byte_len(words[ix]) {
        Some(byte_len(words[ix]))
    } else {
        None
    }
}

/// Whether the words of a message from `ix` on are lines of ASCII art, and if
/// so how wide a line is.
pub fn is_start_of_ascii_art(words: &Vec<String>, ix: usize, emotes: &NameMap<&Emote>) -> (r: Option<usize>)
    requires
        ix <= words@.len(),
        emotes.wf(),
    ensures
        match r {
            Some(n) => ascii_art_start_spec(views(words@), ix as int, emotes@) == Some(n as int),
            None => ascii_art_start_spec(views(words@), ix as int, emotes@).is_none(),
        },
{
    let ghost ws = views(words@);
    if words.len() - ix < ASCII_ART_MIN_LINES {
        return None;
    }
    let first = words[ix].as_str().len();
    assert(first as int == byte_len(ws[ix as int]));
    if first <= ASCII_ART_MIN_LINE_WIDTH || emotes.contains_key(words[ix].as_str()) {
        return None;
    }
    let end = ix + ASCII_ART_MIN_LINES;
    let mut k: usize = ix;
    while k < end
        invariant
            end == ix + ASCII_ART_MIN_LINES,
            ix <= k <= end <= words@.len(),
            ws == views(words@),
            first as int == byte_len(ws[ix as int]),
            forall|m: int| ix <= m < k ==> #[trigger] byte_len(ws[m]) == first as int,
        decreases end - k,
    {
        let len = words[k].as_str().len();
        assert(len as int == byte_len(ws[k as int]));
        if len != first {
            return None;
        }
        k += 1;
    }
    Some(first)
}

} // verus!
