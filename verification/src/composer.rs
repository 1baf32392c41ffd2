//! The message box: recalling lines sent before, sending a line, finding the
//! word under the cursor, putting a chosen emote or name in its place, moving
//! through the suggestions, and dropping a dragged channel tab.
//!
//! Positions in the text are byte offsets of its UTF-8 encoding, as the text
//! box reports them.

use vstd::prelude::*;
use crate::channel::ChannelShared;
use crate::model::OutgoingMessage;
use crate::text::{chars_of, string_from_chars, trim_end_ws, trim_end_ws_chars, white_space, is_whitespace};

verus! {

/// The number of bytes of a character's UTF-8 encoding.
pub open spec fn utf8_width(c: char) -> nat {
    if (c as u32) < 0x80 {
        1
    } else if (c as u32) < 0x800 {
        2
    } else if (c as u32) < 0x10000 {
        3
    } else {
        4
    }
}

/// The number of bytes of the UTF-8 encoding of a text.
pub open spec fn utf8_len(s: Seq<char>) -> nat
    decreases s.len(),
{
    if s.len() == 0 {
        0
    } else {
        utf8_len(s.drop_last()) + utf8_width(s.last())
    }
}

/// The byte offset at which character `i` of a text starts.
pub open spec fn byte_offset(s: Seq<char>, i: int) -> nat {
    utf8_len(s.take(i))
}

fn char_width(c: char) -> (r: u8)
    ensures
        r as nat == utf8_width(c),
{
    let u = c as u32;
    if u < 0x80 {
        1
    } else if u < 0x800 {
        2
    } else if u < 0x10000 {
        3
    } else {
        4
    }
}

proof fn lemma_offset_step(s: Seq<char>, i: int)
    requires
        0 <= i < s.len(),
    ensures
        byte_offset(s, i + 1) == byte_offset(s, i) + utf8_width(s[i]),
{
    assert(s.take(i + 1).drop_last() == s.take(i));
    assert(s.take(i + 1).last() == s[i]);
}

/// The line recalled from the lines sent before, and the recall position
/// afterwards: the line at the current position (0 when none is set), then a
/// step to an older line (no further than the oldest) or a newer one (no
/// further than the newest).
pub open spec fn recall_index(ix: Option<usize>) -> int {
    match ix {
        Some(i) => i as int,
        None => 0,
    }
}

pub open spec fn recall_next_index(ix: Option<usize>, len: int, older: bool) -> int {
    let i = recall_index(ix);
    if older {
        if i + 1 < len - 1 { i + 1 } else { len - 1 }
    } else {
        if i > 0 { i - 1 } else { 0 }
    }
}

/// A recall: `r` is the line at the recall position of `s`, if there is one,
/// and `n` is `s` with the position moved one line older or newer.
pub open spec fn recall_step(s: ChannelShared, n: ChannelShared, older: bool, r: Option<String>) -> bool {
    let i = recall_index(s.send_history_ix);
    let h = s.send_history@;
    &&& r == (if i < h.len() { Some(h[i]) } else { None })
    &&& n == ChannelShared {
        send_history_ix: Some(recall_next_index(s.send_history_ix, h.len() as int, older) as usize),
        ..s
    }
}

/// Recalls a line sent before: gives the line at the recall position, if
/// there is one, and moves the position one line older or newer.
pub fn history_recall(shared: &mut ChannelShared, older: bool) -> (r: Option<String>)
    requires
        older ==> old(shared).send_history@.len() > 0,
        older ==> recall_index(old(shared).send_history_ix) < usize::MAX,
    ensures
        recall_step(*old(shared), *final(shared), older, r),
{
    let ix: usize = match shared.send_history_ix {
        Some(i) => i,
        None => 0,
    };
    let len = shared.send_history.len();
    let msg = if ix < len {
        Some(shared.send_history[ix].clone())
    } else {
        None
    };
    let next: usize = if older {
        let up = ix + 1;
        if up < len - 1 { up } else { len - 1 }
    } else {
        if ix > 0 { ix - 1 } else { 0 }
    };
    shared.send_history_ix = Some(next);
    msg
}

/// A text with every line break made a space.
pub open spec fn newlines_to_spaces(s: Seq<char>) -> Seq<char> {
    s.map_values(|c: char| if c == '\n' { ' ' } else { c })
}

/// The chat line that sends the draft to a channel, its line breaks made
/// spaces.
pub fn outgoing_chat(channel_name: &String, draft: &str) -> (r: OutgoingMessage)
    ensures
        (r matches OutgoingMessage::Chat { channel, message }
            && channel@ == channel_name@ && message@ == newlines_to_spaces(draft@)),
{
    let cs = chars_of(draft);
    let mut out: Vec<char> = Vec::new();
    let mut i: usize = 0;
    while i < cs.len()
        invariant
            i <= cs@.len(),
            cs@ == draft@,
            out@ == newlines_to_spaces(cs@.take(i as int)),
        decreases cs@.len() - i,
    {
        let c = cs[i];
        out.push(if c == '\n' { ' ' } else { c });
        assert(newlines_to_spaces(cs@.take(i + 1)) == newlines_to_spaces(cs@.take(i as int)).push(
            if c == '\n' { ' ' } else { c },
        ));
        i += 1;
    }
    assert(cs@.take(cs@.len() as int) == cs@);
    OutgoingMessage::Chat { channel: channel_name.clone(), message: string_from_chars(out.as_slice()) }
}

/// `n` is `s` after the line `draft` was sent: the line, without its trailing
/// whitespace, is the newest of the lines sent before, and the recall position
/// is reset.
pub open spec fn sent_recorded(s: ChannelShared, n: ChannelShared, draft: Seq<char>) -> bool {
    &&& n.send_history@.len() == s.send_history@.len() + 1
    &&& n.send_history@[0]@ == trim_end_ws(draft)
    &&& forall|i: int| 0 <= i < s.send_history@.len() ==> #[trigger] n.send_history@[i + 1] == s.send_history@[i]
    &&& n == ChannelShared { send_history: n.send_history, send_history_ix: None, ..s }
}

/// Records a line that was sent: it becomes the newest of the lines sent
/// before, without its trailing whitespace, and the recall position is reset.
pub fn record_sent(shared: &mut ChannelShared, draft: &str)
    ensures
        sent_recorded(*old(shared), *final(shared), draft@),
{
    let cs = chars_of(draft);
    let t = trim_end_ws_chars(cs.as_slice());
    shared.send_history.push_front(string_from_chars(t.as_slice()));
    shared.send_history_ix = None;
}

/// A word of the text: a non-empty run `i..j` of non-whitespace characters
/// with whitespace or an end of the text on either side.
pub open spec fn is_word(s: Seq<char>, i: int, j: int) -> bool {
    &&& 0 <= i < j <= s.len()
    &&& forall|k: int| i <= k < j ==> !white_space(#[trigger] s[k])
    &&& (i == 0 || white_space(s[i - 1]))
    &&& (j == s.len() || white_space(s[j]))
}

/// The cursor is on the word `i..j`: from its first byte to just past its last.
pub open spec fn word_hit(s: Seq<char>, i: int, j: int, cursor: int) -> bool {
    is_word(s, i, j) && byte_offset(s, i) <= cursor <= byte_offset(s, j)
}

/// `r` is the word under the cursor: the first word the cursor is on, with
/// the byte offset where it starts; nothing when the cursor is on none.
pub open spec fn word_at(s: Seq<char>, cursor: int, r: Option<(usize, String)>) -> bool {
    match r {
        Some((p, w)) => exists|i: int, j: int|
            #![trigger word_hit(s, i, j, cursor)]
            word_hit(s, i, j, cursor) && p == byte_offset(s, i) && w@ == s.subrange(i, j)
                && forall|i2: int, j2: int| #[trigger] word_hit(s, i2, j2, cursor) ==> i <= i2,
        None => forall|i: int, j: int| !#[trigger] word_hit(s, i, j, cursor),
    }
}

/// Finds the word under the cursor, as `split_whitespace` pieces are matched
/// against the cursor position.
pub fn word_at_cursor(msg: &str, cursor: usize) -> (r: Option<(usize, String)>)
    ensures
        word_at(msg@, cursor as int, r),
{
    let cs = chars_of(msg);
    let ghost s = cs@;
    let n = cs.len();
    let mut i: usize = 0;
    let mut b: u128 = 0;
    while i < n
        invariant
            s == cs@,
            s == msg@,
            n == s.len(),
            i <= n,
            b == byte_offset(s, i as int),
            b <= 4 * i,
            i == 0 || i == n || white_space(s[i - 1]) || white_space(s[i as int]),
            forall|i2: int, j2: int| #[trigger] word_hit(s, i2, j2, cursor as int) ==> i <= i2,
        decreases n - i,
    {
        let c = cs[i];
        if is_whitespace(c) {
            proof {
                lemma_offset_step(s, i as int);
                assert forall|i2: int, j2: int| #[trigger] word_hit(s, i2, j2, cursor as int) implies i + 1 <= i2 by {
                    if i2 == i {
                        assert(!white_space(s[i2]));
                    }
                }
            }
            b = b + char_width(c) as u128;
            i += 1;
        } else {
            let start = i;
            let bs = b;
            let mut j: usize = i;
            let mut bj: u128 = b;
            while j < n && !is_whitespace(cs[j])
                invariant
                    s == cs@,
                    n == s.len(),
                    start <= j <= n,
                    bj == byte_offset(s, j as int),
                    bj <= 4 * j,
                    forall|k: int| start <= k < j ==> !white_space(#[trigger] s[k]),
                decreases n - j,
            {
                proof {
                    lemma_offset_step(s, j as int);
                }
                bj = bj + char_width(cs[j]) as u128;
                j += 1;
            }
            assert(start == 0 || white_space(s[start - 1]));
            assert(is_word(s, start as int, j as int));
            if bs <= cursor as u128 && cursor as u128 <= bj {
                let w = crate::text::copy_range(cs.as_slice(), start, j);
                let word = string_from_chars(w.as_slice());
                assert(word_hit(s, start as int, j as int, cursor as int));
                return Some((bs as usize, word));
            }
            proof {
                assert forall|i2: int, j2: int| #[trigger] word_hit(s, i2, j2, cursor as int) implies j <= i2 by {
                    assert(start <= i2);
                    if i2 == start {
                        if j2 < j {
                            assert(white_space(s[j2]));
                        } else if j2 > j {
                            assert(!white_space(s[j as int]));
                        }
                    } else if i2 < j {
                        assert(white_space(s[i2 - 1]));
                    }
                }
            }
            i = j;
            b = bj;
        }
    }
    None
}

proof fn lemma_offset_grows(s: Seq<char>, i: int, j: int)
    requires
        0 <= i <= j <= s.len(),
    ensures
        byte_offset(s, i) + (j - i) <= byte_offset(s, j),
    decreases j - i,
{
    if i < j {
        lemma_offset_grows(s, i, j - 1);
        lemma_offset_step(s, j - 1);
    }
}

proof fn lemma_offset_full(s: Seq<char>)
    ensures
        byte_offset(s, s.len() as int) == utf8_len(s),
{
    assert(s.take(s.len() as int) == s);
}

/// The byte length of a text's UTF-8 encoding.
fn utf8_length(cs: &[char]) -> (r: u128)
    ensures
        r == utf8_len(cs@),
        r <= 4 * cs@.len(),
{
    let mut k: usize = 0;
    let mut n: u128 = 0;
    while k < cs.len()
        invariant
            k <= cs@.len(),
            n == byte_offset(cs@, k as int),
            n <= 4 * k,
        decreases cs@.len() - k,
    {
        proof {
            lemma_offset_step(cs@, k as int);
        }
        n = n + char_width(cs[k]) as u128;
        k += 1;
    }
    proof {
        lemma_offset_full(cs@);
    }
    n
}

/// Whether a chosen text goes in with a space after it: when the choice is
/// final and the word is not followed by a space, or is followed by at most
/// one byte.
pub open spec fn space_after(s: Seq<char>, e: int, finished: bool) -> bool {
    finished && (utf8_len(s) <= byte_offset(s, e) + 1 || s[e] != ' ')
}

/// The draft with its characters `a..e` replaced by the chosen text, and a
/// space after it when one is called for.
pub open spec fn replaced_draft(s: Seq<char>, a: int, e: int, text: Seq<char>, finished: bool) -> Seq<char> {
    s.take(a) + text + (if space_after(s, e, finished) {
        seq![' ']
    } else {
        Seq::<char>::empty()
    }) + s.skip(e)
}

/// The bytes `pos..pos + len` of the draft can be replaced: both ends fall
/// between characters, and for a final choice followed by more than one byte
/// the character after it is one byte long.
pub open spec fn edit_ok(s: Seq<char>, pos: int, len: int, finished: bool) -> bool {
    exists|a: int, e: int|
        #![trigger byte_offset(s, a), byte_offset(s, e)]
        0 <= a <= e <= s.len() && byte_offset(s, a) == pos && byte_offset(s, e) == pos + len
            && (finished && utf8_len(s) > pos + len + 1 ==> utf8_width(s[e]) == 1)
}

/// Finds the character that starts at byte offset `target`, scanning from
/// character `k0` at byte offset `off0`.
fn char_at_offset(cs: &[char], k0: usize, off0: u128, target: u128, Ghost(a): Ghost<int>) -> (r: (usize, u128))
    requires
        0 <= k0 <= a <= cs@.len(),
        off0 == byte_offset(cs@, k0 as int),
        off0 <= 4 * k0,
        byte_offset(cs@, a) == target,
    ensures
        r.0 == a,
        r.1 == target,
        r.1 <= 4 * r.0,
{
    let mut k = k0;
    let mut off = off0;
    while off < target
        invariant
            k0 <= k <= a <= cs@.len(),
            off == byte_offset(cs@, k as int),
            off <= 4 * k,
            byte_offset(cs@, a) == target,
        decreases a - k,
    {
        proof {
            if k == a {
                assert(false);
            }
            lemma_offset_step(cs@, k as int);
            lemma_offset_grows(cs@, k + 1, a);
        }
        off = off + char_width(cs[k]) as u128;
        k += 1;
    }
    proof {
        if k < a {
            lemma_offset_grows(cs@, k as int, a);
        }
    }
    (k, off)
}

/// Puts a chosen emote or name in place of the word at byte offset `pos` of
/// the draft, with a space after it when the choice is final and no space
/// follows; gives the new draft and where the cursor goes: just past the
/// chosen text, one further for a final choice. An empty draft is left alone.
pub fn replace_word(draft: &str, pos: usize, word: &str, text: &str, finished: bool) -> (r: Option<(String, usize)>)
    requires
        draft@.len() > 0 ==> edit_ok(draft@, pos as int, utf8_len(word@) as int, finished),
        pos + utf8_len(text@) + 1 <= usize::MAX,
    ensures
        draft@.len() == 0 ==> r is None,
        draft@.len() > 0 ==> (r matches Some((t, c)) && c == pos + utf8_len(text@) + (if finished { 1int } else { 0int })
            && forall|a: int, e: int|
                #![trigger byte_offset(draft@, a), byte_offset(draft@, e)]
                0 <= a <= e <= draft@.len() && byte_offset(draft@, a) == pos && byte_offset(draft@, e) == pos + utf8_len(word@)
                    ==> t@ == replaced_draft(draft@, a, e, text@, finished)),
{
    if draft.is_empty() {
        return None;
    }
    let cs = chars_of(draft);
    let ghost s = cs@;
    let wc = chars_of(word);
    let tc = chars_of(text);
    let wl = utf8_length(wc.as_slice());
    let tl = utf8_length(tc.as_slice());
    let total = utf8_length(cs.as_slice());
    let ghost (ga, ge) = choose|a: int, e: int|
        #![trigger byte_offset(s, a), byte_offset(s, e)]
        0 <= a <= e <= s.len() && byte_offset(s, a) == pos && byte_offset(s, e) == pos + utf8_len(word@)
            && (finished && utf8_len(s) > pos + utf8_len(word@) + 1 ==> utf8_width(s[e]) == 1);
    let (a, off_a) = char_at_offset(cs.as_slice(), 0, 0, pos as u128, Ghost(ga));
    let wn: usize = wc.len();
    assert(wc@.len() == wn);
    let end: u128 = pos as u128 + wl;
    proof {
        lemma_offset_grows(s, a as int, ge);
    }
    let (e, off_e) = char_at_offset(cs.as_slice(), a, off_a, end, Ghost(ge));
    proof {
        lemma_offset_full(s);
    }
    let space = finished && (total <= end + 1 || cs[e] != ' ');
    assert(space == space_after(s, e as int, finished));
    let mut out = crate::text::copy_range(cs.as_slice(), 0, a);
    let mut k: usize = 0;
    let ghost base = out@;
    while k < tc.len()
        invariant
            k <= tc@.len(),
            out@ == base + tc@.take(k as int),
        decreases tc@.len() - k,
    {
        out.push(tc[k]);
        assert(tc@.take(k + 1) == tc@.take(k as int).push(tc@[k as int]));
        k += 1;
    }
    assert(tc@.take(tc@.len() as int) == tc@);
    if space {
        out.push(' ');
    }
    let ghost mid = out@;
    let rest = crate::text::copy_range(cs.as_slice(), e, cs.len());
    let mut k2: usize = 0;
    while k2 < rest.len()
        invariant
            k2 <= rest@.len(),
            out@ == mid + rest@.take(k2 as int),
        decreases rest@.len() - k2,
    {
        out.push(rest[k2]);
        assert(rest@.take(k2 + 1) == rest@.take(k2 as int).push(rest@[k2 as int]));
        k2 += 1;
    }
    assert(rest@.take(rest@.len() as int) == rest@);
    let cursor: usize = pos + tl as usize + if finished { 1 } else { 0 };
    proof {
        assert(s.subrange(0, a as int) == s.take(a as int));
        assert(s.subrange(e as int, s.len() as int) == s.skip(e as int));
        assert(out@ == replaced_draft(s, a as int, e as int, text@, finished));
        assert forall|a2: int, e2: int|
            #![trigger byte_offset(s, a2), byte_offset(s, e2)]
            0 <= a2 <= e2 <= s.len() && byte_offset(s, a2) == pos && byte_offset(s, e2) == pos + utf8_len(word@)
                implies a2 == a && e2 == e by {
            if a2 < a {
                lemma_offset_grows(s, a2 + 1, a as int);
                lemma_offset_step(s, a2);
            } else if a2 > a {
                lemma_offset_grows(s, a as int + 1, a2);
                lemma_offset_step(s, a as int);
            }
            if e2 < e {
                lemma_offset_grows(s, e2 + 1, e as int);
                lemma_offset_step(s, e2);
            } else if e2 > e {
                lemma_offset_grows(s, e as int + 1, e2);
                lemma_offset_step(s, e as int);
            }
        }
    }
    Some((string_from_chars(out.as_slice()), cursor))
}

/// The position of the first suggestion equal to `x`.
pub open spec fn first_index(opts: Seq<Seq<char>>, x: Seq<char>) -> Option<int>
    decreases opts.len(),
{
    if opts.len() == 0 {
        None
    } else if opts[0] == x {
        Some(0)
    } else {
        match first_index(opts.drop_first(), x) {
            Some(i) => Some(i + 1),
            None => None,
        }
    }
}

/// The position of the selected suggestion, if one is selected and listed.
pub open spec fn selected_index(opts: Seq<Seq<char>>, sel: Option<Seq<char>>) -> Option<int> {
    match sel {
        Some(x) => first_index(opts, x),
        None => None,
    }
}

/// The selection after a key press among the suggestions: the next one (or
/// the first, past the end or when none is selected), the previous one (when
/// there is one), or else the same one, dropped when it is no longer listed or
/// when the word being typed changed to one that is not listed.
pub open spec fn next_selection(
    opts: Seq<Seq<char>>,
    sel: Option<Seq<char>>,
    forward: bool,
    back: bool,
    input: Option<(usize, Seq<char>)>,
    word: Option<(usize, Seq<char>)>,
) -> Option<Seq<char>> {
    let p = selected_index(opts, sel);
    if forward {
        if p is Some && p->0 + 1 < opts.len() {
            Some(opts[p->0 + 1])
        } else if opts.len() > 0 {
            Some(opts[0])
        } else {
            None
        }
    } else if back && p is Some && p->0 > 0 {
        Some(opts[p->0 - 1])
    } else if sel is Some && p is None {
        None
    } else if input is Some && word != input && !(word matches Some(w) && opts.contains(w.1)) {
        None
    } else {
        sel
    }
}

proof fn lemma_first_index(opts: Seq<Seq<char>>, x: Seq<char>, k: int)
    requires
        0 <= k <= opts.len(),
        forall|q: int| 0 <= q < k ==> opts[q] != x,
    ensures
        k < opts.len() && opts[k] == x ==> first_index(opts, x) == Some(k),
        k == opts.len() ==> first_index(opts, x) is None,
        first_index(opts, x) matches Some(i) ==> 0 <= i < opts.len() && opts[i] == x,
        first_index(opts, x) is None ==> forall|q: int| 0 <= q < opts.len() ==> opts[q] != x,
    decreases opts.len(),
{
    if opts.len() > 0 {
        if k > 0 {
            lemma_first_index(opts.drop_first(), x, k - 1);
        } else {
            lemma_first_index(opts.drop_first(), x, 0);
        }
        assert forall|q: int| 1 <= q < opts.len() implies opts[q] == opts.drop_first()[q - 1] by {}
    }
}

fn find_text(opts: &Vec<String>, x: &String) -> (r: Option<usize>)
    ensures
        match r {
            Some(i) => first_index(crate::text::views(opts@), x@) == Some(i as int) && i < opts@.len(),
            None => first_index(crate::text::views(opts@), x@) is None,
        },
{
    let ghost v = crate::text::views(opts@);
    let mut k: usize = 0;
    while k < opts.len()
        invariant
            k <= opts@.len(),
            v == crate::text::views(opts@),
            forall|q: int| 0 <= q < k ==> v[q] != x@,
        decreases opts@.len() - k,
    {
        if crate::text::str_eq(opts[k].as_str(), x.as_str()) {
            proof {
                lemma_first_index(v, x@, k as int);
            }
            return Some(k);
        }
        k += 1;
    }
    proof {
        lemma_first_index(v, x@, k as int);
    }
    None
}

fn same_input(a: &Option<(usize, String)>, b: &Option<(usize, String)>) -> (r: bool)
    ensures
        r == (match (a, b) {
            (Some(x), Some(y)) => x.0 == y.0 && x.1@ == y.1@,
            (None, None) => true,
            _ => false,
        }),
{
    match (a, b) {
        (Some(x), Some(y)) => x.0 == y.0 && crate::text::str_eq(x.1.as_str(), y.1.as_str()),
        (None, None) => true,
        _ => false,
    }
}

/// A word being typed, with the byte offset where it starts, as text.
pub open spec fn input_view(w: Option<(usize, String)>) -> Option<(usize, Seq<char>)> {
    match w {
        Some((p, s)) => Some((p, s@)),
        None => None,
    }
}

/// The word the selector completes while a word is typed: the word under
/// the cursor becomes the word being completed unless a suggestion is
/// already picked for a word kept from before; suggestions are sought for
/// the kept word, else for the word under the cursor.
pub fn selector_query(
    selected_input: &mut Option<(usize, String)>,
    selected: &Option<String>,
    word_input: &Option<(usize, String)>,
) -> (r: Option<(usize, String)>)
    ensures
        input_view(*final(selected_input)) == if (*old(selected_input)) is None || (*selected) is None {
            input_view(*word_input)
        } else {
            input_view(*old(selected_input))
        },
        input_view(r) == if input_view(*final(selected_input)) is Some {
            input_view(*final(selected_input))
        } else {
            input_view(*word_input)
        },
{
    if selected_input.is_none() || selected.is_none() {
        *selected_input = match word_input {
            Some((p, w)) => Some((*p, w.clone())),
            None => None,
        };
    }
    match selected_input {
        Some((p, w)) => Some((*p, w.clone())),
        None => match word_input {
            Some((p, w)) => Some((*p, w.clone())),
            None => None,
        },
    }
}

/// Moves the selection among the suggestions after a key press.
pub fn cycle_selection(
    opts: &Vec<String>,
    selected: Option<String>,
    forward: bool,
    back: bool,
    input: &Option<(usize, String)>,
    word: &Option<(usize, String)>,
) -> (r: Option<String>)
    ensures
        crate::text::opt_str_view(r) == next_selection(
            crate::text::views(opts@),
            crate::text::opt_str_view(selected),
            forward,
            back,
            input_view(*input),
            input_view(*word),
        ),
{
    let ghost v = crate::text::views(opts@);
    let p = match &selected {
        Some(x) => find_text(opts, x),
        None => None,
    };
    let n = opts.len();
    if forward {
        match p {
            Some(i) => {
                if i + 1 < n {
                    return Some(opts[i + 1].clone());
                }
            },
            None => {},
        }
        if opts.len() > 0 {
            return Some(opts[0].clone());
        }
        return None;
    }
    if back {
        match p {
            Some(i) => {
                if i > 0 {
                    return Some(opts[i - 1].clone());
                }
            },
            None => {},
        }
    }
    if selected.is_some() && p.is_none() {
        return None;
    }
    if input.is_some() && !same_input(input, word) {
        let listed = match word {
            Some((_, w)) => find_text(opts, w).is_some(),
            None => false,
        };
        proof {
            if word is Some {
                let w = word->0;
                lemma_first_index(v, w.1@, 0);
                if listed {
                    assert(v[first_index(v, w.1@)->0] == w.1@);
                }
            }
        }
        if !listed {
            return None;
        }
    }
    selected
}

/// Drops a dragged channel tab: onto the right-hand panel it is shown there
/// (and, if it was the left-hand panel's channel, the left shows what the
/// right showed); elsewhere, unless the tab order changed, it is shown on the
/// left. Gives the panel that changed, if one did.
pub fn drop_channel_tab(
    selected: &mut Option<String>,
    rhs_selected: &mut Option<String>,
    dragged: &String,
    on_rhs: bool,
    order_changed: bool,
) -> (r: Option<crate::model::UiEvent>)
    ensures
        on_rhs ==> {
            &&& r matches Some(crate::model::UiEvent::ChannelChangeRHS)
            &&& crate::text::opt_str_view(*final(rhs_selected)) == Some(dragged@)
            &&& crate::text::opt_str_view(*final(selected)) == if crate::text::opt_str_view(*old(selected)) == Some(dragged@) {
                crate::text::opt_str_view(*old(rhs_selected))
            } else {
                crate::text::opt_str_view(*old(selected))
            }
        },
        !on_rhs && !order_changed ==> {
            &&& r matches Some(crate::model::UiEvent::ChannelChangeLHS)
            &&& crate::text::opt_str_view(*final(selected)) == Some(dragged@)
            &&& *final(rhs_selected) == *old(rhs_selected)
        },
        !on_rhs && order_changed ==> {
            &&& r is None
            &&& *final(selected) == *old(selected)
            &&& *final(rhs_selected) == *old(rhs_selected)
        },
{
    if on_rhs {
        let was_left = match selected {
            Some(s) => *s == *dragged,
            None => false,
        };
        if was_left {
            *selected = match rhs_selected {
                Some(s) => Some(s.clone()),
                None => None,
            };
        }
        *rhs_selected = Some(dragged.clone());
        Some(crate::model::UiEvent::ChannelChangeRHS)
    } else if !order_changed {
        *selected = Some(dragged.clone());
        Some(crate::model::UiEvent::ChannelChangeLHS)
    } else {
        None
    }
}

} // verus!
