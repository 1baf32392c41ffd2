//! Reading emote and badge lists out of the JSON documents that Twitch,
//! BetterTTV, FrankerFaceZ and 7TV serve.
//!
//! The lists are read at the medium image size: Twitch's `url_2x`, BetterTTV's
//! `2x`, FrankerFaceZ's and 7TV's `2`.

use vstd::prelude::*;
use crate::json::{
    Json, field, item, is_null, text_of, str_of, items_of, opt_ref, json_field, json_item,
    json_is_null, json_text, json_str, json_items,
};
use crate::model::{Emote, EmoteStatus, EmoteSource};
use crate::text::{
    trim_start_spec, trim_end_spec, starts_with_spec, opt_str_view, chars_of, trim_start_char,
    trim_end_char, string_from_chars, matches_at, push_str, str_eq,
};

verus! {

/// `s.trim_matches('"')`.
pub open spec fn unquote(s: Seq<char>) -> Seq<char> {
    trim_end_spec(trim_start_spec(s, '"'), '"')
}

/// A value's text with the quotes trimmed, the way the lists read names and ids.
pub open spec fn plain_text(j: Option<Json>) -> Seq<char> {
    unquote(text_of(j))
}

/// Every occurrence of `from` replaced by `to`, scanning from the left, as
/// `str::replace` does for a non-empty pattern.
pub open spec fn replace_spec(s: Seq<char>, from: Seq<char>, to: Seq<char>) -> Seq<char>
    decreases s.len(),
{
    if s.len() == 0 {
        s
    } else if from.len() > 0 && starts_with_spec(s, from) {
        to + replace_spec(s.skip(from.len() as int), from, to)
    } else {
        seq![s[0]] + replace_spec(s.drop_first(), from, to)
    }
}

/// An emote just read from a list: the given name, id, address, folder,
/// extension and zero-width flag, everything else as a new emote has it.
pub open spec fn listed_emote(
    e: Emote,
    name: Seq<char>,
    id: Seq<char>,
    url: Seq<char>,
    path: Seq<char>,
    ext: Option<Seq<char>>,
    zero_width: bool,
) -> bool {
    &&& e.name@ == name
    &&& e.id@ == id
    &&& e.url@ == url
    &&& e.path@ == path
    &&& opt_str_view(e.extension) == ext
    &&& e.zero_width == zero_width
    &&& e.display_name is None
    &&& e.color is None
    &&& e.frame_delays is None
    &&& e.loaded == EmoteStatus::NotLoaded
    &&& e.duration_msec == 0
    &&& e.css_anim is None
    &&& e.priority == 0
    &&& !e.hidden
    &&& e.source == EmoteSource::Channel
    &&& e.channel_name@.len() == 0
}

/// A Twitch entry can be read: its `format` is an array.
pub open spec fn twitch_item_ok(i: Json) -> bool {
    items_of(field(Some(i), "format"@)) is Some
}

/// The Twitch entry `i`, read with the image of key `size`: an entry with two
/// formats is animated, a gif whose address points at the animated image.
pub open spec fn twitch_emote(e: Emote, i: Json, size: Seq<char>) -> bool {
    let o = Some(i);
    let animated = items_of(field(o, "format"@))->0.len() == 2;
    let raw = plain_text(field(field(o, "images"@), size));
    listed_emote(
        e,
        plain_text(field(o, "name"@)),
        plain_text(field(o, "id"@)),
        if animated {
            replace_spec(raw, "/static/"@, "/animated/"@)
        } else {
            raw
        },
        "twitch/"@,
        Some(
            if animated {
                "gif"@
            } else {
                "png"@
            },
        ),
        false,
    )
}

/// The BetterTTV entry `i`: its code as name, its image at size "2x".
pub open spec fn bttv_emote(e: Emote, i: Json) -> bool {
    let o = Some(i);
    let id = plain_text(field(o, "id"@));
    listed_emote(
        e,
        plain_text(field(o, "code"@)),
        id,
        "https://cdn.betterttv.net/emote/"@ + id + "/2x"@,
        "bttv/"@,
        Some(plain_text(field(o, "imageType"@))),
        false,
    )
}

/// The FrankerFaceZ entry `i`: the image of key "2", or of key "1" where
/// there is none, as an https address.
pub open spec fn ffz_emote(e: Emote, i: Json) -> bool {
    let o = Some(i);
    let chosen = field(field(o, "urls"@), "2"@);
    let url = if is_null(chosen) {
        text_of(field(field(o, "urls"@), "1"@))
    } else {
        text_of(chosen)
    };
    listed_emote(
        e,
        plain_text(field(o, "name"@)),
        plain_text(field(o, "id"@)),
        "https:"@ + unquote(url),
        "ffz/"@,
        None,
        false,
    )
}

/// The address a 7TV `urls` element names, when it is a pair of strings whose
/// first is the size "2".
pub open spec fn size_hit(u: Json) -> Option<Seq<char>> {
    match items_of(Some(u)) {
        Some(p) => if p.len() == 2 && str_of(Some(p[0])) == Some("2"@) {
            str_of(Some(p[1]))
        } else {
            None
        },
        None => None,
    }
}

/// The first address of size "2" in a 7TV `urls` list; nothing if an element
/// before it is not an array, or if there is none.
pub open spec fn pick_url(us: Seq<Json>) -> Option<Seq<char>>
    decreases us.len(),
{
    if us.len() == 0 {
        None
    } else if items_of(Some(us[0])) is None {
        None
    } else if size_hit(us[0]) is Some {
        size_hit(us[0])
    } else {
        pick_url(us.drop_first())
    }
}

/// A 7TV entry is flagged zero-width.
pub open spec fn zero_width_flag(i: Json) -> bool {
    match items_of(field(Some(i), "visibility_simple"@)) {
        Some(xs) => exists|k: int| 0 <= k < xs.len() && str_of(Some(#[trigger] xs[k])) == Some("ZERO_WIDTH"@),
        None => false,
    }
}

/// The 7TV entry `i`: its first address of size "2", no extension.
pub open spec fn seven_tv_emote(e: Emote, i: Json) -> bool {
    let o = Some(i);
    listed_emote(
        e,
        plain_text(field(o, "name"@)),
        plain_text(field(o, "id"@)),
        unquote(pick_url(items_of(field(o, "urls"@))->0)->0),
        "7tv/"@,
        None,
        zero_width_flag(i),
    )
}

/// An entry of a global list is read: it has a code (BetterTTV) or a name (7TV).
pub open spec fn mixed_kept_item(i: Json) -> bool {
    !is_null(field(Some(i), "code"@)) || !is_null(field(Some(i), "name"@))
}

/// A global list entry can be read: a 7TV entry has a `urls` array with an
/// address of size "2".
pub open spec fn mixed_item_ok(i: Json) -> bool {
    !is_null(field(Some(i), "code"@)) || is_null(field(Some(i), "name"@)) || match items_of(
        field(Some(i), "urls"@),
    ) {
        Some(us) => pick_url(us) is Some,
        None => false,
    }
}

/// The global list entry `i`: BetterTTV where it has a code, 7TV otherwise.
pub open spec fn mixed_emote(e: Emote, i: Json) -> bool {
    if !is_null(field(Some(i), "code"@)) {
        bttv_emote(e, i)
    } else {
        seven_tv_emote(e, i)
    }
}

/// The entries of a global list that are read, in order.
pub open spec fn mixed_kept(xs: Seq<Json>) -> Seq<Json>
    decreases xs.len(),
{
    if xs.len() == 0 {
        xs
    } else if mixed_kept_item(xs.last()) {
        mixed_kept(xs.drop_last()).push(xs.last())
    } else {
        mixed_kept(xs.drop_last())
    }
}

/// The FrankerFaceZ emote list of a room document: `sets[<room.set>].emoticons`,
/// the set named by the text of `room.set`.
pub open spec fn ffz_list(v: Json) -> Option<Json> {
    let o = Some(v);
    field(field(field(o, "sets"@), text_of(field(field(o, "room"@), "set"@))), "emoticons"@)
}

/// Which list a document holds: Twitch's has a `data` array, a BetterTTV
/// channel's `channelEmotes`, a FrankerFaceZ room's `room`, and a global list
/// is an array.
pub open spec fn is_twitch_list(v: Json) -> bool {
    items_of(field(Some(v), "data"@)) is Some
}

pub open spec fn is_bttv_list(v: Json) -> bool {
    !is_twitch_list(v) && !is_null(field(Some(v), "channelEmotes"@))
}

pub open spec fn is_ffz_list(v: Json) -> bool {
    !is_twitch_list(v) && is_null(field(Some(v), "channelEmotes"@)) && !is_null(
        field(Some(v), "room"@),
    )
}

pub open spec fn is_global_list(v: Json) -> bool {
    !is_twitch_list(v) && is_null(field(Some(v), "channelEmotes"@)) && is_null(
        field(Some(v), "room"@),
    ) && !is_null(item(Some(v), 0))
}

/// A document can be read: every part that is read as an array is one.
pub open spec fn emote_json_ok(v: Json) -> bool {
    let o = Some(v);
    &&& is_twitch_list(v) ==> forall|k: int|
        0 <= k < items_of(field(o, "data"@))->0.len() ==> twitch_item_ok(
            #[trigger] items_of(field(o, "data"@))->0[k],
        )
    &&& is_bttv_list(v) ==> items_of(field(o, "channelEmotes"@)) is Some && items_of(
        field(o, "sharedEmotes"@),
    ) is Some
    &&& is_ffz_list(v) ==> items_of(ffz_list(v)) is Some
    &&& is_global_list(v) ==> forall|k: int|
        0 <= k < items_of(o)->0.len() ==> mixed_item_ok(#[trigger] items_of(o)->0[k])
}

/// `r` is the emote list read from the document `v`.
pub open spec fn emote_list(r: Seq<Emote>, v: Json) -> bool {
    let o = Some(v);
    if is_twitch_list(v) {
        let data = items_of(field(o, "data"@))->0;
        &&& r.len() == data.len()
        &&& forall|k: int| 0 <= k < r.len() ==> twitch_emote(#[trigger] r[k], data[k], "url_2x"@)
    } else if is_bttv_list(v) {
        let ce = items_of(field(o, "channelEmotes"@))->0;
        let se = items_of(field(o, "sharedEmotes"@))->0;
        &&& r.len() == ce.len() + se.len()
        &&& forall|k: int| 0 <= k < ce.len() ==> bttv_emote(#[trigger] r[k], ce[k])
        &&& forall|k: int| ce.len() <= k < r.len() ==> bttv_emote(#[trigger] r[k], se[k - ce.len()])
    } else if is_ffz_list(v) {
        let em = items_of(ffz_list(v))->0;
        &&& r.len() == em.len()
        &&& forall|k: int| 0 <= k < r.len() ==> ffz_emote(#[trigger] r[k], em[k])
    } else if is_global_list(v) {
        let kept = mixed_kept(items_of(o)->0);
        &&& r.len() == kept.len()
        &&& forall|k: int| 0 <= k < r.len() ==> mixed_emote(#[trigger] r[k], kept[k])
    } else {
        r.len() == 0
    }
}

/// Appends the given characters to a character vector.
fn extend_chars(r: &mut Vec<char>, t: &[char])
    ensures
        final(r)@ == old(r)@ + t@,
{
    let ghost start = r@;
    let mut k: usize = 0;
    while k < t.len()
        invariant
            k <= t@.len(),
            r@ == start + t@.take(k as int),
        decreases t@.len() - k,
    {
        r.push(t[k]);
        assert(t@.take(k + 1) == t@.take(k as int).push(t@[k as int]));
        k += 1;
    }
    assert(t@.take(t@.len() as int) == t@);
}

/// Replaces every occurrence of a non-empty pattern, from the left.
pub fn replace_chars(s: &[char], from: &[char], to: &[char]) -> (r: Vec<char>)
    requires
        from@.len() > 0,
    ensures
        r@ == replace_spec(s@, from@, to@),
{
    let mut r: Vec<char> = Vec::new();
    let mut i: usize = 0;
    assert(s@.skip(0) == s@);
    assert(r@ + replace_spec(s@, from@, to@) == replace_spec(s@, from@, to@));
    while i < s.len()
        invariant
            i <= s@.len(),
            from@.len() > 0,
            r@ + replace_spec(s@.skip(i as int), from@, to@) == replace_spec(s@, from@, to@),
        decreases s@.len() - i,
    {
        let ghost rest = s@.skip(i as int);
        let ghost before = r@;
        if from.len() <= s.len() - i && matches_at(s, from, i) {
            assert(rest.subrange(0, from@.len() as int) == s@.subrange(i as int, i + from@.len()));
            assert(starts_with_spec(rest, from@));
            assert(rest.skip(from@.len() as int) == s@.skip(i + from@.len()));
            extend_chars(&mut r, to);
            let ghost tail = replace_spec(s@.skip(i + from@.len()), from@, to@);
            assert((before + to@) + tail == before + (to@ + tail));
            i += from.len();
        } else {
            assert(!starts_with_spec(rest, from@)) by {
                if from@.len() <= rest.len() {
                    assert(rest.subrange(0, from@.len() as int) == s@.subrange(
                        i as int,
                        i + from@.len(),
                    ));
                }
            }
            r.push(s[i]);
            assert(rest.drop_first() == s@.skip(i + 1));
            let ghost tail = replace_spec(s@.skip(i + 1), from@, to@);
            assert(before.push(s@[i as int]) + tail == before + (seq![rest[0]] + tail));
            i += 1;
        }
    }
    assert(s@.skip(i as int).len() == 0);
    assert(r@ + Seq::<char>::empty() == r@);
    r
}

/// Trims the quotes off both ends of a string.
fn unquote_str(s: &str) -> (r: String)
    ensures
        r@ == unquote(s@),
{
    let cs = chars_of(s);
    let a = trim_start_char(cs.as_slice(), '"');
    let b = trim_end_char(a.as_slice(), '"');
    string_from_chars(b.as_slice())
}

/// A value's text with the quotes trimmed.
pub fn plain_text_of(j: Option<&Json>) -> (r: String)
    ensures
        r@ == plain_text(opt_ref(j)),
{
    let t = json_text(j);
    unquote_str(t.as_str())
}

/// Builds an emote just read from a list.
fn new_listed_emote(
    name: String,
    id: String,
    url: String,
    path: &str,
    ext: Option<String>,
    zero_width: bool,
) -> (e: Emote)
    ensures
        listed_emote(e, name@, id@, url@, path@, opt_str_view(ext), zero_width),
{
    Emote {
        name,
        id,
        display_name: None,
        color: None,
        frame_delays: None,
        loaded: EmoteStatus::NotLoaded,
        duration_msec: 0,
        url,
        path: path.to_owned(),
        extension: ext,
        zero_width,
        css_anim: None,
        priority: 0,
        hidden: false,
        source: EmoteSource::Channel,
        channel_name: String::new(),
    }
}

/// Reads one Twitch entry with the image of key `size`.
fn twitch_emote_of(i: &Json, size: &str) -> (e: Emote)
    requires
        twitch_item_ok(*i),
    ensures
        twitch_emote(e, *i, size@),
{
    let o = Some(i);
    let name = plain_text_of(json_field(o, "name"));
    let id = plain_text_of(json_field(o, "id"));
    let formats = json_items(json_field(o, "format"));
    let animated = match formats {
        Some(f) => f.len() == 2,
        None => false,
    };
    let raw = plain_text_of(json_field(json_field(o, "images"), size));
    if animated {
        let cs = chars_of(raw.as_str());
        let from = chars_of("/static/");
        let to = chars_of("/animated/");
        proof {
            reveal_strlit("/static/");
        }
        let url = replace_chars(cs.as_slice(), from.as_slice(), to.as_slice());
        new_listed_emote(
            name,
            id,
            string_from_chars(url.as_slice()),
            "twitch/",
            Some("gif".to_owned()),
            false,
        )
    } else {
        new_listed_emote(name, id, raw, "twitch/", Some("png".to_owned()), false)
    }
}

/// Reads one BetterTTV entry.
fn bttv_emote_of(i: &Json) -> (e: Emote)
    ensures
        bttv_emote(e, *i),
{
    let o = Some(i);
    let name = plain_text_of(json_field(o, "code"));
    let id = plain_text_of(json_field(o, "id"));
    let ext = plain_text_of(json_field(o, "imageType"));
    let mut url = "https://cdn.betterttv.net/emote/".to_owned();
    push_str(&mut url, id.as_str());
    push_str(&mut url, "/2x");
    new_listed_emote(name, id, url, "bttv/", Some(ext), false)
}

/// Reads one FrankerFaceZ entry.
fn ffz_emote_of(i: &Json) -> (e: Emote)
    ensures
        ffz_emote(e, *i),
{
    let o = Some(i);
    let name = plain_text_of(json_field(o, "name"));
    let id = plain_text_of(json_field(o, "id"));
    let urls = json_field(o, "urls");
    let chosen = json_field(urls, "2");
    let text = if json_is_null(chosen) {
        json_text(json_field(urls, "1"))
    } else {
        json_text(chosen)
    };
    let mut url = "https:".to_owned();
    let trimmed = unquote_str(text.as_str());
    push_str(&mut url, trimmed.as_str());
    new_listed_emote(name, id, url, "ffz/", None, false)
}

/// The address a 7TV `urls` element names, if it is a pair whose first string
/// is the size "2" and whose second is a string.
fn size_hit_of(u: &Json) -> (r: Option<String>)
    ensures
        opt_str_view(r) == size_hit(*u),
{
    match json_items(Some(u)) {
        Some(p) => {
            if p.len() == 2 {
                match json_str(Some(&p[0])) {
                    Some(k) => {
                        if str_eq(k.as_str(), "2") {
                            match json_str(Some(&p[1])) {
                                Some(s) => Some(s.clone()),
                                None => None,
                            }
                        } else {
                            None
                        }
                    },
                    None => None,
                }
            } else {
                None
            }
        },
        None => None,
    }
}

/// The first address of size "2" in a 7TV `urls` list.
fn pick_url_of(us: &Vec<Json>) -> (r: Option<String>)
    ensures
        opt_str_view(r) == pick_url(us@),
{
    let mut k: usize = 0;
    assert(us@.skip(0) == us@);
    while k < us.len()
        invariant
            k <= us@.len(),
            pick_url(us@) == pick_url(us@.skip(k as int)),
        decreases us@.len() - k,
    {
        let ghost rest = us@.skip(k as int);
        assert(rest[0] == us@[k as int]);
        assert(rest.drop_first() == us@.skip(k + 1));
        if json_items(Some(&us[k])).is_none() {
            return None;
        }
        let hit = size_hit_of(&us[k]);
        if hit.is_some() {
            return hit;
        }
        k += 1;
    }
    None
}

/// Whether a 7TV entry is flagged zero-width.
fn zero_width_of(i: &Json) -> (r: bool)
    ensures
        r == zero_width_flag(*i),
{
    match json_items(json_field(Some(i), "visibility_simple")) {
        Some(xs) => {
            let mut k: usize = 0;
            while k < xs.len()
                invariant
                    k <= xs@.len(),
                    items_of(field(Some(*i), "visibility_simple"@)) == Some(xs@),
                    forall|m: int| 0 <= m < k ==> str_of(Some(#[trigger] xs@[m])) != Some("ZERO_WIDTH"@),
                decreases xs@.len() - k,
            {
                match json_str(Some(&xs[k])) {
                    Some(s) => {
                        if str_eq(s.as_str(), "ZERO_WIDTH") {
                            assert(str_of(Some(xs@[k as int])) == Some("ZERO_WIDTH"@));
                            return true;
                        }
                    },
                    None => {},
                }
                k += 1;
            }
            false
        },
        None => false,
    }
}

/// Reads one 7TV entry.
fn seven_tv_emote_of(i: &Json) -> (e: Emote)
    requires
        match items_of(field(Some(*i), "urls"@)) {
            Some(us) => pick_url(us) is Some,
            None => false,
        },
    ensures
        seven_tv_emote(e, *i),
{
    let o = Some(i);
    let name = plain_text_of(json_field(o, "name"));
    let id = plain_text_of(json_field(o, "id"));
    let url = match json_items(json_field(o, "urls")) {
        Some(us) => match pick_url_of(us) {
            Some(u) => unquote_str(u.as_str()),
            None => String::new(),
        },
        None => String::new(),
    };
    let zero_width = zero_width_of(i);
    new_listed_emote(name, id, url, "7tv/", None, zero_width)
}

/// Reads a list of Twitch entries with the image of key `size`.
fn twitch_list(xs: &Vec<Json>, size: &str) -> (r: Vec<Emote>)
    requires
        forall|k: int| 0 <= k < xs@.len() ==> twitch_item_ok(#[trigger] xs@[k]),
    ensures
        r@.len() == xs@.len(),
        forall|k: int| 0 <= k < r@.len() ==> twitch_emote(#[trigger] r@[k], xs@[k], size@),
{
    let mut r: Vec<Emote> = Vec::new();
    let mut k: usize = 0;
    while k < xs.len()
        invariant
            k <= xs@.len(),
            r@.len() == k,
            forall|m: int| 0 <= m < xs@.len() ==> twitch_item_ok(#[trigger] xs@[m]),
            forall|m: int| 0 <= m < k ==> twitch_emote(#[trigger] r@[m], xs@[m], size@),
        decreases xs@.len() - k,
    {
        let e = twitch_emote_of(&xs[k], size);
        r.push(e);
        k += 1;
    }
    r
}

/// Appends the BetterTTV entries of a list.
fn push_bttv(r: &mut Vec<Emote>, xs: &Vec<Json>)
    ensures
        final(r)@.len() == old(r)@.len() + xs@.len(),
        forall|k: int| 0 <= k < old(r)@.len() ==> #[trigger] final(r)@[k] == old(r)@[k],
        forall|k: int|
            old(r)@.len() <= k < final(r)@.len() ==> bttv_emote(
                #[trigger] final(r)@[k],
                xs@[k - old(r)@.len()],
            ),
{
    let ghost start = r@;
    let mut k: usize = 0;
    while k < xs.len()
        invariant
            k <= xs@.len(),
            r@.len() == start.len() + k,
            forall|m: int| 0 <= m < start.len() ==> #[trigger] r@[m] == start[m],
            forall|m: int|
                start.len() <= m < r@.len() ==> bttv_emote(#[trigger] r@[m], xs@[m - start.len()]),
        decreases xs@.len() - k,
    {
        let e = bttv_emote_of(&xs[k]);
        r.push(e);
        k += 1;
    }
}

/// Reads a list of FrankerFaceZ entries.
fn ffz_list_of(xs: &Vec<Json>) -> (r: Vec<Emote>)
    ensures
        r@.len() == xs@.len(),
        forall|k: int| 0 <= k < r@.len() ==> ffz_emote(#[trigger] r@[k], xs@[k]),
{
    let mut r: Vec<Emote> = Vec::new();
    let mut k: usize = 0;
    while k < xs.len()
        invariant
            k <= xs@.len(),
            r@.len() == k,
            forall|m: int| 0 <= m < k ==> ffz_emote(#[trigger] r@[m], xs@[m]),
        decreases xs@.len() - k,
    {
        let e = ffz_emote_of(&xs[k]);
        r.push(e);
        k += 1;
    }
    r
}

/// Reads a global list: BetterTTV entries by their code, 7TV entries by their
/// name, anything else skipped.
fn global_list(xs: &Vec<Json>) -> (r: Vec<Emote>)
    requires
        forall|k: int| 0 <= k < xs@.len() ==> mixed_item_ok(#[trigger] xs@[k]),
    ensures
        r@.len() == mixed_kept(xs@).len(),
        forall|k: int| 0 <= k < r@.len() ==> mixed_emote(#[trigger] r@[k], mixed_kept(xs@)[k]),
{
    let mut r: Vec<Emote> = Vec::new();
    let mut k: usize = 0;
    assert(xs@.take(0) == Seq::<Json>::empty());
    while k < xs.len()
        invariant
            k <= xs@.len(),
            forall|m: int| 0 <= m < xs@.len() ==> mixed_item_ok(#[trigger] xs@[m]),
            r@.len() == mixed_kept(xs@.take(k as int)).len(),
            forall|m: int|
                0 <= m < r@.len() ==> mixed_emote(
                    #[trigger] r@[m],
                    mixed_kept(xs@.take(k as int))[m],
                ),
        decreases xs@.len() - k,
    {
        let ghost before = xs@.take(k as int);
        let ghost after = xs@.take(k + 1);
        assert(after.drop_last() == before);
        assert(after.last() == xs@[k as int]);
        let i = &xs[k];
        if !json_is_null(json_field(Some(i), "code")) {
            let e = bttv_emote_of(i);
            r.push(e);
        } else if !json_is_null(json_field(Some(i), "name")) {
            assert(mixed_item_ok(xs@[k as int]));
            let e = seven_tv_emote_of(i);
            r.push(e);
        }
        k += 1;
    }
    assert(xs@.take(xs@.len() as int) == xs@);
    r
}

/// Reads the emotes of a Twitch, BetterTTV, FrankerFaceZ or global 7TV /
/// BetterTTV emote document.
pub fn process_emote_json(v: &Json) -> (r: Vec<Emote>)
    requires
        emote_json_ok(*v),
    ensures
        emote_list(r@, *v),
{
    let o = Some(v);
    match json_items(json_field(o, "data")) {
        Some(data) => {
            assert(is_twitch_list(*v));
            assert(items_of(field(Some(*v), "data"@))->0 == data@);
            return twitch_list(data, "url_2x");
        },
        None => {},
    }
    if !json_is_null(json_field(o, "channelEmotes")) {
        let mut r: Vec<Emote> = Vec::new();
        match json_items(json_field(o, "channelEmotes")) {
            Some(ce) => push_bttv(&mut r, ce),
            None => {},
        }
        match json_items(json_field(o, "sharedEmotes")) {
            Some(se) => push_bttv(&mut r, se),
            None => {},
        }
        return r;
    }
    if !json_is_null(json_field(o, "room")) {
        let set = json_text(json_field(json_field(o, "room"), "set"));
        let list = json_field(json_field(json_field(o, "sets"), set.as_str()), "emoticons");
        return match json_items(list) {
            Some(em) => ffz_list_of(em),
            None => Vec::new(),
        };
    }
    if !json_is_null(json_item(o, 0)) {
        return match json_items(o) {
            Some(xs) => {
                assert(is_global_list(*v));
                assert(items_of(Some(*v))->0 == xs@);
                global_list(xs)
            },
            None => Vec::new(),
        };
    }
    Vec::new()
}

/// Whether a global list entry can be read.
fn mixed_item_usable(i: &Json) -> (r: bool)
    ensures
        r == mixed_item_ok(*i),
{
    let o = Some(i);
    if !json_is_null(json_field(o, "code")) || json_is_null(json_field(o, "name")) {
        return true;
    }
    match json_items(json_field(o, "urls")) {
        Some(us) => pick_url_of(us).is_some(),
        None => false,
    }
}

/// Whether `process_emote_json` can read the document: every part of it that
/// is read as an array is one.
pub fn emote_json_usable(v: &Json) -> (r: bool)
    ensures
        r == emote_json_ok(*v),
{
    let o = Some(v);
    match json_items(json_field(o, "data")) {
        Some(data) => {
            assert(is_twitch_list(*v));
            assert(items_of(field(Some(*v), "data"@))->0 == data@);
            let mut k: usize = 0;
            while k < data.len()
                invariant
                    k <= data@.len(),
                    is_twitch_list(*v),
                    items_of(field(Some(*v), "data"@)) == Some(data@),
                    forall|m: int| 0 <= m < k ==> twitch_item_ok(#[trigger] data@[m]),
                decreases data@.len() - k,
            {
                if json_items(json_field(Some(&data[k]), "format")).is_none() {
                    assert(!twitch_item_ok(data@[k as int]));
                    assert(items_of(field(Some(*v), "data"@))->0[k as int] == data@[k as int]);
                    return false;
                }
                k += 1;
            }
            return true;
        },
        None => {},
    }
    if !json_is_null(json_field(o, "channelEmotes")) {
        return json_items(json_field(o, "channelEmotes")).is_some() && json_items(
            json_field(o, "sharedEmotes"),
        ).is_some();
    }
    if !json_is_null(json_field(o, "room")) {
        let set = json_text(json_field(json_field(o, "room"), "set"));
        let list = json_field(json_field(json_field(o, "sets"), set.as_str()), "emoticons");
        return json_items(list).is_some();
    }
    if !json_is_null(json_item(o, 0)) {
        match json_items(o) {
            Some(xs) => {
                assert(is_global_list(*v));
                assert(items_of(Some(*v))->0 == xs@);
                let mut k: usize = 0;
                while k < xs.len()
                    invariant
                        k <= xs@.len(),
                        is_global_list(*v),
                        items_of(Some(*v)) == Some(xs@),
                        forall|m: int| 0 <= m < k ==> mixed_item_ok(#[trigger] xs@[m]),
                    decreases xs@.len() - k,
                {
                    if !mixed_item_usable(&xs[k]) {
                        assert(items_of(Some(*v))->0[k as int] == xs@[k as int]);
                        return false;
                    }
                    k += 1;
                }
                return true;
            },
            None => {},
        }
    }
    true
}

/// A Twitch entry of type "follower".
pub open spec fn is_follower(i: Json) -> bool {
    str_of(field(Some(i), "emote_type"@)) == Some("follower"@)
}

/// The follower entries of a list, in order.
pub open spec fn followers(xs: Seq<Json>) -> Seq<Json>
    decreases xs.len(),
{
    if xs.len() == 0 {
        xs
    } else if is_follower(xs.last()) {
        followers(xs.drop_last()).push(xs.last())
    } else {
        followers(xs.drop_last())
    }
}

/// The follower entries of a Twitch document can be read.
pub open spec fn follower_json_ok(v: Json) -> bool {
    let data = items_of(field(Some(v), "data"@));
    data is Some ==> forall|k: int|
        0 <= k < data->0.len() && is_follower(#[trigger] data->0[k]) ==> twitch_item_ok(
            data->0[k],
        )
}

/// `r` is the list of follower emotes of a Twitch document, read with the
/// largest images.
pub open spec fn follower_list(r: Seq<Emote>, v: Json) -> bool {
    match items_of(field(Some(v), "data"@)) {
        Some(data) => {
            &&& r.len() == followers(data).len()
            &&& forall|k: int|
                0 <= k < r.len() ==> twitch_emote(#[trigger] r[k], followers(data)[k], "url_4x"@)
        },
        None => r.len() == 0,
    }
}

/// Reads the follower emotes of a Twitch emote document.
pub fn process_twitch_follower_emote_json(v: &Json) -> (r: Vec<Emote>)
    requires
        follower_json_ok(*v),
    ensures
        follower_list(r@, *v),
{
    let mut r: Vec<Emote> = Vec::new();
    match json_items(json_field(Some(v), "data")) {
        Some(data) => {
            let mut k: usize = 0;
            assert(data@.take(0) == Seq::<Json>::empty());
            assert(items_of(field(Some(*v), "data"@)) == Some(data@));
            assert forall|m: int|
                0 <= m < data@.len() && is_follower(#[trigger] data@[m]) implies twitch_item_ok(
                data@[m],
            ) by {
                assert(items_of(field(Some(*v), "data"@))->0[m] == data@[m]);
            }
            while k < data.len()
                invariant
                    k <= data@.len(),
                    items_of(field(Some(*v), "data"@)) == Some(data@),
                    forall|m: int|
                        0 <= m < data@.len() && is_follower(#[trigger] data@[m]) ==> twitch_item_ok(
                            data@[m],
                        ),
                    r@.len() == followers(data@.take(k as int)).len(),
                    forall|m: int|
                        0 <= m < r@.len() ==> twitch_emote(
                            #[trigger] r@[m],
                            followers(data@.take(k as int))[m],
                            "url_4x"@,
                        ),
                decreases data@.len() - k,
            {
                let ghost before = data@.take(k as int);
                let ghost after = data@.take(k + 1);
                assert(after.drop_last() == before);
                assert(after.last() == data@[k as int]);
                let i = &data[k];
                let follower = match json_str(json_field(Some(i), "emote_type")) {
                    Some(t) => str_eq(t.as_str(), "follower"),
                    None => false,
                };
                if follower {
                    assert(is_follower(data@[k as int]));
                    let e = twitch_emote_of(i, "url_4x");
                    r.push(e);
                }
                k += 1;
            }
            assert(data@.take(data@.len() as int) == data@);
        },
        None => {},
    }
    r
}

/// Whether `process_twitch_follower_emote_json` can read the document.
pub fn follower_json_usable(v: &Json) -> (r: bool)
    ensures
        r == follower_json_ok(*v),
{
    match json_items(json_field(Some(v), "data")) {
        Some(data) => {
            let mut k: usize = 0;
            while k < data.len()
                invariant
                    k <= data@.len(),
                    items_of(field(Some(*v), "data"@)) == Some(data@),
                    forall|m: int|
                        0 <= m < k && is_follower(#[trigger] data@[m]) ==> twitch_item_ok(data@[m]),
                decreases data@.len() - k,
            {
                let i = &data[k];
                let follower = match json_str(json_field(Some(i), "emote_type")) {
                    Some(t) => str_eq(t.as_str(), "follower"),
                    None => false,
                };
                if follower && json_items(json_field(Some(i), "format")).is_none() {
                    assert(is_follower(data@[k as int]) && !twitch_item_ok(data@[k as int]));
                    assert(items_of(field(Some(*v), "data"@))->0[k as int] == data@[k as int]);
                    return false;
                }
                k += 1;
            }
            true
        },
        None => true,
    }
}

/// A badge version can be read: its id and image address are strings.
pub open spec fn badge_version_ok(ver: Json) -> bool {
    str_of(field(Some(ver), "id"@)) is Some && str_of(field(Some(ver), "image_url_4x"@)) is Some
}

/// The versions of a badge set.
pub open spec fn versions(set: Json) -> Seq<Json> {
    items_of(field(Some(set), "versions"@))->0
}

/// A badge set can be read: its id is a string and its versions an array of
/// readable versions.
pub open spec fn badge_set_ok(set: Json) -> bool {
    &&& str_of(field(Some(set), "set_id"@)) is Some
    &&& items_of(field(Some(set), "versions"@)) is Some
    &&& forall|k: int| 0 <= k < versions(set).len() ==> badge_version_ok(#[trigger] versions(set)[k])
}

/// A Twitch badge document can be read.
pub open spec fn badge_json_ok(v: Json) -> bool {
    let data = items_of(field(Some(v), "data"@));
    data is Some ==> forall|k: int| 0 <= k < data->0.len() ==> badge_set_ok(#[trigger] data->0[k])
}

/// The badge of version `ver` of set `set` in the room `room`: named
/// "<set>/<version>", with an id that also names the room.
pub open spec fn badge_emote(e: Emote, set: Json, ver: Json, room: Seq<char>) -> bool {
    let set_id = str_of(field(Some(set), "set_id"@))->0;
    let id = str_of(field(Some(ver), "id"@))->0;
    listed_emote(
        e,
        set_id + "/"@ + id,
        room + "__"@ + set_id + "__"@ + id,
        str_of(field(Some(ver), "image_url_4x"@))->0,
        "twitch-badge/"@,
        None,
        false,
    )
}

/// Every (set, version) pair of a list of badge sets, set by set.
pub open spec fn badge_rows(sets: Seq<Json>) -> Seq<(Json, Json)>
    decreases sets.len(),
{
    if sets.len() == 0 {
        Seq::empty()
    } else {
        badge_rows(sets.drop_last()) + versions(sets.last()).map_values(
            |ver: Json| (sets.last(), ver),
        )
    }
}

/// `r` is the badge list of a Twitch badge document for the room `room`.
pub open spec fn badge_list(r: Seq<Emote>, v: Json, room: Seq<char>) -> bool {
    let data = items_of(field(Some(v), "data"@));
    if data is Some {
        let rows = badge_rows(data->0);
        &&& r.len() == rows.len()
        &&& forall|k: int| 0 <= k < r.len() ==> badge_emote(#[trigger] r[k], rows[k].0, rows[k].1, room)
    } else {
        r.len() == 0
    }
}

/// Reads one badge version of a set.
fn badge_emote_of(set: &Json, ver: &Json, room_id: &str) -> (e: Emote)
    requires
        str_of(field(Some(*set), "set_id"@)) is Some,
        badge_version_ok(*ver),
    ensures
        badge_emote(e, *set, *ver, room_id@),
{
    let set_id = match json_str(json_field(Some(set), "set_id")) {
        Some(s) => s.clone(),
        None => String::new(),
    };
    let id = match json_str(json_field(Some(ver), "id")) {
        Some(s) => s.clone(),
        None => String::new(),
    };
    let url = match json_str(json_field(Some(ver), "image_url_4x")) {
        Some(s) => s.clone(),
        None => String::new(),
    };
    let mut name = set_id.clone();
    push_str(&mut name, "/");
    push_str(&mut name, id.as_str());
    let mut full_id = room_id.to_owned();
    push_str(&mut full_id, "__");
    push_str(&mut full_id, set_id.as_str());
    push_str(&mut full_id, "__");
    push_str(&mut full_id, id.as_str());
    new_listed_emote(name, full_id, url, "twitch-badge/", None, false)
}

/// Reads the badges of a Twitch badge document for the room `room_id`.
pub fn process_badge_json(room_id: &str, v: &Json) -> (r: Vec<Emote>)
    requires
        badge_json_ok(*v),
    ensures
        badge_list(r@, *v, room_id@),
{
    let mut r: Vec<Emote> = Vec::new();
    match json_items(json_field(Some(v), "data")) {
        Some(sets) => {
            let mut i: usize = 0;
            assert(sets@.take(0) == Seq::<Json>::empty());
            assert forall|m: int| 0 <= m < sets@.len() implies badge_set_ok(#[trigger] sets@[m]) by {
                assert(items_of(field(Some(*v), "data"@))->0[m] == sets@[m]);
            }
            while i < sets.len()
                invariant
                    i <= sets@.len(),
                    forall|m: int| 0 <= m < sets@.len() ==> badge_set_ok(#[trigger] sets@[m]),
                    r@.len() == badge_rows(sets@.take(i as int)).len(),
                    forall|m: int|
                        0 <= m < r@.len() ==> badge_emote(
                            #[trigger] r@[m],
                            badge_rows(sets@.take(i as int))[m].0,
                            badge_rows(sets@.take(i as int))[m].1,
                            room_id@,
                        ),
                decreases sets@.len() - i,
            {
                let set = &sets[i];
                let ghost prev = badge_rows(sets@.take(i as int));
                let ghost base = r@.len();
                assert(badge_set_ok(*set));
                match json_items(json_field(Some(set), "versions")) {
                    Some(vs) => {
                        assert(vs@ == versions(*set));
                        let mut j: usize = 0;
                        while j < vs.len()
                            invariant
                                j <= vs@.len(),
                                badge_set_ok(*set),
                                vs@ == versions(*set),
                                base == prev.len(),
                                r@.len() == base + j,
                                forall|m: int|
                                    0 <= m < base ==> badge_emote(
                                        #[trigger] r@[m],
                                        prev[m].0,
                                        prev[m].1,
                                        room_id@,
                                    ),
                                forall|m: int|
                                    base <= m < r@.len() ==> badge_emote(
                                        #[trigger] r@[m],
                                        *set,
                                        vs@[m - base],
                                        room_id@,
                                    ),
                            decreases vs@.len() - j,
                        {
                            assert(badge_version_ok(versions(*set)[j as int]));
                            let e = badge_emote_of(set, &vs[j], room_id);
                            r.push(e);
                            j += 1;
                        }
                    },
                    None => {},
                }
                proof {
                    let after = sets@.take(i + 1);
                    assert(after.drop_last() == sets@.take(i as int));
                    assert(after.last() == sets@[i as int]);
                    let added = versions(sets@[i as int]).map_values(
                        |ver: Json| (sets@[i as int], ver),
                    );
                    assert(badge_rows(after) == prev + added);
                    assert forall|m: int| 0 <= m < r@.len() implies badge_emote(
                        #[trigger] r@[m],
                        badge_rows(after)[m].0,
                        badge_rows(after)[m].1,
                        room_id@,
                    ) by {
                        if m < base {
                            assert(badge_rows(after)[m] == prev[m]);
                        } else {
                            assert(badge_rows(after)[m] == added[m - base]);
                        }
                    }
                }
                i += 1;
            }
            assert(sets@.take(sets@.len() as int) == sets@);
        },
        None => {},
    }
    r
}

/// Whether `process_badge_json` can read the document.
pub fn badge_json_usable(v: &Json) -> (r: bool)
    ensures
        r == badge_json_ok(*v),
{
    match json_items(json_field(Some(v), "data")) {
        Some(sets) => {
            let mut i: usize = 0;
            while i < sets.len()
                invariant
                    i <= sets@.len(),
                    items_of(field(Some(*v), "data"@)) == Some(sets@),
                    forall|m: int| 0 <= m < i ==> badge_set_ok(#[trigger] sets@[m]),
                decreases sets@.len() - i,
            {
                let set = &sets[i];
                assert(items_of(field(Some(*v), "data"@))->0[i as int] == sets@[i as int]);
                if json_str(json_field(Some(set), "set_id")).is_none() {
                    return false;
                }
                match json_items(json_field(Some(set), "versions")) {
                    Some(vs) => {
                        let mut j: usize = 0;
                        while j < vs.len()
                            invariant
                                j <= vs@.len(),
                                vs@ == versions(*set),
                                i < sets@.len(),
                                *set == sets@[i as int],
                                items_of(field(Some(*v), "data"@)) == Some(sets@),
                                forall|m: int| 0 <= m < j ==> badge_version_ok(#[trigger] vs@[m]),
                            decreases vs@.len() - j,
                        {
                            let ver = &vs[j];
                            if json_str(json_field(Some(ver), "id")).is_none() || json_str(
                                json_field(Some(ver), "image_url_4x"),
                            ).is_none() {
                                assert(!badge_version_ok(versions(*set)[j as int]));
                                assert(!badge_set_ok(*set));
                                assert(items_of(field(Some(*v), "data"@))->0[i as int] == *set);
                                return false;
                            }
                            j += 1;
                        }
                        assert(badge_set_ok(*set));
                    },
                    None => {
                        return false;
                    },
                }
                i += 1;
            }
            true
        },
        None => true,
    }
}

} // verus!
