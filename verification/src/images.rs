//! Where an emote image is looked for and which format it is stored under:
//! the addresses tried for a Twitch message emote, the cache files checked
//! before a download, and the file extension read from the response headers
//! of a download.

use vstd::prelude::*;
use crate::text::{
    chars_of, contains_spec, has_infix, lowercase, matches_at, opt_str_view, push_str, to_lowercase,
    trim_end_ws, trim_end_ws_chars, views,
};

verus! {

/// `s` ends with `p`.
pub open spec fn ends_with_spec(s: Seq<char>, p: Seq<char>) -> bool {
    p.len() <= s.len() && s.subrange(s.len() - p.len(), s.len() as int) == p
}

/// Whether `s` ends with `p`.
pub fn has_suffix(s: &[char], p: &[char]) -> (r: bool)
    ensures
        r == ends_with_spec(s@, p@),
{
    if p.len() > s.len() {
        false
    } else {
        matches_at(s, p, s.len() - p.len())
    }
}

fn owned(t: &str) -> (r: String)
    ensures
        r@ == t@,
{
    let mut r = String::new();
    push_str(&mut r, t);
    r
}

/// The address of a Twitch emote image of the given kind ("animated" or
/// "static").
pub open spec fn twitch_emote_url(id: Seq<char>, kind: Seq<char>) -> Seq<char> {
    "https://static-cdn.jtvnw.net/emoticons/v2/"@ + id + "/"@ + kind + "/light/3.0"@
}

fn emote_url(id: &str, kind: &str) -> (r: String)
    ensures
        r@ == twitch_emote_url(id@, kind@),
{
    let mut r = String::new();
    push_str(&mut r, "https://static-cdn.jtvnw.net/emoticons/v2/");
    push_str(&mut r, id);
    push_str(&mut r, "/");
    push_str(&mut r, kind);
    push_str(&mut r, "/light/3.0");
    r
}

/// The addresses tried, in order, for the image of a Twitch emote named in a
/// chat message: the animated image first, then the still one.
pub fn twitch_emote_urls(id: &str) -> (r: Vec<String>)
    ensures
        views(r@) == seq![twitch_emote_url(id@, "animated"@), twitch_emote_url(id@, "static"@)],
{
    let mut r: Vec<String> = Vec::new();
    r.push(emote_url(id, "animated"));
    r.push(emote_url(id, "static"));
    assert(views(r@) =~= seq![twitch_emote_url(id@, "animated"@), twitch_emote_url(id@, "static"@)]);
    r
}

/// The cache file of an image with the given extension.
pub open spec fn cache_file(dir: Seq<char>, id: Seq<char>, ext: Seq<char>) -> Seq<char> {
    dir + id + "."@ + ext
}

fn cache_file_of(dir: &str, id: &str, ext: &str) -> (r: String)
    ensures
        r@ == cache_file(dir@, id@, ext@),
{
    let mut r = String::new();
    push_str(&mut r, dir);
    push_str(&mut r, id);
    push_str(&mut r, ".");
    push_str(&mut r, ext);
    r
}

/// The cache files looked for, in order, before an image is downloaded: one
/// per format the images come in.
pub fn cache_candidates(dir: &str, id: &str) -> (r: Vec<String>)
    ensures
        views(r@) == seq![
            cache_file(dir@, id@, "png"@),
            cache_file(dir@, id@, "gif"@),
            cache_file(dir@, id@, "webp"@),
            cache_file(dir@, id@, "svg"@),
        ],
{
    let mut r: Vec<String> = Vec::new();
    r.push(cache_file_of(dir, id, "png"));
    r.push(cache_file_of(dir, id, "gif"));
    r.push(cache_file_of(dir, id, "webp"));
    r.push(cache_file_of(dir, id, "svg"));
    assert(views(r@) =~= seq![
        cache_file(dir@, id@, "png"@),
        cache_file(dir@, id@, "gif"@),
        cache_file(dir@, id@, "webp"@),
        cache_file(dir@, id@, "svg"@),
    ]);
    r
}

/// The response headers of an image download that tell its format.
#[derive(Clone, Copy, Debug, PartialEq, Eq, Structural)]
pub enum HeaderKind {
    ContentDisposition,
    ContentType,
    Accept,
    Other,
}

/// A header that names a file or a media type tells the format by a file
/// extension in it or by the media type it ends with.
pub open spec fn names_format(lv: Seq<char>, ext: Seq<char>) -> bool {
    contains_spec(lv, "."@ + ext) || ends_with_spec(trim_end_ws(lv), "/"@ + ext)
}

/// The extension a header gives, from its lower-cased value `lv`: a file name
/// or media type ending in png, gif or webp, checked in that order (an svg
/// address counts for such headers too); an accepted image type for the
/// `Accept` header.
pub open spec fn header_extension(kind: HeaderKind, lv: Seq<char>, url: Seq<char>) -> Option<Seq<char>> {
    match kind {
        HeaderKind::ContentDisposition | HeaderKind::ContentType => if names_format(lv, "png"@) {
            Some("png"@)
        } else if names_format(lv, "gif"@) {
            Some("gif"@)
        } else if names_format(lv, "webp"@) {
            Some("webp"@)
        } else if ends_with_spec(url, ".svg"@) {
            Some("svg"@)
        } else {
            None
        },
        HeaderKind::Accept => if contains_spec(lv, "image/png"@) || contains_spec(lv, "image/apng"@) {
            Some("png"@)
        } else if contains_spec(lv, "image/gif"@) {
            Some("gif"@)
        } else if contains_spec(lv, "image/webp"@) {
            Some("webp"@)
        } else {
            None
        },
        HeaderKind::Other => None,
    }
}

fn names_format_in(lc: &[char], trimmed: &[char], ext: &str) -> (r: bool)
    requires
        trimmed@ == trim_end_ws(lc@),
    ensures
        r == names_format(lc@, ext@),
{
    let mut dotted = String::new();
    push_str(&mut dotted, ".");
    push_str(&mut dotted, ext);
    let mut slashed = String::new();
    push_str(&mut slashed, "/");
    push_str(&mut slashed, ext);
    let d = chars_of(dotted.as_str());
    let s = chars_of(slashed.as_str());
    has_infix(lc, d.as_slice()) || has_suffix(trimmed, s.as_slice())
}

fn contains_str(lc: &[char], p: &str) -> (r: bool)
    ensures
        r == contains_spec(lc@, p@),
{
    let pc = chars_of(p);
    has_infix(lc, pc.as_slice())
}

/// The extension one response header gives for the image downloaded from
/// `url`.
pub fn extension_from_header(kind: HeaderKind, value: &str, url: &str) -> (r: Option<String>)
    ensures
        opt_str_view(r) == header_extension(kind, lowercase(value@), url@),
{
    match kind {
        HeaderKind::Other => None,
        HeaderKind::Accept => {
            let lower = to_lowercase(value);
            let lc = chars_of(lower.as_str());
            if contains_str(lc.as_slice(), "image/png") || contains_str(lc.as_slice(), "image/apng") {
                Some(owned("png"))
            } else if contains_str(lc.as_slice(), "image/gif") {
                Some(owned("gif"))
            } else if contains_str(lc.as_slice(), "image/webp") {
                Some(owned("webp"))
            } else {
                None
            }
        },
        _ => {
            let lower = to_lowercase(value);
            let lc = chars_of(lower.as_str());
            let trimmed = trim_end_ws_chars(lc.as_slice());
            if names_format_in(lc.as_slice(), trimmed.as_slice(), "png") {
                Some(owned("png"))
            } else if names_format_in(lc.as_slice(), trimmed.as_slice(), "gif") {
                Some(owned("gif"))
            } else if names_format_in(lc.as_slice(), trimmed.as_slice(), "webp") {
                Some(owned("webp"))
            } else {
                let uc = chars_of(url);
                let svg = chars_of(".svg");
                if has_suffix(uc.as_slice(), svg.as_slice()) {
                    Some(owned("svg"))
                } else {
                    None
                }
            }
        },
    }
}

/// The extension an image is stored under after a download: the one the
/// request named, else the one of the first header, in order, that gives one.
pub open spec fn download_extension_spec(
    given: Option<Seq<char>>,
    headers: Seq<(HeaderKind, Seq<char>)>,
    url: Seq<char>,
) -> Option<Seq<char>>
    decreases headers.len(),
{
    if given is Some || headers.len() == 0 {
        given
    } else {
        download_extension_spec(
            header_extension(headers[0].0, lowercase(headers[0].1), url),
            headers.drop_first(),
            url,
        )
    }
}

/// The headers as kinds and texts.
pub open spec fn headers_view(hs: Seq<(HeaderKind, String)>) -> Seq<(HeaderKind, Seq<char>)> {
    hs.map_values(|h: (HeaderKind, String)| (h.0, h.1@))
}

/// The extension a downloaded image is stored under, from the one its
/// request named and the response headers.
pub fn download_extension(given: &Option<String>, headers: &Vec<(HeaderKind, String)>, url: &str) -> (r: Option<String>)
    ensures
        opt_str_view(r) == download_extension_spec(opt_str_view(*given), headers_view(headers@), url@),
{
    let mut ext: Option<String> = match given {
        Some(g) => Some(owned(g.as_str())),
        None => None,
    };
    let ghost hv = headers_view(headers@);
    assert(hv.skip(0) =~= hv);
    assert(opt_str_view(ext) == opt_str_view(*given));
    let mut i: usize = 0;
    while i < headers.len()
        invariant
            i <= headers@.len(),
            hv == headers_view(headers@),
            download_extension_spec(opt_str_view(ext), hv.skip(i as int), url@)
                == download_extension_spec(opt_str_view(*given), hv, url@),
        decreases headers@.len() - i,
    {
        assert(hv.skip(i as int).drop_first() == hv.skip(i + 1));
        if ext.is_none() {
            let (kind, value) = (headers[i].0, &headers[i].1);
            ext = extension_from_header(kind, value.as_str(), url);
        } else {
            assert(download_extension_spec(opt_str_view(ext), hv.skip(i + 1), url@)
                == opt_str_view(ext)) by {
                lemma_given_kept(opt_str_view(ext), hv.skip(i + 1), url@);
            }
            assert(download_extension_spec(opt_str_view(ext), hv.skip(i as int), url@)
                == opt_str_view(ext));
        }
        i += 1;
    }
    assert(hv.skip(i as int).len() == 0);
    ext
}

proof fn lemma_given_kept(given: Option<Seq<char>>, headers: Seq<(HeaderKind, Seq<char>)>, url: Seq<char>)
    requires
        given is Some,
    ensures
        download_extension_spec(given, headers, url) == given,
{
}

/// Whether a downloaded image has to be tried as each format to learn which
/// it is: its format is not known, the one found before did not load, or it
/// comes from 7TV, whose headers cannot be relied on.
pub open spec fn needs_probe(dir: Seq<char>, ext: Option<Seq<char>>, bad_extension: bool) -> bool {
    contains_spec(dir, "7tv"@) || ext is None || bad_extension
}

/// Whether a downloaded image is to be probed for its format.
pub fn needs_format_probe(dir: &str, ext: &Option<String>, bad_extension: bool) -> (r: bool)
    ensures
        r == needs_probe(dir@, opt_str_view(*ext), bad_extension),
{
    let dc = chars_of(dir);
    contains_str(dc.as_slice(), "7tv") || ext.is_none() || bad_extension
}

/// The format a probed image is taken to have: an animated gif, else an
/// animated webp, else png, unless the format found before failed and the
/// bytes do not decode as an image either.
pub open spec fn probed(is_gif: bool, is_webp: bool, decodes: bool, bad_extension: bool) -> Seq<char> {
    if is_gif {
        "gif"@
    } else if is_webp {
        "webp"@
    } else if !bad_extension || decodes {
        "png"@
    } else {
        "unknown"@
    }
}

/// The extension a probed image is stored under, from what decoding it
/// showed.
pub fn probed_extension(is_gif: bool, is_webp: bool, decodes: bool, bad_extension: bool) -> (r: String)
    ensures
        r@ == probed(is_gif, is_webp, decodes, bad_extension),
{
    if is_gif {
        owned("gif")
    } else if is_webp {
        owned("webp")
    } else if !bad_extension || decodes {
        owned("png")
    } else {
        owned("unknown")
    }
}

/// Whether an image is downloaded: the cached file did not load, unless it
/// is the marker left by an earlier failed download.
pub open spec fn must_download_spec(loaded: bool, found_ext: Option<Seq<char>>) -> bool {
    !loaded && found_ext != Some("unknown"@)
}

/// Whether an image has to be downloaded after looking in the cache.
pub fn must_download(loaded: bool, found_ext: &Option<String>) -> (r: bool)
    ensures
        r == must_download_spec(loaded, opt_str_view(*found_ext)),
{
    if loaded {
        return false;
    }
    match found_ext {
        Some(e) => {
            let ec = chars_of(e.as_str());
            let uc = chars_of("unknown");
            let same = ec.len() == uc.len() && matches_at(ec.as_slice(), uc.as_slice(), 0);
            proof {
                if ec@.len() == uc@.len() {
                    assert(ec@.subrange(0, uc@.len() as int) == ec@);
                }
            }
            !same
        },
        None => true,
    }
}

} // verus!
