//! What a chat message row shows, word by word: emotes, links, mentions and
//! text, with each line of ASCII art on a row of its own.

use vstd::prelude::*;
use crate::chat::{ascii_art_start_spec, byte_len, is_start_of_ascii_art, is_url, is_url_spec};
use crate::images::{ends_with_spec, has_suffix};
use crate::model::{ChatMessage, Emote, ProviderName};
use crate::numbers::{decimal_text, parse_usize, parse_usize_spec, push_decimal};
use crate::name_map::NameMap;
use crate::text::{
    chars_of, contains_spec, has_infix, has_prefix, lowercase, opt_str_view, push_char, push_str, split_spec, split_words,
    starts_with_spec, str_eq, to_lowercase, views,
};

verus! {

/// An ASCII whitespace character: space, tab, line feed, form feed or
/// carriage return.
pub open spec fn is_ascii_ws(c: char) -> bool {
    let u = c as u32;
    u == 32 || u == 9 || u == 10 || u == 12 || u == 13
}

/// The words of a text between runs of ASCII whitespace, as
/// `str::split_ascii_whitespace` gives them.
pub open spec fn ascii_tokens(s: Seq<char>) -> Seq<Seq<char>>
    decreases s.len(),
{
    if s.len() == 0 {
        Seq::empty()
    } else {
        let t = ascii_tokens(s.drop_last());
        if is_ascii_ws(s.last()) {
            t
        } else if s.len() >= 2 && !is_ascii_ws(s[s.len() - 2]) {
            t.update(t.len() - 1, t.last().push(s.last()))
        } else {
            t.push(seq![s.last()])
        }
    }
}

/// Splits a text at runs of ASCII whitespace.
pub fn ascii_words(s: &str) -> (r: Vec<String>)
    ensures
        views(r@) == ascii_tokens(s@),
{
    let cs = chars_of(s);
    let mut toks: Vec<String> = Vec::new();
    let mut cur = String::new();
    let mut in_word = false;
    let mut i: usize = 0;
    while i < cs.len()
        invariant
            i <= cs@.len(),
            cs@ == s@,
            in_word == (i > 0 && !is_ascii_ws(cs@[i - 1])),
            in_word ==> views(toks@).push(cur@) == ascii_tokens(cs@.take(i as int)),
            !in_word ==> views(toks@) == ascii_tokens(cs@.take(i as int)),
        decreases cs@.len() - i,
    {
        let c = cs[i];
        let ghost pre = cs@.take(i as int);
        let ghost nxt = cs@.take(i + 1);
        assert(nxt.drop_last() == pre);
        assert(nxt.last() == c);
        let u = c as u32;
        let ws = u == 32 || u == 9 || u == 10 || u == 12 || u == 13;
        if ws {
            if in_word {
                let w = cur;
                toks.push(w);
                cur = String::new();
                assert(views(toks@) == ascii_tokens(nxt));
            }
            in_word = false;
        } else {
            if in_word {
                let ghost old_toks = views(toks@);
                let ghost old_cur = cur@;
                push_char(&mut cur, c);
                assert(nxt[nxt.len() - 2] == cs@[i - 1]);
                assert(views(toks@).push(cur@) =~= old_toks.push(old_cur).update(old_toks.len() as int, old_cur.push(c)));
            } else {
                let mut w = String::new();
                push_char(&mut w, c);
                cur = w;
                assert(i > 0 ==> nxt[nxt.len() - 2] == cs@[i - 1]);
                assert(cur@ =~= seq![c]);
            }
            in_word = true;
        }
        i += 1;
    }
    assert(cs@.take(cs@.len() as int) == cs@);
    if in_word {
        toks.push(cur);
    }
    toks
}

/// A whitespace-separated word of the message is the link of a word shown
/// when it starts or ends with the shown word, or holds it and the shown word
/// is longer than 16 bytes.
pub open spec fn related(t: Seq<char>, w: Seq<char>) -> bool {
    starts_with_spec(t, w) || ends_with_spec(t, w) || (contains_spec(t, w) && byte_len(w) > 16)
}

/// The first of the words from position `i` on that is related to `w`.
pub open spec fn first_related_from(ts: Seq<Seq<char>>, w: Seq<char>, i: int) -> Option<Seq<char>>
    decreases ts.len() - i,
{
    if i < 0 || i >= ts.len() {
        None
    } else if related(ts[i], w) {
        Some(ts[i])
    } else {
        first_related_from(ts, w, i + 1)
    }
}

/// The address a shown word links to: the first related word of the
/// message, or, when none is, its first word; only when that is a link.
pub open spec fn link_for(message: Seq<char>, w: Seq<char>) -> Option<Seq<char>> {
    let ts = ascii_tokens(message);
    let found = match first_related_from(ts, w, 0) {
        Some(t) => Some(t),
        None => if ts.len() > 0 {
            Some(ts[0])
        } else {
            None
        },
    };
    match found {
        Some(t) => if is_url_spec(t) {
            Some(t)
        } else {
            None
        },
        None => None,
    }
}

fn is_related(t: &String, w: &[char], long: bool) -> (r: bool)
    requires
        long == (byte_len(w@) > 16),
    ensures
        r == related(t@, w@),
{
    let tc = chars_of(t.as_str());
    has_prefix(tc.as_slice(), w) || has_suffix(tc.as_slice(), w) || (has_infix(tc.as_slice(), w) && long)
}

/// The address a shown word of the message links to, if any.
pub fn link_of_word(tokens: &Vec<String>, message: &str, word: &str) -> (r: Option<String>)
    requires
        views(tokens@) == ascii_tokens(message@),
    ensures
        match r {
            Some(u) => link_for(message@, word@) == Some(u@),
            None => link_for(message@, word@) is None,
        },
{
    let ghost ts = views(tokens@);
    let wc = chars_of(word);
    let long = word.len() > 16;
    let mut i: usize = 0;
    let mut found: Option<usize> = None;
    while i < tokens.len()
        invariant
            i <= tokens@.len(),
            ts == views(tokens@),
            wc@ == word@,
            long == (byte_len(word@) > 16),
            found is None ==> first_related_from(ts, word@, 0) == first_related_from(ts, word@, i as int),
            found matches Some(k) ==> k < tokens@.len() && first_related_from(ts, word@, 0) == Some(ts[k as int]),
        decreases tokens@.len() - i,
    {
        if found.is_none() {
            if is_related(&tokens[i], wc.as_slice(), long) {
                found = Some(i);
            }
        }
        i += 1;
    }
    let pick: Option<usize> = match found {
        Some(k) => Some(k),
        None => if tokens.len() > 0 {
            Some(0)
        } else {
            None
        },
    };
    match pick {
        Some(k) => {
            assert(ts[k as int] == tokens@[k as int]@);
            if is_url(tokens[k].as_str()) {
                Some(tokens[k].clone())
            } else {
                None
            }
        },
        None => None,
    }
}

/// The first of the mentions from position `i` on that the lower-cased word
/// holds in lower case.
pub open spec fn mention_from(ms: Seq<Seq<char>>, lw: Seq<char>, i: int) -> Option<Seq<char>>
    decreases ms.len() - i,
{
    if i < 0 || i >= ms.len() {
        None
    } else if contains_spec(lw, lowercase(ms[i])) {
        Some(ms[i])
    } else {
        mention_from(ms, lw, i + 1)
    }
}

/// The mentioned user a word is shown as, if any.
pub open spec fn mention_for(ms: Option<Seq<Seq<char>>>, w: Seq<char>) -> Option<Seq<char>> {
    match ms {
        Some(ms) => mention_from(ms, lowercase(w), 0),
        None => None,
    }
}

/// The mentions of a message, as texts.
pub open spec fn mentions_view(ms: Option<Vec<String>>) -> Option<Seq<Seq<char>>> {
    match ms {
        Some(v) => Some(views(v@)),
        None => None,
    }
}

fn mention_of_word(mentions: &Option<Vec<String>>, word: &str) -> (r: Option<String>)
    ensures
        match r {
            Some(m) => mention_for(mentions_view(*mentions), word@) == Some(m@),
            None => mention_for(mentions_view(*mentions), word@) is None,
        },
{
    match mentions {
        None => None,
        Some(ms) => {
            let ghost mv = views(ms@);
            assert(mentions_view(*mentions) == Some(mv));
            let lw = to_lowercase(word);
            let lc = chars_of(lw.as_str());
            let mut i: usize = 0;
            while i < ms.len()
                invariant
                    i <= ms@.len(),
                    mv == views(ms@),
                    mentions_view(*mentions) == Some(mv),
                    lc@ == lowercase(word@),
                    mention_from(mv, lowercase(word@), 0) == mention_from(mv, lowercase(word@), i as int),
                decreases ms@.len() - i,
            {
                let lm = to_lowercase(ms[i].as_str());
                let lmc = chars_of(lm.as_str());
                assert(mv[i as int] == ms@[i as int]@);
                if has_infix(lc.as_slice(), lmc.as_slice()) {
                    let m = ms[i].clone();
                    assert(mention_from(mv, lowercase(word@), i as int) == Some(mv[i as int]));
                    assert(mentions_view(*mentions) == Some(mv));
                    return Some(m);
                }
                i += 1;
            }
            None
        },
    }
}

/// One thing drawn in a message row.
#[derive(Debug)]
pub enum Piece {
    /// The following words start a new row: a line of ASCII art.
    NewRow,
    /// An emote, by name.
    Emote(String),
    /// A word shown as a link to the address.
    Link { text: String, url: String },
    /// A mentioned user, shown by name; clicking it selects the user.
    Mention(String),
    /// A plain word, in a fixed-width font within ASCII art, in italics after
    /// an "ACTION" word.
    Text { text: String, monospace: bool, italic: bool },
}

/// A piece as texts.
pub enum PieceView {
    NewRow,
    Emote(Seq<char>),
    Link(Seq<char>, Seq<char>),
    Mention(Seq<char>),
    Text(Seq<char>, bool, bool),
}

/// A piece as texts.
pub open spec fn piece_view(p: Piece) -> PieceView {
    match p {
        Piece::NewRow => PieceView::NewRow,
        Piece::Emote(n) => PieceView::Emote(n@),
        Piece::Link { text, url } => PieceView::Link(text@, url@),
        Piece::Mention(m) => PieceView::Mention(m@),
        Piece::Text { text, monospace, italic } => PieceView::Text(text@, monospace, italic),
    }
}

/// Whether word `ix` belongs to ASCII art, as the line width of the art: the
/// art starts at a word when no art ran before it, and goes on while the
/// words keep the width of its first line.
pub open spec fn art_after(ws: Seq<Seq<char>>, emotes: Map<Seq<char>, &Emote>, ix: int) -> Option<int>
    decreases ix,
{
    let prev = if ix <= 0 {
        None
    } else {
        art_after(ws, emotes, ix - 1)
    };
    match prev {
        None => ascii_art_start_spec(ws, ix, emotes),
        Some(len) => if byte_len(ws[ix]) == len {
            Some(len)
        } else {
            None
        },
    }
}

/// Whether an "ACTION" word came before word `ix`.
pub open spec fn italic_before(ws: Seq<Seq<char>>, ix: int) -> bool {
    exists|j: int| 0 <= j < ix && ws[j] == "ACTION"@
}

/// What word `ix` of the message is drawn as: after a row break when it is
/// in ASCII art, nothing for "ACTION", else an emote, a link, a mention or
/// plain text, the first of these that applies.
pub open spec fn word_pieces(
    message: Seq<char>,
    emotes: Map<Seq<char>, &Emote>,
    ms: Option<Seq<Seq<char>>>,
    ix: int,
) -> Seq<PieceView> {
    let ws = split_spec(message, ' ');
    let w = ws[ix];
    let art = art_after(ws, emotes, ix) is Some;
    let lead: Seq<PieceView> = if art {
        seq![PieceView::NewRow]
    } else {
        Seq::empty()
    };
    if w == "ACTION"@ {
        lead
    } else if emotes.contains_key(w) {
        lead.push(PieceView::Emote(w))
    } else {
        match link_for(message, w) {
            Some(u) => lead.push(PieceView::Link(w, u)),
            None => match mention_for(ms, w) {
                Some(m) => lead.push(PieceView::Mention(m)),
                None => lead.push(PieceView::Text(w, art, italic_before(ws, ix))),
            },
        }
    }
}

/// What the first `n` words of the message are drawn as.
pub open spec fn pieces_upto(
    message: Seq<char>,
    emotes: Map<Seq<char>, &Emote>,
    ms: Option<Seq<Seq<char>>>,
    n: int,
) -> Seq<PieceView>
    decreases n,
{
    if n <= 0 {
        Seq::empty()
    } else {
        pieces_upto(message, emotes, ms, n - 1) + word_pieces(message, emotes, ms, n - 1)
    }
}

/// What a message row shows, word by word, for the words of the message
/// split at single spaces.
pub fn message_pieces(message: &str, emotes: &NameMap<&Emote>, mentions: &Option<Vec<String>>) -> (r: Vec<Piece>)
    requires
        emotes.wf(),
    ensures
        r@.map_values(|p: Piece| piece_view(p)) == pieces_upto(
            message@,
            emotes@,
            mentions_view(*mentions),
            split_spec(message@, ' ').len() as int,
        ),
{
    let words = split_words(message, ' ');
    let tokens = ascii_words(message);
    let ghost ws = views(words@);
    let ghost ms = mentions_view(*mentions);
    let mut r: Vec<Piece> = Vec::new();
    let mut art: Option<usize> = None;
    let mut italic = false;
    let mut i: usize = 0;
    while i < words.len()
        invariant
            emotes.wf(),
            i <= words@.len(),
            ws == views(words@),
            ws == split_spec(message@, ' '),
            views(tokens@) == ascii_tokens(message@),
            ms == mentions_view(*mentions),
            i == 0 ==> art is None,
            i > 0 ==> match art {
                Some(n) => art_after(ws, emotes@, i - 1) == Some(n as int),
                None => art_after(ws, emotes@, i - 1) is None,
            },
            italic == italic_before(ws, i as int),
            r@.map_values(|p: Piece| piece_view(p)) == pieces_upto(message@, emotes@, ms, i as int),
        decreases words@.len() - i,
    {
        let word = &words[i];
        assert(ws[i as int] == word@);
        let ghost before = r@.map_values(|p: Piece| piece_view(p));
        art = match art {
            None => is_start_of_ascii_art(&words, i, emotes),
            Some(len) => if word.as_str().len() == len {
                Some(len)
            } else {
                None
            },
        };
        assert(match art {
            Some(n) => art_after(ws, emotes@, i as int) == Some(n as int),
            None => art_after(ws, emotes@, i as int) is None,
        });
        let in_art = art.is_some();
        if in_art {
            r.push(Piece::NewRow);
        }
        let ghost lead = r@.map_values(|p: Piece| piece_view(p));
        let is_action = str_eq(word.as_str(), "ACTION");
        if is_action {
        } else if emotes.contains_key(word.as_str()) {
            r.push(Piece::Emote(word.clone()));
        } else {
            match link_of_word(&tokens, message, word.as_str()) {
                Some(u) => {
                    r.push(Piece::Link { text: word.clone(), url: u });
                },
                None => match mention_of_word(mentions, word.as_str()) {
                    Some(m) => {
                        r.push(Piece::Mention(m));
                    },
                    None => {
                        r.push(Piece::Text { text: word.clone(), monospace: in_art, italic: italic });
                    },
                },
            }
        }
        proof {
            let wp = word_pieces(message@, emotes@, ms, i as int);
            assert(r@.map_values(|p: Piece| piece_view(p)) =~= before + wp);
            assert(pieces_upto(message@, emotes@, ms, i + 1) == before + wp);
        }
        if is_action {
            italic = true;
        }
        proof {
            assert(italic == italic_before(ws, i + 1)) by {
                if is_action {
                    assert(ws[i as int] == "ACTION"@);
                } else if italic_before(ws, i + 1) {
                    let j = choose|j: int| 0 <= j < i + 1 && ws[j] == "ACTION"@;
                    assert(j < i);
                }
            }
        }
        i += 1;
    }
    r
}

/// The color of a message's words: grey when it was removed, green for a
/// Destiny.gg message that starts with '>', else light grey.
pub open spec fn message_color_spec(m: ChatMessage) -> (u8, u8, u8) {
    if m.is_removed is Some {
        (180, 180, 180)
    } else if m.provider == ProviderName::DGG && m.message@.len() > 0 && m.message@[0] == '>' {
        (99, 151, 37)
    } else {
        (210, 210, 210)
    }
}

/// The color of a message's words.
pub fn message_color(m: &ChatMessage) -> (r: (u8, u8, u8))
    ensures
        r == message_color_spec(*m),
{
    if m.is_removed.is_some() {
        (180, 180, 180)
    } else if m.provider == ProviderName::DGG {
        let cs = chars_of(m.message.as_str());
        if cs.len() > 0 && cs[0] == '>' {
            (99, 151, 37)
        } else {
            (210, 210, 210)
        }
    } else {
        (210, 210, 210)
    }
}

/// Where clicking a link goes: a Destiny.gg embed reference `#twitch/name`
/// or `#youtube/id` goes to the stream; any other link to itself.
pub open spec fn link_target_spec(provider: ProviderName, url: Seq<char>) -> Seq<char> {
    let parts = split_spec(url, '/');
    if provider == ProviderName::DGG && parts.len() == 2 {
        if parts[0] == "#twitch"@ {
            "https://twitch.tv/"@ + parts[1]
        } else if parts[0] == "#youtube"@ {
            "https://www.youtube.com/watch?v="@ + parts[1]
        } else {
            url
        }
    } else {
        url
    }
}

/// Where clicking a link of a message goes.
pub fn link_target(provider: ProviderName, url: &str) -> (r: String)
    ensures
        r@ == link_target_spec(provider, url@),
{
    let mut r = String::new();
    if provider == ProviderName::DGG {
        let parts = split_words(url, '/');
        if parts.len() == 2 {
            assert(views(parts@)[0] == parts@[0]@ && views(parts@)[1] == parts@[1]@);
            if str_eq(parts[0].as_str(), "#twitch") {
                push_str(&mut r, "https://twitch.tv/");
                push_str(&mut r, parts[1].as_str());
                return r;
            } else if str_eq(parts[0].as_str(), "#youtube") {
                push_str(&mut r, "https://www.youtube.com/watch?v=");
                push_str(&mut r, parts[1].as_str());
                return r;
            }
        }
    }
    push_str(&mut r, url);
    assert(r@ =~= url@);
    r
}

/// The subscription tier of a subscriber badge's number.
pub open spec fn sub_tier(n: int) -> Seq<char> {
    if n / 1000 == 3 {
        "T3"@
    } else if n / 1000 == 2 {
        "T2"@
    } else {
        "T1"@
    }
}

/// The text shown over a badge: for Twitch, from its set and version
/// (`set/version`; anything else reads as an empty set): the months and tier
/// of a subscriber badge, the gifts of a gifter badge, the bits of a bits
/// badge, else the set's name; for Destiny.gg the flair's label, or its name;
/// nothing for YouTube.
pub open spec fn badge_tooltip_spec(provider: ProviderName, name: Seq<char>, label: Option<Seq<char>>) -> Option<Seq<char>> {
    match provider {
        ProviderName::Twitch => {
            let parts = split_spec(name, '/');
            let a = if parts.len() == 2 { parts[0] } else { Seq::empty() };
            let b = if parts.len() == 2 { parts[1] } else { Seq::empty() };
            if a == "subscriber"@ {
                let n = match parse_usize_spec(b) {
                    Some(v) => v,
                    None => 0,
                };
                Some(decimal_text((n % 1000) as nat) + " Month Sub ("@ + sub_tier(n) + ")"@)
            } else if a == "sub-gifter"@ {
                Some(b + "\nGift Subs"@)
            } else if a == "bits"@ {
                Some(b + " Bits"@)
            } else {
                Some(a)
            }
        },
        ProviderName::DGG => Some(match label {
            Some(d) => d,
            None => name,
        }),
        ProviderName::YouTube => None,
    }
}

/// The text shown over a badge of a message's sender.
pub fn badge_tooltip(provider: ProviderName, name: &str, label: &Option<String>) -> (r: Option<String>)
    ensures
        opt_str_view(r) == badge_tooltip_spec(provider, name@, opt_str_view(*label)),
{
    match provider {
        ProviderName::YouTube => None,
        ProviderName::DGG => {
            let mut r = String::new();
            match label {
                Some(d) => push_str(&mut r, d.as_str()),
                None => push_str(&mut r, name),
            }
            proof {
                assert(r@ =~= match opt_str_view(*label) {
                    Some(d) => d,
                    None => name@,
                });
            }
            Some(r)
        },
        ProviderName::Twitch => {
            let parts = split_words(name, '/');
            let two = parts.len() == 2;
            let mut a = String::new();
            let mut b = String::new();
            if two {
                assert(views(parts@)[0] == parts@[0]@ && views(parts@)[1] == parts@[1]@);
                push_str(&mut a, parts[0].as_str());
                push_str(&mut b, parts[1].as_str());
            }
            assert(a@ =~= (if split_spec(name@, '/').len() == 2 { split_spec(name@, '/')[0] } else { Seq::<char>::empty() }));
            assert(b@ =~= (if split_spec(name@, '/').len() == 2 { split_spec(name@, '/')[1] } else { Seq::<char>::empty() }));
            let mut r = String::new();
            if str_eq(a.as_str(), "subscriber") {
                let n: usize = match parse_usize(b.as_str()) {
                    Some(v) => v,
                    None => 0,
                };
                push_decimal(&mut r, (n % 1000) as u128);
                push_str(&mut r, " Month Sub (");
                if n / 1000 == 3 {
                    push_str(&mut r, "T3");
                } else if n / 1000 == 2 {
                    push_str(&mut r, "T2");
                } else {
                    push_str(&mut r, "T1");
                }
                push_str(&mut r, ")");
            } else if str_eq(a.as_str(), "sub-gifter") {
                push_str(&mut r, b.as_str());
                push_str(&mut r, "\nGift Subs");
            } else if str_eq(a.as_str(), "bits") {
                push_str(&mut r, b.as_str());
                push_str(&mut r, " Bits");
            } else {
                push_str(&mut r, a.as_str());
                assert(r@ =~= a@);
            }
            Some(r)
        },
    }
}

/// The user a click on a message's shown name selects: the name in lower
/// case. (A click on a mention selects the mentioned user as listed.)
pub fn clicked_name(shown: &str) -> (r: String)
    ensures
        r@ == lowercase(shown@),
{
    to_lowercase(shown)
}

} // verus!
