//! What a chat message contains: who to show it as, who it mentions, which
//! words are emotes and which badges its author wears.

use vstd::prelude::*;
use crate::name_map::NameMap;
use vstd::string::StringExecFnsIsAscii;
use vstd::utf8::is_ascii_chars;
use crate::model::{ChatMessage, ChannelUser, Emote, MessageType, ProviderMap, ProviderName};
use crate::color::{convert_color, convert_color_spec, DEFAULT_USER_COLOR};
use crate::text::{
    chars_eq, chars_of, split_spec, split_words, string_from_chars, to_lowercase, trim_end_char,
    trim_end_spec, trim_start_char, trim_start_spec, views, lowercase,
};

verus! {

/// The channel whose badges carry colours and priorities.
pub open spec fn dgg_channel_name() -> Seq<char> {
    seq!['D', 'e', 's', 't', 'i', 'n', 'y']
}

/// The name a message is shown under: none for system lines, the display name
/// when it is ASCII, the login name otherwise.
pub open spec fn name_to_display_spec(m: ChatMessage) -> Option<String> {
    if m.msg_type != MessageType::Chat {
        None
    } else {
        match m.profile.display_name {
            Some(d) if is_ascii_chars(d@) => Some(d),
            _ => Some(m.username),
        }
    }
}

/// The name a message is shown under.
pub fn determine_name_to_display(chat_msg: &ChatMessage) -> (r: Option<&String>)
    ensures
        match r {
            Some(n) => name_to_display_spec(*chat_msg) == Some(*n),
            None => name_to_display_spec(*chat_msg).is_none(),
        },
{
    if chat_msg.msg_type != MessageType::Chat {
        return None;
    }
    match &chat_msg.profile.display_name {
        Some(display_name) => {
            if display_name.is_ascii() {
                Some(display_name)
            } else {
                Some(&chat_msg.username)
            }
        },
        None => Some(&chat_msg.username),
    }
}

impl ChatMessage {
    /// The shown name together with the author's normalised colour.
    pub fn get_username_with_color(&self) -> (r: Option<(&String, (u8, u8, u8))>)
        ensures
            match r {
                Some((n, c)) => {
                    &&& name_to_display_spec(*self) == Some(*n)
                    &&& c == convert_color_spec(
                        match self.profile.color {
                            Some(c) => c,
                            None => DEFAULT_USER_COLOR,
                        },
                    )
                },
                None => name_to_display_spec(*self).is_none(),
            },
    {
        match determine_name_to_display(self) {
            Some(username) => {
                let c = match &self.profile.color {
                    Some(c) => *c,
                    None => DEFAULT_USER_COLOR,
                };
                Some((username, convert_color(&c)))
            },
            None => None,
        }
    }
}

/// The key a word is looked up under as a mention: leading `@` and trailing
/// `,` removed, lower-cased.
pub open spec fn mention_key(w: Seq<char>) -> Seq<char> {
    lowercase(trim_end_spec(trim_start_spec(w, '@'), ','))
}

/// Computes `mention_key`.
pub fn mention_key_of(w: &String) -> (r: String)
    ensures
        r@ == mention_key(w@),
{
    let cs = chars_of(w.as_str());
    let a = trim_start_char(cs.as_slice(), '@');
    let b = trim_end_char(a.as_slice(), ',');
    let s = string_from_chars(b.as_slice());
    to_lowercase(s.as_str())
}

/// Display names of the known users a sequence of words mentions, in order.
pub open spec fn mentions_spec(words: Seq<Seq<char>>, users: Map<Seq<char>, ChannelUser>) -> Seq<Seq<char>>
    decreases words.len(),
{
    if words.len() == 0 {
        Seq::empty()
    } else {
        let p = mentions_spec(words.drop_last(), users);
        let k = mention_key(words.last());
        if users.contains_key(k) {
            p.push(users[k].display_name@)
        } else {
            p
        }
    }
}

/// The users of a channel a message mentions, by display name, one entry per
/// mentioning word.
pub fn get_mentions_in_message(row: &ChatMessage, users: &NameMap<ChannelUser>) -> (r: Option<Vec<String>>)
    requires
        users.wf(),
    ensures
        r matches Some(v) && views(v@) == mentions_spec(split_spec(row.message@, ' '), users@),
{
    let words = split_words(row.message.as_str(), ' ');
    let mut out: Vec<String> = Vec::new();
    let mut i: usize = 0;
    while i < words.len()
        invariant
            i <= words@.len(),
            views(words@) == split_spec(row.message@, ' '),
            views(out@) == mentions_spec(views(words@).take(i as int), users@),
            users.wf(),
        decreases words@.len() - i,
    {
        let key = mention_key_of(&words[i]);
        let ghost ws = views(words@);
        assert(ws.take(i + 1).drop_last() == ws.take(i as int));
        assert(ws.take(i + 1).last() == words@[i as int]@);
        match users.get(key.as_str()) {
            Some(u) => {
                let ghost before = out@;
                out.push(u.display_name.clone());
                assert(views(out@) == views(before).push(u.display_name@));
            },
            None => {},
        }
        i += 1;
    }
    assert(views(words@).take(words@.len() as int) == views(words@));
    Some(out)
}

/// Some word of `message` is a mention of `username`.
pub open spec fn mentions_user(message: Seq<char>, username: Seq<char>) -> bool {
    exists|i: int| 0 <= i < split_spec(message, ' ').len() && #[trigger] mention_key(split_spec(message, ' ')[i]) == username
}

/// Whether a message mentions the logged-in user of its provider.
pub fn mentioned_in_message(usernames: &ProviderMap<String>, provider: &ProviderName, message: &str) -> (r: bool)
    ensures
        r == match usernames.spec_get(*provider) {
            Some(u) => mentions_user(message@, u@),
            None => false,
        },
{
    match usernames.get(*provider) {
        Some(username) => {
            let words = split_words(message, ' ');
            let mut i: usize = 0;
            while i < words.len()
                invariant
                    i <= words@.len(),
                    usernames.spec_get(*provider) == Some(*username),
                    views(words@) == split_spec(message@, ' '),
                    forall|k: int| 0 <= k < i ==> #[trigger] mention_key(split_spec(message@, ' ')[k]) != username@,
                decreases words@.len() - i,
            {
                let key = mention_key_of(&words[i]);
                assert(views(words@)[i as int] == words@[i as int]@);
                if key == *username {
                    assert(mention_key(split_spec(message@, ' ')[i as int]) == username@);
                    return true;
                }
                i += 1;
            }
            false
        },
        None => false,
    }
}

/// The emote a word of a message stands for: a channel emote first, then a
/// global one (not on DGG), then one of the provider (Twitch and YouTube only).
pub open spec fn emote_for_word(
    w: Seq<char>,
    provider: ProviderName,
    provider_emotes: Option<Map<Seq<char>, Emote>>,
    channel_emotes: Option<Map<Seq<char>, Emote>>,
    global_emotes: Map<Seq<char>, Emote>,
) -> Option<Emote> {
    if channel_emotes is Some && channel_emotes->0.contains_key(w) {
        Some(channel_emotes->0[w])
    } else if provider != ProviderName::DGG && global_emotes.contains_key(w) {
        Some(global_emotes[w])
    } else if provider_emotes is Some && provider_emotes->0.contains_key(w) {
        match provider {
            ProviderName::Twitch => Some(provider_emotes->0[w]),
            ProviderName::YouTube => Some(provider_emotes->0[w]),
            ProviderName::DGG => None,
        }
    } else {
        None
    }
}

/// The emotes of a sequence of words, keyed by emote name.
pub open spec fn emotes_spec(
    words: Seq<Seq<char>>,
    provider: ProviderName,
    provider_emotes: Option<Map<Seq<char>, Emote>>,
    channel_emotes: Option<Map<Seq<char>, Emote>>,
    global_emotes: Map<Seq<char>, Emote>,
) -> Map<Seq<char>, Emote>
    decreases words.len(),
{
    if words.len() == 0 {
        Map::empty()
    } else {
        let p = emotes_spec(words.drop_last(), provider, provider_emotes, channel_emotes, global_emotes);
        match emote_for_word(words.last(), provider, provider_emotes, channel_emotes, global_emotes) {
            Some(e) => p.insert(e.name@, e),
            None => p,
        }
    }
}

/// A map of references holds exactly the values of a map of emotes.
pub open spec fn refs_match(r: Map<Seq<char>, &Emote>, m: Map<Seq<char>, Emote>) -> bool {
    &&& r.dom() == m.dom()
    &&& forall|k: Seq<char>| #[trigger] r.contains_key(k) ==> *r[k] == m[k]
}

/// An optional map is well formed when present.
pub open spec fn opt_wf(m: Option<&NameMap<Emote>>) -> bool {
    match m {
        Some(m) => m.wf(),
        None => true,
    }
}

pub open spec fn opt_view(m: Option<&NameMap<Emote>>) -> Option<Map<Seq<char>, Emote>> {
    match m {
        Some(m) => Some(m@),
        None => None,
    }
}

/// Looks up the emote a word stands for.
pub fn emote_lookup<'a>(
    word: &str,
    provider: ProviderName,
    provider_emotes: Option<&'a NameMap<Emote>>,
    channel_emotes: Option<&'a NameMap<Emote>>,
    global_emotes: &'a NameMap<Emote>,
) -> (r: Option<&'a Emote>)
    requires
        opt_wf(provider_emotes),
        opt_wf(channel_emotes),
        global_emotes.wf(),
    ensures
        match r {
            Some(e) => emote_for_word(word@, provider, opt_view(provider_emotes), opt_view(channel_emotes), global_emotes@) == Some(*e),
            None => emote_for_word(word@, provider, opt_view(provider_emotes), opt_view(channel_emotes), global_emotes@).is_none(),
        },
{
    if let Some(ce) = channel_emotes {
        if let Some(e) = ce.get(word) {
            return Some(e);
        }
    }
    if provider != ProviderName::DGG {
        if let Some(e) = global_emotes.get(word) {
            return Some(e);
        }
    }
    if let Some(pe) = provider_emotes {
        if let Some(e) = pe.get(word) {
            return match provider {
                ProviderName::Twitch => Some(e),
                ProviderName::YouTube => Some(e),
                ProviderName::DGG => None,
            };
        }
    }
    None
}

/// The emotes a message uses, keyed by emote name.
pub fn get_emotes_for_message<'a>(
    row: &ChatMessage,
    provider_emotes: Option<&'a NameMap<Emote>>,
    channel_emotes: Option<&'a NameMap<Emote>>,
    global_emotes: &'a NameMap<Emote>,
) -> (r: NameMap<&'a Emote>)
    requires
        opt_wf(provider_emotes),
        opt_wf(channel_emotes),
        global_emotes.wf(),
    ensures
        r.wf(),
        refs_match(
            r@,
            emotes_spec(
                split_spec(row.message@, ' '),
                row.provider,
                opt_view(provider_emotes),
                opt_view(channel_emotes),
                global_emotes@,
            ),
        ),
{
    let words = split_words(row.message.as_str(), ' ');
    let mut result: NameMap<&'a Emote> = NameMap::new();
    let mut i: usize = 0;
    while i < words.len()
        invariant
            i <= words@.len(),
            views(words@) == split_spec(row.message@, ' '),
            opt_wf(provider_emotes),
            opt_wf(channel_emotes),
            global_emotes.wf(),
            result.wf(),
            refs_match(
                result@,
                emotes_spec(
                    views(words@).take(i as int),
                    row.provider,
                    opt_view(provider_emotes),
                    opt_view(channel_emotes),
                    global_emotes@,
                ),
            ),
        decreases words@.len() - i,
    {
        let ghost ws = views(words@);
        assert(ws.take(i + 1).drop_last() == ws.take(i as int));
        assert(ws.take(i + 1).last() == words@[i as int]@);
        match emote_lookup(words[i].as_str(), row.provider, provider_emotes, channel_emotes, global_emotes) {
            Some(e) => {
                result.insert(e.name.clone(), e);
            },
            None => {},
        }
        i += 1;
    }
    assert(views(words@).take(words@.len() as int) == views(words@));
    result
}

/// One step of badge selection: a channel badge (on the DGG channel its colour
/// competes for the name colour by lowest priority, and a hidden one is not
/// shown), else a global badge, else nothing.
pub open spec fn badge_step(
    acc: (Seq<Emote>, Option<(isize, (u8, u8, u8))>),
    badge: Seq<char>,
    is_dgg: bool,
    global_badges: Option<Map<Seq<char>, Emote>>,
    channel_badges: Option<Map<Seq<char>, Emote>>,
) -> (Seq<Emote>, Option<(isize, (u8, u8, u8))>) {
    if channel_badges is Some && channel_badges->0.contains_key(badge) {
        let e = channel_badges->0[badge];
        let g = if is_dgg && e.color is Some && (acc.1 is None || (acc.1->0).0 > e.priority) {
            Some((e.priority, e.color->0))
        } else {
            acc.1
        };
        if is_dgg && e.hidden {
            (acc.0, g)
        } else {
            (acc.0.push(e), g)
        }
    } else if global_badges is Some && global_badges->0.contains_key(badge) {
        (acc.0.push(global_badges->0[badge]), acc.1)
    } else {
        acc
    }
}

pub open spec fn badges_spec(
    badges: Seq<Seq<char>>,
    is_dgg: bool,
    global_badges: Option<Map<Seq<char>, Emote>>,
    channel_badges: Option<Map<Seq<char>, Emote>>,
) -> (Seq<Emote>, Option<(isize, (u8, u8, u8))>)
    decreases badges.len(),
{
    if badges.len() == 0 {
        (Seq::empty(), None)
    } else {
        badge_step(
            badges_spec(badges.drop_last(), is_dgg, global_badges, channel_badges),
            badges.last(),
            is_dgg,
            global_badges,
            channel_badges,
        )
    }
}

/// A sequence of references holds exactly the given emotes.
pub open spec fn ref_seq_match(r: Seq<&Emote>, s: Seq<Emote>) -> bool {
    r.len() == s.len() && forall|i: int| 0 <= i < r.len() ==> *#[trigger] r[i] == s[i]
}

/// The badges to show for a message's author, and on the DGG channel the colour
/// of the highest-ranked (lowest priority number) coloured badge.
pub fn get_badges_for_message<'a>(
    badges: Option<&Vec<String>>,
    channel_name: &str,
    global_badges: Option<&'a NameMap<Emote>>,
    channel_badges: Option<&'a NameMap<Emote>>,
) -> (r: (Option<Vec<&'a Emote>>, Option<(u8, u8, u8)>))
    requires
        opt_wf(global_badges),
        opt_wf(channel_badges),
    ensures
        match badges {
            None => r.0.is_none() && r.1.is_none(),
            Some(b) => {
                let s = badges_spec(views(b@), channel_name@ == dgg_channel_name(), opt_view(global_badges), opt_view(channel_badges));
                &&& r.0 matches Some(v) && ref_seq_match(v@, s.0)
                &&& r.1 == match s.1 {
                    Some(g) => Some(g.1),
                    None => None,
                }
            },
        },
{
    let b = match badges {
        None => { return (None, None); },
        Some(b) => b,
    };
    let dgg_name = ['D', 'e', 's', 't', 'i', 'n', 'y'];
    let cn = chars_of(channel_name);
    let is_dgg = chars_eq(cn.as_slice(), dgg_name.as_slice());
    assert(dgg_name@ == dgg_channel_name());
    let ghost gv = opt_view(global_badges);
    let ghost cv = opt_view(channel_badges);
    let mut result: Vec<&'a Emote> = Vec::new();
    let mut greatest: Option<(isize, (u8, u8, u8))> = None;
    let mut i: usize = 0;
    while i < b.len()
        invariant
            i <= b@.len(),
            is_dgg == (channel_name@ == dgg_channel_name()),
            opt_wf(global_badges),
            opt_wf(channel_badges),
            gv == opt_view(global_badges),
            cv == opt_view(channel_badges),
            ref_seq_match(result@, badges_spec(views(b@).take(i as int), is_dgg, gv, cv).0),
            greatest == badges_spec(views(b@).take(i as int), is_dgg, gv, cv).1,
        decreases b@.len() - i,
    {
        let ghost bs = views(b@);
        assert(bs.take(i + 1).drop_last() == bs.take(i as int));
        assert(bs.take(i + 1).last() == b@[i as int]@);
        let badge = b[i].as_str();
        let mut found = false;
        if let Some(cb) = channel_badges {
            if let Some(emote) = cb.get(badge) {
                found = true;
                if is_dgg {
                    if let Some(color) = emote.color {
                        let replace = match greatest {
                            None => true,
                            Some(g) => g.0 > emote.priority,
                        };
                        if replace {
                            greatest = Some((emote.priority, color));
                        }
                    }
                }
                if !(is_dgg && emote.hidden) {
                    result.push(emote);
                }
            }
        }
        if !found {
            if let Some(gb) = global_badges {
                if let Some(emote) = gb.get(badge) {
                    result.push(emote);
                }
            }
        }
        i += 1;
    }
    assert(views(b@).take(b@.len() as int) == views(b@));
    let color = match greatest {
        Some(g) => Some(g.1),
        None => None,
    };
    (Some(result), color)
}

} // verus!
