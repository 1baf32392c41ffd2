//! Combos: runs of the same one-word emote message in a channel, and the
//! chat history they are recorded in.

use vstd::prelude::*;
use crate::name_map::NameMap;
use std::collections::VecDeque;
use crate::model::{ChatMessage, ComboCounter, Emote};
use crate::color::{convert_color_spec, DEFAULT_USER_COLOR, GRAY};
use crate::messages::{emotes_spec, get_emotes_for_message, name_to_display_spec, opt_view, opt_wf};
use crate::text::{chars_of, contains_spec, has_infix, split_spec, str_eq, string_from_chars, trim_chars, trim_spec};

verus! {

/// The abstract content of a combo counter.
pub struct ComboView {
    pub word: Seq<char>,
    pub count: int,
    pub is_new: bool,
    pub is_end: bool,
    pub users: Seq<(Seq<char>, (u8, u8, u8))>,
}

pub open spec fn users_view(u: Seq<(String, (u8, u8, u8))>) -> Seq<(Seq<char>, (u8, u8, u8))> {
    u.map_values(|e: (String, (u8, u8, u8))| (e.0@, e.1))
}

pub open spec fn combo_view(c: ComboCounter) -> ComboView {
    ComboView { word: c.word@, count: c.count as int, is_new: c.is_new, is_end: c.is_end, users: users_view(c.users@) }
}

pub open spec fn combo_opt_view(c: Option<ComboCounter>) -> Option<ComboView> {
    match c {
        Some(c) => Some(combo_view(c)),
        None => None,
    }
}

/// How a message's author is listed in a combo: shown name and colour, or an
/// empty name in grey for system lines.
pub open spec fn combo_user(row: ChatMessage) -> (Seq<char>, (u8, u8, u8)) {
    match name_to_display_spec(row) {
        Some(n) => (
            n@,
            convert_color_spec(
                match row.profile.color {
                    Some(c) => c,
                    None => DEFAULT_USER_COLOR,
                },
            ),
        ),
        None => (Seq::empty(), GRAY),
    }
}

/// The combo a message makes: it continues the previous combo when its trimmed
/// text is that combo's word; otherwise a one-word message starts a new combo
/// and a message of several words makes none.
pub open spec fn combo_spec(row: ChatMessage, last: Option<ComboView>) -> Option<ComboView> {
    let word = trim_spec(row.message@);
    if last is Some && last->0.word == word {
        let lc = last->0;
        Some(ComboView { word: lc.word, count: lc.count + 1, is_new: false, is_end: true, users: lc.users.push(combo_user(row)) })
    } else if contains_spec(word, seq![' ']) {
        None
    } else {
        Some(ComboView { word: word, count: 1, is_new: true, is_end: true, users: seq![combo_user(row)] })
    }
}

fn combo_user_of(row: &ChatMessage) -> (r: (String, (u8, u8, u8)))
    ensures
        (r.0@, r.1) == combo_user(*row),
{
    match row.get_username_with_color() {
        Some((name, color)) => (name.clone(), color),
        None => (String::new(), GRAY),
    }
}

fn clone_users(u: &Vec<(String, (u8, u8, u8))>) -> (r: Vec<(String, (u8, u8, u8))>)
    ensures
        users_view(r@) == users_view(u@),
{
    let mut r: Vec<(String, (u8, u8, u8))> = Vec::new();
    let mut i: usize = 0;
    while i < u.len()
        invariant
            i <= u@.len(),
            users_view(r@) == users_view(u@).take(i as int),
        decreases u@.len() - i,
    {
        let e = &u[i];
        r.push((e.0.clone(), e.1));
        assert(users_view(u@).take(i + 1) == users_view(u@).take(i as int).push((u@[i as int].0@, u@[i as int].1)));
        i += 1;
    }
    assert(users_view(u@).take(u@.len() as int) == users_view(u@));
    r
}

/// Works out the combo a new message makes, given the combo of the previous
/// message of its channel.
pub fn combo_calculator(row: &ChatMessage, last_combo: Option<&ComboCounter>) -> (r: Option<ComboCounter>)
    requires
        last_combo matches Some(lc) ==> lc.count < usize::MAX,
    ensures
        combo_opt_view(r) == combo_spec(
            *row,
            match last_combo {
                Some(lc) => Some(combo_view(*lc)),
                None => None,
            },
        ),
{
    let msg = chars_of(row.message.as_str());
    let word = trim_chars(msg.as_slice());
    if let Some(lc) = last_combo {
        let lw = chars_of(lc.word.as_str());
        if lw.len() == word.len() && crate::text::chars_eq(lw.as_slice(), word.as_slice()) {
            let mut users = clone_users(&lc.users);
            let u = combo_user_of(row);
            let ghost uv = users_view(users@);
            users.push(u);
            assert(users_view(users@) == uv.push(combo_user(*row)));
            return Some(ComboCounter { word: lc.word.clone(), count: lc.count + 1, is_new: false, is_end: true, users });
        }
    }
    let space = [' '];
    if has_infix(word.as_slice(), space.as_slice()) {
        assert(space@ == seq![' ']);
        None
    } else {
        assert(space@ == seq![' ']);
        let u = combo_user_of(row);
        let mut users: Vec<(String, (u8, u8, u8))> = Vec::new();
        users.push(u);
        assert(users_view(users@) == seq![combo_user(*row)]);
        Some(ComboCounter { word: string_from_chars(word.as_slice()), count: 1, is_new: true, is_end: true, users })
    }
}

/// The index of the last message of `channel` in a history.
pub open spec fn last_in_channel(h: Seq<ChatMessage>, channel: Seq<char>) -> Option<int>
    decreases h.len(),
{
    if h.len() == 0 {
        None
    } else if h.last().channel@ == channel {
        Some(h.len() - 1)
    } else {
        last_in_channel(h.drop_last(), channel)
    }
}

/// The message a new one's combo is reckoned against: the last one of its
/// channel, or, when the channel has none yet, the last message of the history.
pub open spec fn combo_anchor(h: Seq<ChatMessage>, channel: Seq<char>) -> Option<int> {
    match last_in_channel(h, channel) {
        Some(i) => Some(i),
        None => if h.len() > 0 { Some(h.len() - 1) } else { None },
    }
}

/// The anchor message once a new message's combo is known: a continued combo
/// is no longer the end of its run; a lone one-message combo is dropped.
pub open spec fn anchor_after(p: ChatMessage, c: Option<ComboView>) -> ChatMessage {
    if c matches Some(cv) && !cv.is_new && cv.count > 1 && p.combo_data is Some {
        ChatMessage {
            combo_data: Some(ComboCounter { is_end: false, ..p.combo_data->0 }),
            ..p
        }
    } else if p.combo_data matches Some(pc) && pc.count <= 1 {
        ChatMessage { combo_data: None, ..p }
    } else {
        p
    }
}

/// Whether the message has any emote in it.
pub open spec fn has_emote(
    m: ChatMessage,
    provider_emotes: Option<Map<Seq<char>, Emote>>,
    channel_emotes: Option<Map<Seq<char>, Emote>>,
    global_emotes: Map<Seq<char>, Emote>,
) -> bool {
    !emotes_spec(split_spec(m.message@, ' '), m.provider, provider_emotes, channel_emotes, global_emotes).is_empty()
}

/// The combo recorded on a message appended to history `h`.
pub open spec fn appended_combo(
    h: Seq<ChatMessage>,
    m: ChatMessage,
    is_emote: bool,
) -> Option<ComboView> {
    if is_emote {
        match combo_anchor(h, m.channel@) {
            Some(i) => combo_spec(m, combo_opt_view(h[i].combo_data)),
            None => combo_spec(m, None),
        }
    } else {
        combo_opt_view(m.combo_data)
    }
}

/// `n` is history `h` with message `m` appended: the message goes at the end
/// with the combo it makes, the message it is reckoned against is marked, and
/// every other message stays as it was.
pub open spec fn history_push(
    h: Seq<ChatMessage>,
    n: Seq<ChatMessage>,
    m: ChatMessage,
    provider_emotes: Option<Map<Seq<char>, Emote>>,
    channel_emotes: Option<Map<Seq<char>, Emote>>,
    global_emotes: Map<Seq<char>, Emote>,
) -> bool {
    let is_emote = has_emote(m, provider_emotes, channel_emotes, global_emotes);
    let anchor = combo_anchor(h, m.channel@);
    let c = appended_combo(h, m, is_emote);
    &&& n.len() == h.len() + 1
    &&& n.last() == ChatMessage { combo_data: n.last().combo_data, ..m }
    &&& combo_opt_view(n.last().combo_data) == c
    &&& forall|i: int| 0 <= i < h.len() && !(is_emote && anchor == Some(i)) ==> #[trigger] n[i] == h[i]
    &&& (is_emote && anchor is Some) ==> n[anchor->0] == anchor_after(h[anchor->0], c)
}

/// Finds the message a new message of `channel` reckons its combo against.
fn find_combo_anchor(chat_history: &VecDeque<ChatMessage>, channel: &String) -> (r: Option<usize>)
    ensures
        match r {
            Some(i) => combo_anchor(chat_history@, channel@) == Some(i as int) && i < chat_history@.len(),
            None => combo_anchor(chat_history@, channel@).is_none(),
        },
{
    let ghost h = chat_history@;
    let n = chat_history.len();
    let mut found: Option<usize> = None;
    let mut k: usize = n;
    assert(h.take(n as int) == h);
    while k > 0 && found.is_none()
        invariant
            k <= n == h.len(),
            chat_history@ == h,
            found is None ==> last_in_channel(h, channel@) == last_in_channel(h.take(k as int), channel@),
            found matches Some(i) ==> last_in_channel(h, channel@) == Some(i as int) && i < n,
        decreases k + (if found is None { 1int } else { 0int }),
    {
        assert(h.take(k as int).drop_last() == h.take(k - 1));
        if chat_history[k - 1].channel == *channel {
            found = Some(k - 1);
        } else {
            k -= 1;
        }
    }
    proof {
        if found is None {
            assert(h.take(0).len() == 0);
        }
    }
    match found {
        Some(i) => Some(i),
        None => if n > 0 { Some(n - 1) } else { None },
    }
}

/// Marks the anchor message once the new message's combo is known.
fn update_anchor(chat_history: &mut VecDeque<ChatMessage>, li: usize, combo: &Option<ComboCounter>)
    requires
        li < old(chat_history)@.len(),
    ensures
        final(chat_history)@ == old(chat_history)@.update(li as int, anchor_after(old(chat_history)@[li as int], combo_opt_view(*combo))),
{
    let ghost h = chat_history@;
    let continues = match combo {
        Some(c) => !c.is_new && c.count > 1,
        None => false,
    };
    let prev_has = chat_history[li].combo_data.is_some();
    let prev_small = match &chat_history[li].combo_data {
        Some(c) => c.count <= 1,
        None => false,
    };
    if continues && prev_has {
        let item = chat_history.remove(li);
        match item {
            Some(p) => {
                let ChatMessage { provider, channel, username, timestamp, message: text, profile, combo_data, is_removed, msg_type } = p;
                let new_combo = match combo_data {
                    Some(c) => {
                        let ComboCounter { word, count, is_new, is_end, users } = c;
                        Some(ComboCounter { word, count, is_new, is_end: false, users })
                    },
                    None => None,
                };
                chat_history.insert(li, ChatMessage { provider, channel, username, timestamp, message: text, profile, combo_data: new_combo, is_removed, msg_type });
                assert(chat_history@ == h.update(li as int, anchor_after(h[li as int], combo_opt_view(*combo))));
            },
            None => {},
        }
    } else if prev_small {
        let item = chat_history.remove(li);
        match item {
            Some(p) => {
                let ChatMessage { provider, channel, username, timestamp, message: text, profile, combo_data: _, is_removed, msg_type } = p;
                chat_history.insert(li, ChatMessage { provider, channel, username, timestamp, message: text, profile, combo_data: None, is_removed, msg_type });
                assert(chat_history@ == h.update(li as int, anchor_after(h[li as int], combo_opt_view(*combo))));
            },
            None => {},
        }
    } else {
        assert(h.update(li as int, h[li as int]) == h);
    }
}

/// Appends a message to a channel's history, working out the combo it makes
/// with the messages before it.
pub fn push_history<'a>(
    chat_history: &mut VecDeque<ChatMessage>,
    message: ChatMessage,
    provider_emotes: Option<&'a NameMap<Emote>>,
    channel_emotes: Option<&'a NameMap<Emote>>,
    global_emotes: &'a NameMap<Emote>,
)
    requires
        opt_wf(provider_emotes),
        opt_wf(channel_emotes),
        global_emotes.wf(),
        forall|i: int| 0 <= i < old(chat_history)@.len() ==>
            ((#[trigger] old(chat_history)@[i]).combo_data matches Some(c) ==> c.count < usize::MAX),
    ensures
        history_push(
            old(chat_history)@,
            final(chat_history)@,
            message,
            opt_view(provider_emotes),
            opt_view(channel_emotes),
            global_emotes@,
        ),
{
    let mut message = message;
    let ghost h = chat_history@;
    let emotes = get_emotes_for_message(&message, provider_emotes, channel_emotes, global_emotes);
    let is_emote = !emotes.is_empty();
    let anchor = find_combo_anchor(chat_history, &message.channel);
    let mut did_anchor = false;
    if is_emote {
        if let Some(li) = anchor {
            let combo = combo_calculator(&message, chat_history[li].combo_data.as_ref());
            update_anchor(chat_history, li, &combo);
            message.combo_data = combo;
            did_anchor = true;
        }
    }
    if is_emote && !did_anchor {
        message.combo_data = combo_calculator(&message, None);
    }
    let ghost before_push = chat_history@;
    chat_history.push_back(message);
}

/// The users listed under a combo's line: each name and colour once, in the
/// order they joined the combo.
pub open spec fn unique_users(u: Seq<(Seq<char>, (u8, u8, u8))>) -> Seq<(Seq<char>, (u8, u8, u8))>
    decreases u.len(),
{
    if u.len() == 0 {
        u
    } else {
        let rest = unique_users(u.drop_last());
        if rest.contains(u.last()) {
            rest
        } else {
            rest.push(u.last())
        }
    }
}

/// The users listed under a combo's line.
pub fn combo_line_users(combo: &ComboCounter) -> (r: Vec<(String, (u8, u8, u8))>)
    ensures
        users_view(r@) == unique_users(users_view(combo.users@)),
{
    let u = &combo.users;
    let ghost uv = users_view(u@);
    let mut r: Vec<(String, (u8, u8, u8))> = Vec::new();
    let mut i: usize = 0;
    while i < u.len()
        invariant
            i <= u@.len(),
            uv == users_view(u@),
            users_view(r@) == unique_users(uv.take(i as int)),
        decreases u@.len() - i,
    {
        let e = &u[i];
        let ghost ev = (e.0@, e.1);
        assert(uv[i as int] == ev);
        assert(uv.take(i + 1).drop_last() == uv.take(i as int));
        assert(uv.take(i + 1).last() == ev);
        let mut seen = false;
        let mut j: usize = 0;
        while j < r.len()
            invariant
                j <= r@.len(),
                ev == (e.0@, e.1),
                seen == exists|k: int| 0 <= k < j && users_view(r@)[k] == ev,
            decreases r@.len() - j,
        {
            let same = str_eq(r[j].0.as_str(), e.0.as_str()) && r[j].1.0 == e.1.0 && r[j].1.1 == e.1.1
                && r[j].1.2 == e.1.2;
            proof {
                assert(users_view(r@)[j as int] == (r@[j as int].0@, r@[j as int].1));
                if same {
                    assert(users_view(r@)[j as int] == ev);
                } else {
                    assert(users_view(r@)[j as int] != ev);
                }
            }
            seen = seen || same;
            j += 1;
        }
        proof {
            if seen {
                let k = choose|k: int| 0 <= k < r@.len() && users_view(r@)[k] == ev;
                assert(users_view(r@).contains(ev));
            } else {
                assert(!users_view(r@).contains(ev)) by {
                    if users_view(r@).contains(ev) {
                        let k = choose|k: int| 0 <= k < users_view(r@).len() && users_view(r@)[k] == ev;
                        assert(0 <= k < r@.len());
                    }
                }
            }
        }
        if !seen {
            let ghost before = users_view(r@);
            r.push((e.0.clone(), e.1));
            assert(users_view(r@) =~= before.push(ev));
        }
        i += 1;
    }
    assert(uv.take(u@.len() as int) == uv);
    r
}

} // verus!
