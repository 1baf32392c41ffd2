//! Properties of the library as a whole, over the specifications its
//! functions are proved against.

use vstd::prelude::*;
use crate::model::{ChatMessage, ChannelUser, IncomingMessage, ProviderName};
use crate::state::{
    ChatState, chat_step, display_of, incoming_step, is_system_line, line_step, muted_step, presence_step,
    removed_marked, deleted_text, status_step, users_recorded, youtube_step, user_is,
};
use crate::combo::{combo_spec, combo_user, combo_view, history_push, ComboView};
use crate::text::{lowercase, opt_str_view, trim_spec, views};
use crate::numbers::{all_digits, decimal_text, decimal_value, digit_char, digit_value, is_digit, parse_usize_spec, unsigned_digits};

verus! {

/// Channels and tabs are never closed by what a chat connection sends: every
/// event keeps every open channel, and the tab list only ever grows at its
/// end. (A YouTube stream's tab remains until the user removes it.)
pub proof fn law_events_keep_channels(s: ChatState, n: ChatState, x: IncomingMessage, r: Seq<crate::model::EmoteRequest>)
    requires
        incoming_step(s, n, x, r),
    ensures
        s.channels@.dom().subset_of(n.channels@.dom()),
        s.channel_tab_list@.len() <= n.channel_tab_list@.len(),
        n.channel_tab_list@.take(s.channel_tab_list@.len() as int) == s.channel_tab_list@,
{
    match x {
        IncomingMessage::PrivMsg { message } => {
            let (s1, mm) = choose|s1: ChatState, mm: ChatMessage|
                #![trigger youtube_step(s, s1, mm), chat_step(s1, n, mm)]
                mm.message@ == crate::state::normalized_text(message.provider, message.message@)
                    && mm == (ChatMessage { message: mm.message, ..message })
                    && youtube_step(s, s1, mm)
                    && chat_step(s1, n, mm);
            if mm.provider == ProviderName::YouTube && !s.channels@.contains_key(mm.channel@) {
                assert(s1.channel_tab_list@.take(s.channel_tab_list@.len() as int) == s.channel_tab_list@);
            }
        },
        IncomingMessage::StreamingStatus { channel, status } => {
            if s.channels@.contains_key(channel@) && s.channels@[channel@].spec_shared().transient is Some {
            }
        },
        IncomingMessage::RoomId { channel, room_id } => {
            let q = choose|q: Option<crate::model::EmoteRequest>| #[trigger] crate::state::room_id_step(s, n, channel, room_id, q)
                && r == match q {
                    Some(e) => seq![e],
                    None => Seq::<crate::model::EmoteRequest>::empty(),
                };
        },
        IncomingMessage::EmoteSets { provider, emote_sets } => {
            let v = choose|v: Vec<crate::model::EmoteRequest>| #[trigger] crate::state::emote_sets_step(s, n, provider, emote_sets, v) && r == v@;
        },
        _ => {},
    }
    assert(n.channel_tab_list@.take(s.channel_tab_list@.len() as int) =~= s.channel_tab_list@);
}

/// A chat line of a channel ends up last in that channel's history, with its
/// author, text and time, one message longer than before.
pub proof fn law_line_is_last(s: ChatState, n: ChatState, m: ChatMessage)
    requires
        chat_step(s, n, m),
        !is_system_line(m),
    ensures
        n.history_of(m.channel@).len() == s.history_of(m.channel@).len() + 1,
        n.history_of(m.channel@).last().username == m.username,
        n.history_of(m.channel@).last().message == m.message,
        n.history_of(m.channel@).last().timestamp == m.timestamp,
        n.history_of(m.channel@).last().channel == m.channel,
{
    assert(n.chat_histories@.contains_key(m.channel@));
}

/// After a user is muted in a channel, every kept message of theirs there
/// reads "<message deleted>", and the history keeps its length and order.
pub proof fn law_muted_messages_deleted(s: ChatState, n: ChatState, channel: String, username: String, i: int)
    requires
        muted_step(s, n, channel, username),
        s.chat_histories@.contains_key(channel@),
        0 <= i < s.chat_histories@[channel@]@.len(),
    ensures
        n.chat_histories@[channel@]@.len() == s.chat_histories@[channel@]@.len(),
        s.chat_histories@[channel@]@[i].username@ == username@ ==>
            opt_str_view(n.chat_histories@[channel@]@[i].is_removed) == Some(deleted_text()),
        s.chat_histories@[channel@]@[i].username@ != username@ ==>
            n.chat_histories@[channel@]@[i] == s.chat_histories@[channel@]@[i],
{
    let h = s.chat_histories@[channel@]@;
    let nh = n.chat_histories@[channel@]@;
    assert(nh[i] == if h[i].username@ == username@ {
        ChatMessage { is_removed: nh[i].is_removed, ..h[i] }
    } else {
        h[i]
    });
}

/// After a user leaves an open channel, the entry under their lower-cased
/// login name says they are not active, so it suggests nobody.
pub proof fn law_left_user_inactive(s: ChatState, n: ChatState, channel: String, username: String, display_name: String)
    requires
        presence_step(s, n, channel, username, display_name, false),
        s.channels@.contains_key(channel@),
    ensures
        n.channels@[channel@].spec_shared().users@.contains_key(lowercase(username@)),
        !n.channels@[channel@].spec_shared().users@[lowercase(username@)].is_active,
{
}

/// A one-word message repeating the word of the previous combo continues it:
/// the count goes up by one and the author joins its users.
pub proof fn law_combo_counts_up(row: ChatMessage, last: ComboView)
    requires
        last.word == trim_spec(row.message@),
    ensures
        combo_spec(row, Some(last)) == Some(ComboView {
            word: last.word,
            count: last.count + 1,
            is_new: false,
            is_end: true,
            users: last.users.push(combo_user(row)),
        }),
{
}

proof fn lemma_decimal_text_digits(n: nat)
    ensures
        decimal_text(n).len() > 0,
        all_digits(decimal_text(n)),
        decimal_value(decimal_text(n)) == n,
        decimal_text(n)[0] != '+',
    decreases n,
{
    if n >= 10 {
        lemma_decimal_text_digits(n / 10);
        let t = decimal_text(n);
        assert(t.drop_last() == decimal_text(n / 10));
        assert forall|i: int| 0 <= i < t.len() implies is_digit(#[trigger] t[i]) by {
            if i < t.len() - 1 {
                assert(t[i] == decimal_text(n / 10)[i]);
            }
        }
        assert(t[0] == decimal_text(n / 10)[0]);
        assert(t.last() == digit_char((n % 10) as int));
        assert(digit_value(digit_char((n % 10) as int)) == n % 10);
        assert(decimal_value(t) == decimal_value(t.drop_last()) * 10 + digit_value(t.last()));
        assert(decimal_value(t.drop_last()) == n / 10);
        assert(decimal_value(t) == (n / 10) * 10 + n % 10);
        assert(n == (n / 10) * 10 + n % 10);
        assert(decimal_value(t) == n);
    } else {
        let t = decimal_text(n);
        assert(digit_value(digit_char(n as int)) == n);
        assert(t.drop_last() =~= Seq::<char>::empty());
        assert(decimal_value(t.drop_last()) == 0);
        assert(decimal_value(t) == n);
    }
}

/// Decimal text reads back as the number it was written from.
pub proof fn law_decimal_round_trip(n: usize)
    ensures
        parse_usize_spec(decimal_text(n as nat)) == Some(n as int),
{
    lemma_decimal_text_digits(n as nat);
    assert(unsigned_digits(decimal_text(n as nat)) == decimal_text(n as nat));
}

} // verus!

verus! {

/// After a status update, every channel found live is joined, and every
/// channel neither live nor shown while offline is left.
pub proof fn law_live_channels_joined(
    statuses: Seq<crate::twitch::TwitchChannelStatus>,
    d: crate::twitch::TwitchChannelData,
    joined: bool,
)
    ensures
        (crate::twitch::found_status(statuses, d.room_id) matches Some(i) && statuses[i].stream_type@ == "live"@)
            ==> crate::twitch::joined_after(statuses, d, joined),
        d.show_offline_chat ==> crate::twitch::joined_after(statuses, d, joined),
        (!d.show_offline_chat && !(crate::twitch::found_status(statuses, d.room_id) matches Some(i) && statuses[i].stream_type@ == "live"@))
            ==> !crate::twitch::joined_after(statuses, d, joined),
{
}

proof fn lemma_emote_pairs_fresh(pieces: Seq<Seq<char>>, msg: Seq<char>, seen0: Set<Seq<char>>)
    ensures
        seen0.subset_of(crate::twitch::emote_pairs(pieces, msg, seen0).0),
        forall|i: int| 0 <= i < crate::twitch::emote_pairs(pieces, msg, seen0).1.len() ==> {
            let id = (#[trigger] crate::twitch::emote_pairs(pieces, msg, seen0).1[i]).0;
            &&& !seen0.contains(id)
            &&& crate::twitch::emote_pairs(pieces, msg, seen0).0.contains(id)
        },
        forall|i: int, j: int| 0 <= i < j < crate::twitch::emote_pairs(pieces, msg, seen0).1.len() ==>
            (#[trigger] crate::twitch::emote_pairs(pieces, msg, seen0).1[i]).0 != (#[trigger] crate::twitch::emote_pairs(pieces, msg, seen0).1[j]).0,
    decreases pieces.len(),
{
    if pieces.len() > 0 {
        lemma_emote_pairs_fresh(pieces.drop_last(), msg, seen0);
    }
}

/// Each emote id of a message is read once: the ids read are ones not seen
/// before in the session, no id is read twice, and every id read counts as
/// seen afterwards.
pub proof fn law_emote_ids_read_once(pieces: Seq<Seq<char>>, msg: Seq<char>, seen0: Set<Seq<char>>)
    ensures
        seen0.subset_of(crate::twitch::emote_pairs(pieces, msg, seen0).0),
        forall|i: int| 0 <= i < crate::twitch::emote_pairs(pieces, msg, seen0).1.len() ==> {
            let id = (#[trigger] crate::twitch::emote_pairs(pieces, msg, seen0).1[i]).0;
            &&& !seen0.contains(id)
            &&& crate::twitch::emote_pairs(pieces, msg, seen0).0.contains(id)
        },
        forall|i: int, j: int| 0 <= i < j < crate::twitch::emote_pairs(pieces, msg, seen0).1.len() ==>
            (#[trigger] crate::twitch::emote_pairs(pieces, msg, seen0).1[i]).0 != (#[trigger] crate::twitch::emote_pairs(pieces, msg, seen0).1[j]).0,
{
    lemma_emote_pairs_fresh(pieces, msg, seen0);
}

} // verus!

verus! {

proof fn lemma_first_after_props(t: Seq<(Seq<char>, Seq<char>)>, name: Seq<char>, from: int)
    requires
        0 <= from <= t.len(),
    ensures
        from <= crate::twitch::first_after(t, name, from) <= t.len(),
        forall|q: int| from <= q < crate::twitch::first_after(t, name, from) ==> !crate::ordering::lex_lt(name, #[trigger] t[q].1),
        crate::twitch::first_after(t, name, from) < t.len() ==> crate::ordering::lex_lt(name, t[crate::twitch::first_after(t, name, from)].1),
    decreases t.len() - from,
{
    if from < t.len() && !crate::ordering::lex_lt(name, t[from].1) {
        lemma_first_after_props(t, name, from + 1);
    }
}

/// Sorting (id, name) pairs by name keeps every pair and puts them in order of
/// their names.
pub proof fn law_sort_by_name(s: Seq<(Seq<char>, Seq<char>)>)
    ensures
        crate::twitch::sort_by_name(s).to_multiset() == s.to_multiset(),
        forall|i: int, j: int| 0 <= i < j < crate::twitch::sort_by_name(s).len() ==>
            !crate::ordering::lex_lt((#[trigger] crate::twitch::sort_by_name(s)[j]).1, (#[trigger] crate::twitch::sort_by_name(s)[i]).1),
    decreases s.len(),
{
    if s.len() > 0 {
        let t = crate::twitch::sort_by_name(s.drop_last());
        law_sort_by_name(s.drop_last());
        let x = s.last();
        let p = crate::twitch::first_after(t, x.1, 0);
        lemma_first_after_props(t, x.1, 0);
        let r = t.insert(p, x);
        assert(crate::twitch::sort_by_name(s) == r);
        vstd::seq_lib::to_multiset_insert(t, p, x);
        vstd::seq_lib::to_multiset_build(s.drop_last(), x);
        assert(s.drop_last().push(x) == s);
        assert forall|i: int, j: int| 0 <= i < j < r.len() implies !crate::ordering::lex_lt((#[trigger] r[j]).1, (#[trigger] r[i]).1) by {
            if j < p {
                assert(r[i] == t[i] && r[j] == t[j]);
            } else if j == p {
                assert(r[j] == x && r[i] == t[i]);
                if crate::ordering::lex_lt(x.1, t[i].1) {
                    assert(false);
                }
                crate::ordering::lemma_lex_asymmetric(x.1, t[i].1);
                crate::ordering::lemma_lex_total(x.1, t[i].1);
                if crate::ordering::lex_lt(r[j].1, r[i].1) {
                    assert(crate::ordering::lex_lt(x.1, t[i].1));
                }
            } else if i > p {
                assert(r[i] == t[i - 1] && r[j] == t[j - 1]);
            } else if i == p {
                assert(r[i] == x && r[j] == t[j - 1]);
                assert(crate::ordering::lex_lt(x.1, t[p].1));
                if crate::ordering::lex_lt(t[j - 1].1, x.1) {
                    if j - 1 == p {
                        crate::ordering::lemma_lex_asymmetric(x.1, t[p].1);
                    } else {
                        crate::ordering::lemma_lex_transitive(t[j - 1].1, x.1, t[p].1);
                        assert(!crate::ordering::lex_lt(t[j - 1].1, t[p].1));
                    }
                }
            } else {
                assert(r[i] == t[i] && r[j] == t[j - 1]);
            }
        }
    }
}

/// The line just sent is the first one recalled: recalling right after a
/// line was sent gives that line back, without its trailing whitespace.
pub proof fn law_sent_line_recalled_first(
    s0: crate::channel::ChannelShared,
    s1: crate::channel::ChannelShared,
    s2: crate::channel::ChannelShared,
    draft: Seq<char>,
    older: bool,
    r: Option<String>,
)
    requires
        crate::composer::sent_recorded(s0, s1, draft),
        crate::composer::recall_step(s1, s2, older, r),
    ensures
        r matches Some(line) && line@ == crate::text::trim_end_ws(draft),
{
}

/// A YouTube channel's lines are shown in its "YT:" tab, and the lines the
/// user sends from that tab are answered to the channel's own polls: taking
/// the tab prefix off the tab's name gives the channel's name back (for a
/// name that does not itself start with "YT:").
pub proof fn law_youtube_tab_round_trip(channel: Seq<char>)
    requires
        !crate::text::starts_with_spec(channel, "YT:"@),
    ensures
        crate::youtube::trim_prefix_all(crate::youtube::youtube_tab(channel), "YT:"@) == channel,
{
    reveal_strlit("YT:");
    let t = crate::youtube::youtube_tab(channel);
    assert(t.subrange(0, 3) == "YT:"@);
    assert(t.skip(3) == channel);
    assert(crate::youtube::trim_prefix_all(t, "YT:"@) == crate::youtube::trim_prefix_all(channel, "YT:"@));
    assert(crate::youtube::trim_prefix_all(channel, "YT:"@) == channel);
}

/// Only users who are in the channel are suggested for an '@' word: every
/// suggested name is the display name of an active user of the channel whose
/// name holds the typed word. (A user who has left is never suggested.)
pub proof fn law_only_active_users_suggested(
    v: Seq<Seq<char>>,
    users: Map<Seq<char>, ChannelUser>,
    wl: Seq<char>,
    n: Seq<char>,
)
    requires
        crate::selector::user_suggestions(v, users, wl),
        v.contains(n),
    ensures
        exists|k: Seq<char>| #[trigger] users.contains_key(k) && users[k].is_active && users[k].display_name@ == n
            && crate::text::contains_spec(k, wl),
{
    let i = choose|i: int| 0 <= i <= v.len()
        && crate::selector::suggestion_group(v.take(i), crate::selector::matching_users(users, wl, true), false)
        && #[trigger] crate::selector::suggestion_group(v.skip(i), crate::selector::matching_users(users, wl, false), false);
    let j = choose|j: int| 0 <= j < v.len() && v[j] == n;
    if j < i {
        assert(v.take(i)[j] == n);
        assert(v.take(i).contains(n));
        assert(crate::selector::matching_users(users, wl, true).contains(n));
    } else {
        assert(v.skip(i)[j - i] == n);
        assert(v.skip(i).contains(n));
        assert(crate::selector::matching_users(users, wl, false).contains(n));
    }
}

/// In a Destiny.gg channel the global emotes (of Twitch, BTTV, FFZ and 7TV)
/// are never suggested: every suggestion comes from the channel's own emotes
/// or the user's Destiny.gg subscriber emotes, and none is marked global.
pub proof fn law_no_global_emotes_in_destiny(
    v: Seq<(String, crate::selector::EmoteOrigin)>,
    s: ChatState,
    ch: Seq<char>,
    wl: Seq<char>,
    i: int,
)
    requires
        crate::selector::emote_suggestions(v, s, Some(ch), wl),
        s.channels@.contains_key(ch),
        s.channels@[ch].spec_provider() == ProviderName::DGG,
        0 <= i < v.len(),
    ensures
        v[i].1 != crate::selector::EmoteOrigin::Global,
        (s.channel_emotes_spec(ch) matches Some(m) && m.contains_key(v[i].0@))
            || (s.providers.spec_get(ProviderName::DGG) matches Some(p) && p.my_sub_emotes@.contains_key(v[i].0@)),
{
    assert(crate::selector::emote_origin(s, Some(ch), wl, v[i].0@) == Some(v[i].1));
}

/// Each command word of the Destiny.gg chat socket is read as the command of
/// its own name, and only that word is: "JOIN" is a user joining, "QUIT" a
/// user leaving, and so on.
pub proof fn law_dgg_commands_by_name(c: Seq<char>)
    ensures
        (crate::dgg::command_spec(c) == crate::dgg::DggCommand::Msg) <==> c == "MSG"@,
        (crate::dgg::command_spec(c) == crate::dgg::DggCommand::Broadcast) <==> c == "BROADCAST"@,
        (crate::dgg::command_spec(c) == crate::dgg::DggCommand::Refresh) <==> c == "REFRESH"@,
        (crate::dgg::command_spec(c) == crate::dgg::DggCommand::Join) <==> c == "JOIN"@,
        (crate::dgg::command_spec(c) == crate::dgg::DggCommand::Quit) <==> c == "QUIT"@,
        (crate::dgg::command_spec(c) == crate::dgg::DggCommand::Names) <==> c == "NAMES"@,
{
    reveal_strlit("MSG");
    reveal_strlit("BROADCAST");
    reveal_strlit("REFRESH");
    reveal_strlit("JOIN");
    reveal_strlit("QUIT");
    reveal_strlit("NAMES");
    assert("MSG"@.len() == 3 && "BROADCAST"@.len() == 9 && "REFRESH"@.len() == 7);
    assert("JOIN"@.len() == 4 && "QUIT"@.len() == 4 && "NAMES"@.len() == 5);
    assert("JOIN"@[0] != "QUIT"@[0]);
    assert("JOIN"@ != "QUIT"@);
}

/// The emote maps hold each emote under its own name.
pub open spec fn keyed_by_name(m: Map<Seq<char>, crate::model::Emote>) -> bool {
    forall|k: Seq<char>| #[trigger] m.contains_key(k) ==> m[k].name@ == k
}

proof fn lemma_emotes_of_words(
    words: Seq<Seq<char>>,
    provider: ProviderName,
    pe: Option<Map<Seq<char>, crate::model::Emote>>,
    ce: Option<Map<Seq<char>, crate::model::Emote>>,
    ge: Map<Seq<char>, crate::model::Emote>,
)
    requires
        pe matches Some(m) ==> keyed_by_name(m),
        ce matches Some(m) ==> keyed_by_name(m),
        keyed_by_name(ge),
    ensures
        forall|w: Seq<char>| words.contains(w) && (#[trigger] crate::messages::emote_for_word(w, provider, pe, ce, ge)) is Some
            ==> crate::messages::emotes_spec(words, provider, pe, ce, ge).contains_key(w),
        forall|w: Seq<char>| #[trigger] crate::messages::emotes_spec(words, provider, pe, ce, ge).contains_key(w)
            ==> crate::messages::emote_for_word(w, provider, pe, ce, ge) == Some(crate::messages::emotes_spec(words, provider, pe, ce, ge)[w])
                && words.contains(w),
    decreases words.len(),
{
    if words.len() > 0 {
        lemma_emotes_of_words(words.drop_last(), provider, pe, ce, ge);
        let last = words.last();
        let res = crate::messages::emotes_spec(words, provider, pe, ce, ge);
        let prev = crate::messages::emotes_spec(words.drop_last(), provider, pe, ce, ge);
        match crate::messages::emote_for_word(last, provider, pe, ce, ge) {
            Some(e) => {
                assert(e.name@ == last);
                assert(res == prev.insert(last, e));
            },
            None => {
                assert(res == prev);
            },
        }
        assert forall|w: Seq<char>| words.contains(w) && (#[trigger] crate::messages::emote_for_word(w, provider, pe, ce, ge)) is Some
            implies res.contains_key(w) by {
            let j = choose|j: int| 0 <= j < words.len() && words[j] == w;
            if j < words.len() - 1 {
                assert(words.drop_last()[j] == w);
                assert(words.drop_last().contains(w));
            }
        }
        assert forall|w: Seq<char>| #[trigger] res.contains_key(w) implies words.contains(w) by {
            if w != last {
                assert(prev.contains_key(w));
                let j = choose|j: int| 0 <= j < words.drop_last().len() && words.drop_last()[j] == w;
                assert(words[j] == w);
            } else {
                assert(words[words.len() - 1] == w);
            }
        }
    }
}

/// A YouTube message shows the custom emotes of YouTube it names: a word of
/// the message that is one of the provider's emotes, and neither a channel
/// nor a global emote, is among the message's emotes as that very emote
/// (when every emote map holds each emote under its own name).
pub proof fn law_youtube_emotes_shown(
    message: Seq<char>,
    pe: Map<Seq<char>, crate::model::Emote>,
    ce: Option<Map<Seq<char>, crate::model::Emote>>,
    ge: Map<Seq<char>, crate::model::Emote>,
    w: Seq<char>,
)
    requires
        keyed_by_name(pe),
        ce matches Some(m) ==> keyed_by_name(m),
        keyed_by_name(ge),
        crate::text::split_spec(message, ' ').contains(w),
        pe.contains_key(w),
        !(ce matches Some(m) && m.contains_key(w)),
        !ge.contains_key(w),
    ensures
        crate::messages::emotes_spec(crate::text::split_spec(message, ' '), ProviderName::YouTube, Some(pe), ce, ge).contains_key(w),
        crate::messages::emotes_spec(crate::text::split_spec(message, ' '), ProviderName::YouTube, Some(pe), ce, ge)[w] == pe[w],
{
    let words = crate::text::split_spec(message, ' ');
    lemma_emotes_of_words(words, ProviderName::YouTube, Some(pe), ce, ge);
    assert(crate::messages::emote_for_word(w, ProviderName::YouTube, Some(pe), ce, ge) == Some(pe[w]));
}

/// Every user of the channel who is active and whose name holds the typed
/// word is suggested for an '@' word.
pub proof fn law_active_matching_users_suggested(
    v: Seq<Seq<char>>,
    users: Map<Seq<char>, ChannelUser>,
    wl: Seq<char>,
    k: Seq<char>,
)
    requires
        crate::selector::user_suggestions(v, users, wl),
        users.contains_key(k),
        users[k].is_active,
        crate::text::contains_spec(k, wl),
    ensures
        v.contains(users[k].display_name@),
{
    let d = users[k].display_name@;
    let i = choose|i: int| 0 <= i <= v.len()
        && crate::selector::suggestion_group(v.take(i), crate::selector::matching_users(users, wl, true), false)
        && #[trigger] crate::selector::suggestion_group(v.skip(i), crate::selector::matching_users(users, wl, false), false);
    if crate::text::starts_with_spec(k, wl) {
        assert(crate::selector::matching_users(users, wl, true).contains(d));
        let j = choose|j: int| 0 <= j < v.take(i).len() && v.take(i)[j] == d;
        assert(v[j] == d);
    } else {
        assert(crate::selector::matching_users(users, wl, false).contains(d));
        let j = choose|j: int| 0 <= j < v.skip(i).len() && v.skip(i)[j] == d;
        assert(v[i + j] == d);
    }
}

/// An emote of the selected channel whose lower-cased name holds the typed
/// word is suggested, marked as the channel's.
pub proof fn law_channel_emotes_suggested(
    v: Seq<(String, crate::selector::EmoteOrigin)>,
    s: ChatState,
    ch: Seq<char>,
    wl: Seq<char>,
    n: Seq<char>,
)
    requires
        crate::selector::emote_suggestions(v, s, Some(ch), wl),
        s.channels@.contains_key(ch),
        s.channel_emotes_spec(ch) matches Some(m) && m.contains_key(n),
        crate::text::contains_spec(lowercase(n), wl),
    ensures
        exists|i: int| 0 <= i < v.len() && v[i].0@ == n && v[i].1 == crate::selector::EmoteOrigin::Channel,
{
    let names = v.map_values(|e: (String, crate::selector::EmoteOrigin)| e.0@);
    let i = choose|i: int| 0 <= i <= names.len()
        && crate::selector::suggestion_group(names.take(i), crate::selector::matching_emotes(s, Some(ch), wl, true), true)
        && #[trigger] crate::selector::suggestion_group(names.skip(i), crate::selector::matching_emotes(s, Some(ch), wl, false), true);
    assert(crate::selector::emote_origin(s, Some(ch), wl, n) == Some(crate::selector::EmoteOrigin::Channel));
    let j: int;
    if crate::text::starts_with_spec(lowercase(n), wl) {
        assert(crate::selector::matching_emotes(s, Some(ch), wl, true).contains(n));
        let q = choose|q: int| 0 <= q < names.take(i).len() && names.take(i)[q] == n;
        j = q;
    } else {
        assert(crate::selector::matching_emotes(s, Some(ch), wl, false).contains(n));
        let q = choose|q: int| 0 <= q < names.skip(i).len() && names.skip(i)[q] == n;
        j = i + q;
    }
    assert(names[j] == n);
    assert(v[j].0@ == n);
    assert(crate::selector::emote_origin(s, Some(ch), wl, v[j].0@) == Some(v[j].1));
}

/// The emotes of a message are emotes its words name: every key is a word
/// of the message (split at single spaces), standing for the emote that word
/// names (when every emote map holds each emote under its own name).
pub proof fn law_message_emotes_are_its_words(
    message: Seq<char>,
    provider: ProviderName,
    pe: Option<Map<Seq<char>, crate::model::Emote>>,
    ce: Option<Map<Seq<char>, crate::model::Emote>>,
    ge: Map<Seq<char>, crate::model::Emote>,
    w: Seq<char>,
)
    requires
        pe matches Some(m) ==> keyed_by_name(m),
        ce matches Some(m) ==> keyed_by_name(m),
        keyed_by_name(ge),
        crate::messages::emotes_spec(crate::text::split_spec(message, ' '), provider, pe, ce, ge).contains_key(w),
    ensures
        crate::text::split_spec(message, ' ').contains(w),
        crate::messages::emotes_spec(crate::text::split_spec(message, ' '), provider, pe, ce, ge)[w].name@ == w,
{
    lemma_emotes_of_words(crate::text::split_spec(message, ' '), provider, pe, ce, ge);
    let e = crate::messages::emotes_spec(crate::text::split_spec(message, ' '), provider, pe, ce, ge)[w];
    assert(crate::messages::emote_for_word(w, provider, pe, ce, ge) == Some(e));
}

} // verus!
