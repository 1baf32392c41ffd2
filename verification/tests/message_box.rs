use std::collections::VecDeque;

use gigachat::channel::ChannelShared;
use gigachat::composer::{
    cycle_selection, drop_channel_tab, history_recall, outgoing_chat, record_sent, replace_word, selector_query, word_at_cursor,
};
use gigachat::history::{drop_oldest_over_limit, recent_user_messages, toggle_selected_user};
use gigachat::model::{ChatMessage, MessageType, OutgoingMessage, ProviderName, UiEvent, UserProfile};
use gigachat::name_map::NameMap;

fn s(x: &str) -> String {
    x.to_string()
}

fn shared(history: &[&str]) -> ChannelShared {
    ChannelShared {
        channel_name: s("chan"),
        show_in_mentions_tab: true,
        show_tab_when_offline: false,
        send_history: history.iter().map(|h| s(h)).collect(),
        send_history_ix: None,
        transient: None,
        users: NameMap::new(),
    }
}

#[test]
fn recalling_sent_lines() {
    let mut sh = shared(&["c", "b", "a"]);
    assert_eq!(history_recall(&mut sh, true), Some(s("c")));
    assert_eq!(sh.send_history_ix, Some(1));
    assert_eq!(history_recall(&mut sh, true), Some(s("b")));
    assert_eq!(history_recall(&mut sh, true), Some(s("a")));
    assert_eq!(sh.send_history_ix, Some(2));
    assert_eq!(history_recall(&mut sh, true), Some(s("a")));
    assert_eq!(sh.send_history_ix, Some(2));
    assert_eq!(history_recall(&mut sh, false), Some(s("a")));
    assert_eq!(sh.send_history_ix, Some(1));
    let mut empty = shared(&[]);
    assert_eq!(history_recall(&mut empty, false), None);
    assert_eq!(empty.send_history_ix, Some(0));
}

#[test]
fn sending_a_line() {
    match outgoing_chat(&s("chan"), "two\nlines") {
        OutgoingMessage::Chat { channel, message } => {
            assert_eq!(channel, "chan");
            assert_eq!(message, "two lines");
        },
        other => panic!("unexpected {:?}", other),
    }
    let mut sh = shared(&["older"]);
    sh.send_history_ix = Some(0);
    record_sent(&mut sh, "hello there \n");
    assert_eq!(sh.send_history, VecDeque::from(vec![s("hello there"), s("older")]));
    assert_eq!(sh.send_history_ix, None);
    // the line just sent is recalled first
    assert_eq!(history_recall(&mut sh, true), Some(s("hello there")));
}

#[test]
fn word_under_cursor() {
    assert_eq!(word_at_cursor("hi there you", 5), Some((3, s("there"))));
    assert_eq!(word_at_cursor("hi there you", 2), Some((0, s("hi"))));
    assert_eq!(word_at_cursor("hi there you", 3), Some((3, s("there"))));
    assert_eq!(word_at_cursor("hi  ", 3), None);
    assert_eq!(word_at_cursor("", 0), None);
    // offsets count bytes
    assert_eq!(word_at_cursor("héllo wörld", 7), Some((7, s("wörld"))));
    assert_eq!(word_at_cursor("héllo wörld", 6), Some((0, s("héllo"))));
}

#[test]
fn chosen_text_replaces_the_word() {
    assert_eq!(replace_word("say Ka now", 4, "Ka", "Kappa", true), Some((s("say Kappa now"), 10)));
    assert_eq!(replace_word("say Ka now", 4, "Ka", "Kappa", false), Some((s("say Kappa now"), 9)));
    assert_eq!(replace_word("say Ka", 4, "Ka", "Kappa", true), Some((s("say Kappa "), 10)));
    assert_eq!(replace_word("say Kax", 4, "Ka", "Kappa", true), Some((s("say Kappa x"), 10)));
    assert_eq!(replace_word("say Kaxy", 4, "Ka", "Kappa", true), Some((s("say Kappa xy"), 10)));
    assert_eq!(replace_word("é Ka", 3, "Ka", "Kappa", false), Some((s("é Kappa"), 8)));
    assert_eq!(replace_word("", 0, "", "Kappa", true), None);
}

#[test]
fn moving_through_suggestions() {
    let opts = vec![s("A"), s("B"), s("C")];
    let none: Option<(usize, String)> = None;
    assert_eq!(cycle_selection(&opts, Some(s("B")), true, false, &none, &none), Some(s("C")));
    assert_eq!(cycle_selection(&opts, Some(s("C")), true, false, &none, &none), Some(s("A")));
    assert_eq!(cycle_selection(&opts, None, true, false, &none, &none), Some(s("A")));
    assert_eq!(cycle_selection(&opts, Some(s("B")), false, true, &none, &none), Some(s("A")));
    assert_eq!(cycle_selection(&opts, Some(s("A")), false, true, &none, &none), Some(s("A")));
    assert_eq!(cycle_selection(&opts, Some(s("Z")), false, false, &none, &none), None);
    let input = Some((0, s("Ka")));
    assert_eq!(cycle_selection(&opts, Some(s("A")), false, false, &input, &Some((0, s("Kap")))), None);
    assert_eq!(cycle_selection(&opts, Some(s("A")), false, false, &input, &Some((0, s("B")))), Some(s("A")));
    assert_eq!(cycle_selection(&opts, Some(s("A")), false, false, &input, &input), Some(s("A")));
    let empty: Vec<String> = vec![];
    assert_eq!(cycle_selection(&empty, None, true, false, &none, &none), None);
}

#[test]
fn dropping_channel_tabs() {
    let mut left = Some(s("a"));
    let mut right = Some(s("b"));
    let ev = drop_channel_tab(&mut left, &mut right, &s("a"), true, false);
    assert!(matches!(ev, Some(UiEvent::ChannelChangeRHS)));
    assert_eq!(left, Some(s("b")));
    assert_eq!(right, Some(s("a")));

    let ev = drop_channel_tab(&mut left, &mut right, &s("c"), false, false);
    assert!(matches!(ev, Some(UiEvent::ChannelChangeLHS)));
    assert_eq!(left, Some(s("c")));
    assert_eq!(right, Some(s("a")));

    let ev = drop_channel_tab(&mut left, &mut right, &s("d"), false, true);
    assert!(ev.is_none());
    assert_eq!(left, Some(s("c")));
}

#[test]
fn histories_stay_within_their_limit() {
    let line = |t: &str| ChatMessage {
        provider: ProviderName::Twitch,
        channel: s("c"),
        username: s("u"),
        timestamp: 0,
        message: s(t),
        profile: UserProfile { badges: None, display_name: None, color: None },
        combo_data: None,
        is_removed: None,
        msg_type: MessageType::Chat,
    };
    let mut h: VecDeque<ChatMessage> = VecDeque::from(vec![line("1"), line("2"), line("3")]);
    let dropped = drop_oldest_over_limit(&mut h, 2).unwrap();
    assert_eq!(dropped.message, "1");
    assert_eq!(h.len(), 2);
    assert!(drop_oldest_over_limit(&mut h, 2).is_none());
    assert_eq!(h.len(), 2);
}

#[test]
fn a_users_recent_lines() {
    let line = |u: &str, d: Option<&str>| ChatMessage {
        provider: ProviderName::Twitch,
        channel: s("c"),
        username: s(u),
        timestamp: 0,
        message: s("m"),
        profile: UserProfile { badges: None, display_name: d.map(s), color: None },
        combo_data: None,
        is_removed: None,
        msg_type: MessageType::Chat,
    };
    let h: VecDeque<ChatMessage> = VecDeque::from(vec![
        line("bob", None),
        line("amy", None),
        line("bob", Some("Bob")),
        line("x", Some("bob")),
        line("bob", None),
        line("amy", None),
        line("bob", None),
    ]);
    assert_eq!(recent_user_messages(&h, &s("bob")), vec![2, 3, 4, 6]);
    assert_eq!(recent_user_messages(&h, &s("amy")), vec![1, 5]);
    assert_eq!(recent_user_messages(&h, &s("Bob")), vec![2]);
    assert!(recent_user_messages(&h, &s("nobody")).is_empty());

    let mut selected = None;
    toggle_selected_user(&mut selected, &s("bob"));
    assert_eq!(selected, Some(s("bob")));
    toggle_selected_user(&mut selected, &s("amy"));
    assert_eq!(selected, Some(s("amy")));
    toggle_selected_user(&mut selected, &s("amy"));
    assert_eq!(selected, None);
}

#[test]
fn selector_follows_the_typed_word_until_a_pick() {
    let typed = Some((4usize, "Kap".to_string()));
    let mut kept: Option<(usize, String)> = None;
    // nothing picked yet: the word under the cursor is completed
    assert_eq!(selector_query(&mut kept, &None, &typed), typed.clone());
    assert_eq!(kept, typed.clone());
    // with a pick, the kept word stays though the box now shows the pick
    let shown = Some((4usize, "KappaPride".to_string()));
    assert_eq!(selector_query(&mut kept, &Some("KappaPride".to_string()), &shown), typed.clone());
    assert_eq!(kept, typed);
    // no word under the cursor and nothing kept: nothing to complete
    let mut none: Option<(usize, String)> = None;
    assert_eq!(selector_query(&mut none, &None, &None), None);
}
