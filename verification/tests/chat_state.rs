use std::collections::VecDeque;

use gigachat::channel::{init_twitch_channel, Channel, Provider};
use gigachat::emotes::EmoteLoader;
use gigachat::history::HistoryIterator;
use gigachat::menus::OpenAction;
use gigachat::panel::{row_display, row_highlight, shown_in_panel, RowDisplay, RowHighlight};
use gigachat::loading::EmoteResponse;
use gigachat::model::{
    AddChannelMenu, ComboCounter, AuthTokens, ChannelStatus, ChatMessage, Emote, EmoteRequest, EmoteStatus, IncomingMessage,
    MessageType, OutgoingMessage, ProviderMap, ProviderName, UserProfile,
};
use gigachat::name_map::NameMap;
use gigachat::selector::{sort_names, EmoteOrigin, Suggestions};
use gigachat::state::{normalize_message_text, ChatState};

fn s(x: &str) -> String {
    x.to_string()
}

fn msg(provider: ProviderName, channel: &str, user: &str, text: &str, ts: i64) -> ChatMessage {
    ChatMessage {
        provider,
        channel: s(channel),
        username: s(user),
        timestamp: ts,
        message: s(text),
        profile: UserProfile { badges: None, display_name: None, color: None },
        combo_data: None,
        is_removed: None,
        msg_type: MessageType::Chat,
    }
}

fn emote(name: &str) -> Emote {
    let mut e = Emote::default();
    e.name = s(name);
    e
}

fn state_with_twitch(channels: &[&str]) -> ChatState {
    let mut st = ChatState {
        providers: ProviderMap::new(),
        channels: NameMap::new(),
        channel_tab_list: vec![],
        chat_histories: NameMap::new(),
        global_emotes: NameMap::new(),
        emote_loader: EmoteLoader::new(),
        auth_tokens: AuthTokens::default(),
    };
    for c in channels {
        let (ch, out) = init_twitch_channel(c);
        assert!(matches!(out, OutgoingMessage::TwitchJoin { .. }));
        st.channels.insert(s(c), ch);
        st.channel_tab_list.push(s(c));
    }
    st
}

fn history<'a>(st: &'a ChatState, ch: &str) -> &'a VecDeque<ChatMessage> {
    st.chat_histories.get(ch).unwrap()
}

#[test]
fn message_text_normalised() {
    assert_eq!(normalize_message_text(ProviderName::Twitch, "  hello \t  world  "), "hello world");
    assert_eq!(
        normalize_message_text(
            ProviderName::YouTube,
            "see https://www.youtube.com/redirect?event=x&q=https%3A%2F%2Fexample.com%2F now"
        ),
        "see https://example.com/ now"
    );
    // only YouTube text has its redirect links replaced
    assert_eq!(
        normalize_message_text(ProviderName::Twitch, "https://www.youtube.com/redirect?q=a%20b"),
        "https://www.youtube.com/redirect?q=a%20b"
    );
}

#[test]
fn chat_lines_go_to_their_channel() {
    let mut st = state_with_twitch(&["forsen", "xqc"]);
    let mut m = msg(ProviderName::Twitch, "forsen", "bob", "  hi   there ", 10);
    m.profile.display_name = Some(s("Bobby"));
    let reqs = st.handle_incoming_message(IncomingMessage::PrivMsg { message: m });
    assert!(reqs.is_empty());
    let h = history(&st, "forsen");
    assert_eq!(h.len(), 1);
    assert_eq!(h[0].message, "hi there");
    assert!(st.chat_histories.get("xqc").is_none());
    let users = &st.channels.get("forsen").unwrap().shared().users;
    assert_eq!(users.get("bob").unwrap().display_name, "Bobby");
    assert_eq!(users.get("bobby").unwrap().username, "bob");
    assert!(users.get("bob").unwrap().is_active);
}

#[test]
fn system_lines_go_to_every_channel_of_the_provider() {
    let mut st = state_with_twitch(&["forsen", "xqc"]);
    let mut m = msg(ProviderName::Twitch, "", "", "Connection lost", 3);
    m.msg_type = MessageType::Error;
    st.handle_incoming_message(IncomingMessage::PrivMsg { message: m });
    assert_eq!(history(&st, "forsen").len(), 1);
    assert_eq!(history(&st, "xqc").len(), 1);
    assert_eq!(history(&st, "xqc")[0].message, "Connection lost");
}

#[test]
fn youtube_channels_open_on_first_message() {
    let mut st = state_with_twitch(&[]);
    st.handle_incoming_message(IncomingMessage::PrivMsg {
        message: msg(ProviderName::YouTube, "yt-stream", "viewer", "hello", 1),
    });
    let c = st.channels.get("yt-stream").unwrap();
    assert!(matches!(c, Channel::Youtube { .. }));
    assert_eq!(st.channel_tab_list, vec![s("yt-stream")]);
    assert_eq!(history(&st, "yt-stream").len(), 1);
}

#[test]
fn muted_users_lose_their_lines() {
    let mut st = state_with_twitch(&["forsen"]);
    for (u, t) in [("bob", "one"), ("amy", "two"), ("bob", "three")] {
        st.handle_incoming_message(IncomingMessage::PrivMsg { message: msg(ProviderName::Twitch, "forsen", u, t, 1) });
    }
    st.handle_incoming_message(IncomingMessage::UserMuted { channel: s("forsen"), username: s("bob") });
    let h = history(&st, "forsen");
    assert_eq!(h[0].is_removed, Some(s("<message deleted>")));
    assert_eq!(h[1].is_removed, None);
    assert_eq!(h[2].is_removed, Some(s("<message deleted>")));
    assert_eq!(h[2].message, "three");
}

#[test]
fn presence_updates_users() {
    let mut st = state_with_twitch(&["forsen"]);
    st.handle_incoming_message(IncomingMessage::UserJoin { channel: s("forsen"), username: s("amy"), display_name: s("Amy") });
    assert!(st.channels.get("forsen").unwrap().shared().users.get("amy").unwrap().is_active);
    st.handle_incoming_message(IncomingMessage::UserLeave { channel: s("forsen"), username: s("amy"), display_name: s("Amy") });
    assert!(!st.channels.get("forsen").unwrap().shared().users.get("amy").unwrap().is_active);
    // unknown channels are ignored
    st.handle_incoming_message(IncomingMessage::UserJoin { channel: s("none"), username: s("x"), display_name: s("x") });
    assert!(st.channels.get("none").is_none());
}

#[test]
fn room_ids_ask_for_channel_badges() {
    let mut st = state_with_twitch(&["forsen"]);
    st.auth_tokens.twitch_auth_token = s("tok");
    let reqs = st.handle_incoming_message(IncomingMessage::RoomId { channel: s("forsen"), room_id: s("22484632") });
    assert_eq!(reqs.len(), 1);
    match &reqs[0] {
        EmoteRequest::TwitchBadgeEmoteListRequest { channel_id, channel_name, token, force_redownload } => {
            assert_eq!(channel_id, "22484632");
            assert_eq!(channel_name, "forsen");
            assert_eq!(token, "tok");
            assert!(!force_redownload);
        },
        other => panic!("unexpected {:?}", other),
    }
    match st.channels.get("forsen").unwrap() {
        Channel::Twitch { twitch, .. } => assert_eq!(twitch.room_id, Some(s("22484632"))),
        _ => panic!("a Twitch channel"),
    }
    let reqs = st.handle_incoming_message(IncomingMessage::RoomId { channel: s("other"), room_id: s("1") });
    assert!(reqs.is_empty());
}

#[test]
fn emote_sets_ask_for_each_set() {
    let mut st = state_with_twitch(&["forsen"]);
    let reqs = st.handle_incoming_message(IncomingMessage::EmoteSets { provider: ProviderName::Twitch, emote_sets: vec![s("0"), s("42")] });
    assert!(reqs.is_empty());
    st.providers.insert(
        ProviderName::Twitch,
        Provider {
            name: s("twitch"),
            emotes: NameMap::new(),
            my_sub_emotes: NameMap::new(),
            global_badges: None,
            username: s("me"),
            my_emote_sets: vec![],
        },
    );
    st.auth_tokens.twitch_auth_token = s("tok");
    let reqs = st.handle_incoming_message(IncomingMessage::EmoteSets { provider: ProviderName::Twitch, emote_sets: vec![s("0"), s("42")] });
    assert_eq!(reqs.len(), 2);
    match &reqs[1] {
        EmoteRequest::TwitchEmoteSetRequest { token, emote_set_id, .. } => {
            assert_eq!(token, "tok");
            assert_eq!(emote_set_id, "42");
        },
        other => panic!("unexpected {:?}", other),
    }
    assert_eq!(st.providers.get(ProviderName::Twitch).unwrap().my_emote_sets, vec![s("0"), s("42")]);
}

#[test]
fn streaming_status_is_kept() {
    let mut st = state_with_twitch(&["forsen"]);
    let status = ChannelStatus { game_name: Some(s("Chess")), is_live: true, title: None, viewer_count: Some(5), started_at: None };
    st.handle_incoming_message(IncomingMessage::StreamingStatus { channel: s("forsen"), status: Some(status) });
    let t = st.channels.get("forsen").unwrap().transient().unwrap();
    assert!(t.status.as_ref().unwrap().is_live);
    assert_eq!(t.status.as_ref().unwrap().viewer_count, Some(5));
}

#[test]
fn twitch_message_emotes_are_added() {
    let mut st = state_with_twitch(&["forsen"]);
    st.providers.insert(
        ProviderName::Twitch,
        Provider { name: s("twitch"), emotes: NameMap::new(), my_sub_emotes: NameMap::new(), global_badges: None, username: s("me"), my_emote_sets: vec![] },
    );
    st.handle_incoming_message(IncomingMessage::MsgEmotes { provider: ProviderName::Twitch, emote_ids: vec![(s("25"), s("Kappa"))] });
    let p = st.providers.get(ProviderName::Twitch).unwrap();
    let e = p.emotes.get("Kappa").unwrap();
    assert_eq!(e.id, "25");
    assert_eq!(e.loaded, EmoteStatus::NotLoaded);
}

#[test]
fn loaded_images_and_lists() {
    let mut st = state_with_twitch(&["forsen"]);
    let mut global = NameMap::new();
    global.insert(s("LUL"), emote("LUL"));
    st.handle_emote_response(EmoteResponse::GlobalEmoteListResponse { response: Ok(global) });
    assert!(st.global_emotes.contains_key("LUL"));
    st.handle_emote_response(EmoteResponse::GlobalEmoteImageLoaded { name: s("LUL"), data: Some(vec![10, 20]) });
    let e = st.global_emotes.get("LUL").unwrap();
    assert_eq!(e.loaded, EmoteStatus::Loaded);
    assert_eq!(e.duration_msec, 30);

    let mut chan = NameMap::new();
    chan.insert(s("forsenE"), emote("forsenE"));
    st.handle_emote_response(EmoteResponse::ChannelEmoteListResponse { channel_name: s("forsen"), response: Ok(chan) });
    let t = st.channels.get("forsen").unwrap().transient().unwrap();
    assert!(t.channel_emotes.as_ref().unwrap().contains_key("forsenE"));
    // a failed download leaves the list as it was
    st.handle_emote_response(EmoteResponse::ChannelEmoteListResponse { channel_name: s("forsen"), response: Err(s("404")) });
    let t = st.channels.get("forsen").unwrap().transient().unwrap();
    assert!(t.channel_emotes.as_ref().unwrap().contains_key("forsenE"));
}

#[test]
fn removing_a_channel() {
    let mut st = state_with_twitch(&["forsen", "xqc", "forsen"]);
    match st.remove_channel(&s("forsen")) {
        OutgoingMessage::Leave { channel_name } => assert_eq!(channel_name, "forsen"),
        other => panic!("unexpected {:?}", other),
    }
    assert!(st.channels.get("forsen").is_none());
    assert_eq!(st.channel_tab_list, vec![s("xqc")]);
}

#[test]
fn user_and_emote_suggestions() {
    let mut st = state_with_twitch(&["forsen"]);
    for (u, d) in [("bob", "Bob"), ("abby", "Abby"), ("zed", "Zed")] {
        st.handle_incoming_message(IncomingMessage::UserJoin { channel: s("forsen"), username: s(u), display_name: s(d) });
    }
    let ch = s("forsen");
    assert_eq!(st.get_possible_users(Some(&ch), Some(&s("@b"))), None);
    assert_eq!(st.get_possible_users(Some(&ch), Some(&s("@bo"))), Some(vec![s("Bob")]));
    // starts-with matches first, then the others
    assert_eq!(st.get_possible_users(Some(&ch), Some(&s("@bb"))), Some(vec![s("Abby")]));
    assert_eq!(st.get_possible_users(Some(&ch), None), None);

    for n in ["Kappa", "KappaPride", "LUL", "NotKappa"] {
        st.global_emotes.insert(s(n), emote(n));
    }
    let r = st.get_possible_emotes(Some(&ch), Some(&s("ka"))).unwrap();
    let names: Vec<&str> = r.iter().map(|(n, _)| n.as_str()).collect();
    assert_eq!(names, vec!["Kappa", "KappaPride", "NotKappa"]);
    assert!(r.iter().all(|(_, o)| *o == EmoteOrigin::Global));
    assert_eq!(st.get_possible_emotes(Some(&ch), Some(&s("k"))), None);
}

#[test]
fn at_sign_switches_to_user_names() {
    let mut st = state_with_twitch(&["forsen"]);
    st.handle_incoming_message(IncomingMessage::UserJoin { channel: s("forsen"), username: s("kappafan"), display_name: s("KappaFan") });
    st.global_emotes.insert(s("Kappa"), emote("Kappa"));
    let ch = s("forsen");
    match st.suggestions_for(Some(&ch), &s("@kap")) {
        Some(Suggestions::Users(v)) => assert_eq!(v, vec![s("KappaFan")]),
        other => panic!("expected user names, got {:?}", other),
    }
    match st.suggestions_for(Some(&ch), &s("kap")) {
        Some(Suggestions::Emotes(v)) => {
            let names: Vec<&str> = v.iter().map(|(n, _)| n.as_str()).collect();
            assert_eq!(names, vec!["Kappa"]);
        }
        other => panic!("expected emotes, got {:?}", other),
    }
    assert!(st.suggestions_for(Some(&ch), &s("@k")).is_none());
    assert!(st.suggestions_for(Some(&ch), &s("k")).is_none());
}

#[test]
fn names_sorted_case_insensitively() {
    let v = sort_names(vec![s("bob"), s("Alice"), s("carl")], false);
    assert_eq!(v, vec![s("Alice"), s("bob"), s("carl")]);
}

#[test]
fn history_walk_is_oldest_first() {
    let mut a: VecDeque<ChatMessage> = VecDeque::new();
    a.push_back(msg(ProviderName::Twitch, "a", "u", "a1", 10));
    a.push_back(msg(ProviderName::Twitch, "a", "u", "a2", 30));
    let mut b: VecDeque<ChatMessage> = VecDeque::new();
    b.push_back(msg(ProviderName::Twitch, "b", "u", "b1", 20));
    let hs = vec![&a, &b];
    let mut it = HistoryIterator::new(2);
    assert_eq!(it.get_next(&hs, 100), Some((0, 0)));
    assert_eq!(it.get_next(&hs, 100), Some((1, 0)));
    assert_eq!(it.get_next(&hs, 100), Some((0, 1)));
    assert_eq!(it.get_next(&hs, 100), None);
}

#[test]
fn adding_channels_from_the_menu() {
    let mut st = state_with_twitch(&[]);
    st.auth_tokens.twitch_auth_token = s("tok");
    let mut menu = AddChannelMenu { channel_name: s("Forsen"), provider: ProviderName::Twitch };
    let mut selected = None;
    let (reqs, join) = st.add_channel(&mut menu, &mut selected);
    assert_eq!(selected, Some(s("forsen")));
    assert_eq!(menu.channel_name, "");
    assert!(matches!(st.channels.get("forsen"), Some(Channel::Twitch { .. })));
    assert_eq!(st.channel_tab_list, vec![s("forsen")]);
    assert_eq!(reqs.len(), 1);
    match &reqs[0] {
        EmoteRequest::TwitchGlobalBadgeListRequest { token, force_redownload } => {
            assert_eq!(token, "tok");
            assert!(!force_redownload);
        },
        other => panic!("unexpected {:?}", other),
    }
    match join {
        Some(OutgoingMessage::TwitchJoin { channel_name, room_id, show_offline_chat }) => {
            assert_eq!(channel_name, "forsen");
            assert_eq!(room_id, None);
            assert!(!show_offline_chat);
        },
        other => panic!("unexpected {:?}", other),
    }
    assert_eq!(st.providers.get(ProviderName::Twitch).unwrap().name, "twitch");

    // the same channel again keeps its one tab
    menu.channel_name = s("forsen");
    st.add_channel(&mut menu, &mut selected);
    assert_eq!(st.channel_tab_list, vec![s("forsen")]);

    menu.provider = ProviderName::DGG;
    let (reqs, join) = st.add_channel(&mut menu, &mut selected);
    assert!(reqs.is_empty());
    assert!(join.is_none());
    assert_eq!(selected, Some(s("Destiny")));
    assert!(matches!(st.channels.get("Destiny"), Some(Channel::DGG { .. })));
    assert!(st.providers.get(ProviderName::DGG).is_none());

    menu.provider = ProviderName::YouTube;
    menu.channel_name = s("some stream");
    st.add_channel(&mut menu, &mut selected);
    assert_eq!(selected, Some(s("")));
    assert_eq!(st.channel_tab_list, vec![s("forsen"), s("Destiny"), s("")]);
    assert_eq!(st.providers.get(ProviderName::YouTube).unwrap().name, "YouTube");
}

#[test]
fn channel_options() {
    let mut st = state_with_twitch(&["forsen"]);
    st.auth_tokens.twitch_auth_token = s("tok");
    // no room id yet: nothing to reload
    assert!(st.reload_channel_emotes(&s("forsen")).is_none());
    st.set_room_id(&s("forsen"), s("22484632"));
    match st.reload_channel_emotes(&s("forsen")) {
        Some(EmoteRequest::TwitchBadgeEmoteListRequest { channel_id, channel_name, token, force_redownload }) => {
            assert_eq!(channel_id, "22484632");
            assert_eq!(channel_name, "forsen");
            assert_eq!(token, "tok");
            assert!(force_redownload);
        },
        other => panic!("unexpected {:?}", other),
    }
    assert!(st.reload_channel_emotes(&s("nobody")).is_none());

    match st.set_always_show_tab(&s("forsen"), true) {
        Some(OutgoingMessage::TwitchJoin { channel_name, room_id, show_offline_chat }) => {
            assert_eq!(channel_name, "forsen");
            assert_eq!(room_id, Some(s("22484632")));
            assert!(show_offline_chat);
        },
        other => panic!("unexpected {:?}", other),
    }
    assert!(st.channels.get("forsen").unwrap().shared().show_tab_when_offline);

    let mut menu = AddChannelMenu { channel_name: s(""), provider: ProviderName::DGG };
    let mut selected = None;
    st.add_channel(&mut menu, &mut selected);
    match st.reload_channel_emotes(&s("Destiny")) {
        Some(EmoteRequest::DggFlairEmotesRequest { channel_name, cdn_base_url, force_redownload }) => {
            assert_eq!(channel_name, "Destiny");
            assert_eq!(cdn_base_url, "");
            assert!(force_redownload);
        },
        other => panic!("unexpected {:?}", other),
    }
    assert!(st.set_always_show_tab(&s("Destiny"), true).is_none());
    assert!(st.channels.get("Destiny").unwrap().shared().show_tab_when_offline);
}

#[test]
fn which_tabs_are_shown() {
    let mut st = state_with_twitch(&["forsen", "xqc", "lirik"]);
    let live = ChannelStatus { game_name: None, is_live: true, title: None, viewer_count: None, started_at: None };
    st.set_channel_status(&s("forsen"), Some(live));
    st.set_always_show_tab(&s("lirik"), true);
    // with offline chats shown every tab is there but the right-hand panel's
    assert!(st.show_tab(&s("xqc"), None, false));
    assert!(!st.show_tab(&s("xqc"), Some(&s("xqc")), false));
    // with offline chats hidden only live and always-shown channels keep a tab
    assert!(st.show_tab(&s("forsen"), None, true));
    assert!(!st.show_tab(&s("xqc"), None, true));
    assert!(st.show_tab(&s("lirik"), Some(&s("forsen")), true));
    assert!(!st.show_tab(&s("nobody"), None, true));
}

#[test]
fn opening_channels_of_the_tab_row() {
    let mut st = state_with_twitch(&["forsen"]);
    // a Twitch channel made for the tab row is open already
    assert!(matches!(st.open_pending_channel(&s("forsen"), true), OpenAction::Nothing));
    let mut selected = None;
    let mut menu = AddChannelMenu { channel_name: s(""), provider: ProviderName::DGG };
    st.add_channel(&mut menu, &mut selected);
    assert!(st.channels.get("Destiny").unwrap().transient().is_none());
    match st.open_pending_channel(&s("Destiny"), false) {
        OpenAction::ConnectDestiny(EmoteRequest::DggFlairEmotesRequest { channel_name, force_redownload, .. }) => {
            assert_eq!(channel_name, "Destiny");
            assert!(!force_redownload);
        },
        other => panic!("unexpected {:?}", other),
    }
    assert!(st.channels.get("Destiny").unwrap().transient().is_some());
    // once open it is left alone
    assert!(matches!(st.open_pending_channel(&s("Destiny"), false), OpenAction::Nothing));
    assert!(matches!(st.open_pending_channel(&s("nobody"), true), OpenAction::Nothing));
}

#[test]
fn what_a_panel_shows() {
    let mut st = state_with_twitch(&["forsen", "xqc"]);
    for c in ["forsen", "xqc"] {
        st.handle_incoming_message(IncomingMessage::PrivMsg { message: msg(ProviderName::Twitch, c, "bob", "hi", 1) });
    }
    assert_eq!(st.panel_histories(Some(&s("xqc"))), vec![s("xqc")]);
    // new Twitch channels are shown in the mentions panel
    assert_eq!(st.panel_histories(None), vec![s("forsen"), s("xqc")]);
    assert!(st.panel_histories(Some(&s("nobody"))).is_empty());

    let mut names = ProviderMap::new();
    names.insert(ProviderName::Twitch, s("me"));
    let hello = msg(ProviderName::Twitch, "forsen", "bob", "hello @me", 1);
    let other = msg(ProviderName::Twitch, "forsen", "bob", "hello", 1);
    assert!(shown_in_panel(true, &names, &hello));
    assert!(!shown_in_panel(true, &names, &other));
    assert!(shown_in_panel(false, &names, &other));
}

#[test]
fn how_rows_are_drawn() {
    let combo = |count: usize, is_end: bool| Some(ComboCounter { word: s("Kappa"), count, is_new: false, is_end, users: vec![] });
    assert_eq!(row_display(false, &combo(3, false)), RowDisplay::Message);
    assert_eq!(row_display(true, &None), RowDisplay::Message);
    assert_eq!(row_display(true, &combo(1, true)), RowDisplay::Message);
    assert_eq!(row_display(true, &combo(3, true)), RowDisplay::ComboLine);
    assert_eq!(row_display(true, &combo(3, false)), RowDisplay::Hidden);

    let mut m = msg(ProviderName::Twitch, "forsen", "bob", "hi", 1);
    m.profile.display_name = Some(s("Bobby"));
    assert_eq!(row_highlight(&m, &Some(s("bobby"))), RowHighlight::SelectedUser);
    assert_eq!(row_highlight(&m, &Some(s("bob"))), RowHighlight::Plain);
    assert_eq!(row_highlight(&m, &None), RowHighlight::Plain);
    m.msg_type = MessageType::Error;
    assert_eq!(row_highlight(&m, &Some(s("bobby"))), RowHighlight::Error);
    m.msg_type = MessageType::Announcement;
    assert_eq!(row_highlight(&m, &None), RowHighlight::Provider);
    m.msg_type = MessageType::Information;
    assert_eq!(row_highlight(&m, &None), RowHighlight::Clear);
}

#[test]
fn reloading_global_emotes() {
    let mut st = state_with_twitch(&[]);
    st.auth_tokens.twitch_auth_token = s("tok");
    let reqs = st.reload_global_emotes();
    assert_eq!(reqs.len(), 2);
    let mut menu = AddChannelMenu { channel_name: s("forsen"), provider: ProviderName::Twitch };
    let mut selected = None;
    st.add_channel(&mut menu, &mut selected);
    st.set_emote_sets(ProviderName::Twitch, vec![s("0"), s("42")]);
    let reqs = st.reload_global_emotes();
    assert_eq!(reqs.len(), 4);
    assert!(matches!(reqs[0], EmoteRequest::GlobalEmoteListRequest { force_redownload: true }));
    match &reqs[1] {
        EmoteRequest::TwitchGlobalBadgeListRequest { token, force_redownload } => {
            assert_eq!(token, "tok");
            assert!(*force_redownload);
        },
        other => panic!("unexpected {:?}", other),
    }
    match &reqs[3] {
        EmoteRequest::TwitchEmoteSetRequest { token, emote_set_id, force_redownload } => {
            assert_eq!(token, "tok");
            assert_eq!(emote_set_id, "42");
            assert!(*force_redownload);
        },
        other => panic!("unexpected {:?}", other),
    }
}
