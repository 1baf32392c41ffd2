use gigachat::model::{IncomingMessage, MessageType, OutgoingMessage};
use gigachat::name_map::NameMap;
use gigachat::twitch::{
    authenticate, dedup_pairs, get_tag_value, get_user_profile, join_comma, message_time,
    parse_emote_tag, select_channel_statuses, sort_pairs_by_name, status_for, streams_url,
    trim_message_end, IrcAction, IrcSession, TwitchChannelStatus,
};

fn s(x: &str) -> String {
    x.to_string()
}

fn tags(kv: &[(&str, Option<&str>)]) -> Vec<(String, Option<String>)> {
    kv.iter().map(|(k, v)| (s(k), v.map(s))).collect()
}

fn status(id: &str, kind: &str) -> TwitchChannelStatus {
    TwitchChannelStatus {
        user_id: s(id),
        user_name: s("name"),
        game_name: s("game"),
        stream_type: s(kind),
        title: s("title"),
        viewer_count: 42,
        started_at: s("2024-01-01T00:00:00Z"),
    }
}

#[test]
fn tag_values_and_profiles() {
    let t = tags(&[("display-name", Some("Bob")), ("color", Some("#1E90FF")), ("badges", Some("moderator/1,,subscriber/12")), ("flag", None)]);
    assert_eq!(get_tag_value(&t, "display-name"), Some(s("Bob")));
    assert_eq!(get_tag_value(&t, "flag"), None);
    assert_eq!(get_tag_value(&t, "missing"), None);
    let p = get_user_profile(&t);
    assert_eq!(p.display_name, Some(s("Bob")));
    assert_eq!(p.color, Some((30, 144, 255)));
    assert_eq!(p.badges, Some(vec![s("moderator/1"), s("subscriber/12")]));
    let p = get_user_profile(&tags(&[]));
    assert_eq!(p.display_name, None);
    assert_eq!(p.color, None);
    assert_eq!(p.badges, None);
}

#[test]
fn emote_tags_name_message_ranges() {
    let mut seen: NameMap<()> = NameMap::new();
    let r = parse_emote_tag("25:0-4,12-16/1902:6-10", "Kappa Keepo Kappa", &mut seen);
    // sorted by name
    assert_eq!(r, vec![(s("25"), s("Kappa")), (s("1902"), s("Keepo"))]);
    assert!(seen.contains_key("25"));
    assert!(seen.contains_key("1902"));
    // ids seen before are skipped
    let r = parse_emote_tag("25:0-4", "Kappa", &mut seen);
    assert!(r.is_empty());
    // an entry without a colon is skipped and not marked seen
    let r = parse_emote_tag("77", "x", &mut seen);
    assert!(r.is_empty());
    assert!(!seen.contains_key("77"));
}

#[test]
fn pairs_sorted_and_deduplicated() {
    let v = vec![(s("2"), s("b")), (s("1"), s("a")), (s("3"), s("b")), (s("1"), s("a"))];
    let sorted = sort_pairs_by_name(v);
    assert_eq!(sorted, vec![(s("1"), s("a")), (s("1"), s("a")), (s("2"), s("b")), (s("3"), s("b"))]);
    assert_eq!(dedup_pairs(sorted), vec![(s("1"), s("a")), (s("2"), s("b")), (s("3"), s("b"))]);
}

#[test]
fn message_times() {
    let t = tags(&[("tmi-sent-ts", Some("1700000000123"))]);
    assert_eq!(message_time(&t, 7), 1_700_000_000_123);
    assert_eq!(message_time(&tags(&[("tmi-sent-ts", Some("abc"))]), 7), 7);
    assert_eq!(message_time(&tags(&[]), 9), 9);
}

#[test]
fn message_end_trimmed() {
    assert_eq!(trim_message_end("hello \u{e0000}"), "hello ");
    assert_eq!(trim_message_end("\u{1}ACTION waves\u{1}"), "\u{1}ACTION waves");
    assert_eq!(trim_message_end("plain"), "plain");
}

#[test]
fn joining_and_leaving() {
    let mut sess = IrcSession::new(0);
    let acts = sess.join(&s("forsen"), 5);
    assert_eq!(acts.len(), 2);
    match &acts[0] {
        IrcAction::SendJoin { channel } => assert_eq!(channel, "#forsen"),
        other => panic!("unexpected {:?}", other),
    }
    match &acts[1] {
        IrcAction::Emit { message: IncomingMessage::PrivMsg { message } } => {
            assert_eq!(message.message, "Joined forsen chat.");
            assert_eq!(message.msg_type, MessageType::Information);
            assert_eq!(message.timestamp, 5);
        },
        other => panic!("unexpected {:?}", other),
    }
    assert_eq!(sess.joined_channels.get("forsen"), Some(&true));
    let acts = sess.leave(&s("forsen"), 6);
    match &acts[0] {
        IrcAction::SendPart { channel } => assert_eq!(channel, "#forsen"),
        other => panic!("unexpected {:?}", other),
    }
    match &acts[1] {
        IrcAction::Emit { message: IncomingMessage::PrivMsg { message } } => {
            assert_eq!(message.message, "Leaving forsen chat.")
        },
        other => panic!("unexpected {:?}", other),
    }
    assert_eq!(sess.joined_channels.get("forsen"), Some(&false));
}

#[test]
fn chat_lines_and_quit() {
    let mut sess = IrcSession::new(0);
    let me = s("me");
    let acts = sess.on_outgoing(OutgoingMessage::Chat { channel: s("forsen"), message: s("hi") }, &me, 3);
    match &acts[0] {
        IrcAction::SendPrivmsg { target, text } => {
            assert_eq!(target, "#forsen");
            assert_eq!(text, "hi");
        },
        other => panic!("unexpected {:?}", other),
    }
    match &acts[1] {
        IrcAction::Emit { message: IncomingMessage::PrivMsg { message } } => {
            assert_eq!(message.username, "me");
            assert_eq!(message.message, "hi");
            assert_eq!(message.channel, "forsen");
        },
        other => panic!("unexpected {:?}", other),
    }
    // a line starting with ':' goes to the bare channel, with a space in front
    let acts = sess.on_outgoing(OutgoingMessage::Chat { channel: s("forsen"), message: s(":)") }, &me, 3);
    match &acts[0] {
        IrcAction::SendPrivmsg { target, text } => {
            assert_eq!(target, "forsen");
            assert_eq!(text, " :)");
        },
        other => panic!("unexpected {:?}", other),
    }
    let acts = sess.on_outgoing(OutgoingMessage::Quit {}, &me, 3);
    match &acts[0] {
        IrcAction::SendQuit { text } => assert_eq!(text, "Leaving"),
        other => panic!("unexpected {:?}", other),
    }
    assert!(sess.on_outgoing(OutgoingMessage::Join { channel_name: s("x") }, &me, 3).is_empty());
}

#[test]
fn twitch_join_waits_for_status_when_room_known() {
    let mut sess = IrcSession::new(0);
    let me = s("me");
    let acts = sess.on_outgoing(
        OutgoingMessage::TwitchJoin { channel_name: s("a"), room_id: None, show_offline_chat: false },
        &me,
        1,
    );
    assert_eq!(acts.len(), 2);
    let acts = sess.on_outgoing(
        OutgoingMessage::TwitchJoin { channel_name: s("b"), room_id: Some(s("22")), show_offline_chat: false },
        &me,
        1,
    );
    assert!(acts.is_empty());
    assert!(sess.channels.contains_key("b"));
    assert_eq!(sess.joined_channels.get("b"), None);

    // statuses: b is live, so it is joined
    assert!(sess.status_check_due(1));
    let ids = sess.begin_status_check(100);
    assert_eq!(ids, vec![s("22")]);
    assert!(!sess.status_check_due(100 + 60_000));
    assert!(sess.status_check_due(100 + 60_001));
    let acts = sess.on_statuses(&vec![status("22", "live")], 200);
    assert_eq!(sess.joined_channels.get("b"), Some(&true));
    let joins = acts.iter().filter(|a| matches!(a, IrcAction::SendJoin { .. })).count();
    assert_eq!(joins, 1);
    let statuses = acts
        .iter()
        .filter(|a| matches!(a, IrcAction::Emit { message: IncomingMessage::StreamingStatus { .. } }))
        .count();
    assert_eq!(statuses, 2);

    // b goes offline and its chat is not shown offline: it is left
    let acts = sess.on_statuses(&vec![], 300);
    assert_eq!(sess.joined_channels.get("b"), Some(&false));
    let parts = acts.iter().filter(|a| matches!(a, IrcAction::SendPart { .. })).count();
    assert_eq!(parts, 1);
}

#[test]
fn tagged_commands() {
    let mut sess = IrcSession::new(0);
    let t = tags(&[("room-id", Some("99"))]);
    let r = sess.on_raw("ROOMSTATE", &vec![s("#chan")], Some(&t), 100_000);
    match &r[0] {
        IncomingMessage::RoomId { channel, room_id } => {
            assert_eq!(channel, "chan");
            assert_eq!(room_id, "99");
        },
        other => panic!("unexpected {:?}", other),
    }
    assert_eq!(sess.last_status_check, Some(100_000 - 59_750));

    let t = tags(&[("emote-sets", Some("0,33,1234")), ("display-name", Some("Me"))]);
    let r = sess.on_raw("USERSTATE", &vec![s("#chan")], Some(&t), 1);
    match &r[0] {
        IncomingMessage::EmoteSets { emote_sets, .. } => {
            assert_eq!(emote_sets, &vec![s("0"), s("33"), s("1234")])
        },
        other => panic!("unexpected {:?}", other),
    }
    assert_eq!(sess.profiles.get("chan").unwrap().display_name, Some(s("Me")));

    let r = sess.on_raw("CLEARCHAT", &vec![s("#chan"), s("spammer")], Some(&tags(&[])), 1);
    match &r[0] {
        IncomingMessage::UserMuted { channel, username } => {
            // the channel is read from the last parameter, as for every tagged command
            assert_eq!(channel, "spammer");
            assert_eq!(username, "spammer");
        },
        other => panic!("unexpected {:?}", other),
    }

    let r = sess.on_raw("NOTICE", &vec![s("#chan"), s("slow mode")], Some(&tags(&[])), 1);
    match &r[0] {
        IncomingMessage::PrivMsg { message } => {
            assert_eq!(message.message, "#chan, slow mode");
            assert_eq!(message.msg_type, MessageType::Error);
        },
        other => panic!("unexpected {:?}", other),
    }

    let t = tags(&[("system-msg", Some("bob subscribed"))]);
    let r = sess.on_raw("USERNOTICE", &vec![s("#chan")], Some(&t), 1);
    match &r[0] {
        IncomingMessage::PrivMsg { message } => {
            assert_eq!(message.message, "bob subscribed");
            assert_eq!(message.msg_type, MessageType::Announcement);
        },
        other => panic!("unexpected {:?}", other),
    }
    assert!(sess.on_raw("USERNOTICE", &vec![s("#chan")], Some(&tags(&[])), 1).is_empty());
    assert!(sess.on_raw("NOTICE", &vec![s("#chan")], None, 1).is_empty());
}

#[test]
fn privmsg_lines() {
    let mut sess = IrcSession::new(0);
    let t = tags(&[("emotes", Some("25:0-4")), ("tmi-sent-ts", Some("5000"))]);
    let bob = s("bob");
    let r = sess.on_privmsg("#chan", Some(&bob), "Kappa hi\u{e0000}", Some(&t), 1);
    assert_eq!(r.len(), 2);
    match &r[0] {
        IncomingMessage::MsgEmotes { emote_ids, .. } => assert_eq!(emote_ids, &vec![(s("25"), s("Kappa"))]),
        other => panic!("unexpected {:?}", other),
    }
    match &r[1] {
        IncomingMessage::PrivMsg { message } => {
            assert_eq!(message.channel, "chan");
            assert_eq!(message.username, "bob");
            assert_eq!(message.message, "Kappa hi");
            assert_eq!(message.timestamp, 5000);
        },
        other => panic!("unexpected {:?}", other),
    }
    assert!(sess.on_privmsg("#chan", Some(&bob), "x", None, 1).is_empty());
    let r = sess.on_privmsg("#chan", None, "x", Some(&tags(&[])), 1);
    assert_eq!(r.len(), 1);
}

#[test]
fn pings() {
    let mut sess = IrcSession::new(0);
    assert!(!sess.ping_timed_out(600_000));
    assert!(sess.ping_timed_out(600_001));
    sess.on_ping(500_000);
    assert!(!sess.ping_timed_out(1_000_000));
}

#[test]
fn statuses_and_urls() {
    assert_eq!(
        streams_url(&vec![s("1"), s("2")]),
        "https://api.twitch.tv/helix/streams?user_id=1&user_id=2"
    );
    assert_eq!(streams_url(&vec![]), "https://api.twitch.tv/helix/streams?");
    let data = vec![status("2", "live"), status("1", ""), status("2", "other")];
    let picked = select_channel_statuses(&vec![s("1"), s("3"), s("2")], &data);
    assert_eq!(picked.len(), 2);
    assert_eq!(picked[0].user_id, "1");
    assert_eq!(picked[1].stream_type, "live");
    let st = status_for(&data, &Some(s("2")));
    assert!(st.is_live);
    assert_eq!(st.viewer_count, Some(42));
    let st = status_for(&data, &Some(s("9")));
    assert!(!st.is_live);
    assert_eq!(st.title, None);
    assert_eq!(join_comma(&vec![s("a"), s("b"), s("c")]), "a, b, c");
}

#[test]
fn sign_in_address() {
    let url = authenticate();
    let prefix = "https://id.twitch.tv/oauth2/authorize?client_id=fpj6py15j5qccjs8cm7iz5ljjzp1uf&redirect_uri=https://dbckr.github.io/GigachatAuth&response_type=token&scope=chat:read chat:edit&state=";
    assert!(url.starts_with(prefix));
    let state = &url[prefix.len()..];
    assert!(!state.is_empty());
    assert!(state.parse::<u128>().is_ok());
}
