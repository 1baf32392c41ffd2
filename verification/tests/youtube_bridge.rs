use gigachat::model::{IncomingMessage, MessageType, OutgoingMessage, ProviderName};
use gigachat::youtube::{requesting_channel, youtube_incoming, youtube_reply, YoutubeReply};

fn s(x: &str) -> String {
    x.to_string()
}

#[test]
fn posted_lines_become_events() {
    let r = youtube_incoming(&s("chan"), &s("bob"), s("hi"), &Some(s("moderator")), Some(vec![(s("LUL"), s("https://x"))]), 5);
    assert_eq!(r.len(), 2);
    match &r[0] {
        IncomingMessage::PrivMsg { message } => {
            assert_eq!(message.provider, ProviderName::YouTube);
            assert_eq!(message.channel, "YT:chan");
            assert_eq!(message.username, "bob");
            assert_eq!(message.profile.display_name, Some(s("bob")));
            assert_eq!(message.profile.color, Some((94, 132, 241)));
            assert_eq!(message.msg_type, MessageType::Chat);
            assert_eq!(message.timestamp, 5);
        },
        other => panic!("unexpected {:?}", other),
    }
    match &r[1] {
        IncomingMessage::MsgEmotes { provider, emote_ids } => {
            assert_eq!(*provider, ProviderName::YouTube);
            assert_eq!(emote_ids, &vec![(s("LUL"), s("https://x"))]);
        },
        other => panic!("unexpected {:?}", other),
    }
    let r = youtube_incoming(&s("chan"), &s("amy"), s("x"), &Some(s("member")), Some(vec![]), 0);
    assert_eq!(r.len(), 1);
    match &r[0] {
        IncomingMessage::PrivMsg { message } => assert_eq!(message.profile.color, Some((43, 166, 64))),
        other => panic!("unexpected {:?}", other),
    }
    let r = youtube_incoming(&s("chan"), &s(""), s("bridge failed"), &Some(s("error")), None, 0);
    match &r[0] {
        IncomingMessage::PrivMsg { message } => {
            assert_eq!(message.msg_type, MessageType::Error);
            assert_eq!(message.profile.color, Some((186, 186, 186)));
        },
        other => panic!("unexpected {:?}", other),
    }
}

#[test]
fn polls_get_their_channels_lines() {
    let line = OutgoingMessage::Chat { channel: s("YT:chan"), message: s("hello") };
    match youtube_reply(line, &s("chan")) {
        YoutubeReply::Send { channel, message } => {
            assert_eq!(channel, "chan");
            assert_eq!(message, "hello");
        },
        _ => panic!("the line is for this channel"),
    }
    let line = OutgoingMessage::Chat { channel: s("YT:YT:chan"), message: s("x") };
    assert!(matches!(youtube_reply(line, &s("chan")), YoutubeReply::Send { .. }));
    let line = OutgoingMessage::Chat { channel: s("YT:other"), message: s("x") };
    match youtube_reply(line, &s("chan")) {
        YoutubeReply::Requeue { request: OutgoingMessage::Chat { channel, message } } => {
            assert_eq!(channel, "YT:other");
            assert_eq!(message, "x");
        },
        _ => panic!("the line goes back in the queue"),
    }
    assert!(matches!(youtube_reply(OutgoingMessage::Quit {}, &s("chan")), YoutubeReply::Nothing));
}

#[test]
fn poll_channel_names_are_decoded() {
    assert_eq!(requesting_channel("my%20chan"), Some(s("my chan")));
    assert_eq!(requesting_channel("plain"), Some(s("plain")));
    assert_eq!(requesting_channel("%FF"), None);
}
