use gigachat::dgg::{
    dgg_chat_event, ts_usable,
    begin_authenticate, complete_authenticate_url, dgg_authorize_url_for, dgg_broadcast_line,
    dgg_chat_line, dgg_channel_name, dgg_live_status, dgg_outgoing, dgg_presence, load_dgg_emotes,
    load_dgg_flairs, refresh_auth_token_url, DggBroadcast, DggEmote, DggEmoteImage, DggFlair,
    DggMsg, DggSocketAction, LiveStreamDetail,
};
use gigachat::model::{CssAnimationData, IncomingMessage, OutgoingMessage, ProviderName};
use gigachat::name_map::NameMap;

fn s(x: &str) -> String {
    x.to_string()
}

fn image(file: &str) -> Vec<DggEmoteImage> {
    vec![DggEmoteImage { url: format!("https://cdn.destiny.gg/{}", file), name: s(file) }]
}

#[test]
fn chat_lines_from_frames() {
    let m = dgg_chat_line(DggMsg {
        nick: s("Bob"),
        features: vec![s("subscriber"), s("flair3"), s("moderator")],
        timestamp: 1_700_000_000_123,
        data: Some(s("hello")),
    });
    assert_eq!(m.provider, ProviderName::DGG);
    assert_eq!(m.channel, "Destiny");
    assert_eq!(m.username, "bob");
    assert_eq!(m.profile.display_name, Some(s("Bob")));
    assert_eq!(m.profile.badges, Some(vec![s("flair3"), s("moderator")]));
    assert_eq!(m.timestamp, 1_700_000_000_123);
    assert_eq!(m.message, "hello");

    let plain = dgg_chat_line(DggMsg { nick: s("x"), features: vec![s("subscriber")], timestamp: 0, data: Some(s("y")) });
    assert_eq!(plain.profile.badges, None);

    let b = dgg_broadcast_line(DggBroadcast { timestamp: 5_000, data: Some(s("announcement")) });
    assert_eq!(b.username, "");
    assert_eq!(b.message, "announcement");
    assert_eq!(b.timestamp, 5_000);
    assert_eq!(dgg_channel_name(), "Destiny");
}

#[test]
fn presence_and_socket_requests() {
    match dgg_presence(s("Bob"), true) {
        IncomingMessage::UserJoin { channel, username, display_name } => {
            assert_eq!(channel, "Destiny");
            assert_eq!(username, "Bob");
            assert_eq!(display_name, "Bob");
        },
        other => panic!("unexpected {:?}", other),
    }
    assert!(matches!(dgg_presence(s("Bob"), false), IncomingMessage::UserLeave { .. }));
    assert!(matches!(dgg_outgoing(OutgoingMessage::Leave { channel_name: s("Destiny") }), DggSocketAction::Close));
    assert!(matches!(dgg_outgoing(OutgoingMessage::Quit {}), DggSocketAction::Nothing));
}

#[test]
fn live_status_frames() {
    let detail = LiveStreamDetail {
        live: Some(true),
        game: Some(s("Chess")),
        status_text: Some(s("title")),
        started_at: Some(s("2024")),
        viewers: Some(10),
    };
    match dgg_live_status(Some(s("dggApi:streamInfo")), Some(detail)) {
        Some(IncomingMessage::StreamingStatus { channel, status: Some(st) }) => {
            assert_eq!(channel, "Destiny");
            assert!(st.is_live);
            assert_eq!(st.game_name, Some(s("Chess")));
            assert_eq!(st.viewer_count, Some(10));
        },
        other => panic!("unexpected {:?}", other),
    }
    let offline = LiveStreamDetail { live: None, game: None, status_text: None, started_at: None, viewers: None };
    match dgg_live_status(Some(s("dggApi:streamInfo")), Some(offline)) {
        Some(IncomingMessage::StreamingStatus { status: Some(st), .. }) => assert!(!st.is_live),
        other => panic!("unexpected {:?}", other),
    }
    assert!(dgg_live_status(Some(s("other")), None).is_none());
    let detail = LiveStreamDetail { live: Some(true), game: None, status_text: None, started_at: None, viewers: None };
    assert!(dgg_live_status(Some(s("dggApi:other")), Some(detail)).is_none());
}

#[test]
fn flair_list() {
    let flairs = vec![
        DggFlair { label: s("Subscriber"), name: s("flair1"), priority: 5, color: s("#0060ff"), image: image("sub.png") },
        DggFlair { label: s("Bot"), name: s("bot"), priority: 1, color: s(""), image: image("bot.gif") },
        DggFlair { label: s("Subscriber T2"), name: s("flair1"), priority: 4, color: s("#ff0000"), image: image("sub2.png") },
    ];
    let m = load_dgg_flairs(flairs);
    assert_eq!(m.len(), 2);
    let f = m.get("flair1").unwrap();
    assert_eq!(f.display_name, Some(s("Subscriber T2")));
    assert_eq!(f.color, Some((255, 0, 0)));
    assert_eq!(f.priority, 4);
    assert_eq!(f.id, "sub2");
    assert_eq!(f.extension, Some(s("png")));
    assert_eq!(f.path, "cache/dgg/");
    assert_eq!(f.url, "https://cdn.destiny.gg/sub2.png");
    let b = m.get("bot").unwrap();
    assert_eq!(b.color, None);
    assert_eq!(b.extension, Some(s("gif")));
}

#[test]
fn emote_list_with_animations() {
    let mut anims = NameMap::new();
    anims.insert(s("PEPE"), CssAnimationData { width: 28, cycle_time_msec: 1000, steps: 4 });
    let emotes = vec![
        DggEmote { prefix: s("PEPE"), image: image("pepe.v2.png") },
        DggEmote { prefix: s("Kappa"), image: image("kappa.png") },
    ];
    let m = load_dgg_emotes(emotes, &anims);
    assert_eq!(m.len(), 2);
    let p = m.get("PEPE").unwrap();
    assert_eq!(p.css_anim, Some(CssAnimationData { width: 28, cycle_time_msec: 1000, steps: 4 }));
    assert_eq!(p.id, "pepe");
    assert_eq!(p.extension, Some(s("v2.png")));
    assert_eq!(m.get("Kappa").unwrap().css_anim, None);
}

#[test]
fn sign_in_addresses() {
    let verifier = s("abc123");
    let secret = sha256::digest("S0eHxQsXfbo!l=Pk~pf7[ZWSC.C7BlWK1YFNgKkqxQ!ojZ1C~tYyVh3+SsxCn-kY");
    #[allow(deprecated)]
    let challenge = base64::encode(sha256::digest(format!("{}{}", verifier, secret)));
    let url = dgg_authorize_url_for(&verifier, 77);
    assert_eq!(
        url,
        format!(
            "https://www.destiny.gg/oauth/authorize?response_type=code&client_id=dbrq5gUQDWmv6jBzFt9UwpN8VQOIeO7i&redirect_uri=https://dbckr.github.io/GigachatAuth&state=77&code_challenge={}",
            challenge
        )
    );
    assert_ne!(challenge, format!("{}{}", verifier, secret));

    let (v, page) = begin_authenticate();
    assert!(!v.is_empty());
    assert!(v.chars().all(|c| c.is_ascii_hexdigit()));
    assert!(page.starts_with("https://www.destiny.gg/oauth/authorize?response_type=code&client_id="));
    let state_start = page.find("&state=").unwrap() + "&state=".len();
    let state_end = page.find("&code_challenge=").unwrap();
    let state: u128 = page[state_start..state_end].parse().unwrap();
    assert_eq!(page, dgg_authorize_url_for(&v, state));

    assert_eq!(
        complete_authenticate_url("CODE", &s("VER")),
        "https://www.destiny.gg/oauth/token?grant_type=authorization_code&code=CODE&client_id=dbrq5gUQDWmv6jBzFt9UwpN8VQOIeO7i&redirect_uri=https://dbckr.github.io/GigachatAuth&code_verifier=VER"
    );
    assert_eq!(
        refresh_auth_token_url(&s("RT")),
        "https://www.destiny.gg/oauth/token?grant_type=refresh_token&client_id=dbrq5gUQDWmv6jBzFt9UwpN8VQOIeO7i&refresh_token=RT"
    );
}

#[test]
fn chat_events_need_a_readable_timestamp() {
    let m = dgg_chat_event(DggMsg { nick: s("Bob"), features: vec![], timestamp: 1_700_000_000_123, data: Some(s("hi")) }).unwrap();
    assert_eq!(m.timestamp, 1_700_000_000_123);
    assert_eq!(m.username, "bob");
    assert!(ts_usable(0));
    assert!(!ts_usable(usize::MAX / 2));
    assert!(dgg_chat_event(DggMsg { nick: s("Bob"), features: vec![], timestamp: usize::MAX / 2, data: Some(s("hi")) }).is_none());
}
