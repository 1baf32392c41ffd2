use gigachat::messages::{
    determine_name_to_display, get_badges_for_message, get_emotes_for_message,
    get_mentions_in_message, mention_key_of, mentioned_in_message,
};
use gigachat::model::{
    ChannelUser, ChatMessage, Emote, MessageType, ProviderMap, ProviderName, UserProfile,
};
use gigachat::name_map::NameMap;

fn s(x: &str) -> String {
    x.to_string()
}

fn msg(provider: ProviderName, channel: &str, user: &str, text: &str) -> ChatMessage {
    ChatMessage {
        provider,
        channel: s(channel),
        username: s(user),
        timestamp: 0,
        message: s(text),
        profile: UserProfile { badges: None, display_name: None, color: None },
        combo_data: None,
        is_removed: None,
        msg_type: MessageType::Chat,
    }
}

fn emote(name: &str) -> Emote {
    let mut e = Emote::default();
    e.name = s(name);
    e
}

fn emote_map(names: &[&str]) -> NameMap<Emote> {
    let mut m = NameMap::new();
    for n in names {
        m.insert(s(n), emote(n));
    }
    m
}

#[test]
fn display_name_prefers_ascii_display_name() {
    let mut m = msg(ProviderName::Twitch, "chan", "bob", "hi");
    assert_eq!(determine_name_to_display(&m), Some(&s("bob")));
    m.profile.display_name = Some(s("Bob"));
    assert_eq!(determine_name_to_display(&m), Some(&s("Bob")));
    m.profile.display_name = Some(s("ボブ"));
    assert_eq!(determine_name_to_display(&m), Some(&s("bob")));
    m.msg_type = MessageType::Information;
    assert_eq!(determine_name_to_display(&m), None);
}

#[test]
fn name_colour_is_normalised() {
    let mut m = msg(ProviderName::Twitch, "chan", "bob", "hi");
    assert_eq!(m.get_username_with_color(), Some((&s("bob"), (255, 255, 255))));
    m.profile.color = Some((100, 50, 200));
    assert_eq!(m.get_username_with_color(), Some((&s("bob"), (150, 100, 250))));
}

#[test]
fn mention_keys() {
    assert_eq!(mention_key_of(&s("@Bob,")), "bob");
    assert_eq!(mention_key_of(&s("@@ALICE,,")), "alice");
    assert_eq!(mention_key_of(&s("plain")), "plain");
}

#[test]
fn mentions_are_display_names_of_known_users() {
    let mut users = NameMap::new();
    users.insert(s("bob"), ChannelUser { username: s("bob"), display_name: s("Bob"), is_active: true });
    let m = msg(ProviderName::Twitch, "chan", "carol", "hi @bob, and @Alice and BOB");
    assert_eq!(get_mentions_in_message(&m, &users), Some(vec![s("Bob"), s("Bob")]));
    let m = msg(ProviderName::Twitch, "chan", "carol", "nobody here");
    assert_eq!(get_mentions_in_message(&m, &users), Some(vec![]));
}

#[test]
fn mentioned_only_for_own_provider_name() {
    let mut names = ProviderMap::new();
    names.insert(ProviderName::Twitch, s("bob"));
    assert!(mentioned_in_message(&names, &ProviderName::Twitch, "hey @Bob, look"));
    assert!(!mentioned_in_message(&names, &ProviderName::Twitch, "hey bobby"));
    assert!(!mentioned_in_message(&names, &ProviderName::DGG, "hey @Bob,"));
}

#[test]
fn emotes_found_channel_first_then_global_then_provider() {
    let channel = emote_map(&["Kappa", "PogChamp"]);
    let global = emote_map(&["LUL", "Kappa"]);
    let provider = emote_map(&["TwitchOnly"]);
    let m = msg(ProviderName::Twitch, "chan", "bob", "Kappa LUL TwitchOnly nothing Kappa");
    let found = get_emotes_for_message(&m, Some(&provider), Some(&channel), &global);
    assert_eq!(found.len(), 3);
    assert!(found.contains_key("Kappa"));
    assert!(found.contains_key("LUL"));
    assert!(found.contains_key("TwitchOnly"));
    assert!(!found.contains_key("nothing"));
    // on Destiny.gg neither global nor provider emotes are used
    let d = msg(ProviderName::DGG, "Destiny", "bob", "LUL TwitchOnly Kappa");
    let found = get_emotes_for_message(&d, Some(&provider), Some(&channel), &global);
    assert_eq!(found.len(), 1);
    assert!(found.contains_key("Kappa"));
}

#[test]
fn badges_come_from_channel_then_global() {
    let mut channel = emote_map(&["sub"]);
    let global = emote_map(&["mod", "sub"]);
    let badges = vec![s("mod"), s("sub"), s("unknown")];
    let (found, color) = get_badges_for_message(Some(&badges), "chan", Some(&global), Some(&channel));
    let names: Vec<String> = found.unwrap().iter().map(|e| e.name.clone()).collect();
    assert_eq!(names, vec![s("mod"), s("sub")]);
    assert_eq!(color, None);
    assert_eq!(get_badges_for_message(None, "chan", Some(&global), Some(&channel)).0.is_none(), true);

    // Destiny.gg flairs: hidden ones are not shown, the lowest priority colour wins
    let mut hidden = emote("hidden");
    hidden.hidden = true;
    hidden.color = Some((1, 2, 3));
    hidden.priority = 5;
    channel.insert(s("hidden"), hidden);
    let mut bright = emote("bright");
    bright.color = Some((9, 9, 9));
    bright.priority = 10;
    channel.insert(s("bright"), bright);
    let badges = vec![s("bright"), s("hidden")];
    let (found, color) = get_badges_for_message(Some(&badges), "Destiny", None, Some(&channel));
    let names: Vec<String> = found.unwrap().iter().map(|e| e.name.clone()).collect();
    assert_eq!(names, vec![s("bright")]);
    assert_eq!(color, Some((1, 2, 3)));
}
