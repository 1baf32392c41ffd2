use gigachat::combo::combo_line_users;
use gigachat::model::{ChatMessage, ComboCounter, Emote, MessageType, ProviderName, UserProfile};
use gigachat::name_map::NameMap;
use gigachat::render::{ascii_words, clicked_name, badge_tooltip, link_target, message_color, message_pieces, Piece};

fn s(x: &str) -> String {
    x.to_string()
}

fn describe(p: &Piece) -> String {
    match p {
        Piece::NewRow => s("|"),
        Piece::Emote(n) => format!("emote:{n}"),
        Piece::Link { text, url } => format!("link:{text}->{url}"),
        Piece::Mention(m) => format!("mention:{m}"),
        Piece::Text { text, monospace, italic } => {
            format!("text:{text}{}{}", if *monospace { "/mono" } else { "" }, if *italic { "/italic" } else { "" })
        },
    }
}

fn pieces(message: &str, emotes: &NameMap<&Emote>, mentions: &Option<Vec<String>>) -> Vec<String> {
    message_pieces(message, emotes, mentions).iter().map(describe).collect()
}

#[test]
fn words_between_ascii_whitespace() {
    assert_eq!(ascii_words("  a\tbc \n d  "), vec![s("a"), s("bc"), s("d")]);
    assert!(ascii_words("   ").is_empty());
}

#[test]
fn words_become_emotes_links_mentions_and_text() {
    let kappa = Emote { name: s("Kappa"), ..Emote::default() };
    let mut emotes: NameMap<&Emote> = NameMap::new();
    emotes.insert(s("Kappa"), &kappa);
    let mentions = Some(vec![s("Bob")]);
    assert_eq!(
        pieces("hey @bob Kappa see https://x.io", &emotes, &mentions),
        vec![s("text:hey"), s("mention:Bob"), s("emote:Kappa"), s("text:see"), s("link:https://x.io->https://x.io")]
    );
}

#[test]
fn action_makes_the_rest_italic() {
    let emotes: NameMap<&Emote> = NameMap::new();
    assert_eq!(pieces("ACTION waves", &emotes, &None), vec![s("text:waves/italic")]);
}

#[test]
fn ascii_art_lines_get_rows_of_their_own() {
    let emotes: NameMap<&Emote> = NameMap::new();
    let line = "#################";
    let msg = format!("art {line} {line} {line} {line} {line} done");
    let mut want = vec![s("text:art")];
    for _ in 0..5 {
        want.push(s("|"));
        want.push(format!("text:{line}/mono"));
    }
    want.push(s("text:done"));
    assert_eq!(pieces(&msg, &emotes, &None), want);
}

#[test]
fn words_colored_by_message() {
    let mut m = ChatMessage {
        provider: ProviderName::DGG,
        channel: s("Destiny"),
        username: s("bob"),
        timestamp: 0,
        message: s(">implying"),
        profile: UserProfile { badges: None, display_name: None, color: None },
        combo_data: None,
        is_removed: None,
        msg_type: MessageType::Chat,
    };
    assert_eq!(message_color(&m), (99, 151, 37));
    m.provider = ProviderName::Twitch;
    assert_eq!(message_color(&m), (210, 210, 210));
    m.is_removed = Some(s("<message deleted>"));
    assert_eq!(message_color(&m), (180, 180, 180));
}

#[test]
fn embed_links_lead_to_the_stream() {
    assert_eq!(link_target(ProviderName::DGG, "#twitch/xqc"), s("https://twitch.tv/xqc"));
    assert_eq!(link_target(ProviderName::DGG, "#youtube/abc"), s("https://www.youtube.com/watch?v=abc"));
    assert_eq!(link_target(ProviderName::DGG, "https://a.b/c"), s("https://a.b/c"));
    assert_eq!(link_target(ProviderName::Twitch, "#twitch/xqc"), s("#twitch/xqc"));
}

#[test]
fn badge_tooltips() {
    assert_eq!(badge_tooltip(ProviderName::Twitch, "subscriber/3012", &None), Some(s("12 Month Sub (T3)")));
    assert_eq!(badge_tooltip(ProviderName::Twitch, "subscriber/6", &None), Some(s("6 Month Sub (T1)")));
    assert_eq!(badge_tooltip(ProviderName::Twitch, "sub-gifter/50", &None), Some(s("50\nGift Subs")));
    assert_eq!(badge_tooltip(ProviderName::Twitch, "bits/100", &None), Some(s("100 Bits")));
    assert_eq!(badge_tooltip(ProviderName::Twitch, "moderator/1", &None), Some(s("moderator")));
    assert_eq!(badge_tooltip(ProviderName::Twitch, "odd", &None), Some(s("")));
    assert_eq!(badge_tooltip(ProviderName::DGG, "flair3", &Some(s("Tier 3"))), Some(s("Tier 3")));
    assert_eq!(badge_tooltip(ProviderName::DGG, "flair3", &None), Some(s("flair3")));
    assert_eq!(badge_tooltip(ProviderName::YouTube, "x", &None), None);
}

#[test]
fn combo_line_lists_each_user_once() {
    let red = (255, 0, 0);
    let blue = (0, 0, 255);
    let combo = ComboCounter {
        word: s("Kappa"),
        count: 4,
        is_new: false,
        is_end: true,
        users: vec![(s("bob"), red), (s("amy"), blue), (s("bob"), red), (s("bob"), blue)],
    };
    assert_eq!(combo_line_users(&combo), vec![(s("bob"), red), (s("amy"), blue), (s("bob"), blue)]);
}

#[test]
fn clicking_a_name_selects_it_in_lower_case() {
    assert_eq!(clicked_name("BobRoss"), s("bobross"));
}
