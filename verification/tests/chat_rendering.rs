use std::collections::VecDeque;

use gigachat::animation::{frame_at, gif_frame_time, sprite_frames, total_duration, webp_frame_time};
use gigachat::chat::{is_start_of_ascii_art, is_url};
use gigachat::combo::{combo_calculator, push_history};
use gigachat::model::{
    ChatMessage, ComboCounter, CssAnimationData, Emote, MessageType, ProviderName, UserProfile,
};
use gigachat::name_map::NameMap;

fn s(x: &str) -> String {
    x.to_string()
}

fn msg(channel: &str, user: &str, text: &str) -> ChatMessage {
    ChatMessage {
        provider: ProviderName::Twitch,
        channel: s(channel),
        username: s(user),
        timestamp: 0,
        message: s(text),
        profile: UserProfile { badges: None, display_name: None, color: None },
        combo_data: None,
        is_removed: None,
        msg_type: MessageType::Chat,
    }
}

fn emote(name: &str) -> Emote {
    let mut e = Emote::default();
    e.name = s(name);
    e
}

#[test]
fn combo_starts_and_grows() {
    let first = combo_calculator(&msg("c", "ann", " Kappa "), None).unwrap();
    assert_eq!(first.word, "Kappa");
    assert_eq!(first.count, 1);
    assert!(first.is_new);
    assert!(first.is_end);
    assert_eq!(first.users, vec![(s("ann"), (255, 255, 255))]);

    let second = combo_calculator(&msg("c", "bob", "Kappa"), Some(&first)).unwrap();
    assert_eq!(second.word, "Kappa");
    assert_eq!(second.count, 2);
    assert!(!second.is_new);
    assert!(second.is_end);
    assert_eq!(second.users.len(), 2);
    assert_eq!(second.users[1].0, "bob");

    // a different word starts over
    let other = combo_calculator(&msg("c", "bob", "LUL"), Some(&second)).unwrap();
    assert_eq!(other.count, 1);
    assert!(other.is_new);

    // a message of several words is no combo
    assert!(combo_calculator(&msg("c", "bob", "Kappa Kappa"), None).is_none());
}

#[test]
fn history_push_links_combos() {
    let mut global = NameMap::new();
    global.insert(s("Kappa"), emote("Kappa"));
    let mut history: VecDeque<ChatMessage> = VecDeque::new();

    push_history(&mut history, msg("c", "ann", "Kappa"), None, None, &global);
    assert_eq!(history.len(), 1);
    assert_eq!(history[0].combo_data.as_ref().unwrap().count, 1);

    push_history(&mut history, msg("c", "bob", "Kappa"), None, None, &global);
    assert_eq!(history.len(), 2);
    let last = history[1].combo_data.as_ref().unwrap();
    assert_eq!(last.count, 2);
    assert!(!last.is_new);
    // the earlier line no longer ends the combo
    assert!(!history[0].combo_data.as_ref().unwrap().is_end);

    // plain text carries no combo and leaves earlier lines alone
    push_history(&mut history, msg("c", "cat", "hello there"), None, None, &global);
    assert_eq!(history.len(), 3);
    assert!(history[2].combo_data.is_none());
    assert_eq!(history[1].combo_data.as_ref().unwrap().count, 2);
}

#[test]
fn single_line_combo_is_cleared_when_broken() {
    let mut global = NameMap::new();
    global.insert(s("Kappa"), emote("Kappa"));
    global.insert(s("LUL"), emote("LUL"));
    let mut history: VecDeque<ChatMessage> = VecDeque::new();
    push_history(&mut history, msg("c", "ann", "Kappa"), None, None, &global);
    push_history(&mut history, msg("c", "bob", "LUL"), None, None, &global);
    assert!(history[0].combo_data.is_none());
    assert_eq!(history[1].combo_data.as_ref().unwrap().word, "LUL");
}

#[test]
fn urls_and_ascii_art() {
    assert!(is_url("https://example.com"));
    assert!(is_url("#twitch"));
    assert!(is_url("#youtube"));
    assert!(!is_url("hello"));
    assert!(!is_url("ttp"));

    let line = s("0123456789abcdef");
    let words = vec![line.clone(), line.clone(), line.clone(), line.clone(), line.clone()];
    let none: NameMap<&Emote> = NameMap::new();
    assert_eq!(is_start_of_ascii_art(&words, 0, &none), Some(16));
    let short = vec![line.clone(), line.clone(), line.clone(), line.clone()];
    assert_eq!(is_start_of_ascii_art(&short, 0, &none), None);
    let mut uneven = words.clone();
    uneven[3] = s("0123456789abcdefg");
    assert_eq!(is_start_of_ascii_art(&uneven, 0, &none), None);
    let narrow = vec![s("abc"), s("abc"), s("abc"), s("abc"), s("abc")];
    assert_eq!(is_start_of_ascii_art(&narrow, 0, &none), None);
}

#[test]
fn animation_frames() {
    let delays = vec![100u16, 100, 100];
    assert_eq!(total_duration(&delays), 300);
    assert_eq!(frame_at(&delays, 300, 0, 150), (Some(1), Some(150)));
    assert_eq!(frame_at(&delays, 300, 1, 0), (Some(0), Some(100)));
    assert_eq!(frame_at(&delays, 0, 1, 0), (Some(0), None));
    assert_eq!(gif_frame_time(0), 100);
    assert_eq!(gif_frame_time(1), 100);
    assert_eq!(gif_frame_time(5), 50);
    assert_eq!(webp_frame_time(250, 100), (150, 250));
    assert_eq!(webp_frame_time(105, 100), (100, 105));
}

#[test]
fn sprite_sheet_frames() {
    let data = CssAnimationData { width: 100, cycle_time_msec: 900, steps: 3 };
    assert_eq!(sprite_frames(300, &data), vec![(0, 100, 300), (100, 100, 300), (200, 100, 300)]);
    let one = CssAnimationData { width: 64, cycle_time_msec: 500, steps: 1 };
    assert_eq!(sprite_frames(64, &one), vec![(0, 64, 500)]);
}

#[test]
fn combo_counter_fields() {
    let c = ComboCounter { word: s("x"), count: 3, is_new: false, is_end: true, users: vec![] };
    let next = combo_calculator(&msg("c", "d", "x"), Some(&c)).unwrap();
    assert_eq!(next.count, 4);
}
