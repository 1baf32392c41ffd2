use gigachat::emote_json::{
    badge_json_usable, emote_json_usable, follower_json_usable, plain_text_of, process_badge_json,
    process_emote_json, process_twitch_follower_emote_json, replace_chars,
};
use gigachat::emotes::{emotes_by_name, insert_by_name, load_emote_data, skip_emote_set, EmoteLoader};
use gigachat::json::{json_field, json_item, json_is_null, json_text, Json, JsonKind};
use gigachat::model::{Emote, EmoteRequest, EmoteSource, EmoteStatus};
use gigachat::name_map::NameMap;
use serde_json::Value;

fn s(x: &str) -> String {
    x.to_string()
}

fn conv(v: &Value) -> Json {
    let kind = match v {
        Value::Null => JsonKind::Null,
        Value::Bool(b) => JsonKind::Bool(*b),
        Value::Number(_) => JsonKind::Number,
        Value::String(t) => JsonKind::Str(t.clone()),
        Value::Array(xs) => JsonKind::Array(xs.iter().map(conv).collect()),
        Value::Object(m) => JsonKind::Object(m.iter().map(|(k, x)| (k.clone(), conv(x))).collect()),
    };
    Json { text: v.to_string(), kind }
}

fn parse(text: &str) -> Json {
    conv(&serde_json::from_str::<Value>(text).unwrap())
}

fn emote(name: &str, id: &str) -> Emote {
    let mut e = Emote::default();
    e.name = s(name);
    e.id = s(id);
    e
}

#[test]
fn json_indexing() {
    let v = parse(r#"{"a":{"b":[1,"two",null]},"c":"x"}"#);
    let b = json_field(json_field(Some(&v), "a"), "b");
    assert_eq!(json_text(json_item(b, 0)), "1");
    assert_eq!(json_text(json_item(b, 1)), "\"two\"");
    assert!(json_is_null(json_item(b, 2)));
    assert!(json_is_null(json_item(b, 3)));
    assert_eq!(json_text(json_field(Some(&v), "missing")), "null");
    assert_eq!(plain_text_of(json_field(Some(&v), "c")), "x");
    assert_eq!(plain_text_of(json_item(b, 0)), "1");
    // a quote inside a string is kept with its escape, as the lists read it
    let q = parse(r#"{"name":"a\"b"}"#);
    assert_eq!(plain_text_of(json_field(Some(&q), "name")), "a\\\"b");
}

#[test]
fn replace_every_occurrence() {
    let r = replace_chars(
        &"a/static/b/static/".chars().collect::<Vec<char>>(),
        &"/static/".chars().collect::<Vec<char>>(),
        &"/animated/".chars().collect::<Vec<char>>(),
    );
    assert_eq!(r.into_iter().collect::<String>(), "a/animated/b/animated/");
    let r = replace_chars(&"aaa".chars().collect::<Vec<char>>(), &['a', 'a'], &['b']);
    assert_eq!(r.into_iter().collect::<String>(), "ba");
}

#[test]
fn twitch_emote_list() {
    let v = parse(
        r#"{"data":[
            {"id":"25","name":"Kappa","format":["static"],
             "images":{"url_1x":"one","url_2x":"https://cdn/emoticons/v2/25/static/light/2.0"}},
            {"id":"1","name":"Anim","format":["static","animated"],
             "images":{"url_2x":"https://cdn/emoticons/v2/1/static/light/2.0"}}]}"#,
    );
    assert!(emote_json_usable(&v));
    let r = process_emote_json(&v);
    assert_eq!(r.len(), 2);
    assert_eq!(r[0].name, "Kappa");
    assert_eq!(r[0].id, "25");
    assert_eq!(r[0].url, "https://cdn/emoticons/v2/25/static/light/2.0");
    assert_eq!(r[0].path, "twitch/");
    assert_eq!(r[0].extension, Some(s("png")));
    assert_eq!(r[1].url, "https://cdn/emoticons/v2/1/animated/light/2.0");
    assert_eq!(r[1].extension, Some(s("gif")));
    assert_eq!(r[1].loaded, EmoteStatus::NotLoaded);
    assert!(!r[1].zero_width);
}

#[test]
fn twitch_entry_without_formats_cannot_be_read() {
    let v = parse(r#"{"data":[{"id":"1","name":"x"}]}"#);
    assert!(!emote_json_usable(&v));
}

#[test]
fn bttv_channel_list() {
    let v = parse(
        r#"{"id":"chan","channelEmotes":[{"id":"abc","code":"catJAM","imageType":"gif"}],
            "sharedEmotes":[{"id":"def","code":"pepeD","imageType":"png"}]}"#,
    );
    assert!(emote_json_usable(&v));
    let r = process_emote_json(&v);
    assert_eq!(r.len(), 2);
    assert_eq!(r[0].name, "catJAM");
    assert_eq!(r[0].url, "https://cdn.betterttv.net/emote/abc/2x");
    assert_eq!(r[0].path, "bttv/");
    assert_eq!(r[0].extension, Some(s("gif")));
    assert_eq!(r[1].name, "pepeD");
    assert_eq!(r[1].id, "def");
    assert_eq!(r[1].extension, Some(s("png")));
    let bad = parse(r#"{"channelEmotes":[]}"#);
    assert!(!emote_json_usable(&bad));
}

#[test]
fn ffz_room_list() {
    let v = parse(
        r#"{"room":{"set":123},"sets":{"123":{"emoticons":[
            {"id":456,"name":"OMEGALUL","urls":{"1":"//cdn.ffz/emote/456/1","2":"//cdn.ffz/emote/456/2"}},
            {"id":7,"name":"Small","urls":{"1":"//cdn.ffz/emote/7/1"}}]}}}"#,
    );
    assert!(emote_json_usable(&v));
    let r = process_emote_json(&v);
    assert_eq!(r.len(), 2);
    assert_eq!(r[0].name, "OMEGALUL");
    assert_eq!(r[0].id, "456");
    assert_eq!(r[0].url, "https://cdn.ffz/emote/456/2");
    assert_eq!(r[0].path, "ffz/");
    assert_eq!(r[0].extension, None);
    assert_eq!(r[1].url, "https://cdn.ffz/emote/7/1");
}

#[test]
fn global_bttv_and_7tv_list() {
    let v = parse(
        r#"[{"id":"g1","code":"LULW","imageType":"png"},
            {"id":"7a","name":"Zero","urls":[["1","https://7tv/1x"],["2","https://7tv/2x"]],
             "visibility_simple":["ZERO_WIDTH"]},
            {"other":1},
            {"id":"7b","name":"Plain","urls":[["2","https://7tv/b2"]]}]"#,
    );
    assert!(emote_json_usable(&v));
    let r = process_emote_json(&v);
    assert_eq!(r.len(), 3);
    assert_eq!(r[0].name, "LULW");
    assert_eq!(r[0].url, "https://cdn.betterttv.net/emote/g1/2x");
    assert_eq!(r[1].name, "Zero");
    assert_eq!(r[1].url, "https://7tv/2x");
    assert_eq!(r[1].path, "7tv/");
    assert!(r[1].zero_width);
    assert_eq!(r[2].name, "Plain");
    assert!(!r[2].zero_width);
    let no_size = parse(r#"[{"id":"x","name":"NoSize","urls":[["1","https://7tv/1x"]]}]"#);
    assert!(!emote_json_usable(&no_size));
}

#[test]
fn unknown_document_gives_nothing() {
    let v = parse(r#"{"foo":1}"#);
    assert!(emote_json_usable(&v));
    assert!(process_emote_json(&v).is_empty());
    let empty = parse("[]");
    assert!(process_emote_json(&empty).is_empty());
}

#[test]
fn follower_emotes_only() {
    let v = parse(
        r#"{"data":[
            {"id":"1","name":"A","emote_type":"follower","format":["static"],"images":{"url_4x":"u4"}},
            {"id":"2","name":"B","emote_type":"subscriptions"}]}"#,
    );
    assert!(follower_json_usable(&v));
    let r = process_twitch_follower_emote_json(&v);
    assert_eq!(r.len(), 1);
    assert_eq!(r[0].name, "A");
    assert_eq!(r[0].url, "u4");
    assert_eq!(r[0].extension, Some(s("png")));
    let bad = parse(r#"{"data":[{"id":"1","name":"A","emote_type":"follower"}]}"#);
    assert!(!follower_json_usable(&bad));
}

#[test]
fn badge_list() {
    let v = parse(
        r#"{"data":[
            {"set_id":"subscriber","versions":[{"id":"0","image_url_4x":"https://b/0"},{"id":"3","image_url_4x":"https://b/3"}]},
            {"set_id":"vip","versions":[{"id":"1","image_url_4x":"https://v/1"}]}]}"#,
    );
    assert!(badge_json_usable(&v));
    let r = process_badge_json("1234", &v);
    assert_eq!(r.len(), 3);
    assert_eq!(r[0].name, "subscriber/0");
    assert_eq!(r[0].id, "1234__subscriber__0");
    assert_eq!(r[0].url, "https://b/0");
    assert_eq!(r[0].path, "twitch-badge/");
    assert_eq!(r[1].name, "subscriber/3");
    assert_eq!(r[2].name, "vip/1");
    assert_eq!(r[2].id, "1234__vip__1");
    let bad = parse(r#"{"data":[{"set_id":"x","versions":[{"id":1}]}]}"#);
    assert!(!badge_json_usable(&bad));
    assert!(process_badge_json("1", &parse(r#"{"other":[]}"#)).is_empty());
}

#[test]
fn emote_requests_are_made_once() {
    let mut loader = EmoteLoader::new();
    let e = emote("Kappa", "25");
    let first = e.request_if_not_loaded(&mut loader);
    match first {
        Some(EmoteRequest::ChannelEmoteImage { name, id, .. }) => {
            assert_eq!(name, "Kappa");
            assert_eq!(id, "25");
        },
        other => panic!("unexpected request {:?}", other),
    }
    assert!(e.request_if_not_loaded(&mut loader).is_none());

    let mut loaded = emote("Kappa", "25");
    load_emote_data(&mut loaded, Some(vec![30, 40]), &mut loader);
    assert_eq!(loaded.loaded, EmoteStatus::Loaded);
    assert_eq!(loaded.duration_msec, 70);
    assert_eq!(loaded.frame_delays, Some(vec![30, 40]));
    assert!(loaded.request_if_not_loaded(&mut loader).is_none());
    // once loaded, a new request for the name goes out again
    let again = emote("Kappa", "25");
    assert!(again.request_if_not_loaded(&mut loader).is_some());
}

#[test]
fn request_kind_follows_source() {
    let mut e = emote("x", "9");
    e.source = EmoteSource::Twitch;
    match e.get_emote_request() {
        EmoteRequest::TwitchMsgEmoteImage { name, id } => {
            assert_eq!(name, "x");
            assert_eq!(id, "9");
        },
        other => panic!("unexpected request {:?}", other),
    }
    e.source = EmoteSource::GlobalBadge;
    e.url = s("https://u");
    match e.get_emote_request() {
        EmoteRequest::GlobalBadgeImage { url, .. } => assert_eq!(url, "https://u"),
        other => panic!("unexpected request {:?}", other),
    }
}

#[test]
fn emote_maps_keep_the_last_of_a_name() {
    let mut m = NameMap::new();
    insert_by_name(&mut m, vec![emote("a", "1"), emote("b", "2"), emote("a", "3")]);
    assert_eq!(m.len(), 2);
    assert_eq!(m.get("a").unwrap().id, "3");
    let merged = emotes_by_name(vec![vec![emote("a", "1")], vec![emote("a", "2"), emote("c", "4")]]);
    assert_eq!(merged.len(), 2);
    assert_eq!(merged.get("a").unwrap().id, "2");
    assert_eq!(merged.key_at(0), "a");
    assert_eq!(merged.key_at(1), "c");
}

#[test]
fn emote_sets_skipped() {
    assert!(!skip_emote_set("1234"));
    assert!(skip_emote_set("abc:1"));
    assert!(skip_emote_set("a-b"));
    assert!(skip_emote_set("emotesv2_abc"));
}

#[test]
fn name_map_keeps_insertion_order() {
    let mut m: NameMap<u32> = NameMap::new();
    assert!(m.is_empty());
    m.insert(s("a"), 1);
    m.insert(s("b"), 2);
    m.insert(s("c"), 3);
    m.insert(s("b"), 20);
    assert_eq!(m.len(), 3);
    assert_eq!(m.get("b"), Some(&20));
    assert_eq!(m.position("c"), Some(2));
    m.remove("b");
    assert_eq!(m.len(), 2);
    assert_eq!(m.position("c"), Some(1));
    assert_eq!(m.get("b"), None);
    assert!(!m.contains_key("b"));
    assert_eq!(m.replace_at(0, 10), 1);
    *m.value_mut_at(1) += 1;
    let (keys, vals) = m.into_entries();
    assert_eq!(keys, vec![s("a"), s("c")]);
    assert_eq!(vals, vec![10, 4]);
}
