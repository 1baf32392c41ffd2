use gigachat::css::{css_anim_data, css_anim_entries_checked, parse_isize, parse_u32};

fn s(x: &str) -> String {
    x.to_string()
}

const CSS: &str = ".emote.PEPE { background: none; width: 28px; animation: pepe-anim 1.5s steps(4) infinite;}\n\
.emote.WAVE { width: 30px; animation: wave 800ms steps(10);}\n\
.emote.STILL { width: 20px; animation: still 1s;}\n\
.emote.ODD { width: 10px; animation: odd steps(3);}\n\
.emote.PEPE { width: 56px; animation: pepe-anim 2s steps(8) infinite;}\n";

#[test]
fn rules_with_width_and_steps_are_read() {
    let entries = css_anim_entries_checked(CSS).unwrap();
    let read: Vec<(String, u32, isize, (String, String))> = entries.clone();
    assert_eq!(
        read,
        vec![
            (s("PEPE"), 28, 4, (s("1.5"), s("s"))),
            (s("WAVE"), 30, 10, (s("800"), s("ms"))),
            (s("ODD"), 10, 3, (s(""), s("s"))),
            (s("PEPE"), 56, 8, (s("2"), s("s"))),
        ]
    );
}

#[test]
fn later_rules_win_and_missing_times_count_thirty_ms_a_step() {
    let entries = css_anim_entries_checked(CSS).unwrap();
    let times: Vec<Option<isize>> = entries
        .iter()
        .map(|(_, _, _, (t, u))| t.parse::<f32>().ok().map(|t| if u == "ms" { t as isize } else { (t * 1000.) as isize }))
        .collect();
    let m = css_anim_data(&entries, &times);
    assert_eq!(m.len(), 3);
    let pepe = m.get("PEPE").unwrap();
    assert_eq!((pepe.width, pepe.cycle_time_msec, pepe.steps), (56, 2000, 8));
    let wave = m.get("WAVE").unwrap();
    assert_eq!((wave.width, wave.cycle_time_msec, wave.steps), (30, 800, 10));
    let odd = m.get("ODD").unwrap();
    assert_eq!((odd.width, odd.cycle_time_msec, odd.steps), (10, 90, 3));
    assert!(m.get("STILL").is_none());
}

#[test]
fn a_rule_without_a_time_cannot_be_read() {
    assert!(css_anim_entries_checked(".emote.X { width: 10px; animation: x y;}").is_none());
    assert_eq!(css_anim_entries_checked("no rules here"), Some(vec![]));
}

#[test]
fn numbers_read_like_str_parse() {
    assert_eq!(parse_u32("28"), Some(28));
    assert_eq!(parse_u32("+7"), Some(7));
    assert_eq!(parse_u32("4294967296"), None);
    assert_eq!(parse_isize("-12"), Some(-12));
    assert_eq!(parse_isize("+3"), Some(3));
    assert_eq!(parse_isize("-+3"), None);
    assert_eq!(parse_isize("-"), None);
    assert_eq!(parse_isize(""), None);
    assert_eq!(parse_isize("9223372036854775807"), Some(isize::MAX));
    assert_eq!(parse_isize("-9223372036854775808"), Some(isize::MIN));
    assert_eq!(parse_isize("9223372036854775808"), None);
}
