use gigachat::tabs::{live_for_label, move_tab, tab_label, tab_order_changed};

fn s(x: &str) -> String {
    x.to_string()
}

#[test]
fn long_names_are_cut() {
    assert_eq!(tab_label("forsen"), s("forsen"));
    assert_eq!(tab_label("sixteen_letters!"), s("sixteen_letters!"));
    assert_eq!(tab_label("seventeen_letters"), s("seventeen_lette.."));
}

#[test]
fn live_time_is_days_hours_minutes_seconds() {
    assert_eq!(live_for_label(0), s("Live for 00:00:00:00"));
    assert_eq!(live_for_label(3_725), s("Live for 00:01:02:05"));
    // the hour count is taken modulo 60, so a day and an hour read 25 hours
    assert_eq!(live_for_label(90_061), s("Live for 01:25:01:01"));
    assert_eq!(live_for_label(1_000_000), s("Live for 11:37:46:40"));
    // a start time in the future gives negative parts
    assert_eq!(live_for_label(-61), s("Live for 00:00:-1:-1"));
}

#[test]
fn dragging_a_tab_along_the_row() {
    let start = vec![s("a"), s("b"), s("c")];
    let mut tabs = start.clone();
    move_tab(&mut tabs, &s("a"), true);
    assert_eq!(tabs, vec![s("b"), s("a"), s("c")]);
    assert!(tab_order_changed(&tabs, &start));
    move_tab(&mut tabs, &s("a"), false);
    assert_eq!(tabs, start);
    assert!(!tab_order_changed(&tabs, &start));
    // at the ends, or not in the row, a tab stays
    move_tab(&mut tabs, &s("c"), true);
    move_tab(&mut tabs, &s("a"), false);
    move_tab(&mut tabs, &s("zz"), true);
    assert_eq!(tabs, start);
    assert!(tab_order_changed(&vec![s("a")], &start));
}
