//! The channel tabs: which tabs are shown, what a tab reads, and how long a
//! live channel has been live.

use vstd::prelude::*;
use vstd::utf8::{encode_utf8, is_char_boundary};
use crate::animation::trunc_div;
use crate::channel::Channel;
use crate::chat::byte_len;
use crate::numbers::{decimal_text, push_decimal};
use crate::state::ChatState;
use crate::text::{push_str, str_eq, views};

verus! {

/// Whether a channel is live, by its last known status.
pub open spec fn is_live(c: Channel) -> bool {
    c.spec_shared().transient matches Some(t) && t.status matches Some(st) && st.is_live
}

/// A tab is shown in the tab row unless its channel is shown in the right-hand
/// panel; when offline channels are hidden, only a channel that is live or
/// set to always show its tab keeps it.
pub open spec fn tab_shown(s: ChatState, channel: Seq<char>, rhs: Option<Seq<char>>, hide_offline: bool) -> bool {
    rhs != Some(channel) && (!hide_offline || (s.channels@.contains_key(channel) && (
        s.channels@[channel].spec_shared().show_tab_when_offline || is_live(s.channels@[channel]))))
}

impl ChatState {
    /// Whether the tab of a channel is shown in the tab row.
    pub fn show_tab(&self, channel: &String, rhs_selected: Option<&String>, hide_offline_chats: bool) -> (r: bool)
        requires
            self.wf(),
        ensures
            r == tab_shown(*self, channel@, match rhs_selected {
                Some(c) => Some(c@),
                None => None,
            }, hide_offline_chats),
    {
        let in_rhs = match rhs_selected {
            Some(c) => str_eq(c.as_str(), channel.as_str()),
            None => false,
        };
        if in_rhs {
            return false;
        }
        if !hide_offline_chats {
            return true;
        }
        match self.channels.get(channel.as_str()) {
            None => false,
            Some(c) => {
                let sh = c.shared();
                sh.show_tab_when_offline || match &sh.transient {
                    Some(t) => match &t.status {
                        Some(st) => st.is_live,
                        None => false,
                    },
                    None => false,
                }
            },
        }
    }
}

/// A tab names its channel; a name longer than 16 bytes is cut to its first
/// 15 bytes and "..".
pub open spec fn tab_label_ok(name: Seq<char>, r: Seq<char>) -> bool {
    if byte_len(name) > 16 {
        r.len() >= 2 && r.subrange(r.len() - 2, r.len() as int) == ".."@
            && encode_utf8(r.take(r.len() - 2)) == encode_utf8(name).subrange(0, 15)
    } else {
        r == name
    }
}

/// The text of a channel's tab. A long name must not have a character
/// across its 15th byte.
pub fn tab_label(name: &str) -> (r: String)
    requires
        byte_len(name@) > 16 ==> is_char_boundary(encode_utf8(name@), 15),
    ensures
        tab_label_ok(name@, r@),
{
    let mut r = String::new();
    if name.len() > 16 {
        let (head, _) = name.split_at(15);
        push_str(&mut r, head);
        let ghost h = r@;
        push_str(&mut r, "..");
        proof {
            reveal_strlit("..");
            assert(r@.take(r@.len() - 2) == h);
            assert(r@.subrange(r@.len() - 2, r@.len() as int) == ".."@);
            assert(encode_utf8(head@) == encode_utf8(name@).subrange(0, 15));
        }
    } else {
        push_str(&mut r, name);
        assert(r@ =~= name@);
    }
    r
}

/// The remainder of Rust's `%` on signed integers: the sign of the dividend.
pub open spec fn trunc_rem(a: int, b: int) -> int {
    a - trunc_div(a, b) * b
}

/// A number written with at least two digits, a negative one with its sign,
/// as `{:02}` writes it.
pub open spec fn pad2(v: int) -> Seq<char> {
    if v < 0 {
        "-"@ + decimal_text((-v) as nat)
    } else if v < 10 {
        "0"@ + decimal_text(v as nat)
    } else {
        decimal_text(v as nat)
    }
}

/// How long a channel has been live, from the seconds since its stream
/// started: days, hours, minutes and seconds, each worked out as
/// `d / 60 / 60 / 24`, `d / 60 / 60 % 60`, `d / 60 % 60` and `d % 60` on
/// signed integers.
pub open spec fn live_for(d: int) -> Seq<char> {
    let m = trunc_div(d, 60);
    let h = trunc_div(m, 60);
    "Live for "@ + pad2(trunc_div(h, 24)) + ":"@ + pad2(trunc_rem(h, 60)) + ":"@ + pad2(trunc_rem(m, 60)) + ":"@
        + pad2(trunc_rem(d, 60))
}

fn tdiv(a: i64, b: i64) -> (r: i64)
    requires
        b >= 2,
    ensures
        r == trunc_div(a as int, b as int),
        a >= 0 ==> 0 <= r * b <= a,
        a < 0 ==> a <= r * b <= 0,
{
    let aa: i128 = if a >= 0 { a as i128 } else { -(a as i128) };
    let bb: i128 = b as i128;
    let q: i128 = aa / bb;
    assert(0 <= q <= aa / 2) by (nonlinear_arith)
        requires q == aa / bb, aa >= 0, bb >= 2;
    assert(0 <= q * bb <= aa) by (nonlinear_arith)
        requires q == aa / bb, aa >= 0, bb >= 2;
    if a >= 0 {
        q as i64
    } else {
        assert((-q) * bb == -(q * bb)) by (nonlinear_arith);
        (-q) as i64
    }
}

fn trem(a: i64, b: i64) -> (r: i64)
    requires
        b >= 2,
    ensures
        r == trunc_rem(a as int, b as int),
{
    let q = tdiv(a, b);
    let p: i128 = (q as i128) * (b as i128);
    assert(p == q * b);
    (a as i128 - p) as i64
}

fn push_pad2(s: &mut String, v: i64)
    ensures
        final(s)@ == old(s)@ + pad2(v as int),
{
    if v < 0 {
        push_str(s, "-");
        let n: i128 = -(v as i128);
        push_decimal(s, n as u128);
    } else if v < 10 {
        push_str(s, "0");
        push_decimal(s, v as u128);
    } else {
        push_decimal(s, v as u128);
    }
}

/// The text telling how long a live channel has been live, from the seconds
/// since its stream started.
pub fn live_for_label(seconds: i64) -> (r: String)
    ensures
        r@ == live_for(seconds as int),
{
    let m = tdiv(seconds, 60);
    let h = tdiv(m, 60);
    let mut r = String::new();
    push_str(&mut r, "Live for ");
    push_pad2(&mut r, tdiv(h, 24));
    push_str(&mut r, ":");
    push_pad2(&mut r, trem(h, 60));
    push_str(&mut r, ":");
    push_pad2(&mut r, trem(m, 60));
    push_str(&mut r, ":");
    push_pad2(&mut r, trem(seconds, 60));
    r
}

/// The position of the first tab of a channel in the tab row.
pub open spec fn first_tab(tabs: Seq<Seq<char>>, channel: Seq<char>) -> Option<int> {
    if exists|i: int| 0 <= i < tabs.len() && tabs[i] == channel {
        Some(choose|i: int| 0 <= i < tabs.len() && tabs[i] == channel && forall|j: int| 0 <= j < i ==> tabs[j] != channel)
    } else {
        None
    }
}

fn tab_position(tabs: &Vec<String>, channel: &String) -> (r: Option<usize>)
    ensures
        match r {
            Some(i) => i < tabs@.len() && views(tabs@)[i as int] == channel@
                && forall|j: int| 0 <= j < i ==> views(tabs@)[j] != channel@,
            None => forall|j: int| 0 <= j < tabs@.len() ==> views(tabs@)[j] != channel@,
        },
{
    let mut i: usize = 0;
    while i < tabs.len()
        invariant
            i <= tabs@.len(),
            forall|j: int| 0 <= j < i ==> views(tabs@)[j] != channel@,
        decreases tabs@.len() - i,
    {
        assert(views(tabs@)[i as int] == tabs@[i as int]@);
        if str_eq(tabs[i].as_str(), channel.as_str()) {
            return Some(i);
        }
        i += 1;
    }
    None
}

/// A dragged tab moved one place along the tab row: toward the end when
/// `forward`, else toward the start; a tab already at that end, or not in
/// the row, stays.
pub open spec fn tab_moved(tabs: Seq<Seq<char>>, n: Seq<Seq<char>>, channel: Seq<char>, forward: bool) -> bool {
    match first_tab(tabs, channel) {
        Some(i) => if forward && i + 1 < tabs.len() {
            n == tabs.update(i, tabs[i + 1]).update(i + 1, tabs[i])
        } else if !forward && i > 0 {
            n == tabs.update(i, tabs[i - 1]).update(i - 1, tabs[i])
        } else {
            n == tabs
        },
        None => n == tabs,
    }
}

/// Moves a dragged tab one place along the tab row.
pub fn move_tab(tabs: &mut Vec<String>, channel: &String, forward: bool)
    ensures
        tab_moved(views(old(tabs)@), views(final(tabs)@), channel@, forward),
{
    let ghost t = views(tabs@);
    let p = tab_position(tabs, channel);
    proof {
        match p {
            Some(i) => {
                assert(exists|k: int| 0 <= k < t.len() && t[k] == channel@);
                let c = choose|k: int| 0 <= k < t.len() && t[k] == channel@ && forall|j: int| 0 <= j < k ==> t[j] != channel@;
                assert(exists|k: int| 0 <= k < t.len() && t[k] == channel@ && forall|j: int| 0 <= j < k ==> t[j] != channel@);
                if c < i as int {
                } else if c > i as int {
                    assert(t[i as int] == channel@);
                }
                assert(first_tab(t, channel@) == Some(i as int));
            },
            None => {},
        }
    }
    match p {
        Some(i) => {
            if forward && i < tabs.len() - 1 {
                let a = tabs[i].clone();
                let b = tabs[i + 1].clone();
                tabs.set(i, b);
                tabs.set(i + 1, a);
                assert(views(tabs@) =~= t.update(i as int, t[i + 1]).update(i + 1, t[i as int]));
            } else if !forward && i > 0 {
                let a = tabs[i - 1].clone();
                let b = tabs[i].clone();
                tabs.set(i - 1, b);
                tabs.set(i, a);
                assert(views(tabs@) =~= t.update(i as int, t[i - 1]).update(i - 1, t[i as int]));
            }
        },
        None => {},
    }
}

/// Whether the tab row differs from the one a drag started with, which
/// decides what dropping the tab does.
pub fn tab_order_changed(tabs: &Vec<String>, drag_start: &Vec<String>) -> (r: bool)
    ensures
        r == (views(tabs@) != views(drag_start@)),
{
    if tabs.len() != drag_start.len() {
        assert(views(tabs@).len() != views(drag_start@).len());
        return true;
    }
    let mut i: usize = 0;
    while i < tabs.len()
        invariant
            i <= tabs@.len(),
            tabs@.len() == drag_start@.len(),
            forall|j: int| 0 <= j < i ==> views(tabs@)[j] == views(drag_start@)[j],
        decreases tabs@.len() - i,
    {
        if !str_eq(tabs[i].as_str(), drag_start[i].as_str()) {
            assert(views(tabs@)[i as int] != views(drag_start@)[i as int]);
            return true;
        }
        i += 1;
    }
    assert(views(tabs@) =~= views(drag_start@));
    false
}

} // verus!
