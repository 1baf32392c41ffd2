//! Walking several chat histories at once, oldest message first.

use vstd::prelude::*;
use std::collections::VecDeque;
use crate::model::ChatMessage;

verus! {

/// The timestamp of the next message of history `i`, if it has one left.
pub open spec fn head_time(hs: Seq<Seq<ChatMessage>>, pos: Seq<usize>, i: int) -> Option<i64> {
    if pos[i] < hs[i].len() {
        Some(hs[i][pos[i] as int].timestamp)
    } else {
        None
    }
}

/// Scanning the first `k` histories: the one whose next message is the
/// earliest so far (the first of equals), starting from history 0 and the
/// current time, and that message's time.
pub open spec fn earliest(hs: Seq<Seq<ChatMessage>>, pos: Seq<usize>, now: i64, k: int) -> (int, i64)
    decreases k,
{
    if k <= 0 {
        (0, now)
    } else {
        let prev = earliest(hs, pos, now, k - 1);
        match head_time(hs, pos, k - 1) {
            Some(t) => if t < prev.1 {
                (k - 1, t)
            } else {
                prev
            },
            None => prev,
        }
    }
}

/// A walk over several histories: the position reached in each.
pub struct HistoryIterator {
    pub positions: Vec<usize>,
}

impl HistoryIterator {
    /// A walk from the start of `n` histories.
    pub fn new(n: usize) -> (r: Self)
        ensures
            r.positions@.len() == n,
            forall|i: int| 0 <= i < n ==> r.positions@[i] == 0,
    {
        let mut positions: Vec<usize> = Vec::new();
        let mut i: usize = 0;
        while i < n
            invariant
                i <= n,
                positions@.len() == i,
                forall|j: int| 0 <= j < i ==> positions@[j] == 0,
            decreases n - i,
        {
            positions.push(0);
            i += 1;
        }
        HistoryIterator { positions }
    }

    /// The next message of the walk: of the histories' next messages, the
    /// earliest one sent before `now` (the first of equals); when none was,
    /// the next message of the first history. Gives the history and the
    /// position of the message, and moves past it; gives nothing when that
    /// history has no message left.
    pub fn get_next(&mut self, histories: &Vec<&VecDeque<ChatMessage>>, now: i64) -> (r: Option<(usize, usize)>)
        requires
            old(self).positions@.len() == histories@.len(),
        ensures
            final(self).positions@.len() == old(self).positions@.len(),
            ({
                let hs = histories@.map_values(|h: &VecDeque<ChatMessage>| h@);
                let pos = old(self).positions@;
                let m = earliest(hs, pos, now, hs.len() as int).0;
                if hs.len() > 0 && pos[m] < hs[m].len() {
                    &&& r == Some((m as usize, pos[m]))
                    &&& final(self).positions@ == pos.update(m, (pos[m] + 1) as usize)
                } else {
                    &&& r is None
                    &&& final(self).positions@ == pos
                }
            }),
    {
        let ghost hs = histories@.map_values(|h: &VecDeque<ChatMessage>| h@);
        let ghost pos = self.positions@;
        let n = histories.len();
        let mut min_i: usize = 0;
        let mut ts: i64 = now;
        let mut i: usize = 0;
        while i < n
            invariant
                n == histories@.len(),
                i <= n,
                hs == histories@.map_values(|h: &VecDeque<ChatMessage>| h@),
                pos == self.positions@,
                pos.len() == n,
                earliest(hs, pos, now, i as int) == (min_i as int, ts),
                min_i < n || (i == 0 && min_i == 0),
            decreases n - i,
        {
            let h = histories[i];
            let p = self.positions[i];
            if p < h.len() {
                let t = h[p].timestamp;
                if t < ts {
                    ts = t;
                    min_i = i;
                }
            }
            i += 1;
        }
        if n == 0 {
            return None;
        }
        let p = self.positions[min_i];
        if p < histories[min_i].len() {
            self.positions.set(min_i, p + 1);
            Some((min_i, p))
        } else {
            None
        }
    }
}

/// Keeps a history within its limit: when it holds more messages than the
/// limit, its oldest message is taken out and given back.
pub fn drop_oldest_over_limit(history: &mut VecDeque<ChatMessage>, limit: usize) -> (r: Option<ChatMessage>)
    ensures
        old(history)@.len() > limit ==> r == Some(old(history)@[0]) && final(history)@ == old(history)@.drop_first(),
        old(history)@.len() <= limit ==> r is None && final(history)@ == old(history)@,
{
    if history.len() > limit {
        history.pop_front()
    } else {
        None
    }
}

/// The message was written by the user, by login name or display name.
pub open spec fn by_user(m: ChatMessage, user: Seq<char>) -> bool {
    m.username@ == user || crate::text::opt_str_view(m.profile.display_name) == Some(user)
}

/// The positions of the user's messages in a history, oldest first.
pub open spec fn user_positions(h: Seq<ChatMessage>, user: Seq<char>) -> Seq<int>
    decreases h.len(),
{
    if h.len() == 0 {
        Seq::empty()
    } else if by_user(h.last(), user) {
        user_positions(h.drop_last(), user).push(h.len() - 1)
    } else {
        user_positions(h.drop_last(), user)
    }
}

/// The last `n` items of a sequence (all of them when there are fewer).
pub open spec fn last_n(s: Seq<int>, n: int) -> Seq<int> {
    if s.len() <= n {
        s
    } else {
        s.skip(s.len() - n)
    }
}

fn is_by_user(m: &ChatMessage, user: &String) -> (r: bool)
    ensures
        r == by_user(*m, user@),
{
    crate::text::str_eq(m.username.as_str(), user.as_str()) || match &m.profile.display_name {
        Some(d) => crate::text::str_eq(d.as_str(), user.as_str()),
        None => false,
    }
}

/// The positions of the user's four most recent messages in a channel's
/// history, oldest first: what the user's history window shows.
pub fn recent_user_messages(history: &VecDeque<ChatMessage>, user: &String) -> (r: Vec<usize>)
    ensures
        r@.map_values(|i: usize| i as int) == last_n(user_positions(history@, user@), 4),
{
    let ghost h = history@;
    let mut out: Vec<usize> = Vec::new();
    let mut i: usize = 0;
    while i < history.len()
        invariant
            h == history@,
            i <= h.len(),
            out@.map_values(|k: usize| k as int) == last_n(user_positions(h.take(i as int), user@), 4),
            out@.len() <= 4,
        decreases h.len() - i,
    {
        let ghost before = out@.map_values(|k: usize| k as int);
        let ghost p = user_positions(h.take(i as int), user@);
        assert(h.take(i + 1).drop_last() == h.take(i as int));
        assert(h.take(i + 1).last() == h[i as int]);
        if is_by_user(&history[i], user) {
            out.push(i);
            assert(out@.map_values(|k: usize| k as int) == before.push(i as int));
            if out.len() > 4 {
                out.remove(0);
                assert(out@.map_values(|k: usize| k as int) == before.push(i as int).drop_first());
                assert(last_n(p.push(i as int), 4) == before.push(i as int).drop_first());
            } else {
                assert(last_n(p.push(i as int), 4) == before.push(i as int));
            }
        }
        i += 1;
    }
    assert(h.take(h.len() as int) == h);
    out
}

/// Clicking a user's name selects the user, or clears the selection when the
/// user was selected already.
pub fn toggle_selected_user(selected: &mut Option<String>, user: &String)
    ensures
        crate::text::opt_str_view(*final(selected)) == if crate::text::opt_str_view(*old(selected)) == Some(user@) {
            None
        } else {
            Some(user@)
        },
{
    let same = match selected {
        Some(s) => crate::text::str_eq(s.as_str(), user.as_str()),
        None => false,
    };
    if same {
        *selected = None;
    } else {
        *selected = Some(user.clone());
    }
}

} // verus!
