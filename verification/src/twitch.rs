//! Twitch chat over IRC: reading message tags, the emotes a message names,
//! and the decisions of a chat session.

use vstd::prelude::*;
use crate::name_map::NameMap;
use crate::model::{ChannelStatus, ChatMessage, IncomingMessage, MessageType, OutgoingMessage, ProviderName, UserProfile};
use crate::color::{color_from_hex_spec, color_hex_too_short, convert_color_hex};
use crate::numbers::{parse_usize, parse_usize_spec};
use crate::ordering::{lex_less, lex_lt};
use crate::text::{chars_of, copy_range, opt_str_view, push_char, push_chars, push_str, split_spec, split_words, str_eq, string_from_chars, views};

verus! {

/// The value of the first tag named `key`; none when there is no such tag or
/// that tag has no value.
pub open spec fn tag_value(tags: Seq<(String, Option<String>)>, key: Seq<char>) -> Option<Seq<char>>
    decreases tags.len(),
{
    if tags.len() == 0 {
        None
    } else if tags[0].0@ == key {
        opt_str_view(tags[0].1)
    } else {
        tag_value(tags.drop_first(), key)
    }
}

/// Reads a tag of an IRC message.
pub fn get_tag_value(tags: &Vec<(String, Option<String>)>, key: &str) -> (r: Option<String>)
    ensures
        opt_str_view(r) == tag_value(tags@, key@),
{
    let mut i: usize = 0;
    assert(tags@.skip(0) == tags@);
    while i < tags.len()
        invariant
            i <= tags@.len(),
            tag_value(tags@, key@) == tag_value(tags@.skip(i as int), key@),
        decreases tags@.len() - i,
    {
        assert(tags@.skip(i as int).drop_first() == tags@.skip(i + 1));
        if str_eq(tags[i].0.as_str(), key) {
            return match &tags[i].1 {
                Some(v) => Some(v.clone()),
                None => None,
            };
        }
        i += 1;
    }
    None
}

/// The non-empty pieces of a list.
pub open spec fn non_empty(s: Seq<Seq<char>>) -> Seq<Seq<char>>
    decreases s.len(),
{
    if s.len() == 0 {
        s
    } else if s.last().len() > 0 {
        non_empty(s.drop_last()).push(s.last())
    } else {
        non_empty(s.drop_last())
    }
}

/// The badges a `badges` tag lists: its comma-separated, non-empty entries.
pub open spec fn badge_list(s: Seq<char>) -> Seq<Seq<char>> {
    non_empty(split_spec(s, ','))
}

/// The colour tag of a message can be read (see `convert_color_hex`).
pub open spec fn color_tag_ok(tags: Seq<(String, Option<String>)>) -> bool {
    tag_value(tags, "color"@) matches Some(c) ==> !color_hex_too_short(c)
}

/// The profile of a message's author, from its tags: the display name, the
/// colour, and the badges.
pub open spec fn profile_from_tags(p: UserProfile, tags: Seq<(String, Option<String>)>) -> bool {
    &&& opt_str_view(p.display_name) == tag_value(tags, "display-name"@)
    &&& p.color == match tag_value(tags, "color"@) {
        Some(c) => color_from_hex_spec(c),
        None => None,
    }
    &&& match p.badges {
        Some(b) => tag_value(tags, "badges"@) matches Some(t) && views(b@) == badge_list(t),
        None => tag_value(tags, "badges"@) is None,
    }
}

/// Keeps the non-empty strings of a list.
fn keep_non_empty(v: Vec<String>) -> (r: Vec<String>)
    ensures
        views(r@) == non_empty(views(v@)),
{
    let mut r: Vec<String> = Vec::new();
    let mut i: usize = 0;
    while i < v.len()
        invariant
            i <= v@.len(),
            views(r@) == non_empty(views(v@).take(i as int)),
        decreases v@.len() - i,
    {
        let ghost before = r@;
        assert(views(v@).take(i + 1).drop_last() == views(v@).take(i as int));
        if !v[i].as_str().is_empty() {
            r.push(v[i].clone());
            assert(views(r@) == views(before).push(v@[i as int]@));
        }
        i += 1;
    }
    assert(views(v@).take(v@.len() as int) == views(v@));
    r
}

/// The author's profile read from a message's tags.
pub fn get_user_profile(tags: &Vec<(String, Option<String>)>) -> (r: UserProfile)
    requires
        color_tag_ok(tags@),
    ensures
        profile_from_tags(r, tags@),
{
    let display_name = get_tag_value(tags, "display-name");
    let color_tag = get_tag_value(tags, "color");
    let color = convert_color_hex(color_tag.as_ref());
    let badges = match get_tag_value(tags, "badges") {
        Some(b) => Some(keep_non_empty(split_words(b.as_str(), ','))),
        None => None,
    };
    UserProfile { badges, display_name, color }
}

} // verus!

verus! {

/// The text of (id, name) pairs.
pub open spec fn pairs_view(s: Seq<(String, String)>) -> Seq<(Seq<char>, Seq<char>)> {
    s.map_values(|p: (String, String)| (p.0@, p.1@))
}

/// The first position from `from` on whose name sorts after `name`, or the end.
pub open spec fn first_after(t: Seq<(Seq<char>, Seq<char>)>, name: Seq<char>, from: int) -> int
    decreases t.len() - from,
{
    if from >= t.len() {
        t.len() as int
    } else if lex_lt(name, t[from].1) {
        from
    } else {
        first_after(t, name, from + 1)
    }
}

/// Pairs sorted by name, stably: each pair goes after every earlier pair whose
/// name does not sort after its own.
pub open spec fn sort_by_name(s: Seq<(Seq<char>, Seq<char>)>) -> Seq<(Seq<char>, Seq<char>)>
    decreases s.len(),
{
    if s.len() == 0 {
        s
    } else {
        let t = sort_by_name(s.drop_last());
        t.insert(first_after(t, s.last().1, 0), s.last())
    }
}

/// Consecutive repeats removed.
pub open spec fn dedup_spec(s: Seq<(Seq<char>, Seq<char>)>) -> Seq<(Seq<char>, Seq<char>)>
    decreases s.len(),
{
    if s.len() <= 1 {
        s
    } else if s.last() == s[s.len() - 2] {
        dedup_spec(s.drop_last())
    } else {
        dedup_spec(s.drop_last()).push(s.last())
    }
}

proof fn lemma_first_after_bounds(t: Seq<(Seq<char>, Seq<char>)>, name: Seq<char>, from: int)
    requires
        0 <= from <= t.len(),
    ensures
        from <= first_after(t, name, from) <= t.len(),
    decreases t.len() - from,
{
    if from < t.len() && !lex_lt(name, t[from].1) {
        lemma_first_after_bounds(t, name, from + 1);
    }
}

/// Sorts (id, name) pairs by name, keeping the order of pairs of equal names.
pub fn sort_pairs_by_name(v: Vec<(String, String)>) -> (r: Vec<(String, String)>)
    ensures
        pairs_view(r@) == sort_by_name(pairs_view(v@)),
{
    let mut out: Vec<(String, String)> = Vec::new();
    let ghost input = pairs_view(v@);
    let mut v = v;
    let n = v.len();
    let mut k: usize = 0;
    while k < n
        invariant
            n == input.len(),
            k <= n,
            v@.len() == n - k,
            pairs_view(v@) == input.skip(k as int),
            pairs_view(out@) == sort_by_name(input.take(k as int)),
        decreases n - k,
    {
        let ghost ov = v@;
        let x = v.remove(0);
        let ghost xv = (x.0@, x.1@);
        proof {
            assert(x == ov[0]);
            assert(pairs_view(ov)[0] == xv);
            assert(input.skip(k as int)[0] == input[k as int]);
            assert(input[k as int] == xv);
            assert(v@ == ov.subrange(1, ov.len() as int));
            assert forall|j: int| 0 <= j < v@.len() implies #[trigger] pairs_view(v@)[j] == input.skip(k + 1)[j] by {
                assert(v@[j] == ov[j + 1]);
                assert(pairs_view(ov)[j + 1] == input.skip(k as int)[j + 1]);
            }
            assert(pairs_view(v@) =~= input.skip(k + 1));
        }
        let xn = chars_of(x.1.as_str());
        let ghost t = pairs_view(out@);
        let mut p: usize = 0;
        while p < out.len() && !lex_less(xn.as_slice(), chars_of(out[p].1.as_str()).as_slice())
            invariant
                p <= out@.len(),
                t == pairs_view(out@),
                xn@ == xv.1,
                first_after(t, xv.1, 0) == first_after(t, xv.1, p as int),
            decreases out@.len() - p,
        {
            p += 1;
        }
        assert(first_after(t, xv.1, p as int) == p);
        out.insert(p, x);
        proof {
            assert(input.take(k + 1).drop_last() == input.take(k as int));
            assert(input.take(k + 1).last() == xv);
            assert(pairs_view(out@) == t.insert(p as int, xv));
        }
        k += 1;
    }
    assert(input.take(n as int) == input);
    out
}

/// Removes consecutive repeated pairs.
pub fn dedup_pairs(v: Vec<(String, String)>) -> (r: Vec<(String, String)>)
    ensures
        pairs_view(r@) == dedup_spec(pairs_view(v@)),
{
    let ghost input = pairs_view(v@);
    let mut out: Vec<(String, String)> = Vec::new();
    let mut i: usize = 0;
    while i < v.len()
        invariant
            i <= v@.len(),
            input == pairs_view(v@),
            pairs_view(out@) == dedup_spec(input.take(i as int)),
            i > 0 ==> out@.len() > 0 && pairs_view(out@).last() == input[i - 1],
        decreases v@.len() - i,
    {
        let ghost before = out@;
        proof {
            assert(input.take(i + 1).drop_last() == input.take(i as int));
            assert(input.take(i + 1).last() == input[i as int]);
            if i > 0 {
                assert(input.take(i + 1)[i - 1] == input[i - 1]);
            }
            lemma_dedup_last(input.take(i as int));
        }
        let repeat = i > 0 && str_eq(v[i].0.as_str(), v[i - 1].0.as_str()) && str_eq(v[i].1.as_str(), v[i - 1].1.as_str());
        if !repeat {
            out.push((v[i].0.clone(), v[i].1.clone()));
            assert(pairs_view(out@) == pairs_view(before).push(input[i as int]));
        }
        i += 1;
    }
    assert(input.take(v@.len() as int) == input);
    out
}

proof fn lemma_dedup_last(s: Seq<(Seq<char>, Seq<char>)>)
    ensures
        s.len() > 0 ==> dedup_spec(s).len() > 0 && dedup_spec(s).last() == s.last(),
    decreases s.len(),
{
    if s.len() > 1 {
        lemma_dedup_last(s.drop_last());
    }
}

} // verus!

verus! {

/// The numbers among the pieces: those that read as `usize`.
pub open spec fn parsed_numbers(pieces: Seq<Seq<char>>) -> Seq<int>
    decreases pieces.len(),
{
    if pieces.len() == 0 {
        Seq::empty()
    } else {
        match parse_usize_spec(pieces.last()) {
            Some(v) => parsed_numbers(pieces.drop_last()).push(v),
            None => parsed_numbers(pieces.drop_last()),
        }
    }
}

/// The numbers of the first range of an emote's range list ("5-9,20-24").
pub open spec fn first_range(ranges: Seq<char>) -> Seq<int> {
    parsed_numbers(split_spec(split_spec(ranges, ',')[0], '-'))
}

/// The characters `a..=b` of the message, as far as it goes, as
/// `chars().skip(a).take(b - a + 1)` gives them.
pub open spec fn char_span(msg: Seq<char>, a: int, b: int) -> Seq<char> {
    let start = if a < msg.len() { a } else { msg.len() as int };
    let end = if start + (b - a + 1) < msg.len() { start + (b - a + 1) } else { msg.len() as int };
    msg.subrange(start, end)
}

/// The ids seen and the (id, name) pairs read from the entries of an emotes
/// tag ("id:ranges" separated by '/'). An entry is read when it has a ':' and
/// its id was not seen before; reading it marks the id seen, and when its
/// first range has two numbers it yields the id with the characters of the
/// message in that range.
pub open spec fn emote_pairs(pieces: Seq<Seq<char>>, msg: Seq<char>, seen0: Set<Seq<char>>) -> (Set<Seq<char>>, Seq<(Seq<char>, Seq<char>)>)
    decreases pieces.len(),
{
    if pieces.len() == 0 {
        (seen0, Seq::empty())
    } else {
        let prev = emote_pairs(pieces.drop_last(), msg, seen0);
        let pair = split_spec(pieces.last(), ':');
        if pair.len() < 2 || prev.0.contains(pair[0]) {
            prev
        } else {
            let nums = first_range(pair[1]);
            (
                prev.0.insert(pair[0]),
                if nums.len() == 2 {
                    prev.1.push((pair[0], char_span(msg, nums[0], nums[1])))
                } else {
                    prev.1
                },
            )
        }
    }
}

/// Every range that is read ends no earlier than one before it starts, and
/// its length fits in a `usize`; reading any other range fails.
pub open spec fn emote_ranges_ok(pieces: Seq<Seq<char>>, seen0: Set<Seq<char>>) -> bool
    decreases pieces.len(),
{
    if pieces.len() == 0 {
        true
    } else {
        let prev = emote_pairs(pieces.drop_last(), Seq::empty(), seen0);
        let pair = split_spec(pieces.last(), ':');
        &&& emote_ranges_ok(pieces.drop_last(), seen0)
        &&& (pair.len() >= 2 && !prev.0.contains(pair[0]) && first_range(pair[1]).len() == 2) ==> {
            let nums = first_range(pair[1]);
            nums[1] + 1 >= nums[0] && nums[1] - nums[0] + 1 <= usize::MAX
        }
    }
}

/// The emotes a message names: the pairs read from its tag, sorted by name,
/// repeats removed.
pub open spec fn emote_tag_result(tag: Seq<char>, msg: Seq<char>, seen0: Set<Seq<char>>) -> Seq<(Seq<char>, Seq<char>)> {
    dedup_spec(sort_by_name(emote_pairs(split_spec(tag, '/'), msg, seen0).1))
}

proof fn lemma_emote_pairs_seen(pieces: Seq<Seq<char>>, m1: Seq<char>, m2: Seq<char>, seen0: Set<Seq<char>>)
    ensures
        emote_pairs(pieces, m1, seen0).0 == emote_pairs(pieces, m2, seen0).0,
    decreases pieces.len(),
{
    if pieces.len() > 0 {
        lemma_emote_pairs_seen(pieces.drop_last(), m1, m2, seen0);
    }
}

/// Reads the numbers among some pieces.
fn read_numbers(pieces: &Vec<String>) -> (r: Vec<usize>)
    ensures
        r@.map_values(|v: usize| v as int) == parsed_numbers(views(pieces@)),
{
    let mut r: Vec<usize> = Vec::new();
    let mut i: usize = 0;
    while i < pieces.len()
        invariant
            i <= pieces@.len(),
            r@.map_values(|v: usize| v as int) == parsed_numbers(views(pieces@).take(i as int)),
        decreases pieces@.len() - i,
    {
        assert(views(pieces@).take(i + 1).drop_last() == views(pieces@).take(i as int));
        assert(views(pieces@).take(i + 1).last() == pieces@[i as int]@);
        let ghost before = r@;
        match parse_usize(pieces[i].as_str()) {
            Some(v) => {
                r.push(v);
                assert(r@.map_values(|v: usize| v as int) == before.map_values(|v: usize| v as int).push(v as int));
            },
            None => {},
        }
        i += 1;
    }
    assert(views(pieces@).take(pieces@.len() as int) == views(pieces@));
    r
}

/// Reads the emotes an IRC message's `emotes` tag names, as (id, name)
/// pairs sorted by name; ids already seen in the session are skipped, and
/// the ids read are added to those seen.
pub fn parse_emote_tag(tag: &str, msg: &str, seen: &mut NameMap<()>) -> (r: Vec<(String, String)>)
    requires
        old(seen).wf(),
        emote_ranges_ok(split_spec(tag@, '/'), old(seen)@.dom()),
    ensures
        final(seen).wf(),
        final(seen)@.dom() == emote_pairs(split_spec(tag@, '/'), msg@, old(seen)@.dom()).0,
        pairs_view(r@) == emote_tag_result(tag@, msg@, old(seen)@.dom()),
{
    let ghost seen0 = seen@.dom();
    let pieces = split_words(tag, '/');
    let ghost ps = views(pieces@);
    let cs = chars_of(msg);
    let mut found: Vec<(String, String)> = Vec::new();
    let mut i: usize = 0;
    while i < pieces.len()
        invariant
            seen.wf(),
            i <= pieces@.len(),
            ps == views(pieces@),
            ps == split_spec(tag@, '/'),
            cs@ == msg@,
            emote_ranges_ok(ps, seen0),
            seen@.dom() == emote_pairs(ps.take(i as int), msg@, seen0).0,
            pairs_view(found@) == emote_pairs(ps.take(i as int), msg@, seen0).1,
        decreases pieces@.len() - i,
    {
        proof {
            assert(ps.take(i + 1).drop_last() == ps.take(i as int));
            assert(ps.take(i + 1).last() == ps[i as int]);
            lemma_ranges_ok_prefix(ps, seen0, i + 1);
            lemma_emote_pairs_seen(ps.take(i as int), Seq::empty(), msg@, seen0);
        }
        let pair = split_words(pieces[i].as_str(), ':');
        if pair.len() >= 2 && !seen.contains_key(pair[0].as_str()) {
            seen.insert(pair[0].clone(), ());
            proof {
                crate::text::lemma_split_nonempty(pair@[1]@, ',');
            }
            let ranges = split_words(pair[1].as_str(), ',');
            let bounds = split_words(ranges[0].as_str(), '-');
            let nums = read_numbers(&bounds);
            if nums.len() == 2 {
                let a = nums[0];
                let b = nums[1];
                proof {
                    assert(views(ranges@)[0] == ranges@[0]@);
                    assert(nums@.map_values(|v: usize| v as int)[0] == a as int);
                    assert(nums@.map_values(|v: usize| v as int)[1] == b as int);
                    assert(first_range(pair@[1]@) == nums@.map_values(|v: usize| v as int));
                    assert(views(pair@)[0] == pair@[0]@);
                    assert(views(pair@)[1] == pair@[1]@);
                }
                let count = if b >= a { b - a + 1 } else { 0 };
                let n = cs.len();
                let start = if a < n { a } else { n };
                let end = if count < n - start { start + count } else { n };
                let span = copy_range(cs.as_slice(), start, end);
                let ghost before = found@;
                found.push((pair[0].clone(), string_from_chars(span.as_slice())));
                assert(pairs_view(found@) == pairs_view(before).push((pair@[0]@, char_span(msg@, a as int, b as int))));
            }
        }
        proof {
            assert(seen@.dom() =~= emote_pairs(ps.take(i + 1), msg@, seen0).0);
        }
        i += 1;
    }
    assert(ps.take(ps.len() as int) == ps);
    let sorted = sort_pairs_by_name(found);
    dedup_pairs(sorted)
}

proof fn lemma_ranges_ok_prefix(ps: Seq<Seq<char>>, seen0: Set<Seq<char>>, k: int)
    requires
        0 <= k <= ps.len(),
        emote_ranges_ok(ps, seen0),
    ensures
        emote_ranges_ok(ps.take(k), seen0),
    decreases ps.len() - k,
{
    if k < ps.len() {
        lemma_ranges_ok_prefix(ps.drop_last(), seen0, k);
        assert(ps.drop_last().take(k) == ps.take(k));
    } else {
        assert(ps.take(k) == ps);
    }
}

} // verus!

verus! {

/// Whether the emote ranges of an emotes tag can be read, given the ids seen
/// so far in the session.
pub fn emote_tag_usable(tag: &str, seen: &NameMap<()>) -> (r: bool)
    requires
        seen.wf(),
    ensures
        r == emote_ranges_ok(split_spec(tag@, '/'), seen@.dom()),
{
    let ghost seen0 = seen@.dom();
    let pieces = split_words(tag, '/');
    let ghost ps = views(pieces@);
    let mut added: NameMap<()> = NameMap::new();
    let mut i: usize = 0;
    assert(ps.take(0) == Seq::<Seq<char>>::empty());
    assert(seen0.union(added@.dom()) =~= seen0);
    while i < pieces.len()
        invariant
            seen.wf(),
            added.wf(),
            i <= pieces@.len(),
            ps == views(pieces@),
            ps == split_spec(tag@, '/'),
            seen0 == seen@.dom(),
            seen0.union(added@.dom()) == emote_pairs(ps.take(i as int), Seq::empty(), seen0).0,
            emote_ranges_ok(ps.take(i as int), seen0),
        decreases pieces@.len() - i,
    {
        let ghost prev = ps.take(i as int);
        let ghost next = ps.take(i + 1);
        proof {
            assert(next.drop_last() == prev);
            assert(next.last() == ps[i as int]);
        }
        let pair = split_words(pieces[i].as_str(), ':');
        proof {
            assert(views(pair@) == split_spec(ps[i as int], ':'));
            if pair@.len() >= 2 {
                assert(views(pair@)[0] == pair@[0]@);
                assert(views(pair@)[1] == pair@[1]@);
            }
        }
        if pair.len() >= 2 && !seen.contains_key(pair[0].as_str()) && !added.contains_key(pair[0].as_str()) {
            proof {
                crate::text::lemma_split_nonempty(pair@[1]@, ',');
            }
            let ranges = split_words(pair[1].as_str(), ',');
            let bounds = split_words(ranges[0].as_str(), '-');
            let nums = read_numbers(&bounds);
            proof {
                assert(views(ranges@)[0] == ranges@[0]@);
                assert(first_range(pair@[1]@) == nums@.map_values(|v: usize| v as int));
            }
            if nums.len() == 2 {
                let a = nums[0] as u128;
                let b = nums[1] as u128;
                proof {
                    assert(nums@.map_values(|v: usize| v as int)[0] == a as int);
                    assert(nums@.map_values(|v: usize| v as int)[1] == b as int);
                }
                if !(b + 1 >= a && b + 1 - a <= usize::MAX as u128) {
                    proof {
                        assert(!emote_ranges_ok(next, seen0));
                        if emote_ranges_ok(ps, seen0) {
                            lemma_ranges_ok_prefix(ps, seen0, i + 1);
                        }
                    }
                    return false;
                }
            }
            added.insert(pair[0].clone(), ());
        }
        proof {
            assert(seen0.union(added@.dom()) =~= emote_pairs(next, Seq::empty(), seen0).0);
        }
        i += 1;
    }
    assert(ps.take(ps.len() as int) == ps);
    true
}

impl IrcSession {
    /// Whether the tags of a chat line can be read: a colour that decodes to
    /// three bytes (or none), and emote ranges that can be read.
    pub fn privmsg_tags_usable(&self, tags: &Vec<(String, Option<String>)>) -> (r: bool)
        requires
            self.wf(),
        ensures
            r == privmsg_tags_ok(tags@, self.seen_emote_ids@.dom()),
    {
        let color = get_tag_value(tags, "color");
        if !crate::color::color_hex_usable(color.as_ref()) {
            return false;
        }
        match get_tag_value(tags, "emotes") {
            Some(e) => emote_tag_usable(e.as_str(), &self.seen_emote_ids),
            None => true,
        }
    }
}

/// Whether a tagged IRC command can be read.
pub fn raw_usable(command: &str, params: &Vec<String>, tags: &Vec<(String, Option<String>)>, now: i64) -> (r: bool)
    ensures
        r == raw_ok(command@, params@, tags@, now),
{
    proof {
        reveal_strlit("USERSTATE");
        reveal_strlit("ROOMSTATE");
        reveal_strlit("CLEARCHAT");
    }
    if params.len() == 0 {
        return false;
    }
    if str_eq(command, "USERSTATE") {
        let color = get_tag_value(tags, "color");
        if !crate::color::color_hex_usable(color.as_ref()) || get_tag_value(tags, "emote-sets").is_none() {
            return false;
        }
    }
    if str_eq(command, "ROOMSTATE") {
        if get_tag_value(tags, "room-id").is_none() || now < i64::MIN + 59750 {
            return false;
        }
    }
    if str_eq(command, "CLEARCHAT") {
        if params.len() < 2 {
            return false;
        }
    }
    true
}

/// The time `chrono` can represent: whole seconds and nanoseconds since the
/// Unix epoch that `DateTime::<Utc>::from_timestamp` accepts.
pub uninterp spec fn chrono_representable(secs: i64, nanos: u32) -> bool;

/// Milliseconds since the Unix epoch of a time given in seconds and
/// nanoseconds, when `chrono` can represent it.
///
/// Calls `chrono::DateTime::<Utc>::from_timestamp` and `timestamp_millis`.
/// The contract names when the first succeeds and states what the second
/// computes for it: seconds times 1000 plus the whole milliseconds of the
/// nanoseconds.
#[verifier::external_body]
pub(crate) fn timestamp_millis(secs: i64, nanos: u32) -> (r: Option<i64>)
    ensures
        r is Some <==> chrono_representable(secs, nanos),
        r is Some && nanos < 1_000_000_000 ==> r->0 == secs * 1000 + nanos / 1_000_000,
{
    chrono::DateTime::<chrono::Utc>::from_timestamp(secs, nanos).map(|d| d.timestamp_millis())
}

/// Integer division rounding toward zero, as Rust's `/` does.
pub open spec fn div_toward_zero(a: int, b: int) -> int {
    if a >= 0 {
        a / b
    } else {
        -((-a) / b)
    }
}

/// When a Twitch message was sent: its `tmi-sent-ts` tag read as milliseconds
/// (the number taken as an `i64`) when that reads and `chrono` can represent
/// it, else the time it arrived.
pub open spec fn sent_time(tags: Seq<(String, Option<String>)>, now: i64) -> i64 {
    match tag_value(tags, "tmi-sent-ts"@) {
        Some(v) => match parse_usize_spec(v) {
            Some(x) => {
                let secs = div_toward_zero((x as usize as i64) as int, 1000) as i64;
                let nanos = ((x % 1000) * 1_000_000) as u32;
                if chrono_representable(secs, nanos) {
                    (secs * 1000 + nanos / 1_000_000) as i64
                } else {
                    now
                }
            },
            None => now,
        },
        None => now,
    }
}

/// Reads the sending time of a Twitch message.
pub fn message_time(tags: &Vec<(String, Option<String>)>, now: i64) -> (r: i64)
    ensures
        r == sent_time(tags@, now),
{
    match get_tag_value(tags, "tmi-sent-ts") {
        Some(v) => match parse_usize(v.as_str()) {
            Some(x) => {
                let xi = x as i64;
                let secs: i64 = if xi >= 0 {
                    xi / 1000
                } else {
                    let neg: i128 = -(xi as i128);
                    let q: i128 = neg / 1000;
                    (-q) as i64
                };
                let nanos = ((x % 1000) * 1_000_000) as u32;
                assert(secs as int == div_toward_zero(xi as int, 1000));
                match timestamp_millis(secs, nanos) {
                    Some(m) => m,
                    None => now,
                }
            },
            None => now,
        },
        None => now,
    }
}

/// Trailing '\u{e0000}' and '\u{1}' characters removed.
pub open spec fn trim_end_tag_chars(s: Seq<char>) -> Seq<char>
    decreases s.len(),
{
    if s.len() > 0 && (s.last() == '\u{e0000}' || s.last() == '\u{1}') {
        trim_end_tag_chars(s.drop_last())
    } else {
        s
    }
}

/// Removes the trailing '\u{e0000}' and '\u{1}' characters some clients add.
pub fn trim_message_end(msg: &str) -> (r: String)
    ensures
        r@ == trim_end_tag_chars(msg@),
{
    let cs = chars_of(msg);
    let mut j: usize = cs.len();
    assert(cs@.take(cs@.len() as int) == cs@);
    while j > 0 && (cs[j - 1] == '\u{e0000}' || cs[j - 1] == '\u{1}')
        invariant
            j <= cs@.len(),
            trim_end_tag_chars(cs@) == trim_end_tag_chars(cs@.take(j as int)),
        decreases j,
    {
        assert(cs@.take(j as int).drop_last() == cs@.take(j - 1));
        j -= 1;
    }
    let span = copy_range(cs.as_slice(), 0, j);
    assert(cs@.take(cs@.len() as int) == cs@);
    assert(span@ == cs@.take(j as int));
    string_from_chars(span.as_slice())
}

} // verus!

verus! {

/// How often channel statuses are fetched, in milliseconds.
pub const TWITCH_STATUS_FETCH_INTERVAL_MSEC: i64 = 60000;

/// What a session knows of a channel it was asked to join.
#[derive(Debug)]
pub struct TwitchChannelData {
    pub room_id: Option<String>,
    pub show_offline_chat: bool,
}

/// A channel's live status as the Twitch API reports it.
#[derive(Debug)]
pub struct TwitchChannelStatus {
    pub user_id: String,
    pub user_name: String,
    pub game_name: String,
    pub stream_type: String,
    pub title: String,
    pub viewer_count: usize,
    pub started_at: String,
}

/// What a session asks of the IRC connection and of the client.
#[derive(Debug)]
pub enum IrcAction {
    SendPrivmsg { target: String, text: String },
    SendJoin { channel: String },
    SendPart { channel: String },
    SendQuit { text: String },
    Emit { message: IncomingMessage },
}

/// The state of a Twitch chat session.
pub struct IrcSession {
    pub channels: NameMap<TwitchChannelData>,
    pub joined_channels: NameMap<bool>,
    pub seen_emote_ids: NameMap<()>,
    pub profiles: NameMap<UserProfile>,
    pub last_status_check: Option<i64>,
    pub last_ping_received: i64,
}

impl IrcSession {
    /// The maps of the session are well formed.
    pub open spec fn wf(&self) -> bool {
        &&& self.channels.wf()
        &&& self.joined_channels.wf()
        &&& self.seen_emote_ids.wf()
        &&& self.profiles.wf()
    }

    /// A new session, started at `now`.
    pub fn new(now: i64) -> (r: Self)
        ensures
            r.wf(),
            r.channels@ == Map::<Seq<char>, TwitchChannelData>::empty(),
            r.joined_channels@ == Map::<Seq<char>, bool>::empty(),
            r.seen_emote_ids@ == Map::<Seq<char>, ()>::empty(),
            r.profiles@ == Map::<Seq<char>, UserProfile>::empty(),
            r.last_status_check is None,
            r.last_ping_received == now,
    {
        IrcSession {
            channels: NameMap::new(),
            joined_channels: NameMap::new(),
            seen_emote_ids: NameMap::new(),
            profiles: NameMap::new(),
            last_status_check: None,
            last_ping_received: now,
        }
    }
}

/// `m` is a line the session shows in channel `ch` at `now`: no author, the
/// given text and kind, no profile, combo or removal.
pub open spec fn is_session_line(m: ChatMessage, ch: Seq<char>, text: Seq<char>, kind: MessageType, now: i64) -> bool {
    &&& m.provider == ProviderName::Twitch
    &&& m.channel@ == ch
    &&& m.username@.len() == 0
    &&& m.timestamp == now
    &&& m.message@ == text
    &&& m.profile.badges is None
    &&& m.profile.display_name is None
    &&& m.profile.color is None
    &&& m.combo_data is None
    &&& m.is_removed is None
    &&& m.msg_type == kind
}

/// A line of the session.
pub fn session_line(channel: String, text: String, kind: MessageType, now: i64) -> (m: ChatMessage)
    ensures
        is_session_line(m, channel@, text@, kind, now),
{
    ChatMessage {
        provider: ProviderName::Twitch,
        channel,
        username: String::new(),
        timestamp: now,
        message: text,
        profile: UserProfile { badges: None, display_name: None, color: None },
        combo_data: None,
        is_removed: None,
        msg_type: kind,
    }
}

/// "Joined <channel> chat."
pub open spec fn joined_text(ch: Seq<char>) -> Seq<char> {
    seq!['J', 'o', 'i', 'n', 'e', 'd', ' '] + ch + seq![' ', 'c', 'h', 'a', 't', '.']
}

/// "Leaving <channel> chat."
pub open spec fn leaving_text(ch: Seq<char>) -> Seq<char> {
    seq!['L', 'e', 'a', 'v', 'i', 'n', 'g', ' '] + ch + seq![' ', 'c', 'h', 'a', 't', '.']
}

/// The actions of joining a channel: the JOIN, then a line saying so.
pub open spec fn is_join(acts: Seq<IrcAction>, ch: Seq<char>, now: i64) -> bool {
    &&& acts.len() == 2
    &&& acts[0] matches IrcAction::SendJoin { channel } && channel@ == seq!['#'] + ch
    &&& acts[1] matches IrcAction::Emit { message: IncomingMessage::PrivMsg { message } }
        && is_session_line(message, ch, joined_text(ch), MessageType::Information, now)
}

/// The actions of leaving a channel: the PART, then a line saying so.
pub open spec fn is_leave(acts: Seq<IrcAction>, ch: Seq<char>, now: i64) -> bool {
    &&& acts.len() == 2
    &&& acts[0] matches IrcAction::SendPart { channel } && channel@ == seq!['#'] + ch
    &&& acts[1] matches IrcAction::Emit { message: IncomingMessage::PrivMsg { message } }
        && is_session_line(message, ch, leaving_text(ch), MessageType::Information, now)
}

fn hash_name(ch: &String) -> (r: String)
    ensures
        r@ == seq!['#'] + ch@,
{
    let mut r = String::new();
    push_char(&mut r, '#');
    push_str(&mut r, ch.as_str());
    r
}

fn framed(pre: &[char], ch: &String, post: &[char]) -> (r: String)
    ensures
        r@ == pre@ + ch@ + post@,
{
    let mut r = String::new();
    push_chars(&mut r, pre);
    push_str(&mut r, ch.as_str());
    push_chars(&mut r, post);
    r
}

impl IrcSession {
    /// Joins a channel.
    pub fn join(&mut self, channel: &String, now: i64) -> (r: Vec<IrcAction>)
        requires
            old(self).wf(),
        ensures
            final(self).wf(),
            is_join(r@, channel@, now),
            final(self).joined_channels@ == old(self).joined_channels@.insert(channel@, true),
            final(self).channels == old(self).channels,
            final(self).seen_emote_ids == old(self).seen_emote_ids,
            final(self).profiles == old(self).profiles,
            final(self).last_status_check == old(self).last_status_check,
            final(self).last_ping_received == old(self).last_ping_received,
    {
        let pre = ['J', 'o', 'i', 'n', 'e', 'd', ' '];
        let post = [' ', 'c', 'h', 'a', 't', '.'];
        let text = framed(pre.as_slice(), channel, post.as_slice());
        let mut r: Vec<IrcAction> = Vec::new();
        r.push(IrcAction::SendJoin { channel: hash_name(channel) });
        r.push(IrcAction::Emit {
            message: IncomingMessage::PrivMsg { message: session_line(channel.clone(), text, MessageType::Information, now) },
        });
        self.joined_channels.insert(channel.clone(), true);
        r
    }

    /// Leaves a channel.
    pub fn leave(&mut self, channel: &String, now: i64) -> (r: Vec<IrcAction>)
        requires
            old(self).wf(),
        ensures
            final(self).wf(),
            is_leave(r@, channel@, now),
            final(self).joined_channels@ == old(self).joined_channels@.insert(channel@, false),
            final(self).channels == old(self).channels,
            final(self).seen_emote_ids == old(self).seen_emote_ids,
            final(self).profiles == old(self).profiles,
            final(self).last_status_check == old(self).last_status_check,
            final(self).last_ping_received == old(self).last_ping_received,
    {
        let pre = ['L', 'e', 'a', 'v', 'i', 'n', 'g', ' '];
        let post = [' ', 'c', 'h', 'a', 't', '.'];
        let text = framed(pre.as_slice(), channel, post.as_slice());
        let mut r: Vec<IrcAction> = Vec::new();
        r.push(IrcAction::SendPart { channel: hash_name(channel) });
        r.push(IrcAction::Emit {
            message: IncomingMessage::PrivMsg { message: session_line(channel.clone(), text, MessageType::Information, now) },
        });
        self.joined_channels.insert(channel.clone(), false);
        r
    }
}

} // verus!

verus! {

/// The tags of a chat line can be read: its colour, and its emote ranges
/// given the ids seen so far.
pub open spec fn privmsg_tags_ok(tags: Seq<(String, Option<String>)>, seen: Set<Seq<char>>) -> bool {
    &&& color_tag_ok(tags)
    &&& tag_value(tags, "emotes"@) matches Some(e) ==> emote_ranges_ok(split_spec(e, '/'), seen)
}

/// The sender's name, or nothing.
pub open spec fn sender_view(sender: Option<&String>) -> Seq<char> {
    match sender {
        Some(s) => s@,
        None => Seq::empty(),
    }
}

/// `m` is the chat line a Twitch PRIVMSG carries.
pub open spec fn is_twitch_line(
    m: ChatMessage,
    target: Seq<char>,
    sender: Seq<char>,
    msg: Seq<char>,
    tags: Seq<(String, Option<String>)>,
    now: i64,
) -> bool {
    &&& m.provider == ProviderName::Twitch
    &&& m.channel@ == crate::text::trim_start_spec(target, '#')
    &&& m.username@ == sender
    &&& m.timestamp == sent_time(tags, now)
    &&& m.message@ == trim_end_tag_chars(msg)
    &&& profile_from_tags(m.profile, tags)
    &&& m.combo_data is None
    &&& m.is_removed is None
    &&& m.msg_type == MessageType::Chat
}

impl IrcSession {
    /// Reads a PRIVMSG: the emotes its tags name, when there are any, then the
    /// chat line itself. A message without tags is ignored.
    pub fn on_privmsg(
        &mut self,
        target: &str,
        sender: Option<&String>,
        msg: &str,
        tags: Option<&Vec<(String, Option<String>)>>,
        now: i64,
    ) -> (r: Vec<IncomingMessage>)
        requires
            old(self).wf(),
            tags matches Some(t) ==> privmsg_tags_ok(t@, old(self).seen_emote_ids@.dom()),
        ensures
            final(self).wf(),
            final(self).channels == old(self).channels,
            final(self).joined_channels == old(self).joined_channels,
            final(self).profiles == old(self).profiles,
            final(self).last_status_check == old(self).last_status_check,
            final(self).last_ping_received == old(self).last_ping_received,
            match tags {
                None => r@.len() == 0 && final(self).seen_emote_ids == old(self).seen_emote_ids,
                Some(t) => {
                    let e = tag_value(t@, "emotes"@);
                    let named = e is Some && e->0.len() > 0;
                    &&& r@.len() == (if named { 2int } else { 1int })
                    &&& named ==> {
                        &&& r@[0] matches IncomingMessage::MsgEmotes { provider, emote_ids }
                            && provider == ProviderName::Twitch
                            && pairs_view(emote_ids@) == emote_tag_result(e->0, msg@, old(self).seen_emote_ids@.dom())
                        &&& final(self).seen_emote_ids@.dom() == emote_pairs(split_spec(e->0, '/'), msg@, old(self).seen_emote_ids@.dom()).0
                    }
                    &&& !named ==> final(self).seen_emote_ids == old(self).seen_emote_ids
                    &&& r@.last() matches IncomingMessage::PrivMsg { message }
                        && is_twitch_line(message, target@, sender_view(sender), msg@, t@, now)
                },
            },
    {
        let mut r: Vec<IncomingMessage> = Vec::new();
        let t = match tags {
            Some(t) => t,
            None => return r,
        };
        let tc = chars_of(target);
        let channel = string_from_chars(crate::text::trim_start_char(tc.as_slice(), '#').as_slice());
        let username = match sender {
            Some(s) => s.clone(),
            None => String::new(),
        };
        let message = ChatMessage {
            provider: ProviderName::Twitch,
            channel,
            username,
            timestamp: message_time(t, now),
            message: trim_message_end(msg),
            profile: get_user_profile(t),
            combo_data: None,
            is_removed: None,
            msg_type: MessageType::Chat,
        };
        match get_tag_value(t, "emotes") {
            Some(e) => {
                if !e.as_str().is_empty() {
                    let ids = parse_emote_tag(e.as_str(), msg, &mut self.seen_emote_ids);
                    r.push(IncomingMessage::MsgEmotes { provider: ProviderName::Twitch, emote_ids: ids });
                }
            },
            None => {},
        }
        r.push(IncomingMessage::PrivMsg { message });
        r
    }

    /// Notes that the server pinged.
    pub fn on_ping(&mut self, now: i64)
        ensures
            final(self).last_ping_received == now,
            final(self).channels == old(self).channels,
            final(self).joined_channels == old(self).joined_channels,
            final(self).seen_emote_ids == old(self).seen_emote_ids,
            final(self).profiles == old(self).profiles,
            final(self).last_status_check == old(self).last_status_check,
    {
        self.last_ping_received = now;
    }

    /// Whether the server has been silent for more than ten minutes, so the
    /// connection is to be dropped and made again.
    pub fn ping_timed_out(&self, now: i64) -> (r: bool)
        ensures
            r == (self.last_ping_received + 600000 < now),
    {
        (self.last_ping_received as i128) + 600000 < (now as i128)
    }

    /// Whether channel statuses are due to be fetched: never fetched yet, or
    /// last fetched more than a minute ago.
    pub fn status_check_due(&self, now: i64) -> (r: bool)
        ensures
            r == match self.last_status_check {
                None => true,
                Some(t) => now - t > TWITCH_STATUS_FETCH_INTERVAL_MSEC,
            },
    {
        match self.last_status_check {
            None => true,
            Some(t) => (now as i128) - (t as i128) > (TWITCH_STATUS_FETCH_INTERVAL_MSEC as i128),
        }
    }
}

} // verus!

verus! {

/// The pieces joined with `sep` between them.
pub open spec fn join_with(ps: Seq<Seq<char>>, sep: Seq<char>) -> Seq<char>
    decreases ps.len(),
{
    if ps.len() == 0 {
        Seq::empty()
    } else if ps.len() == 1 {
        ps[0]
    } else {
        join_with(ps.drop_last(), sep) + sep + ps.last()
    }
}

/// Joins strings with ", " between them.
pub fn join_comma(ps: &Vec<String>) -> (r: String)
    ensures
        r@ == join_with(views(ps@), seq![',', ' ']),
{
    let mut r = String::new();
    let mut i: usize = 0;
    while i < ps.len()
        invariant
            i <= ps@.len(),
            r@ == join_with(views(ps@).take(i as int), seq![',', ' ']),
        decreases ps@.len() - i,
    {
        assert(views(ps@).take(i + 1).drop_last() == views(ps@).take(i as int));
        if i > 0 {
            push_char(&mut r, ',');
            push_char(&mut r, ' ');
        }
        push_str(&mut r, ps[i].as_str());
        proof {
            if i == 0 {
                assert(views(ps@).take(1)[0] == ps@[0]@);
            }
        }
        i += 1;
    }
    assert(views(ps@).take(ps@.len() as int) == views(ps@));
    r
}

/// The channel an IRC command with tags is about: its last parameter, without
/// leading '#'.
pub open spec fn raw_channel(params: Seq<String>) -> Seq<char> {
    crate::text::trim_start_spec(params.last()@, '#')
}

/// A tagged IRC command the session can read: it has parameters, and a
/// USERSTATE has a readable colour and its emote sets, a ROOMSTATE its room
/// id, a CLEARCHAT the muted user's name.
pub open spec fn raw_ok(command: Seq<char>, params: Seq<String>, tags: Seq<(String, Option<String>)>, now: i64) -> bool {
    &&& params.len() > 0
    &&& command == "USERSTATE"@ ==> color_tag_ok(tags) && tag_value(tags, "emote-sets"@) is Some
    &&& command == "ROOMSTATE"@ ==> tag_value(tags, "room-id"@) is Some && now >= i64::MIN + 59750
    &&& command == "CLEARCHAT"@ ==> params.len() >= 2
}

/// What a tagged IRC command does to the session and what it gives.
pub open spec fn raw_step(
    s: IrcSession,
    n: IrcSession,
    command: Seq<char>,
    params: Seq<String>,
    tags: Seq<(String, Option<String>)>,
    now: i64,
    r: Seq<IncomingMessage>,
) -> bool {
    let ch = raw_channel(params);
    &&& n.joined_channels == s.joined_channels
    &&& n.seen_emote_ids == s.seen_emote_ids
    &&& n.last_ping_received == s.last_ping_received
    &&& if command == "USERSTATE"@ {
        &&& n.channels == s.channels
        &&& n.last_status_check == s.last_status_check
        &&& n.profiles@.dom() == s.profiles@.dom().insert(ch)
        &&& profile_from_tags(n.profiles@[ch], tags)
        &&& forall|k: Seq<char>| #[trigger] s.profiles@.contains_key(k) && k != ch ==> n.profiles@[k] == s.profiles@[k]
        &&& r.len() == 1
        &&& r[0] matches IncomingMessage::EmoteSets { provider, emote_sets }
            && provider == ProviderName::Twitch
            && views(emote_sets@) == split_spec(tag_value(tags, "emote-sets"@)->0, ',')
    } else if command == "ROOMSTATE"@ {
        &&& n.profiles == s.profiles
        &&& n.last_status_check == Some((now - (TWITCH_STATUS_FETCH_INTERVAL_MSEC - 250)) as i64)
        &&& n.channels@.dom() == s.channels@.dom()
        &&& forall|k: Seq<char>| #[trigger] s.channels@.contains_key(k) && k != ch ==> n.channels@[k] == s.channels@[k]
        &&& s.channels@.contains_key(ch) ==> {
            &&& opt_str_view(n.channels@[ch].room_id) == tag_value(tags, "room-id"@)
            &&& n.channels@[ch].show_offline_chat == s.channels@[ch].show_offline_chat
        }
        &&& r.len() == 1
        &&& r[0] matches IncomingMessage::RoomId { channel, room_id }
            && channel@ == ch && Some(room_id@) == tag_value(tags, "room-id"@)
    } else {
        &&& n.profiles == s.profiles
        &&& n.channels == s.channels
        &&& n.last_status_check == s.last_status_check
        &&& if command == "NOTICE"@ {
            r.len() == 1 && (r[0] matches IncomingMessage::PrivMsg { message }
                && is_session_line(message, ch, join_with(views(params), seq![',', ' ']), MessageType::Error, now))
        } else if command == "USERNOTICE"@ {
            match tag_value(tags, "system-msg"@) {
                Some(sm) => r.len() == 1 && (r[0] matches IncomingMessage::PrivMsg { message }
                    && is_session_line(message, ch, sm, MessageType::Announcement, now)),
                None => r.len() == 0,
            }
        } else if command == "CLEARCHAT"@ {
            r.len() == 1 && (r[0] matches IncomingMessage::UserMuted { channel, username }
                && channel@ == ch && username@ == params[1]@)
        } else {
            r.len() == 0
        }
    }
}

impl IrcSession {
    /// Reads a tagged IRC command: USERSTATE gives the user's profile in a
    /// channel and emote sets, ROOMSTATE a channel's room id, NOTICE an error
    /// line, USERNOTICE an announcement, CLEARCHAT a muted user. A command
    /// without tags is ignored.
    pub fn on_raw(
        &mut self,
        command: &str,
        params: &Vec<String>,
        tags: Option<&Vec<(String, Option<String>)>>,
        now: i64,
    ) -> (r: Vec<IncomingMessage>)
        requires
            old(self).wf(),
            tags matches Some(t) ==> raw_ok(command@, params@, t@, now),
        ensures
            final(self).wf(),
            match tags {
                None => r@.len() == 0 && *final(self) == *old(self),
                Some(t) => raw_step(*old(self), *final(self), command@, params@, t@, now, r@),
            },
    {
        let mut r: Vec<IncomingMessage> = Vec::new();
        let t = match tags {
            Some(t) => t,
            None => return r,
        };
        let ghost s = *self;
        let last = chars_of(params[params.len() - 1].as_str());
        let channel = string_from_chars(crate::text::trim_start_char(last.as_slice(), '#').as_slice());
        let cmd = chars_of(command);
        let userstate = ['U', 'S', 'E', 'R', 'S', 'T', 'A', 'T', 'E'];
        let roomstate = ['R', 'O', 'O', 'M', 'S', 'T', 'A', 'T', 'E'];
        let notice = ['N', 'O', 'T', 'I', 'C', 'E'];
        let usernotice = ['U', 'S', 'E', 'R', 'N', 'O', 'T', 'I', 'C', 'E'];
        let clearchat = ['C', 'L', 'E', 'A', 'R', 'C', 'H', 'A', 'T'];
        proof {
            reveal_strlit("USERSTATE");
            reveal_strlit("ROOMSTATE");
            reveal_strlit("NOTICE");
            reveal_strlit("USERNOTICE");
            reveal_strlit("CLEARCHAT");
            assert(userstate@ == "USERSTATE"@);
            assert(roomstate@ == "ROOMSTATE"@);
            assert(notice@ == "NOTICE"@);
            assert(usernotice@ == "USERNOTICE"@);
            assert(clearchat@ == "CLEARCHAT"@);
        }
        if crate::text::chars_eq(cmd.as_slice(), userstate.as_slice()) {
            let profile = get_user_profile(t);
            self.profiles.insert(channel.clone(), profile);
            let sets = match get_tag_value(t, "emote-sets") {
                Some(v) => split_words(v.as_str(), ','),
                None => Vec::new(),
            };
            r.push(IncomingMessage::EmoteSets { provider: ProviderName::Twitch, emote_sets: sets });
            assert(self.profiles@.dom() =~= s.profiles@.dom().insert(channel@));
        } else if crate::text::chars_eq(cmd.as_slice(), roomstate.as_slice()) {
            let room = get_tag_value(t, "room-id");
            match self.channels.position(channel.as_str()) {
                Some(ci) => {
                    proof {
                        self.channels.lemma_wf();
                    }
                    let d = self.channels.value_mut_at(ci);
                    d.room_id = match &room {
                        Some(v) => Some(v.clone()),
                        None => None,
                    };
                    assert(self.channels@.dom() =~= s.channels@.dom());
                },
                None => {},
            }
            self.last_status_check = Some(now - (TWITCH_STATUS_FETCH_INTERVAL_MSEC - 250));
            let room_id = match room {
                Some(v) => v,
                None => String::new(),
            };
            r.push(IncomingMessage::RoomId { channel, room_id });
        } else if crate::text::chars_eq(cmd.as_slice(), notice.as_slice()) {
            let text = join_comma(params);
            r.push(IncomingMessage::PrivMsg { message: session_line(channel, text, MessageType::Error, now) });
        } else if crate::text::chars_eq(cmd.as_slice(), usernotice.as_slice()) {
            match get_tag_value(t, "system-msg") {
                Some(sm) => {
                    r.push(IncomingMessage::PrivMsg { message: session_line(channel, sm, MessageType::Announcement, now) });
                },
                None => {},
            }
        } else if crate::text::chars_eq(cmd.as_slice(), clearchat.as_slice()) {
            r.push(IncomingMessage::UserMuted { channel, username: params[1].clone() });
        }
        r
    }
}

} // verus!

verus! {

/// The content of a profile.
pub open spec fn profile_view(p: UserProfile) -> (Option<Seq<String>>, Option<String>, Option<(u8, u8, u8)>) {
    (
        match p.badges {
            Some(b) => Some(b@),
            None => None,
        },
        p.display_name,
        p.color,
    )
}

/// A copy of a profile.
pub fn clone_profile(p: &UserProfile) -> (r: UserProfile)
    ensures
        profile_view(r) == profile_view(*p),
{
    let badges = match &p.badges {
        Some(b) => {
            let mut v: Vec<String> = Vec::new();
            let mut i: usize = 0;
            while i < b.len()
                invariant
                    i <= b@.len(),
                    v@ == b@.take(i as int),
                decreases b@.len() - i,
            {
                v.push(b[i].clone());
                assert(b@.take(i + 1) == b@.take(i as int).push(b@[i as int]));
                i += 1;
            }
            assert(b@.take(b@.len() as int) == b@);
            Some(v)
        },
        None => None,
    };
    let display_name = match &p.display_name {
        Some(d) => Some(d.clone()),
        None => None,
    };
    UserProfile { badges, display_name, color: p.color }
}

/// Where a chat line of the user is sent, and with what text: a line starting
/// with ':' goes to the bare channel name with a space in front (so that IRC
/// does not take it for a prefix); any other to "#channel" as it is.
pub open spec fn chat_target(channel: Seq<char>, message: Seq<char>) -> (Seq<char>, Seq<char>) {
    if message.len() > 0 && message[0] == ':' {
        (channel, seq![' '] + message)
    } else {
        (seq!['#'] + channel, message)
    }
}

/// What a request from the client does to the session and what it gives.
pub open spec fn outgoing_step(s: IrcSession, n: IrcSession, out: OutgoingMessage, nickname: Seq<char>, now: i64, r: Seq<IrcAction>) -> bool {
    &&& n.seen_emote_ids == s.seen_emote_ids
    &&& n.profiles == s.profiles
    &&& n.last_status_check == s.last_status_check
    &&& n.last_ping_received == s.last_ping_received
    &&& match out {
        OutgoingMessage::Chat { channel, message } => {
            let tt = chat_target(channel@, message@);
            &&& n.channels == s.channels
            &&& n.joined_channels == s.joined_channels
            &&& r.len() == 2
            &&& r[0] matches IrcAction::SendPrivmsg { target, text } && target@ == tt.0 && text@ == tt.1
            &&& r[1] matches IrcAction::Emit { message: IncomingMessage::PrivMsg { message: m } } && {
                &&& m.provider == ProviderName::Twitch
                &&& m.channel == channel
                &&& m.username@ == nickname
                &&& m.timestamp == now
                &&& m.message == message
                &&& profile_view(m.profile) == if s.profiles@.contains_key(channel@) {
                    profile_view(s.profiles@[channel@])
                } else {
                    (None, None, None)
                }
                &&& m.combo_data is None
                &&& m.is_removed is None
                &&& m.msg_type == MessageType::Chat
            }
        },
        OutgoingMessage::Quit {} => {
            &&& n.channels == s.channels
            &&& n.joined_channels == s.joined_channels
            &&& r.len() == 1
            &&& r[0] matches IrcAction::SendQuit { text } && text@ == "Leaving"@
        },
        OutgoingMessage::Leave { channel_name } => {
            &&& n.channels == s.channels
            &&& n.joined_channels@ == s.joined_channels@.insert(channel_name@, false)
            &&& is_leave(r, channel_name@, now)
        },
        OutgoingMessage::Join { .. } => n == s && r.len() == 0,
        OutgoingMessage::TwitchJoin { channel_name, room_id, show_offline_chat } => {
            &&& n.channels@ == s.channels@.insert(channel_name@, TwitchChannelData { room_id, show_offline_chat })
            &&& if room_id is None || show_offline_chat {
                n.joined_channels@ == s.joined_channels@.insert(channel_name@, true) && is_join(r, channel_name@, now)
            } else {
                n.joined_channels == s.joined_channels && r.len() == 0
            }
        },
    }
}

impl IrcSession {
    /// Carries out a request from the client: a chat line to send (and show),
    /// quitting, leaving a channel, or joining a Twitch channel, which is
    /// joined at once when its room id is not known yet or its chat is shown
    /// while offline.
    pub fn on_outgoing(&mut self, out: OutgoingMessage, nickname: &String, now: i64) -> (r: Vec<IrcAction>)
        requires
            old(self).wf(),
        ensures
            final(self).wf(),
            outgoing_step(*old(self), *final(self), out, nickname@, now, r@),
    {
        let ghost s = *self;
        let mut r: Vec<IrcAction> = Vec::new();
        match out {
            OutgoingMessage::Chat { channel, message } => {
                let mc = chars_of(message.as_str());
                let (target, text) = if mc.len() > 0 && mc[0] == ':' {
                    let mut t = String::new();
                    push_char(&mut t, ' ');
                    push_str(&mut t, message.as_str());
                    (channel.clone(), t)
                } else {
                    (hash_name(&channel), message.clone())
                };
                r.push(IrcAction::SendPrivmsg { target, text });
                let profile = match self.profiles.get(channel.as_str()) {
                    Some(p) => clone_profile(p),
                    None => UserProfile { badges: None, display_name: None, color: None },
                };
                let m = ChatMessage {
                    provider: ProviderName::Twitch,
                    channel,
                    username: nickname.clone(),
                    timestamp: now,
                    message,
                    profile,
                    combo_data: None,
                    is_removed: None,
                    msg_type: MessageType::Chat,
                };
                r.push(IrcAction::Emit { message: IncomingMessage::PrivMsg { message: m } });
            },
            OutgoingMessage::Quit {} => {
                let leaving = ['L', 'e', 'a', 'v', 'i', 'n', 'g'];
                proof {
                    reveal_strlit("Leaving");
                    assert(leaving@ == "Leaving"@);
                }
                r.push(IrcAction::SendQuit { text: string_from_chars(leaving.as_slice()) });
            },
            OutgoingMessage::Leave { channel_name } => {
                r = self.leave(&channel_name, now);
            },
            OutgoingMessage::Join { .. } => {},
            OutgoingMessage::TwitchJoin { channel_name, room_id, show_offline_chat } => {
                let join_now = room_id.is_none() || show_offline_chat;
                self.channels.insert(channel_name.clone(), TwitchChannelData { room_id, show_offline_chat });
                if join_now {
                    r = self.join(&channel_name, now);
                }
            },
        }
        r
    }
}

} // verus!

verus! {

/// The room ids of the channels, in the order of the channels.
pub open spec fn room_ids(vals: Seq<TwitchChannelData>) -> Seq<Seq<char>>
    decreases vals.len(),
{
    if vals.len() == 0 {
        Seq::empty()
    } else {
        match vals.last().room_id {
            Some(r) => room_ids(vals.drop_last()).push(r@),
            None => room_ids(vals.drop_last()),
        }
    }
}

/// The position of the first status of the channel with room id `room`.
pub open spec fn found_status(statuses: Seq<TwitchChannelStatus>, room: Option<String>) -> Option<int>
    decreases statuses.len(),
{
    if statuses.len() == 0 || room is None {
        None
    } else if statuses[0].user_id@ == room->0@ {
        Some(0)
    } else {
        match found_status(statuses.drop_first(), room) {
            Some(i) => Some(i + 1),
            None => None,
        }
    }
}

/// The status shown for a channel: what its API status says, or offline with
/// nothing known when there is none.
pub open spec fn channel_status_from(statuses: Seq<TwitchChannelStatus>, room: Option<String>, c: ChannelStatus) -> bool {
    match found_status(statuses, room) {
        Some(i) => {
            let x = statuses[i];
            &&& c.game_name == Some(x.game_name)
            &&& c.is_live == (x.stream_type@ == "live"@)
            &&& c.title == Some(x.title)
            &&& c.viewer_count == Some(x.viewer_count)
            &&& c.started_at == Some(x.started_at)
        },
        None => c == ChannelStatus { game_name: None, is_live: false, title: None, viewer_count: None, started_at: None },
    }
}

/// Whether a status update joins a channel (`Some(true)`), leaves it
/// (`Some(false)`), or neither: a live channel, or one whose chat is shown
/// while offline, is joined if it is not; an offline channel whose chat is not
/// shown is left if it is joined.
pub open spec fn status_decision(live: bool, show_offline_chat: bool, joined: bool) -> Option<bool> {
    if (live || show_offline_chat) && !joined {
        Some(true)
    } else if !live && !show_offline_chat && joined {
        Some(false)
    } else {
        None
    }
}

/// The actions for one channel on a status update: joining or leaving as
/// decided, then the status itself for the client, under the lower-cased
/// channel name.
pub open spec fn status_segment(acts: Seq<IrcAction>, ch: Seq<char>, st: ChannelStatus, decision: Option<bool>, now: i64) -> bool {
    let k = if decision is Some { 2int } else { 0int };
    &&& acts.len() == k + 1
    &&& decision == Some(true) ==> is_join(acts.take(2), ch, now)
    &&& decision == Some(false) ==> is_leave(acts.take(2), ch, now)
    &&& acts[k] matches IrcAction::Emit { message: IncomingMessage::StreamingStatus { channel, status } }
        && channel@ == crate::text::lowercase(ch) && status == Some(st)
}

/// Whether a channel counts as joined.
pub open spec fn is_joined(m: Map<Seq<char>, bool>, ch: Seq<char>) -> bool {
    m.contains_key(ch) && m[ch]
}

/// Whether a channel is joined after a status update.
pub open spec fn joined_after(statuses: Seq<TwitchChannelStatus>, d: TwitchChannelData, joined: bool) -> bool {
    let live = match found_status(statuses, d.room_id) {
        Some(i) => statuses[i].stream_type@ == "live"@,
        None => false,
    };
    match status_decision(live, d.show_offline_chat, joined) {
        Some(b) => b,
        None => joined,
    }
}

/// The actions for one channel on a status update fit its status.
pub open spec fn channel_segment_ok(
    seg: Seq<IrcAction>,
    ch: Seq<char>,
    d: TwitchChannelData,
    statuses: Seq<TwitchChannelStatus>,
    joined: Map<Seq<char>, bool>,
    now: i64,
) -> bool {
    exists|st: ChannelStatus|
        channel_status_from(statuses, d.room_id, st)
            && #[trigger] status_segment(seg, ch, st, status_decision(st.is_live, d.show_offline_chat, is_joined(joined, ch)), now)
}

/// The status shown for a channel with room id `room`.
pub fn status_for(statuses: &Vec<TwitchChannelStatus>, room: &Option<String>) -> (r: ChannelStatus)
    ensures
        channel_status_from(statuses@, *room, r),
{
    let mut i: usize = 0;
    assert(statuses@.skip(0) == statuses@);
    match room {
        Some(rid) => {
            while i < statuses.len()
                invariant
                    i <= statuses@.len(),
                    room == Some(*rid),
                    forall|q: int| 0 <= q < i ==> statuses@[q].user_id@ != rid@,
                decreases statuses@.len() - i,
            {
                if str_eq(statuses[i].user_id.as_str(), rid.as_str()) {
                    let x = &statuses[i];
                    proof {
                        lemma_found_status_first(statuses@, *room, i as int);
                    }
                    let live = ['l', 'i', 'v', 'e'];
                    proof {
                        reveal_strlit("live");
                        assert(live@ == "live"@);
                    }
                    let is_live = crate::text::chars_eq(chars_of(x.stream_type.as_str()).as_slice(), live.as_slice());
                    return ChannelStatus {
                        game_name: Some(x.game_name.clone()),
                        is_live,
                        title: Some(x.title.clone()),
                        viewer_count: Some(x.viewer_count),
                        started_at: Some(x.started_at.clone()),
                    };
                }
                i += 1;
            }
            proof {
                lemma_found_status_none(statuses@, *room);
            }
        },
        None => {},
    }
    ChannelStatus { game_name: None, is_live: false, title: None, viewer_count: None, started_at: None }
}

proof fn lemma_found_status_first(statuses: Seq<TwitchChannelStatus>, room: Option<String>, i: int)
    requires
        room is Some,
        0 <= i < statuses.len(),
        statuses[i].user_id@ == room->0@,
        forall|q: int| 0 <= q < i ==> statuses[q].user_id@ != room->0@,
    ensures
        found_status(statuses, room) == Some(i),
    decreases i,
{
    if i > 0 {
        lemma_found_status_first(statuses.drop_first(), room, i - 1);
    }
}

proof fn lemma_found_status_none(statuses: Seq<TwitchChannelStatus>, room: Option<String>)
    requires
        room is Some,
        forall|q: int| 0 <= q < statuses.len() ==> statuses[q].user_id@ != room->0@,
    ensures
        found_status(statuses, room) is None,
    decreases statuses.len(),
{
    if statuses.len() > 0 {
        lemma_found_status_none(statuses.drop_first(), room);
    }
}

impl IrcSession {
    /// The room ids to fetch statuses for; when there are any, the fetch
    /// counts as made now.
    pub fn begin_status_check(&mut self, now: i64) -> (r: Vec<String>)
        requires
            old(self).wf(),
        ensures
            final(self).wf(),
            views(r@) == room_ids(old(self).channels.value_list()),
            final(self).last_status_check == if r@.len() > 0 { Some(now) } else { old(self).last_status_check },
            final(self).channels == old(self).channels,
            final(self).joined_channels == old(self).joined_channels,
            final(self).seen_emote_ids == old(self).seen_emote_ids,
            final(self).profiles == old(self).profiles,
            final(self).last_ping_received == old(self).last_ping_received,
    {
        proof {
            self.channels.lemma_wf();
        }
        let mut r: Vec<String> = Vec::new();
        let n = self.channels.len();
        let mut i: usize = 0;
        while i < n
            invariant
                self.channels.wf(),
                i <= n,
                n == self.channels.value_list().len(),
                n == self.channels.key_list().len(),
                views(r@) == room_ids(self.channels.value_list().take(i as int)),
            decreases n - i,
        {
            let d = self.channels.value_at(i);
            let ghost before = r@;
            assert(self.channels.value_list().take(i + 1).drop_last() == self.channels.value_list().take(i as int));
            match &d.room_id {
                Some(rid) => {
                    r.push(rid.clone());
                    assert(views(r@) == views(before).push(rid@));
                },
                None => {},
            }
            i += 1;
        }
        assert(self.channels.value_list().take(n as int) == self.channels.value_list());
        if r.len() > 0 {
            self.last_status_check = Some(now);
        }
        r
    }

    /// Takes in the statuses fetched for the channels: each channel is joined
    /// or left as its status calls for, and its status is passed on.
    pub fn on_statuses(&mut self, statuses: &Vec<TwitchChannelStatus>, now: i64) -> (r: Vec<IrcAction>)
        requires
            old(self).wf(),
        ensures
            final(self).wf(),
            final(self).channels == old(self).channels,
            final(self).seen_emote_ids == old(self).seen_emote_ids,
            final(self).profiles == old(self).profiles,
            final(self).last_status_check == old(self).last_status_check,
            final(self).last_ping_received == old(self).last_ping_received,
            exists|segs: Seq<Seq<IrcAction>>| {
                &&& #[trigger] segs.len() == old(self).channels.key_list().len()
                &&& r@ == segs.flatten()
                &&& forall|j: int| 0 <= j < segs.len() ==> channel_segment_ok(#[trigger] segs[j],
                    old(self).channels.key_list()[j], old(self).channels.value_list()[j], statuses@,
                    old(self).joined_channels@, now)
            },
            forall|k: Seq<char>| #[trigger] is_joined(final(self).joined_channels@, k) == if old(self).channels@.contains_key(k) {
                joined_after(statuses@, old(self).channels@[k], is_joined(old(self).joined_channels@, k))
            } else {
                is_joined(old(self).joined_channels@, k)
            },
    {
        let ghost s = *self;
        proof {
            self.channels.lemma_wf();
        }
        let n = self.channels.len();
        let mut r: Vec<IrcAction> = Vec::new();
        let ghost mut segs: Seq<Seq<IrcAction>> = Seq::empty();
        let mut j: usize = 0;
        while j < n
            invariant
                self.wf(),
                s.wf(),
                self.channels == s.channels,
                self.seen_emote_ids == s.seen_emote_ids,
                self.profiles == s.profiles,
                self.last_status_check == s.last_status_check,
                self.last_ping_received == s.last_ping_received,
                j <= n,
                n == s.channels.key_list().len(),
                s.channels.key_list().no_duplicates(),
                forall|k: Seq<char>| #[trigger] s.channels@.contains_key(k) <==> s.channels.key_list().contains(k),
                forall|q: int| 0 <= q < n ==> #[trigger] s.channels@[s.channels.key_list()[q]] == s.channels.value_list()[q],
                segs.len() == j,
                r@ == segs.flatten(),
                forall|q: int| 0 <= q < j ==> channel_segment_ok(#[trigger] segs[q],
                    s.channels.key_list()[q], s.channels.value_list()[q], statuses@, s.joined_channels@, now),
                forall|k: Seq<char>| #[trigger] is_joined(self.joined_channels@, k) == if s.channels.key_list().take(j as int).contains(k) {
                    joined_after(statuses@, s.channels@[k], is_joined(s.joined_channels@, k))
                } else {
                    is_joined(s.joined_channels@, k)
                },
            decreases n - j,
        {
            let name = self.channels.key_at(j).clone();
            let ghost key = name@;
            let (st, show) = {
                let d = self.channels.value_at(j);
                (status_for(statuses, &d.room_id), d.show_offline_chat)
            };
            let ghost d = s.channels.value_list()[j as int];
            proof {
                assert(!s.channels.key_list().take(j as int).contains(key)) by {
                    if s.channels.key_list().take(j as int).contains(key) {
                        let q = choose|q: int| 0 <= q < j && s.channels.key_list().take(j as int)[q] == key;
                        assert(s.channels.key_list()[q] == s.channels.key_list()[j as int]);
                    }
                }
            }
            let joined_before = match self.joined_channels.get(name.as_str()) {
                Some(b) => *b,
                None => false,
            };
            assert(joined_before == is_joined(self.joined_channels@, key));
            assert(is_joined(self.joined_channels@, key) == is_joined(s.joined_channels@, key));
            assert(st.is_live == match found_status(statuses@, d.room_id) {
                Some(i) => statuses@[i].stream_type@ == "live"@,
                None => false,
            });
            let live = st.is_live;
            let ghost before_joined = self.joined_channels@;
            let mut seg: Vec<IrcAction> = if (live || show) && !joined_before {
                self.join(&name, now)
            } else if !live && !show && joined_before {
                self.leave(&name, now)
            } else {
                Vec::new()
            };
            let ghost k0 = seg@.len();
            let lower = crate::text::to_lowercase(name.as_str());
            seg.push(IrcAction::Emit { message: IncomingMessage::StreamingStatus { channel: lower, status: Some(st) } });
            proof {
                let dec = status_decision(st.is_live, d.show_offline_chat, is_joined(s.joined_channels@, key));
                assert(seg@.take(2) == seg@.subrange(0, 2)) ;
                if dec is Some {
                    assert(seg@.take(2) =~= seg@.take(k0 as int));
                }
                assert(status_segment(seg@, key, st, dec, now));
                crate::selector::lemma_push_contains(s.channels.key_list().take(j as int), key);
                assert(s.channels.key_list().take(j + 1) == s.channels.key_list().take(j as int).push(key));
                assert(s.channels@[key] == d);
            }
            proof {
                assert forall|k: Seq<char>| #[trigger] is_joined(self.joined_channels@, k) == if s.channels.key_list().take(j + 1).contains(k) {
                    joined_after(statuses@, s.channels@[k], is_joined(s.joined_channels@, k))
                } else {
                    is_joined(s.joined_channels@, k)
                } by {
                    if k == key {
                        assert(s.channels.key_list().take(j + 1).contains(k));
                    } else {
                        assert(is_joined(self.joined_channels@, k) == is_joined(before_joined, k));
                    }
                }
            }
            let ghost seg_v = seg@;
            let ghost r_before = r@;
            r.append(&mut seg);
            proof {
                segs.lemma_flatten_push(seg_v);
                segs = segs.push(seg_v);
                assert(r@ == r_before + seg_v);
                assert(channel_segment_ok(seg_v, key, d, statuses@, s.joined_channels@, now));
                assert forall|q: int| 0 <= q < j + 1 implies channel_segment_ok(#[trigger] segs[q],
                    s.channels.key_list()[q], s.channels.value_list()[q], statuses@, s.joined_channels@, now) by {
                    if q == j {
                        assert(segs[q] == seg_v);
                    } else {
                        assert(segs[q] == segs.drop_last()[q]);
                    }
                }
            }
            j += 1;
        }
        proof {
            assert(s.channels.key_list().take(n as int) == s.channels.key_list());
        }
        r
    }
}

} // verus!

verus! {

/// The Twitch API address that gives the live status of the channels with
/// the given room ids.
pub open spec fn streams_url_spec(ids: Seq<Seq<char>>) -> Seq<char> {
    "https://api.twitch.tv/helix/streams?"@ + join_with(ids.map_values(|id: Seq<char>| "user_id="@ + id), "&"@)
}

/// The address of the Twitch API request for the statuses of some channels.
pub fn streams_url(room_ids: &Vec<String>) -> (r: String)
    ensures
        r@ == streams_url_spec(views(room_ids@)),
{
    let mut r = String::new();
    push_str(&mut r, "https://api.twitch.tv/helix/streams?");
    let ghost base = r@;
    let ghost items = views(room_ids@).map_values(|id: Seq<char>| "user_id="@ + id);
    let mut i: usize = 0;
    while i < room_ids.len()
        invariant
            i <= room_ids@.len(),
            items == views(room_ids@).map_values(|id: Seq<char>| "user_id="@ + id),
            r@ == base + join_with(items.take(i as int), "&"@),
        decreases room_ids@.len() - i,
    {
        let ghost before = r@;
        if i > 0 {
            push_str(&mut r, "&");
        }
        push_str(&mut r, "user_id=");
        push_str(&mut r, room_ids[i].as_str());
        proof {
            assert(items.take(i + 1).drop_last() == items.take(i as int));
            assert(items.take(i + 1).last() == "user_id="@ + room_ids@[i as int]@);
            if i == 0 {
                assert(items.take(1).len() == 1);
                assert(r@ == before + ("user_id="@ + room_ids@[0]@));
            } else {
                assert(r@ == before + "&"@ + ("user_id="@ + room_ids@[i as int]@));
            }
        }
        i += 1;
    }
    assert(items.take(room_ids@.len() as int) == items);
    r
}

/// For each channel id in turn, the position of the first status of that
/// channel, skipping ids with none.
pub open spec fn selected_statuses(ids: Seq<Seq<char>>, data: Seq<TwitchChannelStatus>) -> Seq<int>
    decreases ids.len(),
{
    if ids.len() == 0 {
        Seq::empty()
    } else {
        let prev = selected_statuses(ids.drop_last(), data);
        match first_with_id(data, ids.last()) {
            Some(i) => prev.push(i),
            None => prev,
        }
    }
}

/// The position of the first status with the given user id.
pub open spec fn first_with_id(data: Seq<TwitchChannelStatus>, id: Seq<char>) -> Option<int>
    decreases data.len(),
{
    if data.len() == 0 {
        None
    } else if data[0].user_id@ == id {
        Some(0)
    } else {
        match first_with_id(data.drop_first(), id) {
            Some(i) => Some(i + 1),
            None => None,
        }
    }
}

proof fn lemma_first_with_id(data: Seq<TwitchChannelStatus>, id: Seq<char>, k: int)
    requires
        0 <= k <= data.len(),
        forall|q: int| 0 <= q < k ==> data[q].user_id@ != id,
    ensures
        first_with_id(data, id) == (if k < data.len() && data[k].user_id@ == id { Some(k) } else { first_with_id(data, id) }),
        k == data.len() ==> first_with_id(data, id) is None,
    decreases k,
{
    if k > 0 {
        lemma_first_with_id(data.drop_first(), id, k - 1);
    }
}

fn clone_status(x: &TwitchChannelStatus) -> (r: TwitchChannelStatus)
    ensures
        r == *x,
{
    TwitchChannelStatus {
        user_id: x.user_id.clone(),
        user_name: x.user_name.clone(),
        game_name: x.game_name.clone(),
        stream_type: x.stream_type.clone(),
        title: x.title.clone(),
        viewer_count: x.viewer_count,
        started_at: x.started_at.clone(),
    }
}

/// Picks, for each channel id in turn, the first status reported for it.
pub fn select_channel_statuses(channel_ids: &Vec<String>, data: &Vec<TwitchChannelStatus>) -> (r: Vec<TwitchChannelStatus>)
    ensures
        r@ == selected_statuses(views(channel_ids@), data@).map_values(|i: int| data@[i]),
{
    let mut r: Vec<TwitchChannelStatus> = Vec::new();
    let ghost ids = views(channel_ids@);
    let mut i: usize = 0;
    while i < channel_ids.len()
        invariant
            i <= channel_ids@.len(),
            ids == views(channel_ids@),
            r@ == selected_statuses(ids.take(i as int), data@).map_values(|k: int| data@[k]),
        decreases channel_ids@.len() - i,
    {
        assert(ids.take(i + 1).drop_last() == ids.take(i as int));
        assert(ids.take(i + 1).last() == channel_ids@[i as int]@);
        let mut k: usize = 0;
        let mut found = false;
        while k < data.len() && !found
            invariant
                i < channel_ids@.len(),
                k <= data@.len(),
                !found ==> forall|q: int| 0 <= q < k ==> data@[q].user_id@ != channel_ids@[i as int]@,
                found ==> k > 0 && first_with_id(data@, channel_ids@[i as int]@) == Some(k - 1),
            decreases data@.len() - k + (if found { 0int } else { 1int }),
        {
            if str_eq(data[k].user_id.as_str(), channel_ids[i].as_str()) {
                proof {
                    lemma_first_with_id(data@, channel_ids@[i as int]@, k as int);
                }
                found = true;
            }
            k += 1;
        }
        let ghost before = r@;
        if found {
            r.push(clone_status(&data[k - 1]));
        } else {
            proof {
                lemma_first_with_id(data@, channel_ids@[i as int]@, k as int);
            }
        }
        proof {
            let sel = selected_statuses(ids.take(i + 1), data@);
            assert(r@ =~= sel.map_values(|k: int| data@[k]));
        }
        i += 1;
    }
    assert(ids.take(channel_ids@.len() as int) == ids);
    r
}

/// The Twitch page where the user signs in and authorises chat reading and
/// sending, with `state` as its state parameter.
pub open spec fn authorize_url(state: Seq<char>) -> Seq<char> {
    "https://id.twitch.tv/oauth2/authorize?client_id=fpj6py15j5qccjs8cm7iz5ljjzp1uf&redirect_uri=https://dbckr.github.io/GigachatAuth&response_type=token&scope=chat:read chat:edit&state="@
        + state
}

/// The Twitch sign-in address, with a random number as its state.
pub fn authenticate() -> (r: String)
    ensures
        exists|x: u128| r@ == authorize_url(crate::numbers::decimal_text(x as nat)),
{
    let state = crate::numbers::random_u128();
    let mut r = String::new();
    push_str(
        &mut r,
        "https://id.twitch.tv/oauth2/authorize?client_id=fpj6py15j5qccjs8cm7iz5ljjzp1uf&redirect_uri=https://dbckr.github.io/GigachatAuth&response_type=token&scope=chat:read chat:edit&state=",
    );
    crate::numbers::push_decimal(&mut r, state);
    r
}

} // verus!
