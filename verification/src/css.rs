//! Reading the sprite animations of the Destiny.gg emote stylesheet: which
//! emote rules count, their frame width and step count, and how the cycle
//! time of each is taken.

use vstd::prelude::*;
use crate::model::CssAnimationData;
use crate::name_map::NameMap;
use crate::numbers::{all_digits, decimal_value, parse_usize, parse_usize_spec, unsigned_digits};
use crate::text::{chars_of, opt_str_view};

verus! {

/// The emote rules of a stylesheet, as `regex::Regex::captures_iter` finds
/// them with the pattern
/// `(?s)\.emote\.([^:\-\s]*?)\s?\{[^\}]*? width: (\d+?)px;[^\}]*?animation: (?:[^\s]*?) ([^\}]*?;)`:
/// for each match, its three groups (the emote's name, the width digits and
/// the rest of the animation declaration).
pub uninterp spec fn emote_rules(css: Seq<char>) -> Seq<(Option<Seq<char>>, Option<Seq<char>>, Option<Seq<char>>)>;

/// The text that the pattern `steps\((.*?)\)` captures in an animation
/// declaration, as `regex::Regex::captures` finds it.
pub uninterp spec fn steps_text(anim: Seq<char>) -> Option<Seq<char>>;

/// The number and the unit that the pattern `([\d\.]*?)(ms|s)` captures in
/// an animation declaration, as `regex::Regex::captures` finds them.
pub uninterp spec fn time_parts(anim: Seq<char>) -> Option<(Seq<char>, Seq<char>)>;

/// The captures of the emote rules, as texts.
pub open spec fn rules_view(
    r: Seq<(Option<String>, Option<String>, Option<String>)>,
) -> Seq<(Option<Seq<char>>, Option<Seq<char>>, Option<Seq<char>>)> {
    r.map_values(|c: (Option<String>, Option<String>, Option<String>)| (opt_str_view(c.0), opt_str_view(c.1), opt_str_view(c.2)))
}

/// Finds the emote rules of a stylesheet.
///
/// Calls `regex::Regex::captures_iter` with the emote-rule pattern and takes
/// the three groups of each match; the contract names the result.
#[verifier::external_body]
fn emote_rule_captures(css: &str) -> (r: Vec<(Option<String>, Option<String>, Option<String>)>)
    ensures
        rules_view(r@) == emote_rules(css@),
{
    let re = regex::Regex::new(r"(?s)\.emote\.([^:\-\s]*?)\s?\{[^\}]*? width: (\d+?)px;[^\}]*?animation: (?:[^\s]*?) ([^\}]*?;)").unwrap();
    let mut r = Vec::new();
    for c in re.captures_iter(css) {
        r.push((c.get(1).map(|m| m.as_str().to_owned()), c.get(2).map(|m| m.as_str().to_owned()), c.get(3).map(|m| m.as_str().to_owned())));
    }
    r
}

/// Finds the step count text of an animation declaration.
///
/// Calls `regex::Regex::captures` with the pattern `steps\((.*?)\)` and takes
/// its group; the contract names the result.
#[verifier::external_body]
fn steps_capture(anim: &str) -> (r: Option<String>)
    ensures
        opt_str_view(r) == steps_text(anim@),
{
    match regex::Regex::new("steps\\((.*?)\\)").unwrap().captures(anim) {
        Some(c) => Some(c[1].to_owned()),
        None => None,
    }
}

/// Finds the cycle time of an animation declaration, as a number and a unit.
///
/// Calls `regex::Regex::captures` with the pattern `([\d\.]*?)(ms|s)` and
/// takes its two groups; the contract names the result.
#[verifier::external_body]
fn time_capture(anim: &str) -> (r: Option<(String, String)>)
    ensures
        match r {
            Some(t) => time_parts(anim@) == Some((t.0@, t.1@)),
            None => time_parts(anim@) is None,
        },
{
    match regex::Regex::new("([\\d\\.]*?)(ms|s)").unwrap().captures(anim) {
        Some(c) => Some((c[1].to_owned(), c[2].to_owned())),
        None => None,
    }
}

/// The number `str::parse::<u32>` reads: an optional '+', then ASCII digits,
/// no larger than `u32::MAX`.
pub open spec fn parse_u32_spec(s: Seq<char>) -> Option<int> {
    let d = unsigned_digits(s);
    if d.len() > 0 && all_digits(d) && decimal_value(d) <= u32::MAX {
        Some(decimal_value(d))
    } else {
        None
    }
}

/// The number `str::parse::<isize>` reads: an optional sign, then ASCII
/// digits, within the range of `isize`.
pub open spec fn parse_isize_spec(s: Seq<char>) -> Option<int> {
    let signed = s.len() > 0 && (s[0] == '-' || s[0] == '+');
    let neg = s.len() > 0 && s[0] == '-';
    let d = if signed { s.drop_first() } else { s };
    if d.len() > 0 && all_digits(d) {
        let v = if neg { -decimal_value(d) } else { decimal_value(d) };
        if isize::MIN <= v <= isize::MAX {
            Some(v)
        } else {
            None
        }
    } else {
        None
    }
}

/// Reads a number as `str::parse::<u32>` does.
pub fn parse_u32(s: &str) -> (r: Option<u32>)
    ensures
        match r {
            Some(v) => parse_u32_spec(s@) == Some(v as int),
            None => parse_u32_spec(s@) is None,
        },
{
    match parse_usize(s) {
        Some(v) => if v <= 0xffff_ffff {
            Some(v as u32)
        } else {
            None
        },
        None => None,
    }
}

/// Reads a number as `str::parse::<isize>` does.
pub fn parse_isize(s: &str) -> (r: Option<isize>)
    ensures
        match r {
            Some(v) => parse_isize_spec(s@) == Some(v as int),
            None => parse_isize_spec(s@) is None,
        },
{
    let cs = chars_of(s);
    let signed = cs.len() > 0 && (cs[0] == '-' || cs[0] == '+');
    let neg = cs.len() > 0 && cs[0] == '-';
    let ghost d = if signed { s@.drop_first() } else { s@ };
    let mut rest = String::new();
    let mut i: usize = if signed { 1 } else { 0 };
    while i < cs.len()
        invariant
            cs@ == s@,
            (if signed { 1int } else { 0int }) <= i <= cs@.len(),
            rest@ == cs@.subrange(if signed { 1int } else { 0int }, i as int),
        decreases cs@.len() - i,
    {
        crate::text::push_char(&mut rest, cs[i]);
        assert(cs@.subrange(if signed { 1int } else { 0int }, i + 1) == cs@.subrange(if signed { 1int } else { 0int }, i as int).push(cs@[i as int]));
        i += 1;
    }
    assert(rest@ == d);
    let rc = chars_of(rest.as_str());
    if rc.len() > 0 && rc[0] == '+' {
        assert(!all_digits(d)) by {
            assert(!crate::numbers::is_digit(d[0]));
        }
        return None;
    }
    assert(unsigned_digits(d) == d);
    match parse_usize(rest.as_str()) {
        None => None,
        Some(v) => {
            let vv = v as u128;
            if neg {
                if vv < (isize::MAX as u128) + 1 {
                    Some(-(v as isize))
                } else if vv == (isize::MAX as u128) + 1 {
                    Some(isize::MIN)
                } else {
                    None
                }
            } else {
                if vv <= (isize::MAX as u128) {
                    Some(v as isize)
                } else {
                    None
                }
            }
        },
    }
}

/// The step count of an animation declaration, if it names one.
pub open spec fn steps_of(anim: Seq<char>) -> Option<int> {
    match steps_text(anim) {
        Some(t) => parse_isize_spec(t),
        None => None,
    }
}

/// An animation entry read from one emote rule: the emote's name, the frame
/// width, the step count and the cycle time as a number and a unit. A rule
/// counts only when its name, a width that reads as a `u32` and a step count
/// that reads as an `isize` are all there.
pub open spec fn rule_entry(
    rule: (Option<Seq<char>>, Option<Seq<char>>, Option<Seq<char>>),
) -> Option<(Seq<char>, int, int, (Seq<char>, Seq<char>))> {
    match rule {
        (Some(p), Some(w), Some(a)) => match (parse_u32_spec(w), steps_of(a), time_parts(a)) {
            (Some(wv), Some(st), Some(t)) => Some((p, wv, st, t)),
            _ => None,
        },
        _ => None,
    }
}

/// The entries of the rules that count, in the order of the rules.
pub open spec fn entries_of(
    rules: Seq<(Option<Seq<char>>, Option<Seq<char>>, Option<Seq<char>>)>,
) -> Seq<(Seq<char>, int, int, (Seq<char>, Seq<char>))>
    decreases rules.len(),
{
    if rules.len() == 0 {
        Seq::empty()
    } else {
        let rest = entries_of(rules.drop_last());
        match rule_entry(rules.last()) {
            Some(e) => rest.push(e),
            None => rest,
        }
    }
}

/// Every emote rule has an animation declaration in which a cycle time is
/// found; the stylesheet cannot be read otherwise.
pub open spec fn times_found(css: Seq<char>) -> bool {
    forall|i: int| 0 <= i < emote_rules(css).len() ==> rule_has_time(#[trigger] emote_rules(css)[i])
}

/// An emote rule has an animation declaration in which a cycle time is found.
pub open spec fn rule_has_time(rule: (Option<Seq<char>>, Option<Seq<char>>, Option<Seq<char>>)) -> bool {
    match rule.2 {
        Some(a) => time_parts(a) is Some,
        None => false,
    }
}

/// The entries as texts and numbers.
pub open spec fn entries_view(
    r: Seq<(String, u32, isize, (String, String))>,
) -> Seq<(Seq<char>, int, int, (Seq<char>, Seq<char>))> {
    r.map_values(|e: (String, u32, isize, (String, String))| (e.0@, e.1 as int, e.2 as int, (e.3.0@, e.3.1@)))
}

/// The animation entries of the emote rules of a stylesheet.
pub fn css_anim_entries(css: &str) -> (r: Vec<(String, u32, isize, (String, String))>)
    requires
        times_found(css@),
    ensures
        entries_view(r@) == entries_of(emote_rules(css@)),
{
    let rules = emote_rule_captures(css);
    let ghost rv = rules_view(rules@);
    let mut r: Vec<(String, u32, isize, (String, String))> = Vec::new();
    let mut i: usize = 0;
    while i < rules.len()
        invariant
            i <= rules@.len(),
            rv == rules_view(rules@),
            entries_view(r@) == entries_of(rv.take(i as int)),
        decreases rules@.len() - i,
    {
        let ghost before = entries_view(r@);
        assert(rv.take(i + 1).drop_last() == rv.take(i as int));
        assert(rv.take(i + 1).last() == rv[i as int]);
        let rule = &rules[i];
        assert(rv[i as int] == (opt_str_view(rule.0), opt_str_view(rule.1), opt_str_view(rule.2)));
        match (&rule.0, &rule.1, &rule.2) {
            (Some(p), Some(w), Some(a)) => {
                let wv = parse_u32(w.as_str());
                let st = match steps_capture(a.as_str()) {
                    Some(t) => parse_isize(t.as_str()),
                    None => None,
                };
                let tm = time_capture(a.as_str());
                match (wv, st, tm) {
                    (Some(wv), Some(st), Some(tm)) => {
                        r.push((p.clone(), wv, st, tm));
                        assert(entries_view(r@) =~= before.push((p@, wv as int, st as int, (tm.0@, tm.1@))));
                    },
                    _ => {},
                }
            },
            _ => {},
        }
        i += 1;
    }
    assert(rv.take(rules@.len() as int) == rv);
    r
}

/// The animation entries of a stylesheet, or nothing when one of its emote
/// rules has no cycle time to read.
pub fn css_anim_entries_checked(css: &str) -> (r: Option<Vec<(String, u32, isize, (String, String))>>)
    ensures
        times_found(css@) ==> (r matches Some(v) && entries_view(v@) == entries_of(emote_rules(css@))),
        !times_found(css@) ==> r is None,
{
    let rules = emote_rule_captures(css);
    let ghost rv = rules_view(rules@);
    let mut i: usize = 0;
    while i < rules.len()
        invariant
            i <= rules@.len(),
            rv == rules_view(rules@),
            rv == emote_rules(css@),
            forall|k: int| 0 <= k < i ==> rule_has_time(#[trigger] rv[k]),
        decreases rules@.len() - i,
    {
        assert(rv[i as int] == (opt_str_view(rules@[i as int].0), opt_str_view(rules@[i as int].1), opt_str_view(rules@[i as int].2)));
        let found = match &rules[i].2 {
            Some(a) => time_capture(a.as_str()).is_some(),
            None => false,
        };
        if !found {
            assert(!times_found(css@)) by {
                assert(!rule_has_time(rv[i as int]));
            }
            return None;
        }
        i += 1;
    }
    Some(css_anim_entries(css))
}

/// The animation of an entry: its width and steps, and the cycle time read
/// in milliseconds, or 30 milliseconds a step when the time did not read as
/// a number.
pub open spec fn anim_of(e: (String, u32, isize, (String, String)), time_msec: Option<isize>) -> CssAnimationData {
    CssAnimationData {
        width: e.1,
        cycle_time_msec: match time_msec {
            Some(t) => t,
            None => (e.2 * 30) as isize,
        },
        steps: e.2,
    }
}

/// The position of the last entry of an emote's name.
pub open spec fn last_entry(es: Seq<(String, u32, isize, (String, String))>, k: Seq<char>) -> Option<int>
    decreases es.len(),
{
    if es.len() == 0 {
        None
    } else if es.last().0@ == k {
        Some(es.len() - 1)
    } else {
        last_entry(es.drop_last(), k)
    }
}

proof fn lemma_last_entry_bound(es: Seq<(String, u32, isize, (String, String))>, k: Seq<char>)
    ensures
        last_entry(es, k) matches Some(i) ==> 0 <= i < es.len() && es[i].0@ == k,
    decreases es.len(),
{
    if es.len() > 0 {
        lemma_last_entry_bound(es.drop_last(), k);
    }
}

/// The animations by emote name: of two entries of one name the later is
/// kept.
pub open spec fn anim_map_ok(
    es: Seq<(String, u32, isize, (String, String))>,
    times: Seq<Option<isize>>,
    m: Map<Seq<char>, CssAnimationData>,
) -> bool {
    &&& forall|k: Seq<char>| #[trigger] m.contains_key(k) <==> last_entry(es, k) is Some
    &&& forall|k: Seq<char>| #[trigger] m.contains_key(k) ==> m[k] == anim_of(es[last_entry(es, k)->0], times[last_entry(es, k)->0])
}

/// The sprite animations by emote name, from the entries of the stylesheet
/// and their cycle times in milliseconds (none where the time did not read
/// as a number). Where a time is missing, 30 milliseconds a step must fit in
/// an `isize`.
pub fn css_anim_data(entries: &Vec<(String, u32, isize, (String, String))>, time_msec: &Vec<Option<isize>>) -> (r: NameMap<CssAnimationData>)
    requires
        entries@.len() == time_msec@.len(),
        forall|i: int| 0 <= i < entries@.len() && time_msec@[i] is None ==>
            isize::MIN <= (#[trigger] entries@[i]).2 * 30 <= isize::MAX,
    ensures
        r.wf(),
        anim_map_ok(entries@, time_msec@, r@),
{
    let mut r: NameMap<CssAnimationData> = NameMap::new();
    let mut i: usize = 0;
    while i < entries.len()
        invariant
            r.wf(),
            i <= entries@.len(),
            entries@.len() == time_msec@.len(),
            forall|i: int| 0 <= i < entries@.len() && time_msec@[i] is None ==>
                isize::MIN <= (#[trigger] entries@[i]).2 * 30 <= isize::MAX,
            anim_map_ok(entries@.take(i as int), time_msec@.take(i as int), r@),
        decreases entries@.len() - i,
    {
        let e = &entries[i];
        let cycle = match time_msec[i] {
            Some(t) => t,
            None => {
                assert(isize::MIN <= entries@[i as int].2 * 30 <= isize::MAX);
                e.2 * 30
            },
        };
        let a = CssAnimationData { width: e.1, cycle_time_msec: cycle, steps: e.2 };
        assert(a == anim_of(*e, time_msec@[i as int]));
        let ghost before = r@;
        r.insert(e.0.clone(), a);
        proof {
            let t = entries@.take(i + 1);
            let tt = time_msec@.take(i + 1);
            assert(t.drop_last() == entries@.take(i as int));
            assert(t.last() == *e);
            assert forall|k: Seq<char>| #[trigger] r@.contains_key(k) <==> last_entry(t, k) is Some by {}
            assert forall|k: Seq<char>| #[trigger] r@.contains_key(k) implies r@[k] == anim_of(t[last_entry(t, k)->0], tt[last_entry(t, k)->0]) by {
                if k != e.0@ {
                    assert(before.contains_key(k));
                    lemma_last_entry_bound(t.drop_last(), k);
                    let j = last_entry(t.drop_last(), k)->0;
                    assert(t[j] == t.drop_last()[j]);
                    assert(tt[j] == time_msec@.take(i as int)[j]);
                } else {
                    assert(tt[i as int] == time_msec@[i as int]);
                }
            }
        }
        i += 1;
    }
    assert(entries@.take(entries@.len() as int) == entries@);
    assert(time_msec@.take(time_msec@.len() as int) == time_msec@);
    r
}

} // verus!
