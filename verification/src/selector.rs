//! Suggestions for the word being typed: emotes and users whose names match
//! it, those starting with it first, each group in alphabetical order.

use vstd::prelude::*;
use vstd::seq_lib::{to_multiset_contains};
use crate::name_map::NameMap;
use crate::ordering::{SortEntry, entries_view, entry_view, keys_sorted, sort_entries};
use crate::text::{chars_of, contains_spec, copy_range, has_infix, has_prefix, lowercase, starts_with_spec, string_from_chars, to_lowercase, views};
use crate::chat::byte_len;
use crate::model::{ChannelUser, Emote, ProviderName};
use crate::channel::provider_wf;
use crate::state::ChatState;

verus! {

/// The sort key of a name, as an entry: its lower-cased form, then, when ties
/// are broken by name, the name itself.
pub open spec fn name_entry(n: Seq<char>, tie_by_name: bool) -> (Seq<char>, Seq<char>, Seq<char>) {
    (lowercase(n), if tie_by_name { n } else { Seq::<char>::empty() }, n)
}

/// Names in order of their sort keys.
pub open spec fn names_sorted(v: Seq<Seq<char>>, tie_by_name: bool) -> bool {
    keys_sorted(v.map_values(|n: Seq<char>| name_entry(n, tie_by_name)))
}

/// Sorts distinct names by their lower-cased form, breaking ties by the name
/// itself when asked to.
pub fn sort_names(names: Vec<String>, tie_by_name: bool) -> (r: Vec<String>)
    requires
        views(names@).no_duplicates(),
    ensures
        views(r@).no_duplicates(),
        forall|n: Seq<char>| views(r@).contains(n) <==> views(names@).contains(n),
        names_sorted(views(r@), tie_by_name),
{
    let ghost input = views(names@).map_values(|n: Seq<char>| name_entry(n, tie_by_name));
    let mut entries: Vec<SortEntry> = Vec::new();
    let mut i: usize = 0;
    while i < names.len()
        invariant
            i <= names@.len(),
            input == views(names@).map_values(|n: Seq<char>| name_entry(n, tie_by_name)),
            entries_view(entries@) == input.take(i as int),
        decreases names@.len() - i,
    {
        let lower = to_lowercase(names[i].as_str());
        let primary = chars_of(lower.as_str());
        let secondary = if tie_by_name {
            chars_of(names[i].as_str())
        } else {
            Vec::new()
        };
        let e = SortEntry { primary, secondary, value: names[i].clone() };
        let ghost before = entries@;
        entries.push(e);
        assert(entries_view(entries@) == entries_view(before).push(entry_view(e)));
        assert(input.take(i + 1) == input.take(i as int).push(input[i as int]));
        i += 1;
    }
    assert(input.take(input.len() as int) == input);
    let sorted = sort_entries(entries);
    let ghost out = entries_view(sorted@);
    proof {
        assert forall|i: int, j: int| 0 <= i < j < input.len() implies input[i] != input[j] by {
            assert(views(names@)[i] != views(names@)[j]);
        }
        input.lemma_multiset_has_no_duplicates();
        assert forall|x| out.to_multiset().contains(x) implies out.to_multiset().count(x) == 1 by {
            to_multiset_contains(input, x);
        }
        out.lemma_multiset_has_no_duplicates_conv();
        assert forall|k: int| 0 <= k < out.len() implies #[trigger] out[k] == name_entry(out[k].2, tie_by_name) by {
            to_multiset_contains(out, out[k]);
            to_multiset_contains(input, out[k]);
            let j = choose|j: int| 0 <= j < input.len() && input[j] == out[k];
        }
    }
    let mut r: Vec<String> = Vec::new();
    let mut k: usize = 0;
    while k < sorted.len()
        invariant
            k <= sorted@.len(),
            out == entries_view(sorted@),
            views(r@) == out.take(k as int).map_values(|e: (Seq<char>, Seq<char>, Seq<char>)| e.2),
        decreases sorted@.len() - k,
    {
        let ghost before = r@;
        r.push(sorted[k].value.clone());
        assert(views(r@) == views(before).push(sorted@[k as int].value@));
        assert(out.take(k + 1) == out.take(k as int).push(out[k as int]));
        k += 1;
    }
    proof {
        assert(out.take(out.len() as int) == out);
        let rv = views(r@);
        assert(rv.map_values(|n: Seq<char>| name_entry(n, tie_by_name)) == out);
        assert forall|a: int, b: int| 0 <= a < b < rv.len() implies rv[a] != rv[b] by {
            assert(out[a] != out[b]);
        }
        assert forall|n: Seq<char>| rv.contains(n) <==> views(names@).contains(n) by {
            if rv.contains(n) {
                let a = choose|a: int| 0 <= a < rv.len() && rv[a] == n;
                to_multiset_contains(out, out[a]);
                to_multiset_contains(input, out[a]);
                let j = choose|j: int| 0 <= j < input.len() && input[j] == out[a];
                assert(views(names@)[j] == n);
            }
            if views(names@).contains(n) {
                let j = choose|j: int| 0 <= j < views(names@).len() && views(names@)[j] == n;
                to_multiset_contains(input, input[j]);
                to_multiset_contains(out, input[j]);
                let a = choose|a: int| 0 <= a < out.len() && out[a] == input[j];
                assert(rv[a] == n);
            }
        }
    }
    r
}

} // verus!

verus! {

/// A group of suggestions: the given names, each once, in sorted order.
pub open spec fn suggestion_group(v: Seq<Seq<char>>, names: Set<Seq<char>>, tie_by_name: bool) -> bool {
    &&& v.no_duplicates()
    &&& forall|n: Seq<char>| v.contains(n) <==> names.contains(n)
    &&& names_sorted(v, tie_by_name)
}

/// The names of a set, each once, sorted by their lower-cased form (ties
/// broken by name when asked to).
pub fn sorted_keys<V>(set: &NameMap<V>, tie_by_name: bool) -> (r: Vec<String>)
    requires
        set.wf(),
    ensures
        suggestion_group(views(r@), set@.dom(), tie_by_name),
{
    proof {
        set.lemma_wf();
    }
    let mut names: Vec<String> = Vec::new();
    let n = set.len();
    let mut i: usize = 0;
    while i < n
        invariant
            set.wf(),
            i <= n,
            n == set.key_list().len(),
            views(names@) == set.key_list().take(i as int),
        decreases n - i,
    {
        let ghost before = names@;
        names.push(set.key_at(i).clone());
        assert(views(names@) == views(before).push(set.key_list()[i as int]));
        assert(set.key_list().take(i + 1) == set.key_list().take(i as int).push(set.key_list()[i as int]));
        i += 1;
    }
    assert(set.key_list().take(n as int) == set.key_list());
    let r = sort_names(names, tie_by_name);
    assert forall|x: Seq<char>| views(r@).contains(x) <==> set@.dom().contains(x) by {
        assert(set@.contains_key(x) <==> set.key_list().contains(x));
    }
    r
}

} // verus!

verus! {

/// The users of the selected channel, when it is open.
pub open spec fn channel_users(s: ChatState, ch: Option<String>) -> Map<Seq<char>, ChannelUser> {
    match ch {
        Some(c) => if s.channels@.contains_key(c@) {
            s.channels@[c@].spec_shared().users@
        } else {
            Map::empty()
        },
        None => Map::empty(),
    }
}

/// The display names of active users whose (lower-cased) key contains `wl`,
/// among those whose key starts with it or among the others.
pub open spec fn matching_users(users: Map<Seq<char>, ChannelUser>, wl: Seq<char>, starts: bool) -> Set<Seq<char>> {
    Set::new(|d: Seq<char>| exists|k: Seq<char>|
        #[trigger] users.contains_key(k) && users[k].is_active && users[k].display_name@ == d
            && contains_spec(k, wl) && starts_with_spec(k, wl) == starts)
}

/// The user suggestions for a word: those whose key starts with the word, then
/// those whose key holds it elsewhere.
pub open spec fn user_suggestions(v: Seq<Seq<char>>, users: Map<Seq<char>, ChannelUser>, wl: Seq<char>) -> bool {
    exists|i: int| 0 <= i <= v.len()
        && suggestion_group(v.take(i), matching_users(users, wl, true), false)
        && #[trigger] suggestion_group(v.skip(i), matching_users(users, wl, false), false)
}

/// The typed word a user suggestion is sought for: the text after its first
/// character, lower-cased.
pub open spec fn user_word(w: Seq<char>) -> Seq<char> {
    lowercase(w.drop_first())
}

/// A word shorter than three bytes gets no user suggestions; a longer one
/// must begin with a one-byte character, its '@'.
pub open spec fn user_word_ok(word: Option<&String>) -> bool {
    word matches Some(w) ==> (byte_len(w@) >= 3 ==> (w@[0] as u32) < 0x80)
}

/// Splits users into those matching at the start and those matching elsewhere.
fn collect_matching_users(users: &NameMap<ChannelUser>, wl: &[char]) -> (r: (NameMap<()>, NameMap<()>))
    requires
        users.wf(),
    ensures
        r.0.wf(),
        r.1.wf(),
        r.0@.dom() == matching_users(users@, wl@, true),
        r.1@.dom() == matching_users(users@, wl@, false),
{
    proof {
        users.lemma_wf();
    }
    let mut starts: NameMap<()> = NameMap::new();
    let mut others: NameMap<()> = NameMap::new();
    let n = users.len();
    let mut j: usize = 0;
    while j < n
        invariant
            users.wf(),
            starts.wf(),
            others.wf(),
            j <= n,
            n == users.key_list().len(),
            forall|d: Seq<char>| #[trigger] starts@.contains_key(d) <==> exists|q: int|
                0 <= q < j && users.value_list()[q].is_active && users.value_list()[q].display_name@ == d
                    && contains_spec(users.key_list()[q], wl@) && starts_with_spec(users.key_list()[q], wl@),
            forall|d: Seq<char>| #[trigger] others@.contains_key(d) <==> exists|q: int|
                0 <= q < j && users.value_list()[q].is_active && users.value_list()[q].display_name@ == d
                    && contains_spec(users.key_list()[q], wl@) && !starts_with_spec(users.key_list()[q], wl@),
        decreases n - j,
    {
        let u = users.value_at(j);
        if u.is_active {
            let kc = chars_of(users.key_at(j).as_str());
            if has_infix(kc.as_slice(), wl) {
                if has_prefix(kc.as_slice(), wl) {
                    starts.insert(u.display_name.clone(), ());
                } else {
                    others.insert(u.display_name.clone(), ());
                }
            }
        }
        proof {
            assert forall|d: Seq<char>| #[trigger] starts@.contains_key(d) <==> exists|q: int|
                0 <= q < j + 1 && users.value_list()[q].is_active && users.value_list()[q].display_name@ == d
                    && contains_spec(users.key_list()[q], wl@) && starts_with_spec(users.key_list()[q], wl@) by {
                if exists|q: int| 0 <= q < j + 1 && users.value_list()[q].is_active && users.value_list()[q].display_name@ == d
                    && contains_spec(users.key_list()[q], wl@) && starts_with_spec(users.key_list()[q], wl@) {
                    let q = choose|q: int| 0 <= q < j + 1 && users.value_list()[q].is_active && users.value_list()[q].display_name@ == d
                        && contains_spec(users.key_list()[q], wl@) && starts_with_spec(users.key_list()[q], wl@);
                    if q < j {
                    }
                }
            }
            assert forall|d: Seq<char>| #[trigger] others@.contains_key(d) <==> exists|q: int|
                0 <= q < j + 1 && users.value_list()[q].is_active && users.value_list()[q].display_name@ == d
                    && contains_spec(users.key_list()[q], wl@) && !starts_with_spec(users.key_list()[q], wl@) by {
                if exists|q: int| 0 <= q < j + 1 && users.value_list()[q].is_active && users.value_list()[q].display_name@ == d
                    && contains_spec(users.key_list()[q], wl@) && !starts_with_spec(users.key_list()[q], wl@) {
                    let q = choose|q: int| 0 <= q < j + 1 && users.value_list()[q].is_active && users.value_list()[q].display_name@ == d
                        && contains_spec(users.key_list()[q], wl@) && !starts_with_spec(users.key_list()[q], wl@);
                    if q < j {
                    }
                }
            }
        }
        j += 1;
    }
    proof {
        assert forall|d: Seq<char>| starts@.contains_key(d) <==> matching_users(users@, wl@, true).contains(d) by {
            if starts@.contains_key(d) {
                let q = choose|q: int| 0 <= q < n && users.value_list()[q].is_active && users.value_list()[q].display_name@ == d
                    && contains_spec(users.key_list()[q], wl@) && starts_with_spec(users.key_list()[q], wl@);
                assert(users@.contains_key(users.key_list()[q]));
            }
            if matching_users(users@, wl@, true).contains(d) {
                let k = choose|k: Seq<char>| #[trigger] users@.contains_key(k) && users@[k].is_active && users@[k].display_name@ == d
                    && contains_spec(k, wl@) && starts_with_spec(k, wl@) == true;
                assert(users.key_list().contains(k));
                let q = choose|q: int| 0 <= q < n && users.key_list()[q] == k;
            }
        }
        assert forall|d: Seq<char>| others@.contains_key(d) <==> matching_users(users@, wl@, false).contains(d) by {
            if others@.contains_key(d) {
                let q = choose|q: int| 0 <= q < n && users.value_list()[q].is_active && users.value_list()[q].display_name@ == d
                    && contains_spec(users.key_list()[q], wl@) && !starts_with_spec(users.key_list()[q], wl@);
                assert(users@.contains_key(users.key_list()[q]));
            }
            if matching_users(users@, wl@, false).contains(d) {
                let k = choose|k: Seq<char>| #[trigger] users@.contains_key(k) && users@[k].is_active && users@[k].display_name@ == d
                    && contains_spec(k, wl@) && starts_with_spec(k, wl@) == false;
                assert(users.key_list().contains(k));
                let q = choose|q: int| 0 <= q < n && users.key_list()[q] == k;
            }
        }
        assert(starts@.dom() =~= matching_users(users@, wl@, true));
        assert(others@.dom() =~= matching_users(users@, wl@, false));
    }
    (starts, others)
}

impl ChatState {
    /// Suggests users of the selected channel for the word being typed (an
    /// '@' and at least two more bytes): active users whose key starts with
    /// the rest of the word, then those whose key holds it elsewhere, each
    /// group sorted by lower-cased display name.
    pub fn get_possible_users(&self, selected_channel: Option<&String>, word: Option<&String>) -> (r: Option<Vec<String>>)
        requires
            self.wf(),
            user_word_ok(word),
        ensures
            match word {
                None => r is None,
                Some(w) => if byte_len(w@) < 3 {
                    r is None
                } else {
                    r matches Some(v) && user_suggestions(
                        views(v@),
                        channel_users(*self, match selected_channel {
                            Some(c) => Some(*c),
                            None => None,
                        }),
                        user_word(w@),
                    )
                },
            },
    {
        let w = match word {
            Some(w) => w,
            None => return None,
        };
        if w.as_str().len() < 3 {
            return None;
        }
        let wc = chars_of(w.as_str());
        proof {
            if wc@.len() == 0 {
                assert(wc@ =~= Seq::<char>::empty());
                assert(byte_len(wc@) == 0) by {
                    assert(vstd::utf8::encode_utf8(Seq::<char>::empty()) =~= Seq::<u8>::empty());
                }
            }
        }
        let rest = copy_range(wc.as_slice(), 1, wc.len());
        assert(rest@ == w@.drop_first());
        let rest_s = string_from_chars(rest.as_slice());
        let wl_s = to_lowercase(rest_s.as_str());
        let wl = chars_of(wl_s.as_str());
        let ghost cu = channel_users(*self, match selected_channel {
            Some(c) => Some(*c),
            None => None,
        });
        let (starts, others) = match selected_channel {
            Some(c) => match self.channels.get(c.as_str()) {
                Some(ch) => {
                    assert(ch.wf());
                    collect_matching_users(&ch.shared().users, wl.as_slice())
                },
                None => {
                    let empty: NameMap<ChannelUser> = NameMap::new();
                    collect_matching_users(&empty, wl.as_slice())
                },
            },
            None => {
                let empty: NameMap<ChannelUser> = NameMap::new();
                collect_matching_users(&empty, wl.as_slice())
            },
        };
        let mut a = sorted_keys(&starts, false);
        let b = sorted_keys(&others, false);
        let ghost av = views(a@);
        let ghost bv = views(b@);
        let mut b2 = b;
        a.append(&mut b2);
        proof {
            let v = views(a@);
            assert(v.take(av.len() as int) == av);
            assert(v.skip(av.len() as int) == bv);
        }
        Some(a)
    }
}

} // verus!

verus! {

/// Where a suggested emote was found: the channel's emotes, the user's
/// subscriber emotes of the provider, or the global emotes.
#[derive(Clone, Copy, Debug, PartialEq, Eq, Structural)]
pub enum EmoteOrigin {
    Channel,
    Provider,
    Global,
}

/// Where emote `n` is suggested from for the lower-cased word `wl` in the
/// selected channel `ch`, if at all: its lower-cased name must contain the
/// word; the channel's emotes come first, then the user's subscriber emotes
/// of the channel's provider, then, outside Destiny.gg, the global emotes.
pub open spec fn emote_origin(s: ChatState, ch: Option<Seq<char>>, wl: Seq<char>, n: Seq<char>) -> Option<EmoteOrigin> {
    match ch {
        None => None,
        Some(ch) => if !s.channels@.contains_key(ch) || !contains_spec(lowercase(n), wl) {
            None
        } else if s.channel_emotes_spec(ch) matches Some(m) && m.contains_key(n) {
            Some(EmoteOrigin::Channel)
        } else if s.providers.spec_get(s.channels@[ch].spec_provider()) matches Some(p)
            && p.my_sub_emotes@.contains_key(n) && p.emotes@.contains_key(n) {
            Some(EmoteOrigin::Provider)
        } else if s.channels@[ch].spec_provider() != crate::model::ProviderName::DGG && s.global_emotes@.contains_key(n) {
            Some(EmoteOrigin::Global)
        } else {
            None
        },
    }
}

/// The suggested emotes matching at the start of their name, or elsewhere.
pub open spec fn matching_emotes(s: ChatState, ch: Option<Seq<char>>, wl: Seq<char>, starts: bool) -> Set<Seq<char>> {
    Set::new(|n: Seq<char>| emote_origin(s, ch, wl, n) is Some && starts_with_spec(lowercase(n), wl) == starts)
}

/// The emote suggestions for a word: those whose lower-cased name starts with
/// it, then those holding it elsewhere, each group sorted by lower-cased name
/// and then by name, each with where it was found.
pub open spec fn emote_suggestions(v: Seq<(String, EmoteOrigin)>, s: ChatState, ch: Option<Seq<char>>, wl: Seq<char>) -> bool {
    let names = v.map_values(|e: (String, EmoteOrigin)| e.0@);
    &&& forall|i: int| 0 <= i < v.len() ==> emote_origin(s, ch, wl, #[trigger] v[i].0@) == Some(v[i].1)
    &&& exists|i: int| 0 <= i <= names.len()
        && suggestion_group(names.take(i), matching_emotes(s, ch, wl, true), true)
        && #[trigger] suggestion_group(names.skip(i), matching_emotes(s, ch, wl, false), true)
}

pub proof fn lemma_push_contains<A>(s: Seq<A>, a: A)
    ensures
        forall|x: A| #[trigger] s.push(a).contains(x) <==> (s.contains(x) || x == a),
{
    assert forall|x: A| #[trigger] s.push(a).contains(x) <==> (s.contains(x) || x == a) by {
        if s.push(a).contains(x) {
            let i = choose|i: int| 0 <= i < s.push(a).len() && s.push(a)[i] == x;
            if i < s.len() {
                assert(s[i] == x);
            }
        }
        if s.contains(x) {
            let i = choose|i: int| 0 <= i < s.len() && s[i] == x;
            assert(s.push(a)[i] == x);
        }
        if x == a {
            assert(s.push(a)[s.len() as int] == x);
        }
    }
}

/// Adds names from one source whose lower-cased form contains the word,
/// keeping where each name was first found.
fn add_candidates<V, W>(seen: &mut NameMap<EmoteOrigin>, source: &NameMap<V>, also: Option<&NameMap<W>>, origin: EmoteOrigin, wl: &[char])
    requires
        old(seen).wf(),
        source.wf(),
        also matches Some(a) ==> a.wf(),
    ensures
        final(seen).wf(),
        forall|n: Seq<char>| #[trigger] final(seen)@.contains_key(n) <==> (old(seen)@.contains_key(n) || (
            source@.contains_key(n) && contains_spec(lowercase(n), wl@) && (also matches Some(a) ==> a@.contains_key(n)))),
        forall|n: Seq<char>| #[trigger] old(seen)@.contains_key(n) ==> final(seen)@[n] == old(seen)@[n],
        forall|n: Seq<char>| #[trigger] final(seen)@.contains_key(n) && !old(seen)@.contains_key(n) ==> final(seen)@[n] == origin,
{
    let ghost start = seen@;
    proof {
        source.lemma_wf();
    }
    let n = source.len();
    let mut j: usize = 0;
    while j < n
        invariant
            seen.wf(),
            source.wf(),
            also matches Some(a) ==> a.wf(),
            j <= n,
            n == source.key_list().len(),
            forall|x: Seq<char>| #[trigger] seen@.contains_key(x) <==> (start.contains_key(x) || (
                source.key_list().take(j as int).contains(x) && contains_spec(lowercase(x), wl@)
                    && (also matches Some(a) ==> a@.contains_key(x)))),
            forall|x: Seq<char>| #[trigger] start.contains_key(x) ==> seen@[x] == start[x],
            forall|x: Seq<char>| #[trigger] seen@.contains_key(x) && !start.contains_key(x) ==> seen@[x] == origin,
        decreases n - j,
    {
        let name = source.key_at(j);
        let lower = to_lowercase(name.as_str());
        let lc = chars_of(lower.as_str());
        let present = match also {
            Some(a) => a.contains_key(name.as_str()),
            None => true,
        };
        if present && has_infix(lc.as_slice(), wl) && !seen.contains_key(name.as_str()) {
            seen.insert(name.clone(), origin);
        }
        proof {
            assert(source.key_list().take(j + 1) == source.key_list().take(j as int).push(source.key_list()[j as int]));
            lemma_push_contains(source.key_list().take(j as int), source.key_list()[j as int]);
        }
        j += 1;
    }
    proof {
        assert(source.key_list().take(n as int) == source.key_list());
        assert forall|x: Seq<char>| source@.contains_key(x) <==> source.key_list().contains(x) by {
            source.lemma_wf();
        }
    }
}

/// Splits the found names by whether their lower-cased form starts with the word.
fn split_by_start(seen: &NameMap<EmoteOrigin>, wl: &[char]) -> (r: (NameMap<()>, NameMap<()>))
    requires
        seen.wf(),
    ensures
        r.0.wf(),
        r.1.wf(),
        forall|x: Seq<char>| #[trigger] r.0@.contains_key(x) <==> seen@.contains_key(x) && starts_with_spec(lowercase(x), wl@),
        forall|x: Seq<char>| #[trigger] r.1@.contains_key(x) <==> seen@.contains_key(x) && !starts_with_spec(lowercase(x), wl@),
{
    proof {
        seen.lemma_wf();
    }
    let mut a: NameMap<()> = NameMap::new();
    let mut b: NameMap<()> = NameMap::new();
    let n = seen.len();
    let mut j: usize = 0;
    while j < n
        invariant
            seen.wf(),
            a.wf(),
            b.wf(),
            j <= n,
            n == seen.key_list().len(),
            forall|x: Seq<char>| #[trigger] a@.contains_key(x) <==> seen.key_list().take(j as int).contains(x) && starts_with_spec(lowercase(x), wl@),
            forall|x: Seq<char>| #[trigger] b@.contains_key(x) <==> seen.key_list().take(j as int).contains(x) && !starts_with_spec(lowercase(x), wl@),
        decreases n - j,
    {
        let name = seen.key_at(j);
        let lower = to_lowercase(name.as_str());
        let lc = chars_of(lower.as_str());
        if has_prefix(lc.as_slice(), wl) {
            a.insert(name.clone(), ());
        } else {
            b.insert(name.clone(), ());
        }
        proof {
            assert(seen.key_list().take(j + 1) == seen.key_list().take(j as int).push(seen.key_list()[j as int]));
            lemma_push_contains(seen.key_list().take(j as int), seen.key_list()[j as int]);
        }
        j += 1;
    }
    proof {
        assert(seen.key_list().take(n as int) == seen.key_list());
        seen.lemma_wf();
    }
    (a, b)
}

/// Pairs each name with where it was found.
fn with_origins(names: Vec<String>, seen: &NameMap<EmoteOrigin>) -> (r: Vec<(String, EmoteOrigin)>)
    requires
        seen.wf(),
        forall|i: int| 0 <= i < names@.len() ==> seen@.contains_key(#[trigger] names@[i]@),
    ensures
        r@.map_values(|e: (String, EmoteOrigin)| e.0@) == views(names@),
        forall|i: int| 0 <= i < r@.len() ==> seen@[#[trigger] r@[i].0@] == r@[i].1,
{
    let mut r: Vec<(String, EmoteOrigin)> = Vec::new();
    let mut i: usize = 0;
    while i < names.len()
        invariant
            seen.wf(),
            forall|i: int| 0 <= i < names@.len() ==> seen@.contains_key(#[trigger] names@[i]@),
            i <= names@.len(),
            r@.map_values(|e: (String, EmoteOrigin)| e.0@) == views(names@).take(i as int),
            forall|k: int| 0 <= k < r@.len() ==> seen@[#[trigger] r@[k].0@] == r@[k].1,
        decreases names@.len() - i,
    {
        let o = match seen.get(names[i].as_str()) {
            Some(o) => *o,
            None => EmoteOrigin::Global,
        };
        let ghost before = r@;
        r.push((names[i].clone(), o));
        assert(r@.map_values(|e: (String, EmoteOrigin)| e.0@) == before.map_values(|e: (String, EmoteOrigin)| e.0@).push(names@[i as int]@));
        assert(views(names@).take(i + 1) == views(names@).take(i as int).push(names@[i as int]@));
        i += 1;
    }
    assert(views(names@).take(names@.len() as int) == views(names@));
    r
}

} // verus!

verus! {

impl ChatState {
    /// Suggests emotes for the word being typed (two bytes or more) in the
    /// selected channel: emotes whose lower-cased name starts with the
    /// lower-cased word, then those holding it elsewhere, each group sorted by
    /// lower-cased name and then by name, each with where it was found. The
    /// images of the suggestions are asked for when they are shown
    /// (`Emote::request_if_not_loaded`).
    pub fn get_possible_emotes(&self, selected_channel: Option<&String>, word: Option<&String>) -> (r: Option<Vec<(String, EmoteOrigin)>>)
        requires
            self.wf(),
        ensures
            match word {
                None => r is None,
                Some(w) => if byte_len(w@) < 2 {
                    r is None
                } else {
                    r matches Some(v) && emote_suggestions(
                        v@,
                        *self,
                        match selected_channel {
                            Some(c) => Some(c@),
                            None => None,
                        },
                        lowercase(w@),
                    )
                },
            },
    {
        let w = match word {
            Some(w) => w,
            None => return None,
        };
        if w.as_str().len() < 2 {
            return None;
        }
        let lower = to_lowercase(w.as_str());
        let wl = chars_of(lower.as_str());
        let ghost chs: Option<Seq<char>> = match selected_channel {
            Some(c) => Some(c@),
            None => None,
        };
        let mut seen: NameMap<EmoteOrigin> = NameMap::new();
        if let Some(c) = selected_channel {
            if let Some(ch) = self.channels.get(c.as_str()) {
                assert(ch.wf());
                let ghost s0 = seen@;
                match ch.transient() {
                    Some(t) => match &t.channel_emotes {
                        Some(m) => {
                            let none: Option<&NameMap<Emote>> = None;
                            add_candidates(&mut seen, m, none, EmoteOrigin::Channel, wl.as_slice());
                        },
                        None => {},
                    },
                    None => {},
                }
                let ghost s1 = seen@;
                let prov = ch.provider();
                match self.providers.get(prov) {
                    Some(p) => {
                        assert(provider_wf(*p));
                        add_candidates(&mut seen, &p.my_sub_emotes, Some(&p.emotes), EmoteOrigin::Provider, wl.as_slice());
                    },
                    None => {},
                }
                let ghost s2 = seen@;
                if prov != ProviderName::DGG {
                    let none: Option<&NameMap<Emote>> = None;
                    add_candidates(&mut seen, &self.global_emotes, none, EmoteOrigin::Global, wl.as_slice());
                }
                proof {
                    assert forall|n: Seq<char>| #[trigger] seen@.contains_key(n) <==> emote_origin(*self, chs, wl@, n) is Some by {}
                    assert(s0 == Map::<Seq<char>, EmoteOrigin>::empty());
                    assert forall|n: Seq<char>| #[trigger] seen@.contains_key(n) implies emote_origin(*self, chs, wl@, n) == Some(seen@[n]) by {
                        if s1.contains_key(n) {
                            assert(!s0.contains_key(n));
                            assert(s1[n] == EmoteOrigin::Channel);
                            assert(s2.contains_key(n));
                            assert(s2[n] == s1[n]);
                            assert(seen@[n] == s2[n]);
                            assert(self.channel_emotes_spec(c@) matches Some(m) && m.contains_key(n));
                        } else if s2.contains_key(n) {
                            assert(s2[n] == EmoteOrigin::Provider);
                            assert(seen@[n] == s2[n]);
                            assert(!(self.channel_emotes_spec(c@) matches Some(m) && m.contains_key(n)));
                        } else {
                            assert(seen@[n] == EmoteOrigin::Global);
                            assert(!(self.channel_emotes_spec(c@) matches Some(m) && m.contains_key(n)));
                        }
                    }
                }
            }
        }
        proof {
            assert forall|n: Seq<char>| #[trigger] seen@.contains_key(n) <==> emote_origin(*self, chs, wl@, n) is Some by {}
            assert(forall|n: Seq<char>| #[trigger] seen@.contains_key(n) ==> emote_origin(*self, chs, wl@, n) == Some(seen@[n]));
        }
        let (a, b) = split_by_start(&seen, wl.as_slice());
        let an = sorted_keys(&a, true);
        let bn = sorted_keys(&b, true);
        proof {
            assert forall|i: int| 0 <= i < an@.len() implies seen@.contains_key(#[trigger] an@[i]@) by {
                assert(views(an@)[i] == an@[i]@);
                assert(views(an@).contains(an@[i]@));
            }
            assert forall|i: int| 0 <= i < bn@.len() implies seen@.contains_key(#[trigger] bn@[i]@) by {
                assert(views(bn@)[i] == bn@[i]@);
                assert(views(bn@).contains(bn@[i]@));
            }
        }
        let ghost anv = views(an@);
        let ghost bnv = views(bn@);
        let ghost anr = an@;
        let ghost bnr = bn@;
        let mut av = with_origins(an, &seen);
        let mut bv = with_origins(bn, &seen);
        let ghost avv = av@;
        let ghost bvv = bv@;
        av.append(&mut bv);
        proof {
            let v = av@;
            let names = v.map_values(|e: (String, EmoteOrigin)| e.0@);
            assert(v == avv + bvv);
            assert(names.take(anv.len() as int) == anv);
            assert(names.skip(anv.len() as int) == bnv);
            assert(matching_emotes(*self, chs, wl@, true) =~= a@.dom());
            assert(matching_emotes(*self, chs, wl@, false) =~= b@.dom());
            assert forall|i: int| 0 <= i < v.len() implies emote_origin(*self, chs, wl@, #[trigger] v[i].0@) == Some(v[i].1) by {
                if i < avv.len() {
                    assert(v[i] == avv[i]);
                    assert(avv.map_values(|e: (String, EmoteOrigin)| e.0@)[i] == anv[i]);
                    assert(seen@.contains_key(anr[i]@));
                    assert(seen@[avv[i].0@] == avv[i].1);
                } else {
                    let j = i - avv.len();
                    assert(v[i] == bvv[j]);
                    assert(bvv.map_values(|e: (String, EmoteOrigin)| e.0@)[j] == bnv[j]);
                    assert(seen@.contains_key(bnr[j]@));
                    assert(seen@[bvv[j].0@] == bvv[j].1);
                }
            }
        }
        Some(av)
    }
}

/// What the selector above the message box offers: user names or emotes.
#[derive(Debug)]
pub enum Suggestions {
    Users(Vec<String>),
    Emotes(Vec<(String, EmoteOrigin)>),
}

/// Whether a word asks for user names: it starts with '@'.
pub open spec fn asks_for_users(w: Seq<char>) -> bool {
    w.len() > 0 && w[0] == '@'
}

impl ChatState {
    /// The suggestions for the word under the cursor: a word that starts
    /// with '@' gets the users of the selected channel, any other word gets
    /// emotes.
    pub fn suggestions_for(&self, selected_channel: Option<&String>, word: &String) -> (r: Option<Suggestions>)
        requires
            self.wf(),
        ensures
            asks_for_users(word@) ==> if byte_len(word@) < 3 {
                r is None
            } else {
                r matches Some(Suggestions::Users(v)) && user_suggestions(
                    views(v@),
                    channel_users(*self, match selected_channel {
                        Some(c) => Some(*c),
                        None => None,
                    }),
                    user_word(word@),
                )
            },
            !asks_for_users(word@) ==> if byte_len(word@) < 2 {
                r is None
            } else {
                r matches Some(Suggestions::Emotes(v)) && emote_suggestions(
                    v@,
                    *self,
                    match selected_channel {
                        Some(c) => Some(c@),
                        None => None,
                    },
                    lowercase(word@),
                )
            },
    {
        let wc = chars_of(word.as_str());
        if wc.len() > 0 && wc[0] == '@' {
            assert(('@' as u32) < 0x80);
            match self.get_possible_users(selected_channel, Some(word)) {
                Some(v) => Some(Suggestions::Users(v)),
                None => None,
            }
        } else {
            match self.get_possible_emotes(selected_channel, Some(word)) {
                Some(v) => Some(Suggestions::Emotes(v)),
                None => None,
            }
        }
    }
}

} // verus!
