use vstd::prelude::*;

use crate::events::KeyEvent;

verus! {

/// How often one key was pressed.
pub struct KeyCount {
    pub key_name: String,
    pub count: i64,
}

/// The summary of today's activity shown on the dashboard.
pub struct DashboardStats {
    pub total_today: i64,
    pub first_ts: i64,
    pub last_ts: i64,
    pub top_keys: Vec<(String, i64)>,
}

/// How many entries the dashboard's list of most pressed keys holds at most.
pub const TOP_KEYS_LIMIT: usize = 10;

/// How many of `events` are presses of the key named `key`.
pub open spec fn occurrences(events: Seq<KeyEvent>, key: Seq<char>) -> int
    decreases events.len(),
{
    if events.len() == 0 {
        0
    } else {
        occurrences(events.drop_last(), key) + if events.last().key_name@ == key {
            1int
        } else {
            0int
        }
    }
}

/// The index of the first press of `key` in `events` (the length of `events`
/// less one where there is none).
pub open spec fn first_press(events: Seq<KeyEvent>, key: Seq<char>) -> int
    decreases events.len(),
{
    if events.len() == 0 {
        0
    } else if occurrences(events.drop_last(), key) > 0 {
        first_press(events.drop_last(), key)
    } else {
        events.len() - 1
    }
}

/// `out` lists each distinct key of `events` exactly once with the number of
/// its presses, most pressed first (the order among equal counts is open).
pub open spec fn is_key_tally(events: Seq<KeyEvent>, out: Seq<(Seq<char>, int)>) -> bool {
    &&& forall|i: int|
        0 <= i < out.len() ==> #[trigger] out[i].1 == occurrences(events, out[i].0) && out[i].1 > 0
    &&& forall|i: int, j: int| 0 <= i < j < out.len() ==> #[trigger] out[i].0 != #[trigger] out[j].0
    &&& forall|e: int| 0 <= e < events.len() ==> tally_has(out, (#[trigger] events[e]).key_name@)
    &&& forall|i: int, j: int| 0 <= i < j < out.len() ==> #[trigger] out[i].1 >= #[trigger] out[j].1
}

/// Keys of `out` with equal counts stand in the order of their first press.
pub open spec fn ties_by_first_press(events: Seq<KeyEvent>, out: Seq<(Seq<char>, int)>) -> bool {
    forall|i: int, j: int|
        0 <= i < j < out.len() && #[trigger] out[i].1 == #[trigger] out[j].1 ==> first_press(
            events,
            out[i].0,
        ) < first_press(events, out[j].0)
}

/// Some entry of `out` is for the key `key`.
pub open spec fn tally_has(out: Seq<(Seq<char>, int)>, key: Seq<char>) -> bool {
    exists|i: int| 0 <= i < out.len() && #[trigger] out[i].0 == key
}

/// Some string of `keys` is `key`.
pub open spec fn has_key(keys: Seq<String>, key: Seq<char>) -> bool {
    exists|i: int| 0 <= i < keys.len() && #[trigger] keys[i]@ == key
}

/// A list of key counts as (key, count) pairs of plain values.
pub open spec fn key_counts_view(v: Seq<KeyCount>) -> Seq<(Seq<char>, int)> {
    v.map_values(|k: KeyCount| (k.key_name@, k.count as int))
}

/// A list of (key, count) pairs of strings as pairs of plain values.
pub open spec fn pairs_view(v: Seq<(String, i64)>) -> Seq<(Seq<char>, int)> {
    v.map_values(|p: (String, i64)| (p.0@, p.1 as int))
}

/// `t` is the earliest timestamp of the non-empty `events`.
pub open spec fn is_first_ts(events: Seq<KeyEvent>, t: i64) -> bool {
    &&& exists|i: int| 0 <= i < events.len() && #[trigger] events[i].timestamp == t
    &&& forall|i: int| 0 <= i < events.len() ==> t <= #[trigger] events[i].timestamp
}

/// `t` is the latest timestamp of the non-empty `events`.
pub open spec fn is_last_ts(events: Seq<KeyEvent>, t: i64) -> bool {
    &&& exists|i: int| 0 <= i < events.len() && #[trigger] events[i].timestamp == t
    &&& forall|i: int| 0 <= i < events.len() ==> #[trigger] events[i].timestamp <= t
}

proof fn lemma_first_press_new(events: Seq<KeyEvent>, i: int, key: Seq<char>)
    requires
        0 <= i < events.len(),
        occurrences(events.subrange(0, i), key) == 0,
    ensures
        first_press(events.subrange(0, i + 1), key) == i,
{
    assert(events.subrange(0, i + 1).drop_last() =~= events.subrange(0, i));
}

proof fn lemma_occurrences_step(events: Seq<KeyEvent>, i: int, key: Seq<char>)
    requires
        0 <= i < events.len(),
    ensures
        occurrences(events.subrange(0, i + 1), key) == occurrences(events.subrange(0, i), key)
            + if events[i].key_name@ == key {
            1int
        } else {
            0int
        },
{
    assert(events.subrange(0, i + 1).drop_last() =~= events.subrange(0, i));
}

proof fn lemma_occurrences_nonneg(events: Seq<KeyEvent>, key: Seq<char>)
    ensures
        0 <= occurrences(events, key) <= events.len(),
    decreases events.len(),
{
    if events.len() > 0 {
        lemma_occurrences_nonneg(events.drop_last(), key);
    }
}

/// The keys of `events` in the order of their first press, each with its
/// number of presses.
fn count_by_key(events: &Vec<KeyEvent>) -> (r: (Vec<String>, Vec<i64>))
    requires
        events@.len() <= i64::MAX,
    ensures
        r.0@.len() == r.1@.len(),
        forall|j: int|
            0 <= j < r.0@.len() ==> #[trigger] r.1@[j] == occurrences(events@, r.0@[j]@) && r.1@[j]
                > 0,
        forall|a: int, b: int| 0 <= a < b < r.0@.len() ==> #[trigger] r.0@[a]@ != #[trigger] r.0@[b]@,
        forall|e: int| 0 <= e < events@.len() ==> has_key(r.0@, (#[trigger] events@[e]).key_name@),
        forall|a: int, b: int|
            0 <= a < b < r.0@.len() ==> first_press(events@, #[trigger] r.0@[a]@) < first_press(
                events@,
                #[trigger] r.0@[b]@,
            ),
{
    let mut keys: Vec<String> = Vec::new();
    let mut counts: Vec<i64> = Vec::new();
    let mut i: usize = 0;
    while i < events.len()
        invariant
            i <= events@.len() <= i64::MAX,
            keys@.len() == counts@.len(),
            forall|j: int|
                0 <= j < keys@.len() ==> #[trigger] counts@[j] == occurrences(
                    events@.subrange(0, i as int),
                    keys@[j]@,
                ) && counts@[j] > 0,
            forall|a: int, b: int|
                0 <= a < b < keys@.len() ==> #[trigger] keys@[a]@ != #[trigger] keys@[b]@,
            forall|e: int| 0 <= e < i ==> has_key(keys@, (#[trigger] events@[e]).key_name@),
            forall|a: int|
                0 <= a < keys@.len() ==> first_press(events@.subrange(0, i as int), #[trigger] keys@[a]@)
                    < i,
            forall|a: int, b: int|
                0 <= a < b < keys@.len() ==> first_press(
                    events@.subrange(0, i as int),
                    #[trigger] keys@[a]@,
                ) < first_press(events@.subrange(0, i as int), #[trigger] keys@[b]@),
        decreases events@.len() - i,
    {
        let name = &events[i].key_name;
        let mut j: usize = 0;
        while j < keys.len() && !(keys[j] == *name)
            invariant
                j <= keys@.len(),
                forall|a: int| 0 <= a < j ==> #[trigger] keys@[a]@ != name@,
            decreases keys@.len() - j,
        {
            j = j + 1;
        }
        let ghost old_keys = keys@;
        let ghost old_counts = counts@;
        proof {
            assert forall|k: int| 0 <= k < keys@.len() implies first_press(
                events@.subrange(0, i + 1),
                #[trigger] keys@[k]@,
            ) == first_press(events@.subrange(0, i as int), keys@[k]@) by {
                assert(events@.subrange(0, i + 1).drop_last() =~= events@.subrange(0, i as int));
                assert(counts@[k] == occurrences(events@.subrange(0, i as int), keys@[k]@));
            }
            assert forall|k: int| 0 <= k < keys@.len() implies occurrences(
                events@.subrange(0, i + 1),
                #[trigger] keys@[k]@,
            ) == occurrences(events@.subrange(0, i as int), keys@[k]@) + if keys@[k]@ == name@ {
                1int
            } else {
                0int
            } by {
                lemma_occurrences_step(events@, i as int, keys@[k]@);
            }
            lemma_occurrences_nonneg(events@.subrange(0, i + 1), name@);
        }
        if j < keys.len() {
            proof {
                lemma_occurrences_step(events@, i as int, name@);
                lemma_occurrences_nonneg(events@.subrange(0, i as int), name@);
            }
            let c = counts[j] + 1;
            counts.set(j, c);
            proof {
                assert forall|e: int| 0 <= e < i + 1 implies has_key(
                    keys@,
                    (#[trigger] events@[e]).key_name@,
                ) by {
                    if e == i {
                        assert(keys@[j as int]@ == events@[e].key_name@);
                    }
                }
            }
        } else {
            keys.push(name.clone());
            counts.push(1);
            proof {
                lemma_occurrences_step(events@, i as int, name@);
                assert(occurrences(events@.subrange(0, i as int), name@) == 0) by {
                    let pre = events@.subrange(0, i as int);
                    assert forall|e: int| 0 <= e < pre.len() implies (#[trigger] pre[e]).key_name@
                        != name@ by {
                        assert(pre[e] == events@[e]);
                        assert(has_key(old_keys, events@[e].key_name@));
                    }
                    lemma_occurrences_absent(events@.subrange(0, i as int), name@);
                }
                lemma_first_press_new(events@, i as int, name@);
                assert(keys@[old_keys.len() as int]@ == name@);
                assert forall|a: int| 0 <= a < keys@.len() implies first_press(
                    events@.subrange(0, i + 1),
                    #[trigger] keys@[a]@,
                ) < i + 1 by {
                    if a < old_keys.len() {
                        assert(keys@[a] == old_keys[a]);
                    }
                }
                assert forall|a: int, b: int| 0 <= a < b < keys@.len() implies first_press(
                    events@.subrange(0, i + 1),
                    #[trigger] keys@[a]@,
                ) < first_press(events@.subrange(0, i + 1), #[trigger] keys@[b]@) by {
                    assert(keys@[a] == old_keys[a]);
                    if b < old_keys.len() {
                        assert(keys@[b] == old_keys[b]);
                    }
                }
                assert forall|k: int| 0 <= k < keys@.len() implies #[trigger] counts@[k]
                    == occurrences(events@.subrange(0, i + 1), keys@[k]@) && counts@[k] > 0 by {
                    if k < old_keys.len() {
                        assert(keys@[k] == old_keys[k]);
                        assert(counts@[k] == old_counts[k]);
                    }
                }
                assert forall|e: int| 0 <= e < i + 1 implies has_key(
                    keys@,
                    (#[trigger] events@[e]).key_name@,
                ) by {
                    if e == i {
                        assert(keys@[old_keys.len() as int]@ == events@[e].key_name@);
                    } else {
                        assert(has_key(old_keys, events@[e].key_name@));
                        let k = choose|k: int|
                            0 <= k < old_keys.len() && #[trigger] old_keys[k]@ == events@[e].key_name@;
                        assert(keys@[k] == old_keys[k]);
                    }
                }
            }
        }
        i = i + 1;
    }
    proof {
        assert(events@.subrange(0, events@.len() as int) =~= events@);
    }
    (keys, counts)
}

proof fn lemma_occurrences_absent(events: Seq<KeyEvent>, key: Seq<char>)
    requires
        forall|e: int| 0 <= e < events.len() ==> (#[trigger] events[e]).key_name@ != key,
    ensures
        occurrences(events, key) == 0,
    decreases events.len(),
{
    if events.len() > 0 {
        lemma_occurrences_absent(events.drop_last(), key);
    }
}

/// Some entry of `out` is for the key `key`.
pub open spec fn listed(out: Seq<KeyCount>, key: Seq<char>) -> bool {
    exists|a: int| 0 <= a < out.len() && #[trigger] out[a].key_name@ == key
}

/// The first `n` entries of `s`, or all of them where it has fewer.
pub open spec fn first_n<A>(s: Seq<A>, n: int) -> Seq<A> {
    if s.len() <= n {
        s
    } else {
        s.take(n)
    }
}

/// Counts the presses of each distinct key of `events`, most pressed first.
/// Keys with equal counts keep the order of their first press.
pub fn keyboard_stats(events: &Vec<KeyEvent>) -> (r: Vec<KeyCount>)
    requires
        events@.len() <= i64::MAX,
    ensures
        is_key_tally(events@, key_counts_view(r@)),
        ties_by_first_press(events@, key_counts_view(r@)),
{
    let (keys, counts) = count_by_key(events);
    let mut out: Vec<KeyCount> = Vec::new();
    // for each entry of `out`, the index of its key in `keys`
    let ghost mut idx: Seq<int> = Seq::empty();
    let mut i: usize = 0;
    while i < keys.len()
        invariant
            keys@.len() == counts@.len(),
            i <= keys@.len(),
            forall|a: int, b: int|
                0 <= a < b < keys@.len() ==> #[trigger] keys@[a]@ != #[trigger] keys@[b]@,
            idx.len() == out@.len(),
            forall|a: int|
                0 <= a < out@.len() ==> 0 <= #[trigger] idx[a] < i && keys@[idx[a]]@
                    == out@[a].key_name@ && counts@[idx[a]] == out@[a].count,
            forall|j: int| 0 <= j < i ==> listed(out@, #[trigger] keys@[j]@),
            forall|a: int, b: int|
                0 <= a < b < out@.len() ==> #[trigger] out@[a].key_name@
                    != #[trigger] out@[b].key_name@,
            forall|a: int, b: int|
                0 <= a < b < out@.len() ==> #[trigger] out@[a].count >= #[trigger] out@[b].count,
            forall|a: int, b: int|
                0 <= a < b < out@.len() && #[trigger] out@[a].count == #[trigger] out@[b].count
                    ==> idx[a] < idx[b],
        decreases keys@.len() - i,
    {
        let c = counts[i];
        let mut p: usize = 0;
        while p < out.len() && out[p].count >= c
            invariant
                p <= out@.len(),
                forall|a: int| 0 <= a < p ==> (#[trigger] out@[a]).count >= c,
            decreases out@.len() - p,
        {
            p = p + 1;
        }
        let x = KeyCount { key_name: keys[i].clone(), count: c };
        let ghost old_out = out@;
        let ghost old_idx = idx;
        out.insert(p, x);
        proof {
            idx = old_idx.insert(p as int, i as int);
            let n = out@;
            assert forall|a: int| 0 <= a < n.len() implies #[trigger] n[a] == if a < p {
                old_out[a]
            } else if a == p {
                x
            } else {
                old_out[a - 1]
            } && idx[a] == if a < p {
                old_idx[a]
            } else if a == p {
                i as int
            } else {
                old_idx[a - 1]
            } by {}
            assert forall|j: int| 0 <= j < i + 1 implies listed(n, #[trigger] keys@[j]@) by {
                if j == i {
                    assert(n[p as int].key_name@ == keys@[j]@);
                } else {
                    assert(listed(old_out, keys@[j]@));
                    let a = choose|a: int| 0 <= a < old_out.len() && #[trigger] old_out[a].key_name@
                        == keys@[j]@;
                    if a < p {
                        assert(n[a] == old_out[a]);
                    } else {
                        assert(n[a + 1] == old_out[a]);
                    }
                }
            }
            assert forall|a: int| 0 <= a < old_out.len() implies (#[trigger] old_out[a]).key_name@
                != x.key_name@ by {
                assert(keys@[old_idx[a]]@ == old_out[a].key_name@);
            }
            assert forall|a: int| p <= a < old_out.len() implies (#[trigger] old_out[a]).count < c by {
                if a > p {
                    assert(old_out[p as int].count >= old_out[a].count);
                }
            }
            assert forall|a: int, b: int| 0 <= a < b < n.len() implies #[trigger] n[a].key_name@
                != #[trigger] n[b].key_name@ && n[a].count >= n[b].count && (n[a].count
                == n[b].count ==> idx[a] < idx[b]) by {
                if b < p {
                    assert(n[a] == old_out[a]);
                    assert(n[b] == old_out[b]);
                } else if b == p {
                    assert(n[a] == old_out[a]);
                } else if a < p {
                    assert(n[a] == old_out[a]);
                    assert(n[b] == old_out[b - 1]);
                } else if a == p {
                    assert(n[b] == old_out[b - 1]);
                } else {
                    assert(n[a] == old_out[a - 1]);
                    assert(n[b] == old_out[b - 1]);
                }
            }
        }
        i = i + 1;
    }
    proof {
        let v = key_counts_view(out@);
        assert forall|a: int| 0 <= a < v.len() implies #[trigger] v[a].1 == occurrences(
            events@,
            v[a].0,
        ) && v[a].1 > 0 by {
            assert(keys@[idx[a]]@ == out@[a].key_name@);
        }
        assert forall|a: int, b: int| 0 <= a < b < v.len() implies #[trigger] v[a].0
            != #[trigger] v[b].0 && v[a].1 >= v[b].1 by {
            assert(out@[a].key_name@ != out@[b].key_name@);
            assert(out@[a].count >= out@[b].count);
        }
        assert forall|a: int, b: int|
            0 <= a < b < v.len() && #[trigger] v[a].1 == #[trigger] v[b].1 implies first_press(
            events@,
            v[a].0,
        ) < first_press(events@, v[b].0) by {
            assert(out@[a].count == out@[b].count);
            assert(idx[a] < idx[b]);
            assert(keys@[idx[a]]@ == v[a].0);
            assert(keys@[idx[b]]@ == v[b].0);
        }
        assert forall|e: int| 0 <= e < events@.len() implies tally_has(
            v,
            (#[trigger] events@[e]).key_name@,
        ) by {
            assert(has_key(keys@, events@[e].key_name@));
            let j = choose|j: int| 0 <= j < keys@.len() && #[trigger] keys@[j]@ == events@[e].key_name@;
            assert(listed(out@, keys@[j]@));
            let a = choose|a: int| 0 <= a < out@.len() && #[trigger] out@[a].key_name@ == keys@[j]@;
            assert(v[a].0 == events@[e].key_name@);
        }
    }
    out
}

/// The dashboard summary of `today`, the events that the store counts as
/// today's: how many there are, the earliest and the latest timestamp (both 0
/// when there is none), and the most pressed keys, at most
/// [`TOP_KEYS_LIMIT`] of them, most pressed first and, among equal counts,
/// first pressed first.
pub fn dashboard_stats(today: &Vec<KeyEvent>) -> (r: DashboardStats)
    requires
        today@.len() <= i64::MAX,
    ensures
        r.total_today == today@.len(),
        today@.len() == 0 ==> r.first_ts == 0 && r.last_ts == 0 && r.top_keys@.len() == 0,
        today@.len() > 0 ==> is_first_ts(today@, r.first_ts) && is_last_ts(today@, r.last_ts),
        exists|full: Seq<(Seq<char>, int)>|
            #[trigger] is_key_tally(today@, full) && ties_by_first_press(today@, full)
                && pairs_view(r.top_keys@) == first_n(
                full,
                TOP_KEYS_LIMIT as int,
            ),
{
    let mut first_ts: i64 = 0;
    let mut last_ts: i64 = 0;
    let mut i: usize = 0;
    while i < today.len()
        invariant
            i <= today@.len(),
            i == 0 ==> first_ts == 0 && last_ts == 0,
            i > 0 ==> is_first_ts(today@.take(i as int), first_ts) && is_last_ts(
                today@.take(i as int),
                last_ts,
            ),
        decreases today@.len() - i,
    {
        let t = today[i].timestamp;
        let ghost pre = today@.take(i as int);
        let ghost f0 = first_ts;
        let ghost l0 = last_ts;
        if i == 0 || t < first_ts {
            first_ts = t;
        }
        if i == 0 || t > last_ts {
            last_ts = t;
        }
        proof {
            let now = today@.take(i + 1);
            assert(now =~= pre.push(today@[i as int]));
            if i > 0 {
                let a = choose|a: int| 0 <= a < pre.len() && #[trigger] pre[a].timestamp == f0;
                let b = choose|b: int| 0 <= b < pre.len() && #[trigger] pre[b].timestamp == l0;
                if first_ts != t {
                    assert(now[a].timestamp == first_ts);
                }
                if last_ts != t {
                    assert(now[b].timestamp == last_ts);
                }
            }
            assert(now[i as int].timestamp == t);
        }
        i = i + 1;
    }
    proof {
        assert(today@.take(today@.len() as int) =~= today@);
    }
    let tally = keyboard_stats(today);
    let limit: usize = if tally.len() < TOP_KEYS_LIMIT {
        tally.len()
    } else {
        TOP_KEYS_LIMIT
    };
    let mut top_keys: Vec<(String, i64)> = Vec::new();
    let mut k: usize = 0;
    while k < limit
        invariant
            limit <= tally@.len(),
            k <= limit,
            top_keys@.len() == k,
            pairs_view(top_keys@) == key_counts_view(tally@).take(k as int),
        decreases limit - k,
    {
        let ghost before = top_keys@;
        top_keys.push((tally[k].key_name.clone(), tally[k].count));
        proof {
            assert(top_keys@[k as int].0@ == tally@[k as int].key_name@);
            assert(pairs_view(top_keys@) =~= key_counts_view(tally@).take(k + 1)) by {
                assert forall|a: int| 0 <= a < k implies #[trigger] top_keys@[a] == before[a] by {}
                assert(pairs_view(before) =~= key_counts_view(tally@).take(k as int));
            }
        }
        k = k + 1;
    }
    proof {
        let full = key_counts_view(tally@);
        assert(pairs_view(top_keys@) =~= first_n(full, TOP_KEYS_LIMIT as int));
        assert(is_key_tally(today@, full));
        if today@.len() == 0 {
            if full.len() > 0 {
                assert(full[0].1 == occurrences(today@, full[0].0));
            }
        }
    }
    DashboardStats { total_today: today.len() as i64, first_ts, last_ts, top_keys }
}

} // verus!
