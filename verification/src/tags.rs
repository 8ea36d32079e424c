//! Subject tags: their normalization, and the daily goals kept per tag.
//!
//! A tag is trimmed and cut to twenty characters; an empty tag means "no
//! tag". Daily goals map a tag to a number of minutes between 1 and 1440, at
//! most eight of them.

use crate::text::{chars_of, decimal, push_decimal, push_range, str_eq, str_trim, trimmed};
use vstd::prelude::*;

verus! {

/// The longest tag, in characters.
pub const MAX_TAG_CHARS: usize = 20;

/// The most goals that can be set.
pub const MAX_GOALS: usize = 8;

/// The largest daily goal: one day, in minutes.
pub const MAX_GOAL_MINUTES: u64 = 1440;

/// A tag as stored: trimmed, then cut to twenty characters.
pub open spec fn normalized_tag_text(s: Seq<char>) -> Seq<char> {
    let t = trimmed(s);
    if t.len() > 20 {
        t.subrange(0, 20)
    } else {
        t
    }
}

/// Normalizes a tag: trims it and keeps at most twenty characters; what is
/// left empty means no tag.
pub fn normalize_tag(tag: &str) -> (r: Option<String>)
    ensures
        r is Some <==> normalized_tag_text(tag@).len() > 0,
        r is Some ==> r->0@ == normalized_tag_text(tag@),
{
    let chars = chars_of(str_trim(tag));
    let n = if chars.len() > MAX_TAG_CHARS {
        MAX_TAG_CHARS
    } else {
        chars.len()
    };
    if n == 0 {
        return None;
    }
    let mut s = String::new();
    push_range(&mut s, &chars, 0, n);
    assert(s@ =~= normalized_tag_text(tag@));
    Some(s)
}

// ---------------------------------------------------------------------------
// Daily goals.
// ---------------------------------------------------------------------------

/// The goals that a list of entries sets, later entries replacing earlier
/// ones with the same tag.
pub open spec fn entries_map(entries: Seq<(String, u64)>) -> Map<Seq<char>, u64>
    decreases entries.len(),
{
    if entries.len() == 0 {
        Map::empty()
    } else {
        entries_map(entries.drop_last()).insert(entries.last().0@, entries.last().1)
    }
}

/// Whether no two entries share a tag.
pub open spec fn keys_distinct(entries: Seq<(String, u64)>) -> bool {
    forall|i: int, j: int|
        0 <= i < j < entries.len() ==> (#[trigger] entries[i]).0@ != (#[trigger] entries[j]).0@
}

/// The error for a goal outside 1..=1440 minutes.
pub open spec fn goal_range_text(tag: Seq<char>, minutes: u64) -> Seq<char> {
    "目标分钟数越界: "@ + tag + " → "@ + decimal(minutes as nat) + "（应为 1–1440）"@
}

/// Goals as submitted, checked entry by entry in order: the goals so far, or
/// the error of the first bad entry.
pub open spec fn goals_fold(entries: Seq<(String, u64)>) -> Result<Map<Seq<char>, u64>, Seq<char>>
    decreases entries.len(),
{
    if entries.len() == 0 {
        Ok(Map::empty())
    } else {
        match goals_fold(entries.drop_last()) {
            Err(e) => Err(e),
            Ok(m) => {
                let t = normalized_tag_text(entries.last().0@);
                let minutes = entries.last().1;
                if t.len() == 0 {
                    Err("科目名不能为空"@)
                } else if minutes == 0 || minutes > 1440 {
                    Err(goal_range_text(t, minutes))
                } else {
                    Ok(m.insert(t, minutes))
                }
            },
        }
    }
}

/// The outcome of setting goals: the normalized goals, or why they are refused.
pub open spec fn goals_check(entries: Seq<(String, u64)>) -> Result<Map<Seq<char>, u64>, Seq<char>> {
    match goals_fold(entries) {
        Err(e) => Err(e),
        Ok(m) => if m.dom().len() > 8 {
            Err("目标最多 8 个科目"@)
        } else {
            Ok(m)
        },
    }
}

proof fn lemma_entries_map_finite(entries: Seq<(String, u64)>)
    ensures
        entries_map(entries).dom().finite(),
        keys_distinct(entries) ==> entries_map(entries).dom().len() == entries.len(),
    decreases entries.len(),
{
    if entries.len() > 0 {
        let prev = entries.drop_last();
        lemma_entries_map_finite(prev);
        if keys_distinct(entries) {
            assert(keys_distinct(prev)) by {
                assert forall|i: int, j: int| 0 <= i < j < prev.len() implies (#[trigger] prev[i]).0@
                    != (#[trigger] prev[j]).0@ by {
                    assert(prev[i] == entries[i] && prev[j] == entries[j]);
                }
            }
            lemma_not_in_map(prev, entries.last().0@);
        }
    }
}

/// A tag that no entry holds is not among the goals.
proof fn lemma_not_in_map(entries: Seq<(String, u64)>, key: Seq<char>)
    requires
        forall|i: int| 0 <= i < entries.len() ==> (#[trigger] entries[i]).0@ != key,
    ensures
        !entries_map(entries).dom().contains(key),
    decreases entries.len(),
{
    if entries.len() > 0 {
        assert(entries.last() == entries[entries.len() - 1]);
        lemma_not_in_map(entries.drop_last(), key);
    }
}

/// The entry of `entries` with tag `key`, if any.
fn position_of(entries: &Vec<(String, u64)>, key: &str) -> (r: Option<usize>)
    ensures
        match r {
            Some(i) => i < entries.len() && entries@[i as int].0@ == key@,
            None => forall|i: int| 0 <= i < entries.len() ==> (#[trigger] entries@[i]).0@ != key@,
        },
{
    let mut i: usize = 0;
    while i < entries.len()
        invariant
            i <= entries.len(),
            forall|j: int| 0 <= j < i ==> (#[trigger] entries@[j]).0@ != key@,
        decreases entries.len() - i,
    {
        if str_eq(entries[i].0.as_str(), key) {
            return Some(i);
        }
        i = i + 1;
    }
    None
}

/// Sets the goal of `key` to `minutes`, replacing the one it had.
fn put_goal(entries: &mut Vec<(String, u64)>, key: String, minutes: u64)
    requires
        keys_distinct(old(entries)@),
    ensures
        keys_distinct(final(entries)@),
        entries_map(final(entries)@) == entries_map(old(entries)@).insert(key@, minutes),
{
    let ghost k = key@;
    match position_of(entries, key.as_str()) {
        Some(i) => {
            let ghost before = entries@;
            let entry = (key, minutes);
            let ghost e = entry;
            entries.set(i, entry);
            proof {
                assert(entries@ == before.update(i as int, e));
                lemma_replace_entry(before, i as int, e);
                assert forall|a: int, b: int| 0 <= a < b < entries@.len() implies (
                #[trigger] entries@[a]).0@ != (#[trigger] entries@[b]).0@ by {
                    assert(entries@[a].0@ == before[a].0@);
                    assert(entries@[b].0@ == before[b].0@);
                }
            }
        },
        None => {
            let ghost before = entries@;
            entries.push((key, minutes));
            proof {
                assert(entries@.drop_last() =~= before);
                assert forall|i: int, j: int| 0 <= i < j < entries@.len() implies (
                #[trigger] entries@[i]).0@ != (#[trigger] entries@[j]).0@ by {
                    if j == entries@.len() - 1 {
                        assert(entries@[i] == before[i]);
                    } else {
                        assert(entries@[i] == before[i] && entries@[j] == before[j]);
                    }
                }
            }
        },
    }
}

/// Replacing an entry by one with the same tag is an insert, when the tags
/// are distinct.
proof fn lemma_replace_entry(entries: Seq<(String, u64)>, i: int, entry: (String, u64))
    requires
        keys_distinct(entries),
        0 <= i < entries.len(),
        entries[i].0@ == entry.0@,
    ensures
        entries_map(entries.update(i, entry)) == entries_map(entries).insert(entry.0@, entry.1),
    decreases entries.len(),
{
    let after = entries.update(i, entry);
    let prev = entries.drop_last();
    let last = entries.len() - 1;
    assert(entries.last() == entries[last]);
    if i == last {
        assert(after.drop_last() =~= prev);
        assert(entries_map(after) =~= entries_map(entries).insert(entry.0@, entry.1));
    } else {
        assert(after.drop_last() =~= prev.update(i, entry));
        assert(after.last() == entries.last());
        assert(keys_distinct(prev)) by {
            assert forall|a: int, b: int| 0 <= a < b < prev.len() implies (#[trigger] prev[a]).0@
                != (#[trigger] prev[b]).0@ by {
                assert(prev[a] == entries[a] && prev[b] == entries[b]);
            }
        }
        assert(prev[i] == entries[i]);
        lemma_replace_entry(prev, i, entry);
        assert(entries[i].0@ != entries[last].0@);
        assert(entries_map(after) =~= entries_map(entries).insert(entry.0@, entry.1));
    }
}

proof fn lemma_fold_err_sticks(entries: Seq<(String, u64)>, k: int)
    requires
        0 <= k <= entries.len(),
        goals_fold(entries.take(k)) is Err,
    ensures
        goals_fold(entries) == goals_fold(entries.take(k)),
    decreases entries.len() - k,
{
    if k < entries.len() {
        assert(entries.take(k + 1).drop_last() =~= entries.take(k));
        lemma_fold_err_sticks(entries, k + 1);
    } else {
        assert(entries.take(k) =~= entries);
    }
}

/// Checks and normalizes daily goals, entry by entry in the order given:
/// each tag is normalized and must not end up empty, each goal must be 1 to
/// 1440 minutes, and at most eight tags may remain. Entries whose tags
/// normalize alike keep the later goal.
pub fn validate_goals(entries: &Vec<(String, u64)>) -> (r: Result<Vec<(String, u64)>, String>)
    ensures
        match r {
            Ok(v) => keys_distinct(v@) && goals_check(entries@) == Ok::<Map<Seq<char>, u64>, Seq<char>>(
                entries_map(v@),
            ),
            Err(e) => goals_check(entries@) == Err::<Map<Seq<char>, u64>, Seq<char>>(e@),
        },
{
    let mut acc: Vec<(String, u64)> = Vec::new();
    let mut i: usize = 0;
    assert(entries@.take(0) =~= Seq::<(String, u64)>::empty());
    while i < entries.len()
        invariant
            i <= entries.len(),
            keys_distinct(acc@),
            goals_fold(entries@.take(i as int)) == Ok::<Map<Seq<char>, u64>, Seq<char>>(
                entries_map(acc@),
            ),
        decreases entries.len() - i,
    {
        let (tag, minutes) = (&entries[i].0, entries[i].1);
        let ghost next = entries@.take(i + 1);
        assert(next.drop_last() =~= entries@.take(i as int));
        assert(next.last() == entries@[i as int]);
        match normalize_tag(tag.as_str()) {
            None => {
                proof {
                    lemma_fold_err_sticks(entries@, i + 1);
                }
                return Err(String::from_str("科目名不能为空"));
            },
            Some(t) => {
                if minutes == 0 || minutes > MAX_GOAL_MINUTES {
                    let mut e = String::from_str("目标分钟数越界: ");
                    e.append(t.as_str());
                    e.append(" → ");
                    push_decimal(&mut e, minutes);
                    e.append("（应为 1–1440）");
                    proof {
                        lemma_fold_err_sticks(entries@, i + 1);
                        assert(e@ =~= goal_range_text(t@, minutes));
                    }
                    return Err(e);
                }
                put_goal(&mut acc, t, minutes);
            },
        }
        i = i + 1;
    }
    assert(entries@.take(entries.len() as int) =~= entries@);
    proof {
        lemma_entries_map_finite(acc@);
    }
    if acc.len() > MAX_GOALS {
        return Err(String::from_str("目标最多 8 个科目"));
    }
    Ok(acc)
}

/// The goals after the tag `from` is renamed to `to`: the goal of `from`
/// moves to `to`, keeping the larger goal when `to` already has one, and is
/// dropped when the sessions are cleared to no tag.
pub open spec fn migrated_goals(m: Map<Seq<char>, u64>, from: Seq<char>, to: Option<Seq<char>>) -> Map<
    Seq<char>,
    u64,
> {
    let moved = m[from];
    let rest = m.remove(from);
    match to {
        Some(t) => rest.insert(
            t,
            if rest.dom().contains(t) && rest[t] > moved {
                rest[t]
            } else {
                moved
            },
        ),
        None => rest,
    }
}

/// Removing the entry of a tag removes that tag, when the tags are distinct.
proof fn lemma_remove_entry(entries: Seq<(String, u64)>, i: int)
    requires
        keys_distinct(entries),
        0 <= i < entries.len(),
    ensures
        keys_distinct(entries.remove(i)),
        entries_map(entries.remove(i)) == entries_map(entries).remove(entries[i].0@),
    decreases entries.len(),
{
    let after = entries.remove(i);
    let prev = entries.drop_last();
    let last = entries.len() - 1;
    let key = entries[i].0@;
    assert(entries.last() == entries[last]);
    assert forall|a: int, b: int| 0 <= a < b < after.len() implies (#[trigger] after[a]).0@
        != (#[trigger] after[b]).0@ by {
        let ea = if a < i { a } else { a + 1 };
        let eb = if b < i { b } else { b + 1 };
        assert(after[a] == entries[ea] && after[b] == entries[eb]);
    }
    if i == last {
        assert(after =~= prev);
        lemma_not_in_map_prefix(entries, i);
        assert(entries_map(after) =~= entries_map(entries).remove(key));
    } else {
        assert(keys_distinct(prev)) by {
            assert forall|a: int, b: int| 0 <= a < b < prev.len() implies (#[trigger] prev[a]).0@
                != (#[trigger] prev[b]).0@ by {
                assert(prev[a] == entries[a] && prev[b] == entries[b]);
            }
        }
        assert(prev[i] == entries[i]);
        lemma_remove_entry(prev, i);
        assert(after.drop_last() =~= prev.remove(i));
        assert(after.last() == entries.last());
        assert(entries[i].0@ != entries[last].0@);
        assert(entries_map(after) =~= entries_map(entries).remove(key));
    }
}

/// The last entry's tag is not among the goals of the entries before it.
proof fn lemma_not_in_map_prefix(entries: Seq<(String, u64)>, last: int)
    requires
        keys_distinct(entries),
        entries.len() > 0,
        last == entries.len() - 1,
    ensures
        !entries_map(entries.drop_last()).dom().contains(entries[last].0@),
{
    let prev = entries.drop_last();
    assert forall|a: int| 0 <= a < prev.len() implies (#[trigger] prev[a]).0@ != entries[last].0@ by {
        assert(prev[a] == entries[a]);
    }
    lemma_not_in_map(prev, entries[last].0@);
}

/// Moves the goal of `from` after a rename (see [`migrated_goals`]); `None`
/// when `from` has no goal, so that nothing needs to be stored.
pub fn migrate_goals(goals: Vec<(String, u64)>, from: &str, to: Option<&str>) -> (r: Option<
    Vec<(String, u64)>,
>)
    requires
        keys_distinct(goals@),
    ensures
        r is None <==> !entries_map(goals@).dom().contains(from@),
        r is Some ==> keys_distinct(r->0@),
        r is Some ==> entries_map(r->0@) == migrated_goals(
            entries_map(goals@),
            from@,
            match to {
                Some(t) => Some(t@),
                None => None,
            },
        ),
{
    let mut goals = goals;
    let i = match position_of(&goals, from) {
        Some(i) => i,
        None => {
            proof {
                lemma_not_in_map(goals@, from@);
            }
            return None;
        },
    };
    let ghost before = goals@;
    proof {
        lemma_in_map(before, i as int);
        lemma_remove_entry(before, i as int);
    }
    let (_, moved) = goals.remove(i);
    assert(goals@ == before.remove(i as int));
    match to {
        Some(t) => {
            let value = match position_of(&goals, t) {
                Some(j) => {
                    proof {
                        lemma_in_map(goals@, j as int);
                    }
                    if goals[j].1 > moved {
                        goals[j].1
                    } else {
                        moved
                    }
                },
                None => {
                    proof {
                        lemma_not_in_map(goals@, t@);
                    }
                    moved
                },
            };
            put_goal(&mut goals, String::from_str(t), value);
        },
        None => {},
    }
    Some(goals)
}

/// With distinct tags, an entry's tag maps to that entry's goal.
proof fn lemma_in_map(entries: Seq<(String, u64)>, i: int)
    requires
        keys_distinct(entries),
        0 <= i < entries.len(),
    ensures
        entries_map(entries).dom().contains(entries[i].0@),
        entries_map(entries)[entries[i].0@] == entries[i].1,
    decreases entries.len(),
{
    let last = entries.len() - 1;
    assert(entries.last() == entries[last]);
    if i < last {
        let prev = entries.drop_last();
        assert(prev[i] == entries[i]);
        assert(keys_distinct(prev)) by {
            assert forall|a: int, b: int| 0 <= a < b < prev.len() implies (#[trigger] prev[a]).0@
                != (#[trigger] prev[b]).0@ by {
                assert(prev[a] == entries[a] && prev[b] == entries[b]);
            }
        }
        lemma_in_map(prev, i);
    }
}

proof fn lemma_fold_in_range(entries: Seq<(String, u64)>)
    ensures
        goals_fold(entries) matches Ok(m) ==> m.dom().finite() && forall|k: Seq<char>|
            #[trigger] m.dom().contains(k) ==> 1 <= m[k] <= 1440 && 0 < k.len() <= 20,
    decreases entries.len(),
{
    if entries.len() > 0 {
        lemma_fold_in_range(entries.drop_last());
    }
}

/// Every goal that passes the checks names a tag of 1 to 20 characters and
/// lies between 1 and 1440 minutes, and at most eight tags have goals.
pub proof fn law_accepted_goals_are_in_range(entries: Seq<(String, u64)>)
    ensures
        goals_check(entries) matches Ok(m) ==> {
            &&& m.dom().len() <= 8
            &&& forall|k: Seq<char>|
                #[trigger] m.dom().contains(k) ==> 1 <= m[k] <= 1440 && 0 < k.len() <= 20
        },
{
    lemma_fold_in_range(entries);
}

} // verus!
