//! Which daily database snapshots to delete: snapshots are named
//! `pristimer-YYYY-MM-DD.db`, so name order is time order, and only the
//! newest seven are kept.

use crate::text::{chars_of, has_prefix, matches_at};
use vstd::prelude::*;
use vstd::relations::{sorted_by, total_ordering};

verus! {

/// How many snapshots are kept.
pub const KEEP_BACKUPS: usize = 7;

/// Name order from position `i` on: character by character, a proper
/// prefix first.
pub open spec fn name_le_from(a: Seq<char>, b: Seq<char>, i: int) -> bool
    decreases a.len() - i,
{
    if i >= a.len() {
        true
    } else if i >= b.len() {
        false
    } else if a[i] != b[i] {
        a[i] < b[i]
    } else {
        name_le_from(a, b, i + 1)
    }
}

/// Name order: the order of file names in a directory listing sorted by name.
pub open spec fn name_le(a: Seq<char>, b: Seq<char>) -> bool {
    name_le_from(a, b, 0)
}

/// Name order as a relation.
pub open spec fn by_name() -> spec_fn(Seq<char>, Seq<char>) -> bool {
    |a: Seq<char>, b: Seq<char>| name_le(a, b)
}

proof fn lemma_name_refl(a: Seq<char>, i: int)
    requires
        0 <= i,
    ensures
        name_le_from(a, a, i),
    decreases a.len() - i,
{
    if i < a.len() {
        lemma_name_refl(a, i + 1);
    }
}

proof fn lemma_name_total(a: Seq<char>, b: Seq<char>, i: int)
    requires
        0 <= i,
    ensures
        name_le_from(a, b, i) || name_le_from(b, a, i),
    decreases a.len() - i,
{
    if i < a.len() && i < b.len() && a[i] == b[i] {
        lemma_name_total(a, b, i + 1);
    }
}

proof fn lemma_name_antisym(a: Seq<char>, b: Seq<char>, i: int)
    requires
        0 <= i <= a.len(),
        i <= b.len(),
        a.subrange(0, i) == b.subrange(0, i),
        name_le_from(a, b, i),
        name_le_from(b, a, i),
    ensures
        a == b,
    decreases a.len() - i,
{
    if i < a.len() && i < b.len() {
        assert(a[i] == b[i]);
        assert(a.subrange(0, i + 1) =~= a.subrange(0, i).push(a[i]));
        assert(b.subrange(0, i + 1) =~= b.subrange(0, i).push(b[i]));
        lemma_name_antisym(a, b, i + 1);
    } else {
        assert(a.len() == i && b.len() == i);
        assert(a =~= a.subrange(0, i));
        assert(b =~= b.subrange(0, i));
    }
}

proof fn lemma_name_trans(a: Seq<char>, b: Seq<char>, c: Seq<char>, i: int)
    requires
        0 <= i,
        name_le_from(a, b, i),
        name_le_from(b, c, i),
    ensures
        name_le_from(a, c, i),
    decreases a.len() - i,
{
    if i < a.len() && i < b.len() && i < c.len() && a[i] == b[i] && b[i] == c[i] {
        lemma_name_trans(a, b, c, i + 1);
    }
}

/// Name order is a total order.
pub proof fn lemma_name_order()
    ensures
        total_ordering(by_name()),
{
    assert forall|x: Seq<char>| #[trigger] by_name()(x, x) by {
        lemma_name_refl(x, 0);
    }
    assert forall|x: Seq<char>, y: Seq<char>| #[trigger]
        by_name()(x, y) && #[trigger] by_name()(y, x) implies x == y by {
        assert(x.subrange(0, 0) =~= y.subrange(0, 0));
        lemma_name_antisym(x, y, 0);
    }
    assert forall|x: Seq<char>, y: Seq<char>, z: Seq<char>| #[trigger]
        by_name()(x, y) && #[trigger] by_name()(y, z) implies by_name()(x, z) by {
        lemma_name_trans(x, y, z, 0);
    }
    assert forall|x: Seq<char>, y: Seq<char>| #[trigger]
        by_name()(x, y) || #[trigger] by_name()(y, x) by {
        lemma_name_total(x, y, 0);
    }
}

/// Compares two names in name order.
fn name_le_exec(a: &Vec<char>, b: &Vec<char>) -> (r: bool)
    ensures
        r == name_le(a@, b@),
{
    let mut i: usize = 0;
    loop
        invariant
            name_le(a@, b@) == name_le_from(a@, b@, i as int),
            i <= a.len(),
            i <= b.len(),
        decreases a.len() - i,
    {
        if i == a.len() {
            return true;
        }
        if i == b.len() {
            return false;
        }
        if a[i] != b[i] {
            return a[i] < b[i];
        }
        i = i + 1;
    }
}

/// Whether `s` ends with `suffix`.
pub open spec fn has_suffix(s: Seq<char>, suffix: Seq<char>) -> bool {
    suffix.len() <= s.len() && s.subrange(s.len() - suffix.len(), s.len() as int) == suffix
}

/// Whether a file name is one of the daily snapshots.
pub open spec fn is_backup_name(s: Seq<char>) -> bool {
    has_prefix(s, "pristimer-"@) && has_suffix(s, ".db"@)
}

/// The snapshots to delete among the names of a directory: all snapshot
/// names in name order but the newest seven.
pub open spec fn to_prune(names: Seq<Seq<char>>) -> Seq<Seq<char>> {
    let sorted = names.filter(|s: Seq<char>| is_backup_name(s)).sort_by(by_name());
    if sorted.len() > 7 {
        sorted.subrange(0, sorted.len() - 7)
    } else {
        Seq::empty()
    }
}

/// The views of a list of strings.
pub open spec fn views(v: Seq<String>) -> Seq<Seq<char>> {
    v.map_values(|s: String| s@)
}

fn is_backup_file(name: &str) -> (r: bool)
    ensures
        r == is_backup_name(name@),
{
    proof {
        reveal_strlit("pristimer-");
        reveal_strlit(".db");
    }
    let chars = chars_of(name);
    if chars.len() < 3 {
        return false;
    }
    let prefix = chars_of("pristimer-");
    let suffix = chars_of(".db");
    matches_at(&chars, &prefix, 0) && matches_at(&chars, &suffix, chars.len() - 3)
}

/// The snapshot files to delete, oldest first, given the names found in
/// the backup directory: every `pristimer-*.db` but the seven last in name
/// order.
pub fn backups_to_prune(names: Vec<String>) -> (r: Vec<String>)
    ensures
        views(r@) == to_prune(views(names@)),
{
    let ghost all = views(names@);
    let ghost pred = |s: Seq<char>| is_backup_name(s);
    let mut names = names;
    let mut sorted: Vec<String> = Vec::new();
    let ghost mut done: int = 0;
    proof {
        lemma_name_order();
        reveal(Seq::filter);
        assert(all.subrange(0, 0).filter(pred) =~= Seq::<Seq<char>>::empty());
        assert(views(sorted@) =~= Seq::<Seq<char>>::empty());
        assert(views(names@) =~= all.subrange(0, all.len() as int));
    }
    while names.len() > 0
        invariant
            total_ordering(by_name()),
            0 <= done <= all.len(),
            views(names@) == all.subrange(done, all.len() as int),
            sorted_by(views(sorted@), by_name()),
            views(sorted@).to_multiset() == all.subrange(0, done).filter(pred).to_multiset(),
            pred == (|s: Seq<char>| is_backup_name(s)),
        decreases names.len(),
    {
        let ghost before = names@;
        assert(views(before).len() == before.len());
        assert(done < all.len());
        let name = names.remove(0);
        assert(views(before)[0] == name@);
        proof {
            assert(names@ == before.remove(0));
            assert forall|k: int| 0 <= k < views(names@).len() implies views(names@)[k] == all[done
                + 1 + k] by {
                assert(views(names@)[k] == names@[k]@);
                assert(names@[k] == before[k + 1]);
                assert(views(before)[k + 1] == before[k + 1]@);
            }
            assert(views(names@) =~= all.subrange(done + 1, all.len() as int));
            let prefix = all.subrange(0, done + 1);
            assert(prefix.drop_last() =~= all.subrange(0, done));
            assert(prefix.last() == name@);
        }
        let ghost old_views = views(sorted@);
        let backup = is_backup_file(name.as_str());
        proof {
            let prefix = all.subrange(0, done + 1);
            let prev = all.subrange(0, done);
            assert(prefix =~= prev.push(name@));
            prev.lemma_filter_push(name@, pred);
            if backup {
                assert(prefix.filter(pred) == prev.filter(pred).push(name@));
                vstd::seq_lib::to_multiset_build(prev.filter(pred), name@);
            } else {
                assert(prefix.filter(pred) == prev.filter(pred));
            }
        }
        if backup {
            let key = chars_of(name.as_str());
            let mut pos: usize = 0;
            while pos < sorted.len() && name_le_exec(&chars_of(sorted[pos].as_str()), &key)
                invariant
                    pos <= sorted.len(),
                    total_ordering(by_name()),
                    key@ == name@,
                    sorted_by(views(sorted@), by_name()),
                    forall|j: int| 0 <= j < pos ==> name_le(#[trigger] sorted@[j]@, name@),
                decreases sorted.len() - pos,
            {
                pos = pos + 1;
            }
            let ghost old_sorted = sorted@;
            sorted.insert(pos, name);
            proof {
                let vs = views(old_sorted);
                assert(views(sorted@) =~= vs.insert(pos as int, name@));
                vstd::seq_lib::to_multiset_insert(vs, pos as int, name@);
                assert forall|i: int, j: int| 0 <= i < j < views(sorted@).len() implies #[trigger] by_name()(
                    views(sorted@)[i], views(sorted@)[j]) by {
                    let s = views(sorted@);
                    if j < pos {
                        assert(s[i] == vs[i] && s[j] == vs[j]);
                    } else if j == pos {
                        assert(s[i] == vs[i]);
                        assert(name_le(vs[i], name@));
                    } else if i == pos {
                        assert(s[j] == vs[j - 1]);
                        if pos < vs.len() {
                            assert(!name_le(vs[pos as int], name@));
                            assert(by_name()(vs[pos as int], name@) || by_name()(name@, vs[pos as int]));
                            if j - 1 > pos {
                                assert(by_name()(vs[pos as int], vs[j - 1]));
                            }
                        }
                    } else if i < pos {
                        assert(s[i] == vs[i] && s[j] == vs[j - 1]);
                    } else {
                        assert(s[i] == vs[i - 1] && s[j] == vs[j - 1]);
                    }
                }
            }
        }
        proof {
            done = done + 1;
        }
    }
    proof {
        assert(all.subrange(0, all.len() as int) =~= all);
        let kept = all.filter(pred);
        kept.lemma_sort_by_ensures(by_name());
        vstd::seq_lib::lemma_sorted_unique(views(sorted@), kept.sort_by(by_name()), by_name());
    }
    let n = sorted.len();
    if n > KEEP_BACKUPS {
        sorted.truncate(n - KEEP_BACKUPS);
    } else {
        sorted.truncate(0);
    }
    proof {
        assert(views(sorted@) =~= to_prune(all));
    }
    sorted
}

} // verus!
