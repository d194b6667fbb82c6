//! Planning a batch: which files are counted one after another, and which
//! are handed out to workers, largest first.
use vstd::prelude::*;

use crate::counter::PARALLEL_THRESHOLD;

verus! {

/// A file and its size in bytes.
#[derive(Debug, Clone)]
pub struct FileInfo {
    /// The path to the file, as the caller gave it.
    pub path: String,
    /// Its size in bytes.
    pub size: u64,
}

/// The files whose size could be read, in order, from each path with its
/// size or with none where the size could not be read.
pub open spec fn known_sizes(entries: Seq<(String, Option<u64>)>) -> Seq<FileInfo>
    decreases entries.len(),
{
    if entries.len() == 0 {
        Seq::empty()
    } else {
        let rest = known_sizes(entries.drop_last());
        match entries.last().1 {
            Some(n) => rest.push(FileInfo { path: entries.last().0, size: n }),
            None => rest,
        }
    }
}

/// Whether a file goes to the sequential batch.
pub open spec fn is_small(info: FileInfo) -> bool {
    info.size < PARALLEL_THRESHOLD
}

/// The files of `infos` that are small (`small`) or not, in order.
pub open spec fn by_size(infos: Seq<FileInfo>, small: bool) -> Seq<FileInfo>
    decreases infos.len(),
{
    if infos.len() == 0 {
        Seq::empty()
    } else {
        let rest = by_size(infos.drop_last(), small);
        if is_small(infos.last()) == small {
            rest.push(infos.last())
        } else {
            rest
        }
    }
}

/// The files come largest first.
pub open spec fn largest_first(infos: Seq<FileInfo>) -> bool {
    forall|i: int, j: int| 0 <= i < j < infos.len() ==> infos[i].size >= infos[j].size
}

proof fn lemma_multiset_concat(a: Seq<FileInfo>, b: Seq<FileInfo>)
    ensures
        (a + b).to_multiset() == a.to_multiset().add(b.to_multiset()),
    decreases b.len(),
{
    broadcast use vstd::seq_lib::group_to_multiset_ensures;

    if b.len() == 0 {
        assert(a + b =~= a);
        assert(a.to_multiset().add(b.to_multiset()) =~= a.to_multiset());
    } else {
        lemma_multiset_concat(a, b.drop_last());
        assert(a + b =~= (a + b.drop_last()).push(b.last()));
        assert(b =~= b.drop_last().push(b.last()));
        assert((a + b).to_multiset() =~= a.to_multiset().add(b.to_multiset()));
    }
}

/// Every file is either small or not: the two groups together hold the
/// files of `infos`.
pub proof fn lemma_split_by_size(infos: Seq<FileInfo>)
    ensures
        (by_size(infos, true) + by_size(infos, false)).to_multiset() == infos.to_multiset(),
    decreases infos.len(),
{
    broadcast use vstd::seq_lib::group_to_multiset_ensures;

    if infos.len() > 0 {
        let rest = infos.drop_last();
        let x = infos.last();
        lemma_split_by_size(rest);
        lemma_multiset_concat(by_size(infos, true), by_size(infos, false));
        lemma_multiset_concat(by_size(rest, true), by_size(rest, false));
        assert(infos =~= rest.push(x));
        assert(infos.to_multiset() == rest.to_multiset().insert(x));
        assert((by_size(infos, true) + by_size(infos, false)).to_multiset() =~= infos.to_multiset());
    }
}

/// The two groups of a batch.
pub struct BatchPlan {
    /// Files below the parallel threshold, in input order.
    pub small: Vec<FileInfo>,
    /// The other files, largest first.
    pub large: Vec<FileInfo>,
}

/// Plans a batch from each path with its size, or with none where the size
/// could not be read: such paths are dropped, the small files keep their
/// order, and the large files are sorted by size, largest first.
pub fn plan_batch(entries: &Vec<(String, Option<u64>)>) -> (r: BatchPlan)
    ensures
        r.small@ == by_size(known_sizes(entries@), true),
        r.large@.to_multiset() == by_size(known_sizes(entries@), false).to_multiset(),
        largest_first(r.large@),
        (r.small@ + r.large@).to_multiset() == known_sizes(entries@).to_multiset(),
{
    let mut small: Vec<FileInfo> = Vec::new();
    let mut large: Vec<FileInfo> = Vec::new();
    let mut i: usize = 0;
    while i < entries.len()
        invariant
            i <= entries@.len(),
            small@ == by_size(known_sizes(entries@.take(i as int)), true),
            large@ == by_size(known_sizes(entries@.take(i as int)), false),
        decreases entries@.len() - i,
    {
        assert(entries@.take(i + 1).drop_last() =~= entries@.take(i as int));
        match entries[i].1 {
            Some(n) => {
                let info = FileInfo { path: entries[i].0.clone(), size: n };
                proof {
                    let known = known_sizes(entries@.take(i as int));
                    assert(known_sizes(entries@.take(i + 1)) == known.push(info));
                    assert(known.push(info).drop_last() =~= known);
                }
                if n < PARALLEL_THRESHOLD {
                    small.push(info);
                } else {
                    large.push(info);
                }
            },
            None => {},
        }
        i = i + 1;
    }
    assert(entries@.take(i as int) =~= entries@);
    let unsorted = Ghost(large@);
    let large = sort_largest_first(large);
    proof {
        lemma_split_by_size(known_sizes(entries@));
        lemma_multiset_concat(small@, large@);
        lemma_multiset_concat(small@, unsorted@);
    }
    BatchPlan { small, large }
}

/// Sorts files by size, largest first; files of equal size keep their order.
fn sort_largest_first(infos: Vec<FileInfo>) -> (r: Vec<FileInfo>)
    ensures
        r@.to_multiset() == infos@.to_multiset(),
        largest_first(r@),
{
    broadcast use vstd::seq_lib::group_to_multiset_ensures;

    let mut out: Vec<FileInfo> = Vec::new();
    let mut i: usize = 0;
    while i < infos.len()
        invariant
            i <= infos@.len(),
            out@.to_multiset() == infos@.take(i as int).to_multiset(),
            largest_first(out@),
        decreases infos@.len() - i,
    {
        let x = FileInfo { path: infos[i].path.clone(), size: infos[i].size };
        let mut j: usize = 0;
        while j < out.len() && out[j].size >= x.size
            invariant
                j <= out@.len(),
                forall|k: int| 0 <= k < j ==> out@[k].size >= x.size,
            decreases out@.len() - j,
        {
            j = j + 1;
        }
        let ghost before = out@;
        out.insert(j, x);
        proof {
            assert(out@.remove(j as int) =~= before);
            assert(out@[j as int] == x);
            assert(infos@.take(i + 1) =~= infos@.take(i as int).push(infos@[i as int]));
            infos@.take(i as int).to_multiset_ensures();
            assert(x == infos@[i as int]);
            out@.to_multiset_ensures();
            assert(out@.contains(x));
            assert(out@.remove(j as int).to_multiset() == out@.to_multiset().remove(x));
            assert(out@.to_multiset().remove(x) == before.to_multiset());
            assert(out@.to_multiset().count(x) > 0);
            assert(out@.to_multiset() =~= before.to_multiset().insert(x));
            assert forall|a: int, b: int| 0 <= a < b < out@.len() implies out@[a].size
                >= out@[b].size by {
                if b < j {
                } else if b == j {
                } else if a < j {
                    assert(out@[b] == before[b - 1]);
                } else if a == j {
                    assert(out@[b] == before[b - 1]);
                    assert(before[j as int].size < x.size);
                } else {
                    assert(out@[a] == before[a - 1]);
                    assert(out@[b] == before[b - 1]);
                }
            }
        }
        i = i + 1;
    }
    assert(infos@.take(i as int) =~= infos@);
    out
}

} // verus!
