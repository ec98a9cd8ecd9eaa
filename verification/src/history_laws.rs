//! What holds of the two project lists however they are used.

use vstd::prelude::*;
use crate::history::{
    bounded, inserted, is_newest_first, lead_index, lemma_lead_index, lemma_position,
    lemma_project_position, moved_to_front, newest_first, others, placed, position,
    project_position, registered, touched, touched_entry, ProjectView, MAX_PROJECTS,
};

verus! {

/// The list of recent paths after each of `paths` was touched, in order.
pub open spec fn touched_all(list: Seq<Seq<char>>, paths: Seq<Seq<char>>) -> Seq<Seq<char>>
    decreases paths.len(),
{
    if paths.len() == 0 {
        list
    } else {
        touched(touched_all(list, paths.drop_last()), paths.last())
    }
}

/// The smaller of `n` and [`MAX_PROJECTS`].
pub open spec fn shown(n: int) -> int {
    if n < MAX_PROJECTS {
        n
    } else {
        MAX_PROJECTS as int
    }
}

/// After any number of distinct paths were touched, the list starts with
/// the most recent of them, newest first, as many as fit.
pub proof fn lemma_recent_paths_lead(list: Seq<Seq<char>>, paths: Seq<Seq<char>>)
    requires
        paths.len() > 0,
        paths.no_duplicates(),
    ensures
        shown(paths.len() as int) <= touched_all(list, paths).len() <= MAX_PROJECTS,
        forall|j: int|
            0 <= j < shown(paths.len() as int) ==> touched_all(list, paths)[j] == paths[paths.len()
                - 1 - j],
    decreases paths.len(),
{
    let n = paths.len() as int;
    let before = paths.drop_last();
    let x = paths.last();
    let r0 = touched_all(list, before);
    let m0 = shown(n - 1);
    if n > 1 {
        lemma_recent_paths_lead(list, before);
    }
    assert forall|j: int| 0 <= j < m0 implies r0[j] != x by {
        assert(r0[j] == before[n - 2 - j]);
        assert(before[n - 2 - j] == paths[n - 2 - j]);
    }
    lemma_position(r0, x);
    let i = position(r0, x);
    if i < m0 {
        assert(r0[i] == x);
    }
    let moved = moved_to_front(r0, x);
    let r = touched_all(list, paths);
    assert(r == bounded(moved));
    assert forall|j: int| 0 <= j < shown(n) implies r[j] == paths[n - 1 - j] by {
        if j > 0 {
            assert(moved[j] == r0[j - 1]);
            assert(r0[j - 1] == before[n - 2 - (j - 1)]);
        }
    }
}

/// The recent list is bounded and ordered by recency: after at least
/// [`MAX_PROJECTS`] distinct paths were touched, whatever the list held
/// before, it holds exactly the last [`MAX_PROJECTS`] of them, the most
/// recent first.
pub proof fn lemma_recent_paths_bound(list: Seq<Seq<char>>, paths: Seq<Seq<char>>)
    requires
        paths.len() >= MAX_PROJECTS,
        paths.no_duplicates(),
    ensures
        touched_all(list, paths) == Seq::new(
            MAX_PROJECTS as nat,
            |j: int| paths[paths.len() - 1 - j],
        ),
{
    lemma_recent_paths_lead(list, paths);
    assert(touched_all(list, paths) =~= Seq::new(
        MAX_PROJECTS as nat,
        |j: int| paths[paths.len() - 1 - j],
    ));
}

/// Putting an entry into a list adds that entry and nothing else.
pub proof fn lemma_inserted_members(sorted: Seq<ProjectView>, e: ProjectView)
    ensures
        inserted(sorted, e).len() == sorted.len() + 1,
        forall|j: int|
            0 <= j < inserted(sorted, e).len() ==> (#[trigger] inserted(sorted, e)[j] == e
                || sorted.contains(inserted(sorted, e)[j])),
    decreases sorted.len(),
{
    if sorted.len() == 0 {
    } else if sorted.last().last_opened >= e.last_opened {
        assert forall|j: int| 0 <= j < inserted(sorted, e).len() implies (#[trigger] inserted(
            sorted,
            e,
        )[j] == e || sorted.contains(inserted(sorted, e)[j])) by {
            if j < sorted.len() {
                assert(sorted[j] == inserted(sorted, e)[j]);
            }
        }
    } else {
        lemma_inserted_members(sorted.drop_last(), e);
        let inner = inserted(sorted.drop_last(), e);
        assert forall|j: int| 0 <= j < inserted(sorted, e).len() implies (#[trigger] inserted(
            sorted,
            e,
        )[j] == e || sorted.contains(inserted(sorted, e)[j])) by {
            if j < inner.len() {
                if inner[j] != e {
                    let k = choose|k: int|
                        0 <= k < sorted.drop_last().len() && sorted.drop_last()[k] == inner[j];
                    assert(sorted[k] == inner[j]);
                }
            } else {
                assert(sorted[sorted.len() - 1] == sorted.last());
            }
        }
    }
}

/// Ordering a list neither adds nor invents an entry.
pub proof fn lemma_sort_members(list: Seq<ProjectView>)
    ensures
        newest_first(list).len() == list.len(),
        forall|j: int|
            0 <= j < list.len() ==> list.contains(#[trigger] newest_first(list)[j]),
    decreases list.len(),
{
    if list.len() > 0 {
        let before = list.drop_last();
        lemma_sort_members(before);
        lemma_inserted_members(newest_first(before), list.last());
        assert forall|j: int| 0 <= j < list.len() implies list.contains(
            #[trigger] newest_first(list)[j],
        ) by {
            let item = newest_first(list)[j];
            if item == list.last() {
                assert(list[list.len() - 1] == item);
            } else {
                let k = choose|k: int|
                    0 <= k < newest_first(before).len() && newest_first(before)[k] == item;
                assert(before.contains(newest_first(before)[k]));
                let q = choose|q: int| 0 <= q < before.len() && before[q] == item;
                assert(list[q] == item);
            }
        }
    }
}

/// Putting an entry into a list adds it once and changes nothing else.
pub proof fn lemma_inserted_permutes(sorted: Seq<ProjectView>, e: ProjectView)
    ensures
        inserted(sorted, e).to_multiset() == sorted.to_multiset().insert(e),
    decreases sorted.len(),
{
    broadcast use vstd::seq_lib::group_to_multiset_ensures;

    if sorted.len() == 0 {
        assert(seq![e] =~= sorted.push(e));
    } else if sorted.last().last_opened >= e.last_opened {
    } else {
        let before = sorted.drop_last();
        lemma_inserted_permutes(before, e);
        assert(before.push(sorted.last()) =~= sorted);
        assert(before.to_multiset().insert(e).insert(sorted.last()) =~= before.to_multiset().insert(
            sorted.last(),
        ).insert(e));
    }
}

/// Ordering a list rearranges it: every entry occurs as often afterwards
/// as before.
pub proof fn lemma_sort_permutes(list: Seq<ProjectView>)
    ensures
        newest_first(list).to_multiset() == list.to_multiset(),
    decreases list.len(),
{
    broadcast use vstd::seq_lib::group_to_multiset_ensures;

    if list.len() > 0 {
        let before = list.drop_last();
        lemma_sort_permutes(before);
        lemma_inserted_permutes(newest_first(before), list.last());
        assert(before.push(list.last()) =~= list);
    }
}

/// Putting an entry into an ordered list leaves the list ordered.
pub proof fn lemma_inserted_orders(sorted: Seq<ProjectView>, e: ProjectView)
    requires
        is_newest_first(sorted),
    ensures
        is_newest_first(inserted(sorted, e)),
    decreases sorted.len(),
{
    if sorted.len() == 0 {
    } else if sorted.last().last_opened >= e.last_opened {
    } else {
        let before = sorted.drop_last();
        lemma_inserted_orders(before, e);
        lemma_inserted_members(before, e);
        let inner = inserted(before, e);
        assert forall|i: int, j: int| 0 <= i < j < inserted(sorted, e).len() implies inserted(
            sorted,
            e,
        )[i].last_opened >= inserted(sorted, e)[j].last_opened by {
            if j == inner.len() {
                if inner[i] != e {
                    let k = choose|k: int| 0 <= k < before.len() && before[k] == inner[i];
                    assert(sorted[k] == inner[i]);
                }
            }
        }
    }
}

/// The ordered list runs from newest to oldest.
pub proof fn lemma_sort_orders(list: Seq<ProjectView>)
    ensures
        is_newest_first(newest_first(list)),
    decreases list.len(),
{
    if list.len() > 0 {
        lemma_sort_orders(list.drop_last());
        lemma_inserted_orders(newest_first(list.drop_last()), list.last());
    }
}

/// A list that already runs from newest to oldest is left as it is.
pub proof fn lemma_sorted_is_fixed(list: Seq<ProjectView>)
    requires
        is_newest_first(list),
    ensures
        newest_first(list) == list,
    decreases list.len(),
{
    if list.len() > 0 {
        let before = list.drop_last();
        lemma_sorted_is_fixed(before);
        if before.len() > 0 {
            assert(before.last() == list[list.len() - 2]);
        }
        assert(before.push(list.last()) =~= list);
    }
}

/// Where the touched project stands after a touch: at the number of listed
/// entries that are strictly newer than it, or in the last place if that
/// lies beyond the bound.
pub open spec fn touched_index(list: Seq<ProjectView>, entry: ProjectView, rename: bool) -> int {
    let k = lead_index(
        newest_first(others(list, entry.path)),
        touched_entry(list, entry, rename).last_opened,
    );
    if k < MAX_PROJECTS {
        k
    } else {
        MAX_PROJECTS - 1
    }
}

/// What one touch does to the history, whatever the times are.
///
/// The list stays within the bound and in order from newest to oldest. The
/// touched project is in it, under its path, with the time of the touch:
/// it is never the one that is cut. It stands in front of every entry that
/// is not newer than it, so among the entries of its own time it is first,
/// and if nothing listed is newer it is first of all. Every other entry was
/// listed before, and if the list was in order they follow as they were.
pub proof fn lemma_touch(list: Seq<ProjectView>, entry: ProjectView, rename: bool)
    ensures
        ({
            let r = registered(list, entry, rename);
            let at = touched_index(list, entry, rename);
            let rest = others(list, entry.path);
            &&& 1 <= r.len() <= MAX_PROJECTS
            &&& r.len() == shown(rest.len() as int + 1)
            &&& is_newest_first(r)
            &&& 0 <= at < r.len()
            &&& r[at] == touched_entry(list, entry, rename)
            &&& r[at].path == entry.path
            &&& r[at].last_opened == entry.last_opened
            &&& forall|j: int| 0 <= j < at ==> r[j].last_opened > entry.last_opened
            &&& forall|j: int| at < j < r.len() ==> r[j].last_opened <= entry.last_opened
            &&& forall|j: int| 0 <= j < r.len() && j != at ==> rest.contains(#[trigger] r[j])
            &&& (forall|j: int| 0 <= j < list.len() ==> list[j].last_opened <= entry.last_opened)
                ==> at == 0
            &&& is_newest_first(list) && at == 0 ==> forall|j: int|
                1 <= j < r.len() ==> r[j] == rest[j - 1]
        }),
{
    let rest = others(list, entry.path);
    let x = touched_entry(list, entry, rename);
    let sorted = newest_first(rest);
    let k = lead_index(sorted, x.last_opened);
    let full = placed(sorted, x);
    let r = registered(list, entry, rename);
    let at = touched_index(list, entry, rename);
    lemma_project_position(list, entry.path);
    lemma_sort_orders(rest);
    lemma_sort_members(rest);
    lemma_lead_index(sorted, x.last_opened);
    assert(x.path == entry.path && x.last_opened == entry.last_opened);
    assert(full.len() == sorted.len() + 1);
    assert(full[k] == x);
    // behind the touched entry nothing is newer than it
    assert forall|j: int| k <= j < sorted.len() implies sorted[j].last_opened
        <= x.last_opened by {
        if j > k {
            assert(sorted[k].last_opened >= sorted[j].last_opened);
        }
    }
    assert(is_newest_first(full)) by {
        assert forall|a: int, b: int| 0 <= a < b < full.len() implies full[a].last_opened
            >= full[b].last_opened by {
            let a0 = if a < k {
                a
            } else {
                a - 1
            };
            let b0 = if b < k {
                b
            } else {
                b - 1
            };
            if a != k && b != k {
                assert(full[a] == sorted[a0] && full[b] == sorted[b0]);
            } else if a == k {
                assert(full[b] == sorted[b0]);
            } else {
                assert(full[a] == sorted[a0]);
            }
        }
    }
    assert forall|j: int| 0 <= j < r.len() && j != at implies rest.contains(#[trigger] r[j]) by {
        let j0 = if j < k {
            j
        } else {
            j - 1
        };
        if full.len() <= MAX_PROJECTS || k < MAX_PROJECTS {
            assert(r[j] == full[j]);
            assert(full[j] == sorted[j0]);
        } else {
            assert(r[j] == sorted[j]);
        }
        assert(rest.contains(sorted[if full.len() <= MAX_PROJECTS || k < MAX_PROJECTS {
            j0
        } else {
            j
        }]));
    }
    assert forall|j: int| 0 <= j < at implies r[j].last_opened > entry.last_opened by {
        assert(r[j] == sorted[j]);
    }
    assert forall|j: int| at < j < r.len() implies r[j].last_opened <= entry.last_opened by {
        assert(r[j] == full[j]);
        assert(full[j] == sorted[j - 1]);
    }
    if forall|j: int| 0 <= j < list.len() ==> list[j].last_opened <= entry.last_opened {
        if k > 0 {
            assert(rest.contains(sorted[0]));
            let q = choose|q: int| 0 <= q < rest.len() && rest[q] == sorted[0];
            let i = project_position(list, entry.path);
            if i < list.len() {
                assert(rest[q] == list[if q < i {
                    q
                } else {
                    q + 1
                }]);
            }
            assert(sorted[0].last_opened <= entry.last_opened);
        }
    }
    if is_newest_first(list) && at == 0 {
        assert(is_newest_first(rest)) by {
            let i = project_position(list, entry.path);
            assert forall|a: int, b: int| 0 <= a < b < rest.len() implies rest[a].last_opened
                >= rest[b].last_opened by {
                if i < list.len() {
                    let a0 = if a < i {
                        a
                    } else {
                        a + 1
                    };
                    let b0 = if b < i {
                        b
                    } else {
                        b + 1
                    };
                    assert(rest[a] == list[a0] && rest[b] == list[b0]);
                }
            }
        }
        lemma_sorted_is_fixed(rest);
        assert forall|j: int| 1 <= j < r.len() implies r[j] == rest[j - 1] by {
            assert(r[j] == full[j]);
            assert(full[j] == sorted[j - 1]);
        }
    }
}

/// Whether no two entries of `list` have the same path.
pub open spec fn paths_distinct(list: Seq<ProjectView>) -> bool {
    forall|a: int, b: int| 0 <= a < b < list.len() ==> list[a].path != list[b].path
}

proof fn lemma_others_distinct(list: Seq<ProjectView>, path: Seq<char>)
    requires
        paths_distinct(list),
    ensures
        paths_distinct(others(list, path)),
        forall|a: int| 0 <= a < others(list, path).len() ==> others(list, path)[a].path != path,
{
    let rest = others(list, path);
    let i = project_position(list, path);
    lemma_project_position(list, path);
    assert forall|a: int| 0 <= a < rest.len() implies rest[a].path != path by {
        if i < list.len() {
            let a0 = if a < i {
                a
            } else {
                a + 1
            };
            assert(rest[a] == list[a0]);
        }
    }
    assert forall|a: int, b: int| 0 <= a < b < rest.len() implies rest[a].path
        != rest[b].path by {
        if i < list.len() {
            let a0 = if a < i {
                a
            } else {
                a + 1
            };
            let b0 = if b < i {
                b
            } else {
                b + 1
            };
            assert(rest[a] == list[a0] && rest[b] == list[b0]);
        }
    }
}

/// Ordering a list of projects with distinct paths leaves the paths
/// distinct.
pub proof fn lemma_sort_keeps_paths_distinct(list: Seq<ProjectView>)
    requires
        paths_distinct(list),
    ensures
        paths_distinct(newest_first(list)),
{
    let sorted = newest_first(list);
    lemma_sort_members(list);
    lemma_sort_permutes(list);
    assert(list.no_duplicates());
    list.lemma_multiset_has_no_duplicates();
    assert forall|e: ProjectView| sorted.to_multiset().contains(e) implies sorted.to_multiset().count(
        e,
    ) == 1 by {}
    sorted.lemma_multiset_has_no_duplicates_conv();
    assert forall|a: int, b: int| 0 <= a < b < sorted.len() implies sorted[a].path
        != sorted[b].path by {
        assert(list.contains(sorted[a]) && list.contains(sorted[b]));
        let p = choose|p: int| 0 <= p < list.len() && list[p] == sorted[a];
        let q = choose|q: int| 0 <= q < list.len() && list[q] == sorted[b];
        if p == q {
            assert(sorted[a] == sorted[b]);
        }
    }
}

/// A touch leaves one entry for the touched path: in a list of projects
/// with distinct paths the paths stay distinct, so that no entry but the
/// touched one has its path.
pub proof fn lemma_touch_keeps_paths_distinct(
    list: Seq<ProjectView>,
    entry: ProjectView,
    rename: bool,
)
    requires
        paths_distinct(list),
    ensures
        paths_distinct(registered(list, entry, rename)),
{
    let rest = others(list, entry.path);
    let sorted = newest_first(rest);
    let x = touched_entry(list, entry, rename);
    let k = lead_index(sorted, x.last_opened);
    let full = placed(sorted, x);
    let r = registered(list, entry, rename);
    lemma_project_position(list, entry.path);
    lemma_lead_index(sorted, x.last_opened);
    lemma_others_distinct(list, entry.path);
    lemma_sort_keeps_paths_distinct(rest);
    lemma_sort_members(rest);
    assert(x.path == entry.path);
    assert forall|a: int| 0 <= a < sorted.len() implies sorted[a].path != entry.path by {
        assert(rest.contains(sorted[a]));
    }
    assert(paths_distinct(full)) by {
        assert forall|a: int, b: int| 0 <= a < b < full.len() implies full[a].path
            != full[b].path by {
            let a0 = if a < k {
                a
            } else {
                a - 1
            };
            let b0 = if b < k {
                b
            } else {
                b - 1
            };
            if a == k {
                assert(full[b] == sorted[b0]);
            } else if b == k {
                assert(full[a] == sorted[a0]);
            } else {
                assert(full[a] == sorted[a0] && full[b] == sorted[b0]);
            }
        }
    }
    assert(paths_distinct(r)) by {
        assert forall|a: int, b: int| 0 <= a < b < r.len() implies r[a].path != r[b].path by {
            if full.len() <= MAX_PROJECTS || k < MAX_PROJECTS {
                assert(r[a] == full[a] && r[b] == full[b]);
            } else {
                assert(r[a] == full[a]);
                if b < MAX_PROJECTS - 1 {
                    assert(r[b] == full[b]);
                } else {
                    assert(r[b] == full[k]);
                }
            }
        }
    }
}

/// The list of projects after each of `entries` was touched, in order.
pub open spec fn registered_all(list: Seq<ProjectView>, entries: Seq<ProjectView>, rename: bool)
    -> Seq<ProjectView>
    decreases entries.len(),
{
    if entries.len() == 0 {
        list
    } else {
        registered(registered_all(list, entries.drop_last(), rename), entries.last(), rename)
    }
}

/// Whether `entries` describes touches of distinct projects at times that
/// do not run backwards, none earlier than any time in `list`.
pub open spec fn orderly_touches(list: Seq<ProjectView>, entries: Seq<ProjectView>) -> bool {
    &&& forall|i: int, j: int|
        0 <= i < j < entries.len() ==> entries[i].path != entries[j].path
    &&& forall|i: int, j: int|
        0 <= i < j < entries.len() ==> entries[i].last_opened <= entries[j].last_opened
    &&& forall|i: int, k: int|
        0 <= i < entries.len() && 0 <= k < list.len() ==> list[k].last_opened
            <= entries[i].last_opened
}

/// After any number of orderly touches the list is in order, holds nothing
/// newer than the last touch, and starts with the touched projects, the
/// most recent first, as many as fit.
pub proof fn lemma_history_leads(list: Seq<ProjectView>, entries: Seq<ProjectView>, rename: bool)
    requires
        entries.len() > 0,
        orderly_touches(list, entries),
    ensures
        is_newest_first(registered_all(list, entries, rename)),
        shown(entries.len() as int) <= registered_all(list, entries, rename).len()
            <= MAX_PROJECTS,
        forall|j: int|
            0 <= j < registered_all(list, entries, rename).len() ==> registered_all(
                list,
                entries,
                rename,
            )[j].last_opened <= entries.last().last_opened,
        forall|j: int|
            0 <= j < shown(entries.len() as int) ==> {
                &&& registered_all(list, entries, rename)[j].path == entries[entries.len() - 1
                    - j].path
                &&& registered_all(list, entries, rename)[j].last_opened == entries[entries.len()
                    - 1 - j].last_opened
            },
    decreases entries.len(),
{
    let n = entries.len() as int;
    let before = entries.drop_last();
    let x = entries.last();
    let r0 = registered_all(list, before, rename);
    let m0 = shown(n - 1);
    assert(x == entries[n - 1]);
    if n > 1 {
        assert(orderly_touches(list, before)) by {
            assert forall|i: int, j: int| 0 <= i < j < before.len() implies before[i].path
                != before[j].path && before[i].last_opened <= before[j].last_opened by {
                assert(before[i] == entries[i] && before[j] == entries[j]);
            }
            assert forall|i: int, k: int|
                0 <= i < before.len() && 0 <= k < list.len() implies list[k].last_opened
                <= before[i].last_opened by {
                assert(before[i] == entries[i]);
            }
        }
        lemma_history_leads(list, before, rename);
        assert(before.last() == entries[n - 2]);
    }
    assert forall|j: int| 0 <= j < r0.len() implies r0[j].last_opened <= x.last_opened by {
        if n > 1 {
            assert(r0[j].last_opened <= entries[n - 2].last_opened);
        }
    }
    lemma_touch(r0, x, rename);
    let r = registered_all(list, entries, rename);
    assert(r == registered(r0, x, rename));
    let rest = others(r0, x.path);
    lemma_project_position(r0, x.path);
    let i = project_position(r0, x.path);
    assert forall|j: int| 0 <= j < r.len() implies r[j].last_opened <= x.last_opened by {
        if j != 0 {
            assert(rest.contains(r[j]));
            let q = choose|q: int| 0 <= q < rest.len() && rest[q] == r[j];
            if i < r0.len() {
                assert(rest[q] == r0[if q < i {
                    q
                } else {
                    q + 1
                }]);
            }
        }
    }
    if n > 1 {
        assert forall|j: int| 0 <= j < m0 implies r0[j].path != x.path by {
            assert(r0[j].path == before[n - 2 - j].path);
            assert(before[n - 2 - j] == entries[n - 2 - j]);
        }
        if i < m0 {
            assert(r0[i].path == x.path);
        }
        assert(i >= m0);
        assert forall|j: int| 0 <= j < shown(n) implies r[j].path == entries[n - 1 - j].path
            && r[j].last_opened == entries[n - 1 - j].last_opened by {
            if j > 0 {
                assert(r[j] == rest[j - 1]);
                assert(rest[j - 1] == r0[j - 1]);
                assert(r0[j - 1].path == before[n - 2 - (j - 1)].path);
                assert(before[n - 2 - (j - 1)] == entries[n - 1 - j]);
            }
        }
    }
}

proof fn lemma_registered_split(
    list: Seq<ProjectView>,
    a: Seq<ProjectView>,
    b: Seq<ProjectView>,
    rename: bool,
)
    ensures
        registered_all(list, a + b, rename) == registered_all(
            registered_all(list, a, rename),
            b,
            rename,
        ),
    decreases b.len(),
{
    if b.len() == 0 {
        assert(a + b =~= a);
    } else {
        lemma_registered_split(list, a, b.drop_last(), rename);
        assert((a + b).drop_last() =~= a + b.drop_last());
        assert((a + b).last() == b.last());
    }
}

proof fn lemma_times_stay_within(
    list: Seq<ProjectView>,
    entries: Seq<ProjectView>,
    rename: bool,
    bound: u64,
)
    requires
        forall|k: int| 0 <= k < list.len() ==> list[k].last_opened <= bound,
        forall|i: int| 0 <= i < entries.len() ==> entries[i].last_opened <= bound,
    ensures
        forall|k: int|
            0 <= k < registered_all(list, entries, rename).len() ==> registered_all(
                list,
                entries,
                rename,
            )[k].last_opened <= bound,
    decreases entries.len(),
{
    if entries.len() > 0 {
        let before = entries.drop_last();
        assert forall|i: int| 0 <= i < before.len() implies before[i].last_opened <= bound by {
            assert(before[i] == entries[i]);
        }
        lemma_times_stay_within(list, before, rename, bound);
        let r0 = registered_all(list, before, rename);
        let x = entries.last();
        assert(x == entries[entries.len() - 1]);
        lemma_touch(r0, x, rename);
        lemma_project_position(r0, x.path);
        let i = project_position(r0, x.path);
        let rest = others(r0, x.path);
        let r = registered_all(list, entries, rename);
        let at = touched_index(r0, x, rename);
        assert forall|k: int| 0 <= k < r.len() implies r[k].last_opened <= bound by {
            if k != at {
                assert(rest.contains(r[k]));
                let q = choose|q: int| 0 <= q < rest.len() && rest[q] == r[k];
                if i < r0.len() {
                    assert(rest[q] == r0[if q < i {
                        q
                    } else {
                        q + 1
                    }]);
                }
            }
        }
    }
}

/// Whether the last [`MAX_PROJECTS`] of `entries` are touches of distinct
/// projects at times that do not run backwards: none of them earlier than
/// a touch before it or than any time in `list`.
pub open spec fn orderly_tail(list: Seq<ProjectView>, entries: Seq<ProjectView>) -> bool {
    let from = entries.len() - MAX_PROJECTS;
    &&& forall|i: int, j: int|
        from <= i < j < entries.len() ==> entries[i].path != entries[j].path
    &&& forall|i: int, j: int|
        0 <= i < j < entries.len() && from <= j ==> entries[i].last_opened
            <= entries[j].last_opened
    &&& forall|j: int, k: int|
        from <= j < entries.len() && 0 <= k < list.len() ==> list[k].last_opened
            <= entries[j].last_opened
}

/// The history is bounded and ordered by recency: after at least
/// [`MAX_PROJECTS`] projects were touched, the last [`MAX_PROJECTS`] of
/// them distinct and at times that do not run backwards, the list holds
/// exactly those, the most recent first, also where several touches fall
/// into the same second.
pub proof fn lemma_history_bound(list: Seq<ProjectView>, entries: Seq<ProjectView>, rename: bool)
    requires
        entries.len() >= MAX_PROJECTS,
        orderly_tail(list, entries),
    ensures
        registered_all(list, entries, rename).len() == MAX_PROJECTS,
        forall|j: int|
            0 <= j < MAX_PROJECTS ==> {
                &&& registered_all(list, entries, rename)[j].path == entries[entries.len() - 1
                    - j].path
                &&& registered_all(list, entries, rename)[j].last_opened == entries[entries.len()
                    - 1 - j].last_opened
            },
{
    let n = entries.len() as int;
    let from = n - MAX_PROJECTS;
    let early = entries.take(from);
    let tail = entries.skip(from);
    assert(early + tail =~= entries);
    lemma_registered_split(list, early, tail, rename);
    let mid = registered_all(list, early, rename);
    let bound = tail[0].last_opened;
    assert(tail[0] == entries[from]);
    assert forall|i: int| 0 <= i < early.len() implies early[i].last_opened <= bound by {
        assert(early[i] == entries[i]);
    }
    lemma_times_stay_within(list, early, rename, bound);
    assert(orderly_touches(mid, tail)) by {
        assert forall|i: int, j: int| 0 <= i < j < tail.len() implies tail[i].path != tail[j].path
            && tail[i].last_opened <= tail[j].last_opened by {
            assert(tail[i] == entries[from + i] && tail[j] == entries[from + j]);
        }
        assert forall|i: int, k: int|
            0 <= i < tail.len() && 0 <= k < mid.len() implies mid[k].last_opened
            <= tail[i].last_opened by {
            assert(tail[i] == entries[from + i]);
            if i > 0 {
                assert(tail[0].last_opened <= tail[i].last_opened);
            }
        }
    }
    lemma_history_leads(mid, tail, rename);
    assert forall|j: int| 0 <= j < MAX_PROJECTS implies registered_all(list, entries, rename)[j].path
        == entries[n - 1 - j].path && registered_all(list, entries, rename)[j].last_opened
        == entries[n - 1 - j].last_opened by {
        assert(tail[tail.len() - 1 - j] == entries[n - 1 - j]);
    }
}

} // verus!
