//! The record of projects a user has worked on: a list of paths and a list
//! of project descriptions, both ordered by recency and bounded in length.

use vstd::prelude::*;
use vstd::string::StringExecFns;
use crate::text::copy_optional;

verus! {

/// The largest number of projects either list keeps.
pub const MAX_PROJECTS: usize = 10;

/// What is remembered of one project.
#[derive(Clone, Debug, PartialEq, Eq)]
pub struct ProjectMetadata {
    pub path: String,
    pub name: String,
    /// Seconds since the Unix epoch at which the project was last touched.
    pub last_opened: u64,
    pub project_type: Option<String>,
    pub zephyr_version: Option<String>,
}

/// Mathematical content of a [`ProjectMetadata`].
#[verifier::ext_equal]
pub struct ProjectView {
    pub path: Seq<char>,
    pub name: Seq<char>,
    pub last_opened: u64,
    pub project_type: Option<Seq<char>>,
    pub zephyr_version: Option<Seq<char>>,
}

impl DeepView for ProjectMetadata {
    type V = ProjectView;

    open spec fn deep_view(&self) -> ProjectView {
        ProjectView {
            path: self.path@,
            name: self.name@,
            last_opened: self.last_opened,
            project_type: self.project_type.deep_view(),
            zephyr_version: self.zephyr_version.deep_view(),
        }
    }
}

impl View for ProjectMetadata {
    type V = ProjectView;

    open spec fn view(&self) -> ProjectView {
        self.deep_view()
    }
}

impl ProjectMetadata {
    /// A fresh copy of this description.
    pub fn duplicate(&self) -> (r: ProjectMetadata)
        ensures
            r@ == self@,
    {
        ProjectMetadata {
            path: self.path.clone(),
            name: self.name.clone(),
            last_opened: self.last_opened,
            project_type: copy_optional(&self.project_type),
            zephyr_version: copy_optional(&self.zephyr_version),
        }
    }
}

/// Index of the first entry of `list` equal to `path`, or the length of
/// `list` if there is none.
pub open spec fn position(list: Seq<Seq<char>>, path: Seq<char>) -> int
    decreases list.len(),
{
    if list.len() == 0 {
        0
    } else if list.first() == path {
        0
    } else {
        1 + position(list.drop_first(), path)
    }
}

/// `list` with `path` moved to its front, or put there if it was absent.
pub open spec fn moved_to_front(list: Seq<Seq<char>>, path: Seq<char>) -> Seq<Seq<char>> {
    let i = position(list, path);
    if i < list.len() {
        seq![path] + list.remove(i)
    } else {
        seq![path] + list
    }
}

/// The first [`MAX_PROJECTS`] entries of `list`.
pub open spec fn bounded<A>(list: Seq<A>) -> Seq<A> {
    if list.len() > MAX_PROJECTS {
        list.take(MAX_PROJECTS as int)
    } else {
        list
    }
}

/// The list of recent paths after `path` was touched.
pub open spec fn touched(list: Seq<Seq<char>>, path: Seq<char>) -> Seq<Seq<char>> {
    bounded(moved_to_front(list, path))
}

/// Facts about [`position`]: it lies within the list, no entry before it is
/// `path`, and the entry at it is.
pub proof fn lemma_position(list: Seq<Seq<char>>, path: Seq<char>)
    ensures
        0 <= position(list, path) <= list.len(),
        forall|j: int| 0 <= j < position(list, path) ==> list[j] != path,
        position(list, path) < list.len() ==> list[position(list, path)] == path,
    decreases list.len(),
{
    if list.len() > 0 && list.first() != path {
        lemma_position(list.drop_first(), path);
        assert forall|j: int| 0 <= j < position(list, path) implies list[j] != path by {
            if j > 0 {
                assert(list.drop_first()[j - 1] == list[j]);
            }
        }
    }
}

/// Index of the first entry of `list` that equals `path`, if any.
pub fn find_path(list: &Vec<String>, path: &String) -> (r: Option<usize>)
    ensures
        match r {
            Some(i) => i == position(list.deep_view(), path@) && i < list.len(),
            None => position(list.deep_view(), path@) == list.len(),
        },
{
    let ghost all = list.deep_view();
    let mut i: usize = 0;
    assert(all.subrange(0, all.len() as int) =~= all);
    while i < list.len()
        invariant
            i <= list.len(),
            all == list.deep_view(),
            position(all, path@) == i + position(all.subrange(i as int, all.len() as int), path@),
        decreases list.len() - i,
    {
        let ghost rest = all.subrange(i as int, all.len() as int);
        assert(rest.first() == list[i as int]@);
        if list[i] == *path {
            return Some(i);
        }
        assert(rest.drop_first() =~= all.subrange(i + 1, all.len() as int));
        i = i + 1;
    }
    None
}

/// Moves `path` to the front of `list`, or puts it there if it was absent.
pub fn move_to_front(list: &mut Vec<String>, path: String)
    ensures
        final(list).deep_view() == moved_to_front(old(list).deep_view(), path@),
{
    let ghost before = list.deep_view();
    match find_path(list, &path) {
        Some(i) => {
            list.remove(i);
            assert(list.deep_view() =~= before.remove(i as int));
        },
        None => {},
    }
    let ghost middle = list.deep_view();
    list.insert(0, path);
    assert(list.deep_view() =~= seq![path@] + middle);
}

/// Keeps the first [`MAX_PROJECTS`] entries of `list`.
pub fn bound_paths(list: &mut Vec<String>)
    ensures
        final(list).deep_view() == bounded(old(list).deep_view()),
{
    if list.len() > MAX_PROJECTS {
        list.truncate(MAX_PROJECTS);
        assert(list.deep_view() =~= old(list).deep_view().take(MAX_PROJECTS as int));
    }
}

/// `sorted`, which is ordered from newest to oldest, with `e` put in after
/// every entry that is as new as `e` or newer.
pub open spec fn inserted(sorted: Seq<ProjectView>, e: ProjectView) -> Seq<ProjectView>
    decreases sorted.len(),
{
    if sorted.len() == 0 {
        seq![e]
    } else if sorted.last().last_opened >= e.last_opened {
        sorted.push(e)
    } else {
        inserted(sorted.drop_last(), e).push(sorted.last())
    }
}

/// The entries of `list` from newest to oldest; entries of the same age
/// keep the order they had in `list`.
pub open spec fn newest_first(list: Seq<ProjectView>) -> Seq<ProjectView>
    decreases list.len(),
{
    if list.len() == 0 {
        list
    } else {
        inserted(newest_first(list.drop_last()), list.last())
    }
}

/// Whether `list` runs from newest to oldest.
pub open spec fn is_newest_first(list: Seq<ProjectView>) -> bool {
    forall|i: int, j: int|
        0 <= i < j < list.len() ==> list[i].last_opened >= list[j].last_opened
}

/// Index of the first entry of `list` whose path is `path`, or the length
/// of `list` if there is none.
pub open spec fn project_position(list: Seq<ProjectView>, path: Seq<char>) -> int
    decreases list.len(),
{
    if list.len() == 0 {
        0
    } else if list.first().path == path {
        0
    } else {
        1 + project_position(list.drop_first(), path)
    }
}

/// `list` without its first entry for `path`, if it has one.
pub open spec fn others(list: Seq<ProjectView>, path: Seq<char>) -> Seq<ProjectView> {
    let i = project_position(list, path);
    if i < list.len() {
        list.remove(i)
    } else {
        list
    }
}

/// The entry that a touch of the project `entry` leaves: the one already
/// listed under that path, with the time of `entry` and, if `rename` is
/// set, its name; or `entry` itself if the project was not listed.
pub open spec fn touched_entry(list: Seq<ProjectView>, entry: ProjectView, rename: bool)
    -> ProjectView {
    let i = project_position(list, entry.path);
    if i < list.len() {
        ProjectView {
            last_opened: entry.last_opened,
            name: if rename {
                entry.name
            } else {
                list[i].name
            },
            ..list[i]
        }
    } else {
        entry
    }
}

/// The number of entries at the start of `sorted` that are strictly newer
/// than `time`.
pub open spec fn lead_index(sorted: Seq<ProjectView>, time: u64) -> int
    decreases sorted.len(),
{
    if sorted.len() == 0 || sorted.first().last_opened <= time {
        0
    } else {
        1 + lead_index(sorted.drop_first(), time)
    }
}

/// `sorted` with `e` put in behind the entries that are strictly newer:
/// among the entries of its own time the one just touched comes first.
pub open spec fn placed(sorted: Seq<ProjectView>, e: ProjectView) -> Seq<ProjectView> {
    sorted.insert(lead_index(sorted, e.last_opened), e)
}

/// The first [`MAX_PROJECTS`] entries of `list`, except that the entry at
/// index `keep` is never the one that is cut: where it lies beyond the
/// bound it takes the last place.
pub open spec fn cut_keeping(list: Seq<ProjectView>, keep: int) -> Seq<ProjectView> {
    if list.len() <= MAX_PROJECTS {
        list
    } else if keep < MAX_PROJECTS {
        list.take(MAX_PROJECTS as int)
    } else {
        list.take(MAX_PROJECTS - 1).push(list[keep])
    }
}

/// `list` after the project `entry` was touched. The other entries are put
/// in order from newest to oldest, and the touched one, with its new time,
/// goes in front of every entry that is not newer than it. The list is then
/// cut to [`MAX_PROJECTS`] entries, of which the touched one is always one.
pub open spec fn registered(list: Seq<ProjectView>, entry: ProjectView, rename: bool) -> Seq<
    ProjectView,
> {
    let sorted = newest_first(others(list, entry.path));
    let touched = touched_entry(list, entry, rename);
    cut_keeping(placed(sorted, touched), lead_index(sorted, touched.last_opened))
}

/// Facts about [`project_position`]: it lies within the list, no entry
/// before it has the path, and the entry at it has.
pub proof fn lemma_project_position(list: Seq<ProjectView>, path: Seq<char>)
    ensures
        0 <= project_position(list, path) <= list.len(),
        forall|j: int| 0 <= j < project_position(list, path) ==> list[j].path != path,
        project_position(list, path) < list.len() ==> list[project_position(list, path)].path
            == path,
    decreases list.len(),
{
    if list.len() > 0 && list.first().path != path {
        lemma_project_position(list.drop_first(), path);
        assert forall|j: int| 0 <= j < project_position(list, path) implies list[j].path
            != path by {
            if j > 0 {
                assert(list.drop_first()[j - 1] == list[j]);
            }
        }
    }
}

/// Index of the first project of `list` whose path is `path`, if any.
pub fn find_project(list: &Vec<ProjectMetadata>, path: &String) -> (r: Option<usize>)
    ensures
        match r {
            Some(i) => i == project_position(list.deep_view(), path@) && i < list.len(),
            None => project_position(list.deep_view(), path@) == list.len(),
        },
{
    let ghost all = list.deep_view();
    let mut i: usize = 0;
    assert(all.subrange(0, all.len() as int) =~= all);
    while i < list.len()
        invariant
            i <= list.len(),
            all == list.deep_view(),
            project_position(all, path@) == i + project_position(
                all.subrange(i as int, all.len() as int),
                path@,
            ),
        decreases list.len() - i,
    {
        let ghost rest = all.subrange(i as int, all.len() as int);
        assert(rest.first() == list[i as int]@);
        if list[i].path == *path {
            return Some(i);
        }
        assert(rest.drop_first() =~= all.subrange(i + 1, all.len() as int));
        i = i + 1;
    }
    None
}

proof fn lemma_inserted_at(sorted: Seq<ProjectView>, e: ProjectView, k: int)
    requires
        0 <= k <= sorted.len(),
        forall|j: int| k <= j < sorted.len() ==> sorted[j].last_opened < e.last_opened,
        k > 0 ==> sorted[k - 1].last_opened >= e.last_opened,
    ensures
        inserted(sorted, e) == sorted.insert(k, e),
    decreases sorted.len(),
{
    if sorted.len() == 0 {
        assert(sorted.insert(k, e) =~= seq![e]);
    } else if k == sorted.len() {
        assert(sorted.insert(k, e) =~= sorted.push(e));
    } else {
        lemma_inserted_at(sorted.drop_last(), e, k);
        assert(sorted.drop_last().insert(k, e).push(sorted.last()) =~= sorted.insert(k, e));
    }
}

/// Puts `list` in order from newest to oldest; projects of the same age
/// keep their order.
pub fn sort_newest_first(list: &Vec<ProjectMetadata>) -> (r: Vec<ProjectMetadata>)
    ensures
        r.deep_view() == newest_first(list.deep_view()),
{
    let ghost all = list.deep_view();
    let mut sorted: Vec<ProjectMetadata> = Vec::new();
    let mut i: usize = 0;
    assert(sorted.deep_view() =~= newest_first(all.take(0)));
    while i < list.len()
        invariant
            i <= list.len(),
            all == list.deep_view(),
            sorted.len() == i,
            sorted.deep_view() == newest_first(all.take(i as int)),
        decreases list.len() - i,
    {
        let e = list[i].duplicate();
        let mut k: usize = sorted.len();
        while k > 0 && sorted[k - 1].last_opened < e.last_opened
            invariant
                k <= sorted.len(),
                forall|j: int|
                    k <= j < sorted.len() ==> sorted.deep_view()[j].last_opened < e.last_opened,
            decreases k,
        {
            k = k - 1;
        }
        proof {
            lemma_inserted_at(sorted.deep_view(), e@, k as int);
            assert(all.take(i + 1).drop_last() =~= all.take(i as int));
            assert(all.take(i + 1).last() == e@);
        }
        let ghost before = sorted.deep_view();
        sorted.insert(k, e);
        assert(sorted.deep_view() =~= before.insert(k as int, e@));
        i = i + 1;
    }
    assert(all.take(i as int) =~= all);
    sorted
}

/// Facts about [`lead_index`]: it lies within the list, every entry before
/// it is strictly newer than `time`, and the entry at it is not.
pub proof fn lemma_lead_index(sorted: Seq<ProjectView>, time: u64)
    ensures
        0 <= lead_index(sorted, time) <= sorted.len(),
        forall|j: int| 0 <= j < lead_index(sorted, time) ==> sorted[j].last_opened > time,
        lead_index(sorted, time) < sorted.len() ==> sorted[lead_index(sorted, time)].last_opened
            <= time,
    decreases sorted.len(),
{
    if !(sorted.len() == 0 || sorted.first().last_opened <= time) {
        lemma_lead_index(sorted.drop_first(), time);
        assert forall|j: int| 0 <= j < lead_index(sorted, time) implies sorted[j].last_opened
            > time by {
            if j > 0 {
                assert(sorted.drop_first()[j - 1] == sorted[j]);
            }
        }
    }
}

/// Notes in `list` that the project `entry` was touched: the others are put
/// in order from newest to oldest, the touched project goes in front of
/// those that are not newer, and the list is cut to [`MAX_PROJECTS`]
/// entries without ever cutting the touched one.
pub fn register(list: &mut Vec<ProjectMetadata>, entry: ProjectMetadata, rename: bool)
    ensures
        final(list).deep_view() == registered(old(list).deep_view(), entry@, rename),
{
    let ghost before = list.deep_view();
    let touched = match find_project(list, &entry.path) {
        Some(i) => {
            let mut current = list.remove(i);
            assert(list.deep_view() =~= before.remove(i as int));
            current.last_opened = entry.last_opened;
            if rename {
                current.name = entry.name;
            }
            current
        },
        None => entry,
    };
    assert(list.deep_view() == others(before, entry@.path));
    assert(touched@ == touched_entry(before, entry@, rename));
    let mut sorted = sort_newest_first(list);
    let ghost all = sorted.deep_view();
    let mut k: usize = 0;
    assert(all.subrange(0, all.len() as int) =~= all);
    while k < sorted.len() && sorted[k].last_opened > touched.last_opened
        invariant
            k <= sorted.len(),
            all == sorted.deep_view(),
            lead_index(all, touched.last_opened) == k + lead_index(
                all.subrange(k as int, all.len() as int),
                touched.last_opened,
            ),
        decreases sorted.len() - k,
    {
        let ghost rest = all.subrange(k as int, all.len() as int);
        assert(rest.first() == sorted[k as int]@);
        assert(rest.drop_first() =~= all.subrange(k + 1, all.len() as int));
        k = k + 1;
    }
    assert(lead_index(all, touched.last_opened) == k) by {
        let rest = all.subrange(k as int, all.len() as int);
        if k < sorted.len() {
            assert(rest.first() == sorted[k as int]@);
        }
    }
    let ghost full = placed(all, touched@);
    if sorted.len() >= MAX_PROJECTS && k >= MAX_PROJECTS {
        sorted.truncate(MAX_PROJECTS - 1);
        let ghost kept = sorted.deep_view();
        assert(kept =~= full.take(MAX_PROJECTS - 1));
        sorted.push(touched);
        assert(sorted.deep_view() =~= kept.push(full[k as int]));
    } else {
        sorted.insert(k, touched);
        assert(sorted.deep_view() =~= full);
        if sorted.len() > MAX_PROJECTS {
            sorted.truncate(MAX_PROJECTS);
            assert(sorted.deep_view() =~= full.take(MAX_PROJECTS as int));
        }
    }
    *list = sorted;
}

/// `list` without the projects whose path is `path`.
pub open spec fn without_path(list: Seq<ProjectView>, path: Seq<char>) -> Seq<ProjectView> {
    list.filter(|e: ProjectView| e.path != path)
}

/// Removes from `list` every project whose path is `path`.
pub fn forget(list: &mut Vec<ProjectMetadata>, path: &String)
    ensures
        final(list).deep_view() == without_path(old(list).deep_view(), path@),
{
    let ghost all = list.deep_view();
    let ghost keep = |e: ProjectView| e.path != path@;
    let mut kept: Vec<ProjectMetadata> = Vec::new();
    let mut i: usize = 0;
    assert(all.take(0).filter(keep) =~= Seq::<ProjectView>::empty()) by {
        reveal(Seq::filter);
    }
    while i < list.len()
        invariant
            i <= list.len(),
            all == list.deep_view(),
            keep == |e: ProjectView| e.path != path@,
            kept.deep_view() == all.take(i as int).filter(keep),
        decreases list.len() - i,
    {
        let ghost before = kept.deep_view();
        proof {
            assert(all.take(i + 1).drop_last() =~= all.take(i as int));
            assert(all.take(i + 1).last() == list[i as int]@);
            reveal(Seq::filter);
        }
        if list[i].path != *path {
            kept.push(list[i].duplicate());
            assert(kept.deep_view() =~= before.push(list[i as int]@));
        }
        i = i + 1;
    }
    assert(all.take(i as int) =~= all);
    *list = kept;
}

} // verus!
