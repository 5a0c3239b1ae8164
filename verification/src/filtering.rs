//! Filtering of projects by size and age, and their ordering.

use vstd::prelude::*;
use crate::config::filter::SortCriteria;
use crate::config::{FilterOptions, SortOptions};
use crate::project::project::{artifacts_size, saturated, Project, ProjectType, ProjectView};
use crate::project::projects::project_views;
use crate::sorting::{
    key_le, key_views, lemma_sorted_items_are_a_permutation, lemma_sorted_items_carry_keys,
    lemma_sorted_keys_are_sorted, lemma_sorted_len, reverse_in_place, sort_by_keys, sorted_items,
    sorted_keys, stable_sorted, KeyView, SortKey,
};
use crate::text::chars_of;
use crate::utils::size::{parse_size, size_of_text, SizeError};

verus! {
/// A point in time: whole seconds since 1970-01-01 00:00:00 UTC, and the
/// nanoseconds into the second.
#[derive(Clone, Copy, PartialEq, Eq, Debug, Structural)]
pub struct Timestamp {
    pub secs: i64,
    pub nanos: u32,
}

impl Timestamp {
    /// The point in time as nanoseconds since the epoch.
    pub open spec fn instant(self) -> int {
        self.secs * 1_000_000_000 + self.nanos
    }

    /// The point in time as nanoseconds since the epoch.
    pub fn as_nanos(&self) -> (r: i128)
        ensures
            r == self.instant(),
    {
        (self.secs as i128) * 1_000_000_000 + (self.nanos as i128)
    }
}

/// The number of nanoseconds in a day.
pub open spec fn nanos_per_day() -> int {
    86_400_000_000_000
}

/// Reads the system clock and turns the instant into a
/// `chrono::DateTime<Utc>` with chrono's conversion from `SystemTime`,
/// which also takes a clock that stands before 1970 and looks up no time
/// zone; the result is the instant as seconds and nanoseconds since the
/// epoch. The conversion gives up only on an instant outside the years
/// that chrono can hold, some 262,000 to either side of the epoch.
/// Nothing is claimed of the instant: it is whatever the clock says.
#[verifier::external_body]
pub(crate) fn current_time() -> (r: Timestamp) {
    let now = chrono::DateTime::<chrono::Utc>::from(std::time::SystemTime::now());
    Timestamp { secs: now.timestamp(), nanos: now.timestamp_subsec_nanos() }
}

/// The lower-case form of a text, as Unicode defines it.
pub uninterp spec fn lowercase_text(s: Seq<char>) -> Seq<char>;

/// `str::to_lowercase` returns the lower-case equivalent of the text as a
/// new string; the result depends on the text alone.
pub assume_specification[ str::to_lowercase ](s: &str) -> (r: String)
    ensures
        r@ == lowercase_text(s@),
;

/// The modification time recorded for the project at position `i`; none
/// where it could not be read or was not given.
pub open spec fn mtime_at(mtimes: Seq<Option<Timestamp>>, i: int) -> Option<Timestamp> {
    if 0 <= i < mtimes.len() {
        mtimes[i]
    } else {
        None
    }
}

/// Whether something modified at `modified` is at least `days` days old
/// at the time `now`.
pub open spec fn old_enough(modified: Timestamp, now: Timestamp, days: u32) -> bool {
    modified.instant() <= now.instant() - days * nanos_per_day()
}

/// Whether a project is large enough: its artifacts hold at least
/// `min_size` bytes.
pub open spec fn large_enough(p: ProjectView, min_size: u64) -> bool {
    artifacts_size(p.artifacts) >= min_size
}

/// Whether a project is old enough: no age is asked for, or its
/// modification time could not be read, or that time lies at least
/// `days` days before `now`.
pub open spec fn aged_enough(modified: Option<Timestamp>, days: u32, now: Timestamp) -> bool {
    days == 0 || match modified {
        Some(m) => old_enough(m, now, days),
        None => true,
    }
}

/// Whether a project passes the filter.
pub open spec fn passes(
    p: ProjectView,
    modified: Option<Timestamp>,
    min_size: u64,
    days: u32,
    now: Timestamp,
) -> bool {
    large_enough(p, min_size) && aged_enough(modified, days, now)
}

/// The first `n` projects that pass the filter, in their order.
pub open spec fn kept_of(
    ps: Seq<ProjectView>,
    mtimes: Seq<Option<Timestamp>>,
    min_size: u64,
    days: u32,
    now: Timestamp,
    n: int,
) -> Seq<ProjectView>
    decreases n,
{
    if n <= 0 {
        Seq::empty()
    } else {
        let before = kept_of(ps, mtimes, min_size, days, now, n - 1);
        if passes(ps[n - 1], mtime_at(mtimes, n - 1), min_size, days, now) {
            before.push(ps[n - 1])
        } else {
            before
        }
    }
}

/// The projects that pass the filter, in their order.
pub open spec fn kept(
    ps: Seq<ProjectView>,
    mtimes: Seq<Option<Timestamp>>,
    min_size: u64,
    days: u32,
    now: Timestamp,
) -> Seq<ProjectView> {
    kept_of(ps, mtimes, min_size, days, now, ps.len() as int)
}

/// Check if a project meets the size criteria.
pub fn meets_size_criteria(project: &Project, min_size: u64) -> (r: bool)
    ensures
        r == large_enough(project@, min_size),
{
    project.total_size() >= min_size
}

/// Check if a project is old enough based on its modification time.
pub fn is_project_old_enough(modified: Option<Timestamp>, keep_days: u32, now: Timestamp) -> (r:
    bool)
    ensures
        r == match modified {
            Some(m) => old_enough(m, now, keep_days),
            None => true,
        },
{
    match modified {
        Some(m) => {
            let cutoff: i128 = now.as_nanos() - (keep_days as i128) * 86_400_000_000_000;
            m.as_nanos() <= cutoff
        },
        None => true,
    }
}

/// Check if a project meets the time criteria.
pub fn meets_time_criteria(modified: Option<Timestamp>, keep_days: u32, now: Timestamp) -> (r:
    bool)
    ensures
        r == aged_enough(modified, keep_days, now),
{
    if keep_days == 0 {
        return true;
    }
    is_project_old_enough(modified, keep_days, now)
}

/// Filter projects based on size and modification time criteria, as of
/// the time `now`.
///
/// `mtimes` holds, for each project in order, the modification time of its
/// first artifact directory, or `None` where it could not be read. A
/// project is kept when its artifacts hold at least the size that
/// `keep_size` denotes and it is old enough. The result is an error
/// exactly when `keep_size` is not a size.
pub fn filter_projects_at(
    projects: Vec<Project>,
    filter_opts: &FilterOptions,
    mtimes: &Vec<Option<Timestamp>>,
    now: Timestamp,
) -> (r: Result<Vec<Project>, SizeError>)
    ensures
        match r {
            Ok(v) => size_of_text(filter_opts.keep_size@) matches Ok(min) && project_views(v@)
                == kept(project_views(projects@), mtimes@, min, filter_opts.keep_days, now),
            Err(e) => size_of_text(filter_opts.keep_size@) == Err::<u64, SizeError>(e),
        },
{
    let min_size = match parse_size(filter_opts.keep_size.as_str()) {
        Ok(n) => n,
        Err(e) => {
            return Err(e);
        },
    };
    let days = filter_opts.keep_days;
    let ghost initial = projects@;
    let ghost ps = project_views(projects@);
    let n: usize = projects.len();
    let mut rest = projects;
    reverse_in_place(&mut rest);
    let mut out: Vec<Project> = Vec::new();
    let mut i: usize = 0;
    while i < n
        invariant
            i <= n,
            n == initial.len(),
            ps == project_views(initial),
            rest.len() == n - i,
            forall|k: int| 0 <= k < rest.len() ==> rest@[k] == initial[n - 1 - k],
            project_views(out@) == kept_of(ps, mtimes@, min_size, days, now, i as int),
        decreases n - i,
    {
        let modified = if i < mtimes.len() {
            mtimes[i]
        } else {
            None
        };
        let ghost before = project_views(out@);
        match rest.pop() {
            Some(project) => {
                if meets_size_criteria(&project, min_size) && meets_time_criteria(
                    modified,
                    days,
                    now,
                ) {
                    out.push(project);
                }
            },
            None => {},
        }
        i += 1;
    }
    Ok(out)
}

/// Filter projects based on size and modification time criteria, as of
/// the current time. The clock is read only where a minimum age is asked
/// for; without one the result does not depend on the time.
pub fn filter_projects(
    projects: Vec<Project>,
    filter_opts: &FilterOptions,
    mtimes: &Vec<Option<Timestamp>>,
) -> (r: Result<Vec<Project>, SizeError>)
    ensures
        match r {
            Ok(v) => size_of_text(filter_opts.keep_size@) matches Ok(min) && exists|now: Timestamp|
                project_views(v@) == kept(
                    project_views(projects@),
                    mtimes@,
                    min,
                    filter_opts.keep_days,
                    now,
                ),
            Err(e) => size_of_text(filter_opts.keep_size@) == Err::<u64, SizeError>(e),
        },
        filter_opts.keep_days == 0 ==> (r matches Ok(v) ==> size_of_text(
            filter_opts.keep_size@,
        ) matches Ok(min) && project_views(v@) == kept(
            project_views(projects@),
            mtimes@,
            min,
            0,
            Timestamp { secs: 0, nanos: 0 },
        )),
{
    if filter_opts.keep_days == 0 {
        return filter_projects_at(projects, filter_opts, mtimes, Timestamp { secs: 0, nanos: 0 });
    }
    let now = current_time();
    filter_projects_at(projects, filter_opts, mtimes, now)
}

/// The position of a project type in the alphabetical order of the type
/// names.
pub open spec fn type_rank(kind: ProjectType) -> int {
    match kind {
        ProjectType::Cpp => 0,
        ProjectType::Dart => 1,
        ProjectType::Deno => 2,
        ProjectType::DotNet => 3,
        ProjectType::Elixir => 4,
        ProjectType::Go => 5,
        ProjectType::Haskell => 6,
        ProjectType::Java => 7,
        ProjectType::Node => 8,
        ProjectType::Php => 9,
        ProjectType::Python => 10,
        ProjectType::Ruby => 11,
        ProjectType::Rust => 12,
        ProjectType::Scala => 13,
        ProjectType::Swift => 14,
        ProjectType::Zig => 15,
    }
}

/// Map a `ProjectType` to an ordering index for type-based sorting.
pub fn type_order(kind: &ProjectType) -> (r: u8)
    ensures
        r == type_rank(*kind),
{
    match kind {
        ProjectType::Cpp => 0,
        ProjectType::Dart => 1,
        ProjectType::Deno => 2,
        ProjectType::DotNet => 3,
        ProjectType::Elixir => 4,
        ProjectType::Go => 5,
        ProjectType::Haskell => 6,
        ProjectType::Java => 7,
        ProjectType::Node => 8,
        ProjectType::Php => 9,
        ProjectType::Python => 10,
        ProjectType::Ruby => 11,
        ProjectType::Rust => 12,
        ProjectType::Scala => 13,
        ProjectType::Swift => 14,
        ProjectType::Zig => 15,
    }
}

/// The size that a project is ordered by: the total of its artifacts, held
/// at the 64-bit maximum.
pub open spec fn reported_size(p: ProjectView) -> u64 {
    saturated(artifacts_size(p.artifacts))
}

/// The time that a project is ordered by: its recorded modification time,
/// or the epoch where none is known.
pub open spec fn sort_instant(modified: Option<Timestamp>) -> int {
    match modified {
        Some(m) => m.instant(),
        None => 0,
    }
}

/// The text that a project is ordered by under the name criterion: its
/// name in lower case, or the empty text for a project without a name.
pub open spec fn sort_name(p: ProjectView) -> Seq<char> {
    match p.name {
        Some(n) => lowercase_text(n),
        None => lowercase_text(Seq::empty()),
    }
}

/// The key by which a criterion orders a project: larger sizes first,
/// older times first, names and types in ascending order.
pub open spec fn key_for(criteria: SortCriteria, p: ProjectView, modified: Option<Timestamp>) -> KeyView {
    match criteria {
        SortCriteria::Size => KeyView { rank: -(reported_size(p) as int), text: Seq::empty() },
        SortCriteria::Age => KeyView { rank: sort_instant(modified), text: Seq::empty() },
        SortCriteria::Name => KeyView { rank: 0, text: sort_name(p) },
        SortCriteria::Type => KeyView { rank: type_rank(p.kind), text: Seq::empty() },
    }
}

/// The keys of all projects under a criterion.
pub open spec fn keys_for(
    criteria: SortCriteria,
    ps: Seq<ProjectView>,
    mtimes: Seq<Option<Timestamp>>,
) -> Seq<KeyView> {
    Seq::new(ps.len(), |i: int| key_for(criteria, ps[i], mtime_at(mtimes, i)))
}

/// The projects in the order that the options ask for: unchanged without a
/// criterion; otherwise in the stable order of their keys, reversed when
/// the options say so.
pub open spec fn ordered(
    ps: Seq<ProjectView>,
    mtimes: Seq<Option<Timestamp>>,
    opts: SortOptions,
) -> Seq<ProjectView> {
    match opts.criteria {
        None => ps,
        Some(c) => {
            let sorted = stable_sorted(ps, keys_for(c, ps, mtimes));
            if opts.reverse {
                sorted.reverse()
            } else {
                sorted
            }
        },
    }
}

/// The key by which a criterion orders a project.
fn make_key(criteria: SortCriteria, project: &Project, modified: Option<Timestamp>) -> (r: SortKey)
    ensures
        r@ == key_for(criteria, project@, modified),
{
    match criteria {
        SortCriteria::Size => SortKey { rank: -(project.total_size() as i128), text: Vec::new() },
        SortCriteria::Age => {
            let rank: i128 = match modified {
                Some(m) => m.as_nanos(),
                None => 0,
            };
            SortKey { rank, text: Vec::new() }
        },
        SortCriteria::Name => {
            let lowered = match &project.name {
                Some(n) => n.as_str().to_lowercase(),
                None => "".to_lowercase(),
            };
            proof {
                reveal_strlit("");
                assert(""@ =~= Seq::<char>::empty());
            }
            SortKey { rank: 0, text: chars_of(lowered.as_str()) }
        },
        SortCriteria::Type => SortKey { rank: type_order(&project.kind) as i128, text: Vec::new() },
    }
}

/// Sort projects in place according to the given sorting options.
///
/// `mtimes` holds, for each project in order, the modification time of its
/// first artifact directory; it is read under the age criterion only, and a
/// project without an entry counts as modified at the epoch.
pub fn sort_projects(
    projects: &mut Vec<Project>,
    sort_opts: &SortOptions,
    mtimes: &Vec<Option<Timestamp>>,
)
    ensures
        project_views(final(projects)@) == ordered(
            project_views(old(projects)@),
            mtimes@,
            *sort_opts,
        ),
{
    let criteria = match sort_opts.criteria {
        Some(c) => c,
        None => {
            return ;
        },
    };
    let ghost ps = project_views(projects@);
    let mut keys: Vec<SortKey> = Vec::new();
    let mut i: usize = 0;
    while i < projects.len()
        invariant
            i <= projects.len(),
            ps == project_views(projects@),
            keys.len() == i,
            forall|k: int|
                0 <= k < i ==> (#[trigger] keys@[k])@ == key_for(
                    criteria,
                    ps[k],
                    mtime_at(mtimes@, k),
                ),
        decreases projects.len() - i,
    {
        let modified = if i < mtimes.len() {
            mtimes[i]
        } else {
            None
        };
        let key = make_key(criteria, &projects[i], modified);
        keys.push(key);
        i += 1;
    }
    assert(key_views(keys@) =~= keys_for(criteria, ps, mtimes@));
    let ghost initial = projects@;
    sort_by_keys(projects, &mut keys);
    proof {
        lemma_sorted_views(initial, keys_for(criteria, ps, mtimes@), initial.len() as int);
    }
    if sort_opts.reverse {
        reverse_in_place(projects);
    }
}

/// Sorting commutes with taking views: the views of the sorted projects
/// are the sorted views.
pub proof fn lemma_sorted_views(items: Seq<Project>, keys: Seq<KeyView>, n: int)
    requires
        0 <= n <= items.len(),
        items.len() == keys.len(),
    ensures
        project_views(crate::sorting::sorted_items(items, keys, n)) == crate::sorting::sorted_items(
            project_views(items),
            keys,
            n,
        ),
    decreases n,
{
    if n > 0 {
        lemma_sorted_views(items, keys, n - 1);
        crate::sorting::lemma_sorted_len(items, keys, n - 1);
        crate::sorting::lemma_insert_position_bounds(sorted_keys(keys, n - 1), keys[n - 1]);
    }
}

/// Sort projects by build artifacts modification time (oldest first).
pub fn sort_by_age(projects: &mut Vec<Project>, mtimes: &Vec<Option<Timestamp>>)
    ensures
        project_views(final(projects)@) == stable_sorted(
            project_views(old(projects)@),
            keys_for(SortCriteria::Age, project_views(old(projects)@), mtimes@),
        ),
{
    let opts = SortOptions { criteria: Some(SortCriteria::Age), reverse: false };
    sort_projects(projects, &opts, mtimes);
}

/// No more projects pass `n` checks than were checked.
pub proof fn lemma_kept_len(
    ps: Seq<ProjectView>,
    mtimes: Seq<Option<Timestamp>>,
    min_size: u64,
    days: u32,
    now: Timestamp,
    n: int,
)
    requires
        0 <= n <= ps.len(),
    ensures
        kept_of(ps, mtimes, min_size, days, now, n).len() <= n,
    decreases n,
{
    if n > 0 {
        lemma_kept_len(ps, mtimes, min_size, days, now, n - 1);
    }
}

/// Raising the minimum size never lets more projects pass.
pub proof fn lemma_filter_is_monotone_in_size(
    ps: Seq<ProjectView>,
    mtimes: Seq<Option<Timestamp>>,
    low: u64,
    high: u64,
    days: u32,
    now: Timestamp,
)
    requires
        low <= high,
    ensures
        kept(ps, mtimes, high, days, now).len() <= kept(ps, mtimes, low, days, now).len(),
{
    lemma_kept_monotone_prefix(ps, mtimes, low, high, days, now, ps.len() as int);
}

/// Raising the minimum size never lets more of the first `n` projects pass.
pub proof fn lemma_kept_monotone_prefix(
    ps: Seq<ProjectView>,
    mtimes: Seq<Option<Timestamp>>,
    low: u64,
    high: u64,
    days: u32,
    now: Timestamp,
    n: int,
)
    requires
        low <= high,
        0 <= n <= ps.len(),
    ensures
        kept_of(ps, mtimes, high, days, now, n).len() <= kept_of(
            ps,
            mtimes,
            low,
            days,
            now,
            n,
        ).len(),
    decreases n,
{
    if n > 0 {
        lemma_kept_monotone_prefix(ps, mtimes, low, high, days, now, n - 1);
    }
}

/// Without a minimum age the filter looks at sizes alone: neither the
/// modification times nor the clock change what passes.
pub proof fn lemma_no_minimum_age_ignores_time(
    ps: Seq<ProjectView>,
    mtimes_a: Seq<Option<Timestamp>>,
    now_a: Timestamp,
    mtimes_b: Seq<Option<Timestamp>>,
    now_b: Timestamp,
    min_size: u64,
)
    ensures
        kept(ps, mtimes_a, min_size, 0, now_a) == kept(ps, mtimes_b, min_size, 0, now_b),
        kept(ps, mtimes_a, min_size, 0, now_a) == ps.filter(
            |p: ProjectView| large_enough(p, min_size),
        ),
{
    lemma_kept_without_age(ps, mtimes_a, now_a, min_size, ps.len() as int);
    lemma_kept_without_age(ps, mtimes_b, now_b, min_size, ps.len() as int);
    assert(ps.take(ps.len() as int) =~= ps);
}

/// Without a minimum age, what passes of the first `n` projects is what
/// the size test lets pass.
pub proof fn lemma_kept_without_age(
    ps: Seq<ProjectView>,
    mtimes: Seq<Option<Timestamp>>,
    now: Timestamp,
    min_size: u64,
    n: int,
)
    requires
        0 <= n <= ps.len(),
    ensures
        kept_of(ps, mtimes, min_size, 0, now, n) == ps.take(n).filter(
            |p: ProjectView| large_enough(p, min_size),
        ),
    decreases n,
{
    let pred = |p: ProjectView| large_enough(p, min_size);
    if n > 0 {
        lemma_kept_without_age(ps, mtimes, now, min_size, n - 1);
        assert(ps.take(n) =~= ps.take(n - 1).push(ps[n - 1]));
        ps.take(n - 1).lemma_filter_push(ps[n - 1], pred);
    } else {
        assert(Seq::<ProjectView>::empty().filter(pred) =~= Seq::<ProjectView>::empty()) by {
            reveal(Seq::filter);
        }
    }
}

/// With neither a minimum size nor a minimum age every project passes.
pub proof fn lemma_filter_without_limits_keeps_all(
    ps: Seq<ProjectView>,
    mtimes: Seq<Option<Timestamp>>,
    now: Timestamp,
)
    ensures
        kept(ps, mtimes, 0, 0, now) == ps,
{
    lemma_kept_all(ps, mtimes, now, ps.len() as int);
}

/// With neither a minimum size nor a minimum age the first `n` projects
/// all pass.
pub proof fn lemma_kept_all(
    ps: Seq<ProjectView>,
    mtimes: Seq<Option<Timestamp>>,
    now: Timestamp,
    n: int,
)
    requires
        0 <= n <= ps.len(),
    ensures
        kept_of(ps, mtimes, 0, 0, now, n) == ps.take(n),
    decreases n,
{
    if n > 0 {
        lemma_kept_all(ps, mtimes, now, n - 1);
    }
}

/// The options that sort by a criterion without reversal.
pub open spec fn sort_by(criteria: SortCriteria) -> SortOptions {
    SortOptions { criteria: Some(criteria), reverse: false }
}

/// The options that sort by a criterion and reverse the result.
pub open spec fn sort_reversed_by(criteria: SortCriteria) -> SortOptions {
    SortOptions { criteria: Some(criteria), reverse: true }
}

/// Ordering keeps the number of projects.
pub proof fn lemma_ordered_len(
    ps: Seq<ProjectView>,
    mtimes: Seq<Option<Timestamp>>,
    opts: SortOptions,
)
    ensures
        ordered(ps, mtimes, opts).len() == ps.len(),
{
    match opts.criteria {
        Some(c) => {
            lemma_sorted_len(ps, keys_for(c, ps, mtimes), ps.len() as int);
        },
        None => {},
    }
}

/// Ordering rearranges: the result holds the same projects, each as often
/// as before.
pub proof fn lemma_ordered_is_a_permutation(
    ps: Seq<ProjectView>,
    mtimes: Seq<Option<Timestamp>>,
    opts: SortOptions,
)
    ensures
        ordered(ps, mtimes, opts).to_multiset() == ps.to_multiset(),
{
    match opts.criteria {
        Some(c) => {
            let keys = keys_for(c, ps, mtimes);
            lemma_sorted_items_are_a_permutation(ps, keys, ps.len() as int);
            assert(ps.take(ps.len() as int) =~= ps);
            if opts.reverse {
                stable_sorted(ps, keys).lemma_reverse_to_multiset();
            }
        },
        None => {},
    }
}

/// Sorting by size yields non-increasing sizes.
pub proof fn lemma_sort_by_size_is_descending(
    ps: Seq<ProjectView>,
    mtimes: Seq<Option<Timestamp>>,
    i: int,
    j: int,
)
    requires
        0 <= i < j < ps.len(),
    ensures
        ordered(ps, mtimes, sort_by(SortCriteria::Size)).len() == ps.len(),
        reported_size(ordered(ps, mtimes, sort_by(SortCriteria::Size))[i]) >= reported_size(
            ordered(ps, mtimes, sort_by(SortCriteria::Size))[j],
        ),
{
    let keys = keys_for(SortCriteria::Size, ps, mtimes);
    let key_of = |p: ProjectView| key_for(SortCriteria::Size, p, None);
    let n = ps.len() as int;
    lemma_sorted_items_carry_keys(ps, keys, key_of, n);
    lemma_sorted_keys_are_sorted(keys, n);
    assert(key_le(sorted_keys(keys, n)[i], sorted_keys(keys, n)[j]));
}

/// Sorting by name yields the lexicographic order of the names in lower
/// case, a missing name counting as the empty text.
pub proof fn lemma_sort_by_name_is_ascending(
    ps: Seq<ProjectView>,
    mtimes: Seq<Option<Timestamp>>,
    i: int,
    j: int,
)
    requires
        0 <= i < j < ps.len(),
    ensures
        ordered(ps, mtimes, sort_by(SortCriteria::Name)).len() == ps.len(),
        crate::text::lex_le(
            sort_name(ordered(ps, mtimes, sort_by(SortCriteria::Name))[i]),
            sort_name(ordered(ps, mtimes, sort_by(SortCriteria::Name))[j]),
        ),
{
    let keys = keys_for(SortCriteria::Name, ps, mtimes);
    let key_of = |p: ProjectView| key_for(SortCriteria::Name, p, None);
    let n = ps.len() as int;
    lemma_sorted_items_carry_keys(ps, keys, key_of, n);
    lemma_sorted_keys_are_sorted(keys, n);
    assert(key_le(sorted_keys(keys, n)[i], sorted_keys(keys, n)[j]));
}

/// Sorting by type yields the alphabetical order of the type names.
pub proof fn lemma_sort_by_type_is_ascending(
    ps: Seq<ProjectView>,
    mtimes: Seq<Option<Timestamp>>,
    i: int,
    j: int,
)
    requires
        0 <= i < j < ps.len(),
    ensures
        ordered(ps, mtimes, sort_by(SortCriteria::Type)).len() == ps.len(),
        type_rank(ordered(ps, mtimes, sort_by(SortCriteria::Type))[i].kind) <= type_rank(
            ordered(ps, mtimes, sort_by(SortCriteria::Type))[j].kind,
        ),
{
    let keys = keys_for(SortCriteria::Type, ps, mtimes);
    let key_of = |p: ProjectView| key_for(SortCriteria::Type, p, None);
    let n = ps.len() as int;
    lemma_sorted_items_carry_keys(ps, keys, key_of, n);
    lemma_sorted_keys_are_sorted(keys, n);
    assert(key_le(sorted_keys(keys, n)[i], sorted_keys(keys, n)[j]));
}

/// Each project beside the modification time recorded for it.
pub open spec fn dated(ps: Seq<ProjectView>, mtimes: Seq<Option<Timestamp>>) -> Seq<
    (ProjectView, Option<Timestamp>),
> {
    Seq::new(ps.len(), |k: int| (ps[k], mtime_at(mtimes, k)))
}

/// Sorting moves each project together with its modification time: the
/// sorted pairs are the sorted projects beside the times sorted along.
pub proof fn lemma_sort_keeps_times_with_projects(
    ps: Seq<ProjectView>,
    mtimes: Seq<Option<Timestamp>>,
    keys: Seq<KeyView>,
    n: int,
)
    requires
        0 <= n <= ps.len(),
        keys.len() == ps.len(),
    ensures
        sorted_items(dated(ps, mtimes), keys, n).len() == n,
        sorted_items(ps, keys, n).len() == n,
        forall|i: int|
            0 <= i < n ==> (#[trigger] sorted_items(dated(ps, mtimes), keys, n)[i]).0
                == sorted_items(ps, keys, n)[i],
    decreases n,
{
    lemma_sorted_len(ps, keys, n);
    lemma_sorted_len(dated(ps, mtimes), keys, n);
    if n > 0 {
        lemma_sort_keeps_times_with_projects(ps, mtimes, keys, n - 1);
        crate::sorting::lemma_insert_position_bounds(sorted_keys(keys, n - 1), keys[n - 1]);
    }
}

/// Sorting by age yields non-decreasing modification times, a time that
/// could not be read counting as the epoch: in the sorted order of the
/// projects with their times, each project is the one at that place of
/// the result, and no time is later than the one behind it.
pub proof fn lemma_sort_by_age_is_ascending(
    ps: Seq<ProjectView>,
    mtimes: Seq<Option<Timestamp>>,
    i: int,
    j: int,
)
    requires
        0 <= i < j < ps.len(),
    ensures
        ({
            let keys = keys_for(SortCriteria::Age, ps, mtimes);
            let pairs = stable_sorted(dated(ps, mtimes), keys);
            let result = ordered(ps, mtimes, sort_by(SortCriteria::Age));
            &&& pairs.len() == ps.len()
            &&& result.len() == ps.len()
            &&& pairs[i].0 == result[i]
            &&& pairs[j].0 == result[j]
            &&& sort_instant(pairs[i].1) <= sort_instant(pairs[j].1)
        }),
{
    let keys = keys_for(SortCriteria::Age, ps, mtimes);
    let key_of = |d: (ProjectView, Option<Timestamp>)| key_for(SortCriteria::Age, d.0, d.1);
    let n = ps.len() as int;
    lemma_sort_keeps_times_with_projects(ps, mtimes, keys, n);
    lemma_sorted_items_carry_keys(dated(ps, mtimes), keys, key_of, n);
    lemma_sorted_keys_are_sorted(keys, n);
    assert(key_le(sorted_keys(keys, n)[i], sorted_keys(keys, n)[j]));
}

/// Reversal flips the sorted order, and reversing the reversed order
/// restores it.
pub proof fn lemma_reverse_flips_and_twice_restores(
    ps: Seq<ProjectView>,
    mtimes: Seq<Option<Timestamp>>,
    criteria: SortCriteria,
)
    ensures
        ordered(ps, mtimes, sort_reversed_by(criteria)) == ordered(
            ps,
            mtimes,
            sort_by(criteria),
        ).reverse(),
        ordered(ps, mtimes, sort_reversed_by(criteria)).reverse() == ordered(
            ps,
            mtimes,
            sort_by(criteria),
        ),
{
    crate::sorting::lemma_reverse_twice(ordered(ps, mtimes, sort_by(criteria)));
}

/// What the filter keeps is what passes it, in the order in which it
/// stood: the projects, each beside its modification time, filtered by
/// the test.
pub proof fn lemma_kept_is_what_passes(
    ps: Seq<ProjectView>,
    mtimes: Seq<Option<Timestamp>>,
    min_size: u64,
    days: u32,
    now: Timestamp,
)
    ensures
        kept(ps, mtimes, min_size, days, now) == dated(ps, mtimes).filter(
            |d: (ProjectView, Option<Timestamp>)| passes(d.0, d.1, min_size, days, now),
        ).map_values(|d: (ProjectView, Option<Timestamp>)| d.0),
{
    lemma_kept_prefix_is_what_passes(ps, mtimes, min_size, days, now, ps.len() as int);
    assert(dated(ps, mtimes).take(ps.len() as int) =~= dated(ps, mtimes));
}

/// What the filter keeps of the first `n` projects is what passes it.
pub proof fn lemma_kept_prefix_is_what_passes(
    ps: Seq<ProjectView>,
    mtimes: Seq<Option<Timestamp>>,
    min_size: u64,
    days: u32,
    now: Timestamp,
    n: int,
)
    requires
        0 <= n <= ps.len(),
    ensures
        kept_of(ps, mtimes, min_size, days, now, n) == dated(ps, mtimes).take(n).filter(
            |d: (ProjectView, Option<Timestamp>)| passes(d.0, d.1, min_size, days, now),
        ).map_values(|d: (ProjectView, Option<Timestamp>)| d.0),
    decreases n,
{
    let all = dated(ps, mtimes);
    let test = |d: (ProjectView, Option<Timestamp>)| passes(d.0, d.1, min_size, days, now);
    if n > 0 {
        lemma_kept_prefix_is_what_passes(ps, mtimes, min_size, days, now, n - 1);
        assert(all.take(n) =~= all.take(n - 1).push(all[n - 1]));
        all.take(n - 1).lemma_filter_push(all[n - 1], test);
    } else {
        assert(Seq::<(ProjectView, Option<Timestamp>)>::empty().filter(test) =~= Seq::<
            (ProjectView, Option<Timestamp>),
        >::empty()) by {
            reveal(Seq::filter);
        }
    }
}

} // verus!
