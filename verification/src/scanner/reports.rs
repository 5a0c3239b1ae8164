//! What holds of the projects that a scan of a well-formed snapshot
//! reports: each has a root of its own.

use vstd::prelude::*;
use crate::config::ProjectFilter;
use crate::path::{is_entry_name, joined};
use crate::project::project::ProjectView;
use crate::scanner::rules::survives;
use crate::scanner::walk::{
    enter, lemma_classified_project_is_rooted_here, report_for, walk, walk_entries,
};
use crate::snapshot::{entries_well_formed, lemma_entries_well_formed, well_formed, FsNode};

verus! {

/// Whether the path `p` is the path `q` or lies below it: `q` followed by
/// a separator begins it.
pub open spec fn at_or_below(p: Seq<char>, q: Seq<char>) -> bool {
    p == q || (q.is_prefix_of(p) && p.len() > q.len() && p[q.len() as int] == '/')
}

/// Whether a path is that of an entry below the root of a scan: it is not
/// empty and does not end with a separator.
pub open spec fn is_inner_path(q: Seq<char>) -> bool {
    q.len() > 0 && q.last() != '/'
}

/// What the paths of all entries of the directory at `parent` begin with.
pub open spec fn child_base(parent: Seq<char>) -> Seq<char> {
    if parent.len() == 0 {
        parent
    } else if parent.last() == '/' {
        parent
    } else {
        parent + seq!['/']
    }
}

/// The path of an entry is the base of its directory followed by its
/// name; it is longer than the directory's path and is an inner path.
pub proof fn lemma_child_path(parent: Seq<char>, name: Seq<char>)
    requires
        is_entry_name(name),
    ensures
        joined(parent, name) == child_base(parent) + name,
        joined(parent, name).len() > parent.len(),
        is_inner_path(joined(parent, name)),
        is_inner_path(parent) ==> joined(parent, name) == parent + seq!['/'] + name,
{
    assert(name[0] != '/') by {
        assert(name.contains(name[0]));
    }
    assert(name.last() != '/') by {
        assert(name.contains(name.last()));
    }
    assert(joined(parent, name) =~= child_base(parent) + name);
    assert((child_base(parent) + name).last() == name.last());
}

/// Paths at or below different entries of one directory differ.
pub proof fn lemma_paths_below_different_entries_differ(
    parent: Seq<char>,
    first: Seq<char>,
    second: Seq<char>,
    p: Seq<char>,
    q: Seq<char>,
)
    requires
        is_entry_name(first),
        is_entry_name(second),
        first != second,
        at_or_below(p, joined(parent, first)),
        at_or_below(q, joined(parent, second)),
    ensures
        p != q,
{
    lemma_child_path(parent, first);
    lemma_child_path(parent, second);
    let base = child_base(parent);
    let a = base + first;
    let b = base + second;
    if p == q {
        assert(a.len() <= p.len() && b.len() <= p.len());
        assert forall|k: int| 0 <= k < a.len() implies a[k] == p[k] by {
            if p != a {
                assert(a =~= p.subrange(0, a.len() as int));
            }
        }
        assert forall|k: int| 0 <= k < b.len() implies b[k] == p[k] by {
            if p != b {
                assert(b =~= p.subrange(0, b.len() as int));
            }
        }
        if a.len() == b.len() {
            assert(a =~= b);
            assert(a.skip(base.len() as int) =~= first);
            assert(b.skip(base.len() as int) =~= second);
        } else if a.len() < b.len() {
            assert(p[a.len() as int] == '/');
            assert(b[a.len() as int] == second[a.len() - base.len()]);
            assert(second.contains(second[a.len() - base.len()]));
        } else {
            assert(p[b.len() as int] == '/');
            assert(a[b.len() as int] == first[b.len() - base.len()]);
            assert(first.contains(first[b.len() - base.len()]));
        }
    }
}

/// Every project reported in the walk through an entry is rooted at the
/// entry's path or below it.
pub proof fn lemma_walk_roots_lie_below(
    skip: Seq<Seq<char>>,
    filter: ProjectFilter,
    path: Seq<char>,
    node: FsNode,
    inside_workspace: bool,
    depth: Option<usize>,
    i: int,
)
    requires
        is_inner_path(path),
        well_formed(node),
        0 <= i < walk(skip, filter, path, node, inside_workspace, depth).len(),
    ensures
        at_or_below(walk(skip, filter, path, node, inside_workspace, depth)[i].root_path, path),
    decreases node, 1nat,
{
    let here = report_for(skip, filter, path, node, inside_workspace);
    lemma_classified_project_is_rooted_here(filter, path, node, inside_workspace);
    if i >= here.len() {
        lemma_entry_roots_lie_below(
            skip,
            filter,
            path,
            node.children@,
            inside_workspace || crate::scanner::detect::is_workspace_root(node),
            crate::scanner::walk::depth_below(depth),
            i - here.len(),
        );
    }
}

/// Every project reported in the entries of the directory at an inner
/// path is rooted below that path.
pub proof fn lemma_entry_roots_lie_below(
    skip: Seq<Seq<char>>,
    filter: ProjectFilter,
    parent: Seq<char>,
    entries: Seq<FsNode>,
    inside_workspace: bool,
    depth: Option<usize>,
    i: int,
)
    requires
        is_inner_path(parent),
        entries_well_formed(entries),
        0 <= i < walk_entries(skip, filter, parent, entries, inside_workspace, depth).len(),
    ensures
        at_or_below(
            walk_entries(skip, filter, parent, entries, inside_workspace, depth)[i].root_path,
            parent,
        ),
        walk_entries(skip, filter, parent, entries, inside_workspace, depth)[i].root_path
            != parent,
    decreases entries, 0nat,
{
    if entries.len() > 0 {
        let before = walk_entries(
            skip,
            filter,
            parent,
            entries.drop_last(),
            inside_workspace,
            depth,
        );
        let name = entries.last().name@;
        let child = joined(parent, name);
        let last = enter(skip, filter, child, entries.last(), inside_workspace, depth);
        assert(walk_entries(skip, filter, parent, entries, inside_workspace, depth) == before
            + last);
        if i < before.len() {
            lemma_entry_roots_lie_below(
                skip,
                filter,
                parent,
                entries.drop_last(),
                inside_workspace,
                depth,
                i,
            );
        } else {
            assert(survives(skip, child));
            lemma_child_path(parent, name);
            lemma_walk_roots_lie_below(
                skip,
                filter,
                child,
                entries.last(),
                inside_workspace,
                depth,
                i - before.len(),
            );
            let p = last[i - before.len()].root_path;
            assert(child == parent + seq!['/'] + name);
            assert(child[parent.len() as int] == '/');
            assert(parent =~= child.subrange(0, parent.len() as int));
            if p != child {
                assert(child =~= p.subrange(0, child.len() as int));
                assert(parent =~= p.subrange(0, parent.len() as int));
                assert(p[parent.len() as int] == child[parent.len() as int]);
            }
        }
    }
}

/// Every project reported in the entries of a directory is rooted at or
/// below the path of one of the entries; the lemma names that entry.
pub proof fn lemma_entry_roots_lie_below_an_entry(
    skip: Seq<Seq<char>>,
    filter: ProjectFilter,
    parent: Seq<char>,
    entries: Seq<FsNode>,
    inside_workspace: bool,
    depth: Option<usize>,
    i: int,
) -> (k: int)
    requires
        entries_well_formed(entries),
        0 <= i < walk_entries(skip, filter, parent, entries, inside_workspace, depth).len(),
    ensures
        0 <= k < entries.len(),
        at_or_below(
            walk_entries(skip, filter, parent, entries, inside_workspace, depth)[i].root_path,
            joined(parent, entries[k].name@),
        ),
    decreases entries.len(),
{
    let before = walk_entries(skip, filter, parent, entries.drop_last(), inside_workspace, depth);
    let name = entries.last().name@;
    let child = joined(parent, name);
    let last = enter(skip, filter, child, entries.last(), inside_workspace, depth);
    assert(walk_entries(skip, filter, parent, entries, inside_workspace, depth) == before + last);
    if i < before.len() {
        let k = lemma_entry_roots_lie_below_an_entry(
            skip,
            filter,
            parent,
            entries.drop_last(),
            inside_workspace,
            depth,
            i,
        );
        assert(entries.drop_last()[k] == entries[k]);
        k
    } else {
        assert(survives(skip, child));
        lemma_child_path(parent, name);
        lemma_walk_roots_lie_below(
            skip,
            filter,
            child,
            entries.last(),
            inside_workspace,
            depth,
            i - before.len(),
        );
        entries.len() - 1
    }
}

/// In the scan of a well-formed tree no two reported projects share a
/// root: every directory is reported at most once.
pub proof fn lemma_walk_roots_are_distinct(
    skip: Seq<Seq<char>>,
    filter: ProjectFilter,
    path: Seq<char>,
    node: FsNode,
    inside_workspace: bool,
    depth: Option<usize>,
    i: int,
    j: int,
)
    requires
        well_formed(node),
        0 <= i < j < walk(skip, filter, path, node, inside_workspace, depth).len(),
    ensures
        walk(skip, filter, path, node, inside_workspace, depth)[i].root_path != walk(
            skip,
            filter,
            path,
            node,
            inside_workspace,
            depth,
        )[j].root_path,
    decreases node, 1nat,
{
    let here = report_for(skip, filter, path, node, inside_workspace);
    let within = inside_workspace || crate::scanner::detect::is_workspace_root(node);
    let below = crate::scanner::walk::depth_below(depth);
    lemma_classified_project_is_rooted_here(filter, path, node, inside_workspace);
    if i < here.len() {
        let k = lemma_entry_roots_lie_below_an_entry(
            skip,
            filter,
            path,
            node.children@,
            within,
            below,
            j - here.len(),
        );
        lemma_entries_well_formed(node.children@);
        lemma_child_path(path, node.children@[k].name@);
    } else {
        lemma_entry_roots_are_distinct(
            skip,
            filter,
            path,
            node.children@,
            within,
            below,
            i - here.len(),
            j - here.len(),
        );
    }
}

/// In the entries of a well-formed directory no two reported projects
/// share a root.
pub proof fn lemma_entry_roots_are_distinct(
    skip: Seq<Seq<char>>,
    filter: ProjectFilter,
    parent: Seq<char>,
    entries: Seq<FsNode>,
    inside_workspace: bool,
    depth: Option<usize>,
    i: int,
    j: int,
)
    requires
        entries_well_formed(entries),
        0 <= i < j < walk_entries(skip, filter, parent, entries, inside_workspace, depth).len(),
    ensures
        walk_entries(skip, filter, parent, entries, inside_workspace, depth)[i].root_path
            != walk_entries(skip, filter, parent, entries, inside_workspace, depth)[j].root_path,
    decreases entries, 0nat,
{
    if entries.len() > 0 {
        let before = walk_entries(
            skip,
            filter,
            parent,
            entries.drop_last(),
            inside_workspace,
            depth,
        );
        let name = entries.last().name@;
        let child = joined(parent, name);
        let last = enter(skip, filter, child, entries.last(), inside_workspace, depth);
        assert(walk_entries(skip, filter, parent, entries, inside_workspace, depth) == before
            + last);
        if j < before.len() {
            lemma_entry_roots_are_distinct(
                skip,
                filter,
                parent,
                entries.drop_last(),
                inside_workspace,
                depth,
                i,
                j,
            );
        } else if i >= before.len() {
            assert(survives(skip, child));
            lemma_walk_roots_are_distinct(
                skip,
                filter,
                child,
                entries.last(),
                inside_workspace,
                depth,
                i - before.len(),
                j - before.len(),
            );
        } else {
            assert(survives(skip, child));
            let k = lemma_entry_roots_lie_below_an_entry(
                skip,
                filter,
                parent,
                entries.drop_last(),
                inside_workspace,
                depth,
                i,
            );
            lemma_entries_well_formed(entries);
            assert(entries.drop_last()[k] == entries[k]);
            lemma_child_path(parent, name);
            lemma_walk_roots_lie_below(
                skip,
                filter,
                child,
                entries.last(),
                inside_workspace,
                depth,
                j - before.len(),
            );
            lemma_paths_below_different_entries_differ(
                parent,
                entries[k].name@,
                name,
                before[i].root_path,
                last[j - before.len()].root_path,
            );
        }
    }
}

} // verus!
