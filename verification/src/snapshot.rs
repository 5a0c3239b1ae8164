//! A snapshot of a directory tree: what a scan reads of the file system.
//!
//! The caller lists the tree once; detection and measurement then work on
//! the listing alone, so that their results are functions of the snapshot.

use vstd::prelude::*;
use crate::path::{
    components, is_entry_name, is_valid_entry_name, joined, lemma_components_behind_separator,
    lemma_components_meet, lemma_components_of_entry_name, path_components,
    piece_views,
};
use crate::project::project::{saturated, saturating_sum};
use crate::text::{chars_of, slice_of, starts_with, str_eq, string_of};

verus! {
/// What kind of entry a node of the snapshot is.
#[derive(Clone, Copy, PartialEq, Eq, Debug, Structural)]
pub enum EntryKind {
    /// A regular file.
    File,
    /// A directory.
    Dir,
    /// Anything else that is present: a symbolic link or a special file.
    Other,
}

/// An entry of the snapshot with everything below it.
#[derive(Debug)]
pub struct FsNode {
    /// The entry's name within its directory. For the root of a snapshot
    /// this may be any text; the root's path is given separately.
    pub name: String,
    /// Whether the entry is a file, a directory or something else.
    pub kind: EntryKind,
    /// The length in bytes of a regular file.
    pub size: u64,
    /// The text of a regular file, when it was read and is valid text.
    pub content: Option<String>,
    /// Whether a regular file may be executed.
    pub executable: bool,
    /// The entries of a directory, in listing order.
    pub children: Vec<FsNode>,
}

/// The total size of the regular files in the tree below and including `node`.
pub open spec fn tree_size(node: FsNode) -> nat
    decreases node,
{
    match node.kind {
        EntryKind::File => node.size as nat,
        EntryKind::Dir => forest_size(node.children@),
        EntryKind::Other => 0,
    }
}

/// The total size of the regular files in the trees of `nodes`.
pub open spec fn forest_size(nodes: Seq<FsNode>) -> nat
    decreases nodes,
{
    if nodes.len() == 0 {
        0
    } else {
        forest_size(nodes.drop_last()) + tree_size(nodes.last())
    }
}

/// Whether a tree is a listing as a file system gives it: the entries of
/// every directory have names that can name an entry, no two entries of a
/// directory share a name, and only directories have entries.
pub open spec fn well_formed(node: FsNode) -> bool
    decreases node, 0nat,
{
    if node.kind == EntryKind::Dir {
        entries_well_formed(node.children@)
    } else {
        node.children@.len() == 0
    }
}

/// Whether the entries of a directory, and the trees below them, are
/// listed as a file system lists them.
pub open spec fn entries_well_formed(entries: Seq<FsNode>) -> bool
    decreases entries, 0nat,
{
    if entries.len() == 0 {
        true
    } else {
        &&& entries_well_formed(entries.drop_last())
        &&& well_formed(entries.last())
        &&& is_entry_name(entries.last().name@)
        &&& forall|i: int| 0 <= i < entries.len() - 1 ==> (#[trigger] entries[i]).name@
            != entries.last().name@
    }
}

/// In a well-formed listing every entry is well-formed and has an entry
/// name, and no two entries share a name.
pub proof fn lemma_entries_well_formed(entries: Seq<FsNode>)
    requires
        entries_well_formed(entries),
    ensures
        forall|i: int|
            0 <= i < entries.len() ==> well_formed(#[trigger] entries[i]) && is_entry_name(
                entries[i].name@,
            ),
        forall|i: int, j: int|
            0 <= i < j < entries.len() ==> (#[trigger] entries[i]).name@ != (
            #[trigger] entries[j]).name@,
    decreases entries.len(),
{
    if entries.len() > 0 {
        let before = entries.drop_last();
        lemma_entries_well_formed(before);
        assert forall|i: int| 0 <= i < entries.len() implies well_formed(#[trigger] entries[i])
            && is_entry_name(entries[i].name@) by {
            if i < entries.len() - 1 {
                assert(entries[i] == before[i]);
            }
        }
        assert forall|i: int, j: int| 0 <= i < j < entries.len() implies (
        #[trigger] entries[i]).name@ != (#[trigger] entries[j]).name@ by {
            if j < entries.len() - 1 {
                assert(entries[i] == before[i] && entries[j] == before[j]);
            }
        }
    }
}

/// In a well-formed listing an entry is the one that its name finds.
pub proof fn lemma_name_finds_the_entry(dir: FsNode, i: int)
    requires
        dir.kind == EntryKind::Dir,
        entries_well_formed(dir.children@),
        0 <= i < dir.children@.len(),
    ensures
        dir.entry(dir.children@[i].name@) == Some(dir.children@[i]),
{
    lemma_entries_well_formed(dir.children@);
    lemma_entry_index(dir.children@, dir.children@[i].name@);
}

/// The position of the first of `nodes` that is named `name`.
pub open spec fn entry_index(nodes: Seq<FsNode>, name: Seq<char>) -> Option<int>
    decreases nodes.len(),
{
    if nodes.len() == 0 {
        None
    } else if nodes[0].name@ == name {
        Some(0)
    } else {
        match entry_index(nodes.drop_first(), name) {
            Some(i) => Some(i + 1),
            None => None,
        }
    }
}

/// `entry_index` names the least position that carries the name.
pub proof fn lemma_entry_index(nodes: Seq<FsNode>, name: Seq<char>)
    ensures
        match entry_index(nodes, name) {
            Some(i) => 0 <= i < nodes.len() && nodes[i].name@ == name && forall|k: int|
                0 <= k < i ==> (#[trigger] nodes[k]).name@ != name,
            None => forall|k: int| 0 <= k < nodes.len() ==> (#[trigger] nodes[k]).name@ != name,
        },
    decreases nodes.len(),
{
    if nodes.len() > 0 && nodes[0].name@ != name {
        let t = nodes.drop_first();
        lemma_entry_index(t, name);
        match entry_index(t, name) {
            Some(i) => {
                assert forall|k: int| 0 <= k < i + 1 implies (#[trigger] nodes[k]).name@
                    != name by {
                    if k > 0 {
                        assert(nodes[k] == t[k - 1]);
                    }
                }
            },
            None => {
                assert forall|k: int| 0 <= k < nodes.len() implies (#[trigger] nodes[k]).name@
                    != name by {
                    if k > 0 {
                        assert(nodes[k] == t[k - 1]);
                    }
                }
            },
        }
    }
}

impl FsNode {
    /// The entry of this directory that is named `name`; none for a node
    /// that is not a directory.
    pub open spec fn entry(&self, name: Seq<char>) -> Option<FsNode> {
        if self.kind == EntryKind::Dir {
            match entry_index(self.children@, name) {
                Some(i) => Some(self.children@[i]),
                None => None,
            }
        } else {
            None
        }
    }

    /// Whether this directory has an entry named `name`.
    pub open spec fn has(&self, name: Seq<char>) -> bool {
        self.entry(name).is_some()
    }

    /// Whether this directory has a directory named `name`.
    pub open spec fn has_dir_named(&self, name: Seq<char>) -> bool {
        match self.entry(name) {
            Some(e) => e.kind == EntryKind::Dir,
            None => false,
        }
    }

    /// The text of the file named `name` in this directory, when there is
    /// such a file and its text was read.
    pub open spec fn text_of(&self, name: Seq<char>) -> Option<Seq<char>> {
        match self.entry(name) {
            Some(e) => match e.content {
                Some(c) => if e.kind == EntryKind::File {
                    Some(c@)
                } else {
                    None
                },
                None => None,
            },
            None => None,
        }
    }

    /// A regular file of `size` bytes whose text was not read.
    pub fn file(name: &str, size: u64) -> (r: Self)
        ensures
            r.name@ == name@,
            r.kind == EntryKind::File,
            r.size == size,
            r.content.is_none(),
            !r.executable,
            r.children@.len() == 0,
            well_formed(r),
    {
        FsNode {
            name: String::from_str(name),
            kind: EntryKind::File,
            size,
            content: None,
            executable: false,
            children: Vec::new(),
        }
    }

    /// A regular file holding `content`; its size is the length of the text
    /// in bytes, held at the 64-bit maximum.
    pub fn text_file(name: &str, content: &str) -> (r: Self)
        ensures
            r.name@ == name@,
            r.kind == EntryKind::File,
            r.size == content.len(),
            r.content matches Some(c) && c@ == content@,
            !r.executable,
            r.children@.len() == 0,
            well_formed(r),
    {
        let size: u64 = content.len() as u64;
        FsNode {
            name: String::from_str(name),
            kind: EntryKind::File,
            size,
            content: Some(String::from_str(content)),
            executable: false,
            children: Vec::new(),
        }
    }

    /// A directory holding `children`.
    pub fn dir(name: &str, children: Vec<FsNode>) -> (r: Self)
        ensures
            r.name@ == name@,
            r.kind == EntryKind::Dir,
            r.children == children,
            r.content.is_none(),
            r.size == 0,
            !r.executable,
            well_formed(r) == entries_well_formed(children@),
    {
        FsNode {
            name: String::from_str(name),
            kind: EntryKind::Dir,
            size: 0,
            content: None,
            executable: false,
            children,
        }
    }

    /// The entry of this directory that is named `name`.
    pub fn child(&self, name: &str) -> (r: Option<&FsNode>)
        ensures
            match r {
                Some(e) => self.entry(name@) == Some(*e),
                None => self.entry(name@).is_none(),
            },
    {
        if self.kind != EntryKind::Dir {
            return None;
        }
        let ghost nodes = self.children@;
        let mut i: usize = 0;
        assert(nodes.skip(0) =~= nodes);
        while i < self.children.len()
            invariant
                i <= self.children.len(),
                nodes == self.children@,
                self.kind == EntryKind::Dir,
                match entry_index(nodes.skip(i as int), name@) {
                    Some(k) => entry_index(nodes, name@) == Some(k + i),
                    None => entry_index(nodes, name@).is_none(),
                },
            decreases self.children.len() - i,
        {
            proof {
                assert(nodes.skip(i as int).drop_first() =~= nodes.skip(i + 1));
            }
            if str_eq(self.children[i].name.as_str(), name) {
                return Some(&self.children[i]);
            }
            i += 1;
        }
        None
    }

    /// Whether this directory has an entry named `name`.
    pub fn has_entry(&self, name: &str) -> (r: bool)
        ensures
            r == self.has(name@),
    {
        self.child(name).is_some()
    }

    /// Whether this directory has a directory named `name`.
    pub fn has_dir(&self, name: &str) -> (r: bool)
        ensures
            r == self.has_dir_named(name@),
    {
        match self.child(name) {
            Some(e) => e.kind == EntryKind::Dir,
            None => false,
        }
    }

    /// The text of the file named `name` in this directory.
    pub fn read_to_string(&self, name: &str) -> (r: Option<&str>)
        ensures
            match r {
                Some(t) => self.text_of(name@) == Some(t@),
                None => self.text_of(name@).is_none(),
            },
    {
        match self.child(name) {
            Some(e) => match &e.content {
                Some(c) => if e.kind == EntryKind::File {
                    Some(c.as_str())
                } else {
                    None
                },
                None => None,
            },
            None => None,
        }
    }
}

/// Calculate the total size of a directory and all its contents, in bytes:
/// the sum of the sizes of the regular files in the tree, held at the
/// 64-bit maximum.
pub fn calculate_dir_size(node: &FsNode) -> (r: u64)
    ensures
        r == saturated(tree_size(*node)),
    decreases *node,
{
    match node.kind {
        EntryKind::File => node.size,
        EntryKind::Other => 0,
        EntryKind::Dir => {
            let mut total: u64 = 0;
            let mut i: usize = 0;
            let ghost nodes = node.children@;
            while i < node.children.len()
                invariant
                    i <= node.children.len(),
                    nodes == node.children@,
                    total == saturated(forest_size(nodes.take(i as int))),
                decreases node.children.len() - i,
            {
                proof {
                    assert(nodes.take(i + 1).drop_last() =~= nodes.take(i as int));
                }
                let below = calculate_dir_size(&node.children[i]);
                total = saturating_sum(total, below);
                i += 1;
            }
            assert(nodes.take(nodes.len() as int) =~= nodes);
            total
        },
    }
}

/// A directory tree as it was listed, with the path it was listed at.
#[derive(Debug)]
pub struct Snapshot {
    /// The path of the root directory.
    pub path: String,
    /// The root directory with everything below it.
    pub root: FsNode,
    /// Whether a directory above the root is the root of a Cargo workspace.
    pub inside_workspace: bool,
}

/// The node reached from `node` by following the names in `names`.
pub open spec fn descend(node: FsNode, names: Seq<Seq<char>>) -> Option<FsNode>
    decreases names.len(),
{
    if names.len() == 0 {
        Some(node)
    } else {
        match node.entry(names[0]) {
            Some(e) => descend(e, names.drop_first()),
            None => None,
        }
    }
}

/// What remains of `path` below `base`, when `path` lies at or below it.
pub open spec fn relative_to(path: Seq<char>, base: Seq<char>) -> Option<Seq<char>> {
    if base.len() == 0 {
        Some(path)
    } else if base.is_prefix_of(path) && (path.len() == base.len() || base.last() == '/'
        || path[base.len() as int] == '/') {
        Some(path.skip(base.len() as int))
    } else {
        None
    }
}

/// The entry found at `path` in the tree `dir` that was listed at `dir_path`.
pub open spec fn entry_at(dir: FsNode, dir_path: Seq<char>, path: Seq<char>) -> Option<FsNode> {
    match relative_to(path, dir_path) {
        Some(rest) => descend(dir, components(rest)),
        None => None,
    }
}

/// The size measured at `path` in the tree `dir` that was listed at
/// `dir_path`: the total of the regular files at and below `path`, held at
/// the 64-bit maximum; 0 where the tree has nothing at `path`.
pub open spec fn size_at(dir: FsNode, dir_path: Seq<char>, path: Seq<char>) -> u64 {
    match entry_at(dir, dir_path, path) {
        Some(e) => saturated(tree_size(e)),
        None => 0,
    }
}

/// What remains of `path` below `base`, when `path` lies at or below it.
pub fn strip_base(path: &str, base: &str) -> (r: Option<String>)
    ensures
        match r {
            Some(rest) => relative_to(path@, base@) == Some(rest@),
            None => relative_to(path@, base@).is_none(),
        },
{
    let p = chars_of(path);
    let b = chars_of(base);
    if b.len() == 0 {
        return Some(string_of(&p));
    }
    if starts_with(&p, &b) && (p.len() == b.len() || b[b.len() - 1] == '/' || p[b.len()] == '/') {
        let rest = slice_of(&p, b.len(), p.len());
        Some(string_of(&rest))
    } else {
        None
    }
}

/// The entry found at `path` in the tree `dir` that was listed at `dir_path`.
pub fn find_entry<'a>(dir: &'a FsNode, dir_path: &str, path: &str) -> (r: Option<&'a FsNode>)
    ensures
        match r {
            Some(e) => entry_at(*dir, dir_path@, path@) == Some(*e),
            None => entry_at(*dir, dir_path@, path@).is_none(),
        },
{
    let rest = match strip_base(path, dir_path) {
        Some(rest) => rest,
        None => {
            return None;
        },
    };
    let names = path_components(rest.as_str());
    let ghost all = piece_views(names@);
    let mut current: &FsNode = dir;
    let mut i: usize = 0;
    assert(all.skip(0) =~= all);
    while i < names.len()
        invariant
            i <= names.len(),
            all == piece_views(names@),
            all == components(rest@),
            relative_to(path@, dir_path@) == Some(rest@),
            descend(*dir, all) == descend(*current, all.skip(i as int)),
        decreases names.len() - i,
    {
        let name = string_of(&names[i]);
        proof {
            assert(all.skip(i as int).drop_first() =~= all.skip(i + 1));
        }
        match current.child(name.as_str()) {
            Some(e) => {
                current = e;
            },
            None => {
                return None;
            },
        }
        i += 1;
    }
    Some(current)
}

/// The size measured at `path` in the tree `dir` that was listed at `dir_path`.
pub fn measure_at(dir: &FsNode, dir_path: &str, path: &str) -> (r: u64)
    ensures
        r == size_at(*dir, dir_path@, path@),
{
    match find_entry(dir, dir_path, path) {
        Some(e) => calculate_dir_size(e),
        None => 0,
    }
}

/// Taking one tree out of a sequence of trees takes its size out of the total.
pub proof fn lemma_forest_size_remove(nodes: Seq<FsNode>, i: int)
    requires
        0 <= i < nodes.len(),
    ensures
        forest_size(nodes) == forest_size(nodes.remove(i)) + tree_size(nodes[i]),
    decreases nodes.len(),
{
    if i < nodes.len() - 1 {
        lemma_forest_size_remove(nodes.drop_last(), i);
        assert(nodes.remove(i).drop_last() =~= nodes.drop_last().remove(i));
    }
}

/// The measured size does not depend on the order in which the entries of
/// a directory are listed or visited: two listings of the same entries have
/// the same total.
pub proof fn lemma_forest_size_ignores_order(a: Seq<FsNode>, b: Seq<FsNode>)
    requires
        a.to_multiset() == b.to_multiset(),
    ensures
        forest_size(a) == forest_size(b),
    decreases a.len(),
{
    broadcast use vstd::seq_lib::group_to_multiset_ensures;

    vstd::seq_lib::to_multiset_len(a);
    vstd::seq_lib::to_multiset_len(b);
    if a.len() > 0 {
        let x = a.last();
        assert(a.to_multiset().contains(x));
        let j = choose|j: int| 0 <= j < b.len() && b[j] == x;
        assert(a.drop_last() =~= a.remove(a.len() - 1));
        lemma_forest_size_ignores_order(a.drop_last(), b.remove(j));
        lemma_forest_size_remove(b, j);
    }
}

/// Where the tree has nothing at a path, the size measured there is 0.
pub proof fn lemma_nothing_measures_zero(dir: FsNode, dir_path: Seq<char>, path: Seq<char>)
    requires
        entry_at(dir, dir_path, path).is_none(),
    ensures
        size_at(dir, dir_path, path) == 0,
{
}

/// An entry is found at the path that joining gives it: looking up, in a
/// directory listed at `path`, the path of its entry `name` finds that
/// entry, and measuring there measures the entry.
pub proof fn lemma_entry_is_found_at_its_path(dir: FsNode, path: Seq<char>, name: Seq<char>)
    requires
        is_entry_name(name),
    ensures
        entry_at(dir, path, joined(path, name)) == dir.entry(name),
        size_at(dir, path, joined(path, name)) == (match dir.entry(name) {
            Some(e) => saturated(tree_size(e)),
            None => 0,
        }),
{
    lemma_components_of_entry_name(name);
    lemma_components_behind_separator(name);
    assert(name[0] != '/');
    let full = joined(path, name);
    let names = seq![name];
    assert(descend(dir, names) == dir.entry(name)) by {
        match dir.entry(name) {
            Some(e) => {
                assert(descend(e, names.drop_first()) == Some(e));
            },
            None => {},
        }
    }
    if path.len() == 0 {
    } else if path.last() == '/' {
        assert(full.skip(path.len() as int) =~= name);
    } else {
        assert(full.skip(path.len() as int) =~= seq!['/'] + name);
    }
}


/// Following names and then more names is following the latter from where
/// the former lead.
pub proof fn lemma_descend_concat(node: FsNode, first: Seq<Seq<char>>, then: Seq<Seq<char>>)
    ensures
        descend(node, first + then) == (match descend(node, first) {
            Some(d) => descend(d, then),
            None => None,
        }),
    decreases first.len(),
{
    if first.len() == 0 {
        assert(first + then =~= then);
    } else {
        assert((first + then)[0] == first[0]);
        assert((first + then).drop_first() =~= first.drop_first() + then);
        match node.entry(first[0]) {
            Some(e) => {
                lemma_descend_concat(e, first.drop_first(), then);
            },
            None => {},
        }
    }
}

/// A path that lies at or below a path below a base lies below the base,
/// and what remains of it below the base is what remains of the middle
/// path followed by what remains below the middle path.
pub proof fn lemma_relative_through(path: Seq<char>, middle: Seq<char>, base: Seq<char>)
    requires
        middle.len() > 0,
        relative_to(middle, base).is_some(),
        relative_to(path, middle).is_some(),
    ensures
        relative_to(path, base) == Some(
            relative_to(middle, base).unwrap() + relative_to(path, middle).unwrap(),
        ),
        components(relative_to(path, base).unwrap()) == components(
            relative_to(middle, base).unwrap(),
        ) + components(relative_to(path, middle).unwrap()),
{
    let rest = path.skip(middle.len() as int);
    assert(middle =~= path.subrange(0, middle.len() as int));
    assert(path =~= middle + rest);
    if base.len() == 0 {
        assert(relative_to(path, base) == Some(path));
    } else {
        assert(base =~= middle.subrange(0, base.len() as int));
        assert(base =~= path.subrange(0, base.len() as int));
        if middle.len() > base.len() {
            assert(path[base.len() as int] == middle[base.len() as int]);
        } else {
            assert(middle =~= base);
            if path.len() > middle.len() && middle.last() != '/' {
                assert(path[middle.len() as int] == '/');
            }
        }
        assert(path.skip(base.len() as int) =~= middle.skip(base.len() as int) + rest);
    }
    let before = relative_to(middle, base).unwrap();
    if before.len() > 0 && rest.len() > 0 {
        assert(before.last() == middle.last());
        assert(rest[0] == path[middle.len() as int]);
    }
    lemma_components_meet(before, rest);
}

/// Looking up a path below an entry can start at the entry: where `node`
/// is found at `middle`, what is found at a path at or below `middle` is
/// what is found there in the tree of `node`.
pub proof fn lemma_lookup_starts_at_the_entry(
    root: FsNode,
    base: Seq<char>,
    node: FsNode,
    middle: Seq<char>,
    path: Seq<char>,
)
    requires
        middle.len() > 0,
        entry_at(root, base, middle) == Some(node),
        relative_to(path, middle).is_some(),
    ensures
        entry_at(root, base, path) == entry_at(node, middle, path),
        size_at(root, base, path) == size_at(node, middle, path),
{
    lemma_relative_through(path, middle, base);
    lemma_descend_concat(
        root,
        components(relative_to(middle, base).unwrap()),
        components(relative_to(path, middle).unwrap()),
    );
}

/// The path of an entry lies below the path of its directory.
pub proof fn lemma_joined_lies_below(path: Seq<char>, name: Seq<char>)
    requires
        is_entry_name(name),
    ensures
        relative_to(joined(path, name), path).is_some(),
        joined(path, name).len() > 0,
{
    assert(name[0] != '/') by {
        assert(name.contains(name[0]));
    }
    let full = joined(path, name);
    if path.len() > 0 {
        assert(path =~= full.subrange(0, path.len() as int));
        if path.last() != '/' {
            assert(full[path.len() as int] == '/');
        }
    }
}

/// Every path lies at itself, where the listed directory is found.
pub proof fn lemma_directory_is_found_at_its_path(dir: FsNode, path: Seq<char>)
    ensures
        entry_at(dir, path, path) == Some(dir),
{
    crate::path::lemma_components_of_nothing();
    if path.len() > 0 {
        assert(path.skip(path.len() as int) =~= Seq::<char>::empty());
        assert(path =~= path.subrange(0, path.len() as int));
    } else {
        assert(path =~= Seq::<char>::empty());
    }
}


/// Adding a well-formed entry with a new entry name to a well-formed
/// listing gives a well-formed listing.
pub proof fn lemma_listing_grows(entries: Seq<FsNode>, n: int)
    requires
        0 < n <= entries.len(),
        entries_well_formed(entries.take(n - 1)),
        well_formed(entries[n - 1]),
        is_entry_name(entries[n - 1].name@),
        forall|j: int| 0 <= j < n - 1 ==> (#[trigger] entries[j]).name@ != entries[n - 1].name@,
    ensures
        entries_well_formed(entries.take(n)),
{
    let now = entries.take(n);
    assert(now.drop_last() =~= entries.take(n - 1));
    assert(now.last() == entries[n - 1]);
    assert forall|i: int| 0 <= i < now.len() - 1 implies (#[trigger] now[i]).name@
        != now.last().name@ by {
        assert(now[i] == entries[i]);
    }
}

/// A listing in which an entry is not well-formed, has no entry name, or
/// shares its name with an earlier entry is not well-formed.
pub proof fn lemma_listing_is_broken(entries: Seq<FsNode>, i: int, j: int)
    requires
        0 <= i < entries.len(),
        0 <= j <= i,
        !well_formed(entries[i]) || !is_entry_name(entries[i].name@) || (j < i
            && entries[j].name@ == entries[i].name@),
    ensures
        !entries_well_formed(entries),
{
    if entries_well_formed(entries) {
        lemma_entries_well_formed(entries);
    }
}

impl FsNode {
    /// Whether the tree is a listing as a file system gives it: entry
    /// names that can name an entry, no name twice in a directory, and
    /// entries in directories only.
    pub fn is_well_formed(&self) -> (r: bool)
        ensures
            r == well_formed(*self),
        decreases *self,
    {
        if self.kind != EntryKind::Dir {
            return self.children.len() == 0;
        }
        let ghost entries = self.children@;
        let mut i: usize = 0;
        assert(entries.take(0) =~= Seq::<FsNode>::empty());
        while i < self.children.len()
            invariant
                i <= self.children.len(),
                entries == self.children@,
                self.kind == EntryKind::Dir,
                entries_well_formed(entries.take(i as int)),
            decreases self.children.len() - i,
        {
            let child = &self.children[i];
            if !is_valid_entry_name(child.name.as_str()) || !child.is_well_formed() {
                proof {
                    lemma_listing_is_broken(entries, i as int, i as int);
                }
                return false;
            }
            let mut j: usize = 0;
            while j < i
                invariant
                    j <= i < self.children.len(),
                    entries == self.children@,
                    *child == entries[i as int],
                    forall|k: int| 0 <= k < j ==> (#[trigger] entries[k]).name@ != child.name@,
                decreases i - j,
            {
                if str_eq(self.children[j].name.as_str(), child.name.as_str()) {
                    proof {
                        lemma_listing_is_broken(entries, i as int, j as int);
                    }
                    return false;
                }
                j += 1;
            }
            proof {
                lemma_listing_grows(entries, i + 1);
            }
            i += 1;
        }
        assert(entries.take(entries.len() as int) =~= entries);
        true
    }
}

/// Whether two trees hold the same files, whatever the order in which the
/// listings at any depth give their entries: the two are entries of the
/// same kind, files of the same size, or directories whose entries match
/// one for one in some order.
pub open spec fn same_files(a: FsNode, b: FsNode) -> bool
    decreases a, 0nat,
{
    a.kind == b.kind && match a.kind {
        EntryKind::File => a.size == b.size,
        EntryKind::Dir => same_entries(a.children@, b.children@),
        EntryKind::Other => true,
    }
}

/// Whether two listings hold the same entries in some order: the last of
/// the first has a match among the second, and the rest match what is
/// left of the second.
pub open spec fn same_entries(first: Seq<FsNode>, second: Seq<FsNode>) -> bool
    decreases first, 0nat,
{
    if first.len() == 0 {
        second.len() == 0
    } else {
        exists|j: int|
            0 <= j < second.len() && same_files(first.last(), #[trigger] second[j])
                && same_entries(first.drop_last(), second.remove(j))
    }
}

/// The measured size does not depend on the order of the listings at any
/// depth: two trees that hold the same files have the same total.
pub proof fn lemma_tree_size_ignores_order(a: FsNode, b: FsNode)
    requires
        same_files(a, b),
    ensures
        tree_size(a) == tree_size(b),
    decreases a, 1nat,
{
    if a.kind == EntryKind::Dir {
        lemma_forest_size_ignores_order_at_every_depth(a.children@, b.children@);
    }
}

/// Two listings that hold the same entries in some order, these holding
/// the same files in turn, have the same total.
pub proof fn lemma_forest_size_ignores_order_at_every_depth(
    first: Seq<FsNode>,
    second: Seq<FsNode>,
)
    requires
        same_entries(first, second),
    ensures
        forest_size(first) == forest_size(second),
    decreases first, 0nat,
{
    if first.len() > 0 {
        let j = choose|j: int|
            0 <= j < second.len() && same_files(first.last(), #[trigger] second[j])
                && same_entries(first.drop_last(), second.remove(j));
        lemma_tree_size_ignores_order(first.last(), second[j]);
        lemma_forest_size_ignores_order_at_every_depth(first.drop_last(), second.remove(j));
        lemma_forest_size_remove(second, j);
    }
}

/// Every tree holds the same files as itself.
pub proof fn lemma_same_files_is_reflexive(a: FsNode)
    ensures
        same_files(a, a),
    decreases a, 1nat,
{
    if a.kind == EntryKind::Dir {
        lemma_same_entries_is_reflexive(a.children@);
    }
}

/// Every listing holds the same entries as itself.
pub proof fn lemma_same_entries_is_reflexive(entries: Seq<FsNode>)
    ensures
        same_entries(entries, entries),
    decreases entries, 0nat,
{
    if entries.len() > 0 {
        let j = entries.len() - 1;
        lemma_same_files_is_reflexive(entries.last());
        lemma_same_entries_is_reflexive(entries.drop_last());
        assert(entries.remove(j) =~= entries.drop_last());
        assert(same_files(entries.last(), entries[j]));
    }
}

} // verus!
