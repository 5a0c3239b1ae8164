//! An ordered collection of projects.

use vstd::prelude::*;
use vstd::string::StringExecFns;
use crate::project::project::{
    artifacts_size, saturated, saturating_sum, Project, ProjectType, ProjectView,
};
use crate::utils::human::{decimal_size_text, format_size};

verus! {
/// A collection of projects, in scan order unless it was sorted.
pub struct Projects(pub Vec<Project>);

/// The views of a sequence of projects.
pub open spec fn project_views(ps: Seq<Project>) -> Seq<ProjectView> {
    ps.map_values(|p: Project| p@)
}

impl View for Projects {
    type V = Seq<ProjectView>;

    open spec fn view(&self) -> Seq<ProjectView> {
        project_views(self.0@)
    }
}

/// The sum of the artifact sizes of all of `ps`.
pub open spec fn projects_size(ps: Seq<ProjectView>) -> nat
    decreases ps.len(),
{
    if ps.len() == 0 {
        0
    } else {
        projects_size(ps.drop_last()) + artifacts_size(ps.last().artifacts)
    }
}

/// The symbol that stands for a kind of project in listings.
pub open spec fn kind_icon(kind: ProjectType) -> Seq<char> {
    match kind {
        ProjectType::Rust => "🦀"@,
        ProjectType::Node => "📦"@,
        ProjectType::Python => "🐍"@,
        ProjectType::Go => "🐹"@,
        ProjectType::Java => "☕"@,
        ProjectType::Cpp => "⚙️"@,
        ProjectType::Swift => "🐦"@,
        ProjectType::DotNet => "🔷"@,
        ProjectType::Ruby => "💎"@,
        ProjectType::Elixir => "💧"@,
        ProjectType::Deno => "🦕"@,
        ProjectType::Php => "🐘"@,
        ProjectType::Haskell => "λ"@,
        ProjectType::Dart => "🎯"@,
        ProjectType::Zig => "⚡"@,
        ProjectType::Scala => "🔴"@,
    }
}

/// Return the icon for a given project type.
pub fn icon_for_project_type(kind: &ProjectType) -> (r: &'static str)
    ensures
        r@ == kind_icon(*kind),
{
    match kind {
        ProjectType::Rust => "🦀",
        ProjectType::Node => "📦",
        ProjectType::Python => "🐍",
        ProjectType::Go => "🐹",
        ProjectType::Java => "☕",
        ProjectType::Cpp => "⚙️",
        ProjectType::Swift => "🐦",
        ProjectType::DotNet => "🔷",
        ProjectType::Ruby => "💎",
        ProjectType::Elixir => "💧",
        ProjectType::Deno => "🦕",
        ProjectType::Php => "🐘",
        ProjectType::Haskell => "λ",
        ProjectType::Dart => "🎯",
        ProjectType::Zig => "⚡",
        ProjectType::Scala => "🔴",
    }
}

/// The line that stands for a project in a selection list: its symbol, its
/// root, and its size in human-readable form.
pub open spec fn selection_label(p: ProjectView) -> Seq<char> {
    kind_icon(p.kind) + " "@ + p.root_path + " ("@ + decimal_size_text(
        saturated(artifacts_size(p.artifacts)),
    ) + ")"@
}

/// The selection labels of `ps`, in order.
pub open spec fn selection_labels(ps: Seq<ProjectView>) -> Seq<Seq<char>> {
    ps.map_values(|p: ProjectView| selection_label(p))
}

/// The position of the first project of `ps` whose label is `label`.
pub open spec fn labelled_index(ps: Seq<ProjectView>, label: Seq<char>) -> Option<int>
    decreases ps.len(),
{
    if ps.len() == 0 {
        None
    } else if selection_label(ps[0]) == label {
        Some(0)
    } else {
        match labelled_index(ps.drop_first(), label) {
            Some(i) => Some(i + 1),
            None => None,
        }
    }
}

/// The projects that a list of chosen labels selects: for each label, in
/// order, the first project that carries it; a label that no project carries
/// selects nothing.
pub open spec fn selected(ps: Seq<ProjectView>, chosen: Seq<Seq<char>>) -> Seq<ProjectView>
    decreases chosen.len(),
{
    if chosen.len() == 0 {
        Seq::empty()
    } else {
        let rest = selected(ps, chosen.drop_last());
        match labelled_index(ps, chosen.last()) {
            Some(i) => rest.push(ps[i]),
            None => rest,
        }
    }
}

/// The views of a sequence of strings.
pub open spec fn text_views(items: Seq<String>) -> Seq<Seq<char>> {
    items.map_values(|s: String| s@)
}

/// `labelled_index` names the least position whose label matches.
pub proof fn lemma_labelled_index(ps: Seq<ProjectView>, label: Seq<char>)
    ensures
        match labelled_index(ps, label) {
            Some(i) => 0 <= i < ps.len() && selection_label(ps[i]) == label && forall|k: int|
                0 <= k < i ==> selection_label(#[trigger] ps[k]) != label,
            None => forall|k: int| 0 <= k < ps.len() ==> selection_label(#[trigger] ps[k]) != label,
        },
    decreases ps.len(),
{
    if ps.len() > 0 && selection_label(ps[0]) != label {
        let t = ps.drop_first();
        lemma_labelled_index(t, label);
        match labelled_index(t, label) {
            Some(i) => {
                assert forall|k: int| 0 <= k < i + 1 implies selection_label(#[trigger] ps[k])
                    != label by {
                    if k > 0 {
                        assert(ps[k] == t[k - 1]);
                    }
                }
            },
            None => {
                assert forall|k: int| 0 <= k < ps.len() implies selection_label(#[trigger] ps[k])
                    != label by {
                    if k > 0 {
                        assert(ps[k] == t[k - 1]);
                    }
                }
            },
        }
    }
}

impl Projects {
    /// The exact sum of the artifact sizes of all projects.
    pub open spec fn spec_total_size(&self) -> nat {
        projects_size(self@)
    }

    /// Calculate the total size of all build directories in the collection,
    /// held at the 64-bit maximum.
    pub fn get_total_size(&self) -> (r: u64)
        ensures
            r == saturated(self.spec_total_size()),
    {
        let mut total: u64 = 0;
        let mut i: usize = 0;
        let ghost ps = self@;
        while i < self.0.len()
            invariant
                i <= self.0.len(),
                ps == self@,
                ps.len() == self.0.len(),
                total == saturated(projects_size(ps.take(i as int))),
            decreases self.0.len() - i,
        {
            proof {
                assert(ps.take(i + 1).drop_last() =~= ps.take(i as int));
            }
            total = saturating_sum(total, self.0[i].total_size());
            i += 1;
        }
        assert(ps.take(ps.len() as int) =~= ps);
        total
    }

    /// Get the number of projects in the collection.
    pub fn len(&self) -> (r: usize)
        ensures
            r == self@.len(),
    {
        self.0.len()
    }

    /// Check if the collection is empty.
    pub fn is_empty(&self) -> (r: bool)
        ensures
            r == (self@.len() == 0),
    {
        self.0.len() == 0
    }

    /// Return a slice of the underlying project collection.
    pub fn as_slice(&self) -> (r: &[Project])
        ensures
            r@ == self.0@,
    {
        self.0.as_slice()
    }

    /// The line that stands for `project` in a selection list.
    pub fn label_of(project: &Project) -> (r: String)
        ensures
            r@ == selection_label(project@),
    {
        let mut out = String::from_str(icon_for_project_type(&project.kind));
        out.append(" ");
        out.append(project.root_path.as_str());
        out.append(" (");
        let size = format_size(project.total_size());
        out.append(size.as_str());
        out.append(")");
        out
    }

    /// The lines offered for selection, one per project, in order.
    pub fn selection_items(&self) -> (r: Vec<String>)
        ensures
            text_views(r@) == selection_labels(self@),
    {
        let mut items: Vec<String> = Vec::new();
        let mut i: usize = 0;
        while i < self.0.len()
            invariant
                i <= self.0.len(),
                text_views(items@) == selection_labels(self@).take(i as int),
            decreases self.0.len() - i,
        {
            let label = Self::label_of(&self.0[i]);
            let ghost before = items@;
            items.push(label);
            proof {
                let all = selection_labels(self@);
                assert(text_views(items@) =~= text_views(before).push(label@));
            }
            i += 1;
        }
        items
    }

    /// The position of the first project whose selection label is `label`.
    pub fn find_labelled(&self, label: &String) -> (r: Option<usize>)
        ensures
            match r {
                Some(i) => labelled_index(self@, label@) == Some(i as int) && i < self.0.len(),
                None => labelled_index(self@, label@).is_none(),
            },
    {
        let ghost ps = self@;
        let mut i: usize = 0;
        assert(ps.skip(0) =~= ps);
        while i < self.0.len()
            invariant
                i <= self.0.len(),
                ps == self@,
                ps.len() == self.0.len(),
                match labelled_index(ps.skip(i as int), label@) {
                    Some(k) => labelled_index(ps, label@) == Some(k + i),
                    None => labelled_index(ps, label@).is_none(),
                },
            decreases self.0.len() - i,
        {
            let candidate = Self::label_of(&self.0[i]);
            proof {
                assert(ps.skip(i as int).drop_first() =~= ps.skip(i + 1));
            }
            if candidate == *label {
                return Some(i);
            }
            i += 1;
        }
        None
    }

    /// The projects that the chosen labels select: for each label, in order,
    /// a copy of the first project that carries it.
    pub fn selected_projects(&self, chosen: &Vec<String>) -> (r: Vec<Project>)
        ensures
            project_views(r@) == selected(self@, text_views(chosen@)),
    {
        let mut out: Vec<Project> = Vec::new();
        let ghost labels = text_views(chosen@);
        let mut i: usize = 0;
        while i < chosen.len()
            invariant
                i <= chosen.len(),
                labels == text_views(chosen@),
                project_views(out@) == selected(self@, labels.take(i as int)),
            decreases chosen.len() - i,
        {
            proof {
                assert(labels.take(i + 1).drop_last() =~= labels.take(i as int));
            }
            match self.find_labelled(&chosen[i]) {
                Some(k) => {
                    let p = self.0[k].duplicate();
                    out.push(p);
                },
                None => {},
            }
            i += 1;
        }
        assert(labels.take(labels.len() as int) =~= labels);
        out
    }
}

impl From<Vec<Project>> for Projects {
    fn from(projects: Vec<Project>) -> (r: Self)
        ensures
            r.0 == projects,
    {
        Self(projects)
    }
}

impl vstd::std_specs::convert::FromSpecImpl<Vec<Project>> for Projects {
    open spec fn obeys_from_spec() -> bool {
        true
    }

    open spec fn from_spec(projects: Vec<Project>) -> Self {
        Projects(projects)
    }
}

} // verus!
