//! Which projects are looked for, which are kept, and in what order.

use vstd::prelude::*;
use vstd::string::StringExecFns;
use crate::text::{chars_of, eq_ignore_ascii_case, same_ignoring_ascii_case, same_text};

verus! {
/// Restricts a scan to one ecosystem, or to none.
#[derive(Clone, Copy, PartialEq, Eq, Debug, Structural)]
pub enum ProjectFilter {
    /// Include all supported project types
    All,
    /// Include only Rust projects
    Rust,
    /// Include only Node.js projects
    Node,
    /// Include only Python projects
    Python,
    /// Include only Go projects
    Go,
    /// Include only Java/Kotlin projects
    Java,
    /// Include only C/C++ projects
    Cpp,
    /// Include only Swift projects
    Swift,
    /// Include only .NET/C# projects
    DotNet,
    /// Include only Ruby projects
    Ruby,
    /// Include only Elixir projects
    Elixir,
    /// Include only Deno projects
    Deno,
    /// Include only PHP projects
    Php,
    /// Include only Haskell projects
    Haskell,
    /// Include only Dart/Flutter projects
    Dart,
    /// Include only Zig projects
    Zig,
    /// Include only Scala projects
    Scala,
}

impl Default for ProjectFilter {
    fn default() -> (r: Self)
        ensures
            r == ProjectFilter::All,
    {
        ProjectFilter::All
    }
}

/// The number of project filters.
pub open spec fn filter_count() -> int {
    17
}

/// The filters in the order in which their names are tried.
pub open spec fn filter_at(i: int) -> ProjectFilter {
    if i == 0 {
        ProjectFilter::All
    } else if i == 1 {
        ProjectFilter::Rust
    } else if i == 2 {
        ProjectFilter::Node
    } else if i == 3 {
        ProjectFilter::Python
    } else if i == 4 {
        ProjectFilter::Go
    } else if i == 5 {
        ProjectFilter::Java
    } else if i == 6 {
        ProjectFilter::Cpp
    } else if i == 7 {
        ProjectFilter::Swift
    } else if i == 8 {
        ProjectFilter::DotNet
    } else if i == 9 {
        ProjectFilter::Ruby
    } else if i == 10 {
        ProjectFilter::Elixir
    } else if i == 11 {
        ProjectFilter::Deno
    } else if i == 12 {
        ProjectFilter::Php
    } else if i == 13 {
        ProjectFilter::Haskell
    } else if i == 14 {
        ProjectFilter::Dart
    } else if i == 15 {
        ProjectFilter::Zig
    } else {
        ProjectFilter::Scala
    }
}

impl ProjectFilter {
    /// The name by which the filter is written in options.
    pub open spec fn spec_name(self) -> Seq<char> {
        match self {
            ProjectFilter::All => "all"@,
            ProjectFilter::Rust => "rust"@,
            ProjectFilter::Node => "node"@,
            ProjectFilter::Python => "python"@,
            ProjectFilter::Go => "go"@,
            ProjectFilter::Java => "java"@,
            ProjectFilter::Cpp => "cpp"@,
            ProjectFilter::Swift => "swift"@,
            ProjectFilter::DotNet => "dotnet"@,
            ProjectFilter::Ruby => "ruby"@,
            ProjectFilter::Elixir => "elixir"@,
            ProjectFilter::Deno => "deno"@,
            ProjectFilter::Php => "php"@,
            ProjectFilter::Haskell => "haskell"@,
            ProjectFilter::Dart => "dart"@,
            ProjectFilter::Zig => "zig"@,
            ProjectFilter::Scala => "scala"@,
        }
    }

    /// The name by which the filter is written in options.
    pub fn name(&self) -> (r: &'static str)
        ensures
            r@ == self.spec_name(),
    {
        match self {
            ProjectFilter::All => "all",
            ProjectFilter::Rust => "rust",
            ProjectFilter::Node => "node",
            ProjectFilter::Python => "python",
            ProjectFilter::Go => "go",
            ProjectFilter::Java => "java",
            ProjectFilter::Cpp => "cpp",
            ProjectFilter::Swift => "swift",
            ProjectFilter::DotNet => "dotnet",
            ProjectFilter::Ruby => "ruby",
            ProjectFilter::Elixir => "elixir",
            ProjectFilter::Deno => "deno",
            ProjectFilter::Php => "php",
            ProjectFilter::Haskell => "haskell",
            ProjectFilter::Dart => "dart",
            ProjectFilter::Zig => "zig",
            ProjectFilter::Scala => "scala",
        }
    }

    /// Whether `input` writes this filter's name, exactly or up to ASCII case.
    pub open spec fn matches_name(self, input: Seq<char>, ignore_case: bool) -> bool {
        if ignore_case {
            eq_ignore_ascii_case(self.spec_name(), input)
        } else {
            self.spec_name() == input
        }
    }

    /// The filter at position `i` of the order in which names are tried.
    fn nth(i: u8) -> (r: Self)
        requires
            i < 17,
        ensures
            r == filter_at(i as int),
    {
        if i == 0 {
            ProjectFilter::All
        } else if i == 1 {
            ProjectFilter::Rust
        } else if i == 2 {
            ProjectFilter::Node
        } else if i == 3 {
            ProjectFilter::Python
        } else if i == 4 {
            ProjectFilter::Go
        } else if i == 5 {
            ProjectFilter::Java
        } else if i == 6 {
            ProjectFilter::Cpp
        } else if i == 7 {
            ProjectFilter::Swift
        } else if i == 8 {
            ProjectFilter::DotNet
        } else if i == 9 {
            ProjectFilter::Ruby
        } else if i == 10 {
            ProjectFilter::Elixir
        } else if i == 11 {
            ProjectFilter::Deno
        } else if i == 12 {
            ProjectFilter::Php
        } else if i == 13 {
            ProjectFilter::Haskell
        } else if i == 14 {
            ProjectFilter::Dart
        } else if i == 15 {
            ProjectFilter::Zig
        } else {
            ProjectFilter::Scala
        }
    }

    /// The first filter, from position `i` of the order on, whose name
    /// `input` writes.
    pub open spec fn named_from(input: Seq<char>, ignore_case: bool, i: int) -> Option<Self>
        decreases filter_count() - i,
    {
        if i < 0 || i >= filter_count() {
            None
        } else if filter_at(i).matches_name(input, ignore_case) {
            Some(filter_at(i))
        } else {
            Self::named_from(input, ignore_case, i + 1)
        }
    }

    /// The filter whose name `input` writes, if any.
    pub open spec fn named(input: Seq<char>, ignore_case: bool) -> Option<Self> {
        Self::named_from(input, ignore_case, 0)
    }

    /// Reads a filter from its name. With `ignore_case` the case of ASCII
    /// letters does not matter. Without a filter of that name the error
    /// says which input was refused.
    pub fn from_str(input: &str, ignore_case: bool) -> (r: Result<Self, String>)
        ensures
            match r {
                Ok(f) => Self::named(input@, ignore_case) == Some(f),
                Err(e) => Self::named(input@, ignore_case).is_none() && e@
                    == "invalid variant: "@ + input@,
            },
    {
        let wanted = chars_of(input);
        let mut i: u8 = 0;
        while i < 17
            invariant
                i <= 17,
                wanted@ == input@,
                Self::named(input@, ignore_case) == Self::named_from(
                    input@,
                    ignore_case,
                    i as int,
                ),
            decreases 17 - i,
        {
            let candidate = Self::nth(i);
            let name = chars_of(candidate.name());
            let hit = if ignore_case {
                same_ignoring_ascii_case(&name, &wanted)
            } else {
                same_text(&name, &wanted)
            };
            if hit {
                return Ok(candidate);
            }
            i += 1;
        }
        let mut message = String::from_str("invalid variant: ");
        message.append(input);
        Err(message)
    }
}

/// Configuration for project filtering criteria.
#[derive(Clone, Debug)]
pub struct FilterOptions {
    /// Minimum size threshold for build directories
    pub keep_size: String,
    /// Minimum age in days for projects to be considered
    pub keep_days: u32,
}

/// The criterion by which projects are ordered.
#[derive(Clone, Copy, PartialEq, Eq, Debug, Structural)]
pub enum SortCriteria {
    /// Sort by build artifacts size (largest first by default)
    Size,
    /// Sort by build artifacts modification time (oldest first by default)
    Age,
    /// Sort by project name alphabetically (A-Z by default)
    Name,
    /// Sort by project type name alphabetically
    Type,
}

impl SortCriteria {
    /// The name by which the criterion is written in options.
    pub open spec fn spec_name(self) -> Seq<char> {
        match self {
            SortCriteria::Size => "size"@,
            SortCriteria::Age => "age"@,
            SortCriteria::Name => "name"@,
            SortCriteria::Type => "type"@,
        }
    }

    /// The name by which the criterion is written in options.
    pub fn name(&self) -> (r: &'static str)
        ensures
            r@ == self.spec_name(),
    {
        match self {
            SortCriteria::Size => "size",
            SortCriteria::Age => "age",
            SortCriteria::Name => "name",
            SortCriteria::Type => "type",
        }
    }

    /// Whether `input` writes this criterion's name, exactly or up to ASCII case.
    pub open spec fn matches_name(self, input: Seq<char>, ignore_case: bool) -> bool {
        if ignore_case {
            eq_ignore_ascii_case(self.spec_name(), input)
        } else {
            self.spec_name() == input
        }
    }

    /// Whether `input` writes this criterion's name.
    fn is_named(&self, wanted: &Vec<char>, ignore_case: bool) -> (r: bool)
        ensures
            r == self.matches_name(wanted@, ignore_case),
    {
        let name = chars_of(self.name());
        if ignore_case {
            same_ignoring_ascii_case(&name, wanted)
        } else {
            same_text(&name, wanted)
        }
    }

    /// The criterion that `input` names, if any: the first of size, age,
    /// name and type whose name matches.
    pub open spec fn named(input: Seq<char>, ignore_case: bool) -> Option<SortCriteria> {
        if SortCriteria::Size.matches_name(input, ignore_case) {
            Some(SortCriteria::Size)
        } else if SortCriteria::Age.matches_name(input, ignore_case) {
            Some(SortCriteria::Age)
        } else if SortCriteria::Name.matches_name(input, ignore_case) {
            Some(SortCriteria::Name)
        } else if SortCriteria::Type.matches_name(input, ignore_case) {
            Some(SortCriteria::Type)
        } else {
            None
        }
    }

    /// Reads a criterion from its name. With `ignore_case` the case of ASCII
    /// letters does not matter.
    pub fn from_str(input: &str, ignore_case: bool) -> (r: Result<Self, String>)
        ensures
            match r {
                Ok(c) => Self::named(input@, ignore_case) == Some(c),
                Err(e) => Self::named(input@, ignore_case).is_none() && e@ == "invalid variant: "@
                    + input@,
            },
    {
        let wanted = chars_of(input);
        if SortCriteria::Size.is_named(&wanted, ignore_case) {
            Ok(SortCriteria::Size)
        } else if SortCriteria::Age.is_named(&wanted, ignore_case) {
            Ok(SortCriteria::Age)
        } else if SortCriteria::Name.is_named(&wanted, ignore_case) {
            Ok(SortCriteria::Name)
        } else if SortCriteria::Type.is_named(&wanted, ignore_case) {
            Ok(SortCriteria::Type)
        } else {
            let mut message = String::from_str("invalid variant: ");
            message.append(input);
            Err(message)
        }
    }
}

/// Configuration for project sorting behavior.
#[derive(Clone, Copy, Debug)]
pub struct SortOptions {
    /// The sorting criterion to apply, or `None` to preserve scan order
    pub criteria: Option<SortCriteria>,
    /// Whether to reverse the sort order
    pub reverse: bool,
}

} // verus!
