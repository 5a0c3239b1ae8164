//! Best-effort extraction of project names from manifests.
//!
//! A manifest is scanned line by line; each kind of manifest has a rule that
//! says, for one trimmed line, whether the scan goes on or ends, and with
//! which name.

use vstd::prelude::*;
use crate::project::project::optional_text;
use crate::scanner::json::{json_string_member, json_text_member};
use crate::scanner::Scanner;
use crate::text::{
    chars_of, contains, contains_char, contains_text, ends_with, field_after_first,
    field_after_last, find_char, find_text, first_index_of, first_occurrence, first_word,
    first_word_of, last_field, last_index_of, lemma_first_index_of, lemma_last_index_of,
    line_views, lines, lines_of, rfind_char, second_field, slice_of, starts_with, string_of,
    strip_prefix, strip_suffix, take_while, take_while_of, trim, trim_end_matches, trim_end_of,
    trim_matches, trim_of, trim_start_matches, trim_start_of, trim_start_repeats, trimmed,
    without_leading_repeats, without_prefix, without_suffix, CharClass,
};

verus! {
/// The ways in which a manifest line can carry the project's name.
#[derive(Clone, Copy, PartialEq, Eq, Debug, Structural)]
pub enum LineRule {
    /// `name = "value"` at the start of a line; a line without a quoted
    /// value is passed over.
    TomlName,
    /// The first `name ... =` line decides, quoted value or not.
    FirstNameLine,
    /// The first line holding `name` and `=` decides.
    SetupCall,
    /// `module path/to/name`: the last piece of the module path.
    GoModule,
    /// `<artifactId>value</artifactId>` alone on a line.
    MavenArtifact,
    /// `rootProject.name = value`, quoted or not.
    GradleRootProject,
    /// `project(name ...)`.
    CmakeProject,
    /// The first line holding `name:` decides.
    SwiftName,
    /// `x.name = "value"`; a line without a quoted value is passed over.
    GemspecName,
    /// `app: :atom`.
    MixApp,
    /// `name: value` at the start of a line.
    PubspecName,
    /// `name := "value"`; a line without a quoted value is passed over.
    SbtName,
}

/// The text between the first and the last double quote of `line`, when it
/// holds at least two.
pub open spec fn quoted_value(line: Seq<char>) -> Option<Seq<char>> {
    match (first_index_of(line, '"'), last_index_of(line, '"')) {
        (Some(a), Some(b)) => if a == b {
            None
        } else {
            Some(line.subrange(a + 1, b))
        },
        _ => None,
    }
}

/// Whether `line` begins with `name` and holds an equals sign.
pub open spec fn is_name_assignment(line: Seq<char>) -> bool {
    "name"@.is_prefix_of(line) && line.contains('=')
}

/// The quoted value of a line that assigns `name`.
pub open spec fn name_from_line(line: Seq<char>) -> Option<Seq<char>> {
    if is_name_assignment(line) {
        quoted_value(line)
    } else {
        None
    }
}

/// The argument list of a CMake `project(` line, without the command and
/// the closing parentheses.
pub open spec fn cmake_arguments(line: Seq<char>) -> Seq<char> {
    trimmed(
        trim_end_of(
            without_leading_repeats(without_leading_repeats(line, "project("@), "PROJECT("@),
            CharClass::Is(')'),
        ),
    )
}

/// A word without surrounding double quotes and then single quotes.
pub open spec fn unquoted(word: Seq<char>) -> Seq<char> {
    trim_of(trim_of(word, CharClass::Is('"')), CharClass::Is('\''))
}

/// The atom that follows `app:` on a line of a Mix project file.
pub open spec fn mix_atom(line: Seq<char>) -> Option<Seq<char>> {
    match first_occurrence(line, "app:"@) {
        Some(pos) => {
            let after = trim_start_of(line.skip(pos + 4), CharClass::Whitespace);
            match without_prefix(after, seq![':']) {
                Some(atom) => Some(take_while_of(atom, CharClass::Word)),
                None => None,
            }
        },
        None => None,
    }
}

/// What one trimmed line means under a rule: `None` when the scan goes on,
/// `Some(result)` when it ends with `result`.
pub open spec fn line_verdict(rule: LineRule, line: Seq<char>) -> Option<Option<Seq<char>>> {
    match rule {
        LineRule::TomlName => match name_from_line(line) {
            Some(n) => Some(Some(n)),
            None => None,
        },
        LineRule::FirstNameLine => if is_name_assignment(line) {
            Some(quoted_value(line))
        } else {
            None
        },
        LineRule::SetupCall => if contains_text(line, "name"@) && line.contains('=') {
            Some(quoted_value(line))
        } else {
            None
        },
        LineRule::GoModule => match without_prefix(line, "module "@) {
            Some(rest) => Some(Some(last_field(trimmed(rest), '/'))),
            None => None,
        },
        LineRule::MavenArtifact => if "<artifactId>"@.is_prefix_of(line) && "</artifactId>"@.is_suffix_of(
            line,
        ) {
            match without_prefix(line, "<artifactId>"@) {
                Some(rest) => Some(without_suffix(rest, "</artifactId>"@)),
                None => Some(None),
            }
        } else {
            None
        },
        LineRule::GradleRootProject => if contains_text(line, "rootProject.name"@)
            && line.contains('=') {
            match quoted_value(line) {
                Some(n) => Some(Some(n)),
                None => match second_field(line, '=') {
                    Some(v) => Some(Some(trim_of(trimmed(v), CharClass::Is('\'')))),
                    None => Some(None),
                },
            }
        } else {
            None
        },
        LineRule::CmakeProject => if "project("@.is_prefix_of(line) || "PROJECT("@.is_prefix_of(
            line,
        ) {
            match first_word(cmake_arguments(line)) {
                Some(word) => if unquoted(word).len() > 0 {
                    Some(Some(unquoted(word)))
                } else {
                    None
                },
                None => Some(None),
            }
        } else {
            None
        },
        LineRule::SwiftName => if contains_text(line, "name:"@) {
            Some(quoted_value(line))
        } else {
            None
        },
        LineRule::GemspecName => if contains_text(line, ".name"@) && line.contains('=') {
            match quoted_value(line) {
                Some(n) => Some(Some(n)),
                None => None,
            }
        } else {
            None
        },
        LineRule::MixApp => match mix_atom(line) {
            Some(name) => if name.len() > 0 {
                Some(Some(name))
            } else {
                None
            },
            None => None,
        },
        LineRule::PubspecName => match without_prefix(line, "name:"@) {
            Some(rest) => if trimmed(rest).len() > 0 {
                Some(Some(trimmed(rest)))
            } else {
                None
            },
            None => None,
        },
        LineRule::SbtName => if "name"@.is_prefix_of(line) && contains_text(line, ":="@) {
            match quoted_value(line) {
                Some(n) => Some(Some(n)),
                None => None,
            }
        } else {
            None
        },
    }
}

/// The verdict of the first line, trimmed, on which the scan ends; `None`
/// when it ends on none.
pub open spec fn scan_lines(rule: LineRule, lines: Seq<Seq<char>>) -> Option<Option<Seq<char>>>
    decreases lines.len(),
{
    if lines.len() == 0 {
        None
    } else {
        match line_verdict(rule, trimmed(lines[0])) {
            Some(v) => Some(v),
            None => scan_lines(rule, lines.drop_first()),
        }
    }
}

/// What scanning the text of a manifest under a rule yields.
pub open spec fn scan_text(rule: LineRule, content: Seq<char>) -> Option<Option<Seq<char>>> {
    scan_lines(rule, lines_of(content))
}

/// The name in the `[metadata]` section of an INI-style manifest: the value
/// of the first `name ... =` line while that section is open.
pub open spec fn cfg_scan(lines: Seq<Seq<char>>, in_metadata: bool) -> Option<Seq<char>>
    decreases lines.len(),
{
    if lines.len() == 0 {
        None
    } else {
        let line = trimmed(lines[0]);
        let rest = lines.drop_first();
        if line == "[metadata]"@ {
            cfg_scan(rest, true)
        } else if seq!['['].is_prefix_of(line) && seq![']'].is_suffix_of(line) {
            cfg_scan(rest, false)
        } else if in_metadata && is_name_assignment(line) {
            match second_field(line, '=') {
                Some(v) => Some(trimmed(v)),
                None => None,
            }
        } else {
            cfg_scan(rest, in_metadata)
        }
    }
}

/// The view of a verdict.
pub open spec fn verdict_view(v: Option<Option<String>>) -> Option<Option<Seq<char>>> {
    match v {
        Some(inner) => Some(optional_text(inner)),
        None => None,
    }
}

/// The name that a JSON manifest gives under its top-level `name`.
pub open spec fn json_name(content: Seq<char>) -> Option<Seq<char>> {
    match json_text_member(content, "name"@) {
        Ok(Some(n)) => Some(n),
        _ => None,
    }
}

/// Extract a quoted string value from a line of characters.
pub fn quoted_in(line: &Vec<char>) -> (r: Option<String>)
    ensures
        optional_text(r) == quoted_value(line@),
{
    proof {
        lemma_first_index_of(line@, '"');
        lemma_last_index_of(line@, '"');
    }
    let start = match find_char(line, '"') {
        Some(i) => i,
        None => {
            return None;
        },
    };
    let end = match rfind_char(line, '"') {
        Some(i) => i,
        None => {
            return None;
        },
    };
    if start == end {
        return None;
    }
    assert(start < end);
    let inner = slice_of(line, start + 1, end);
    Some(string_of(&inner))
}

/// Whether `line` begins with `name` and holds an equals sign.
pub fn assigns_name(line: &Vec<char>) -> (r: bool)
    ensures
        r == is_name_assignment(line@),
{
    let prefix = chars_of("name");
    starts_with(line, &prefix) && contains_char(line, '=')
}

/// What one trimmed line means under a rule.
pub fn judge_line(rule: LineRule, line: &Vec<char>) -> (r: Option<Option<String>>)
    ensures
        verdict_view(r) == line_verdict(rule, line@),
{
    match rule {
        LineRule::TomlName => {
            if assigns_name(line) {
                match quoted_in(line) {
                    Some(n) => Some(Some(n)),
                    None => None,
                }
            } else {
                None
            }
        },
        LineRule::FirstNameLine => {
            if assigns_name(line) {
                Some(quoted_in(line))
            } else {
                None
            }
        },
        LineRule::SetupCall => {
            if contains(line, &chars_of("name")) && contains_char(line, '=') {
                Some(quoted_in(line))
            } else {
                None
            }
        },
        LineRule::GoModule => {
            match strip_prefix(line, &chars_of("module ")) {
                Some(rest) => {
                    let import_path = trim(&rest);
                    let name = field_after_last(&import_path, '/');
                    Some(Some(string_of(&name)))
                },
                None => None,
            }
        },
        LineRule::MavenArtifact => {
            let open = chars_of("<artifactId>");
            let close = chars_of("</artifactId>");
            if starts_with(line, &open) && ends_with(line, &close) {
                match strip_prefix(line, &open) {
                    Some(rest) => match strip_suffix(&rest, &close) {
                        Some(name) => Some(Some(string_of(&name))),
                        None => Some(None),
                    },
                    None => Some(None),
                }
            } else {
                None
            }
        },
        LineRule::GradleRootProject => {
            if contains(line, &chars_of("rootProject.name")) && contains_char(line, '=') {
                match quoted_in(line) {
                    Some(n) => Some(Some(n)),
                    None => match field_after_first(line, '=') {
                        Some(v) => {
                            let value = trim_matches(&trim(&v), CharClass::Is('\''));
                            Some(Some(string_of(&value)))
                        },
                        None => Some(None),
                    },
                }
            } else {
                None
            }
        },
        LineRule::CmakeProject => {
            let lower = chars_of("project(");
            let upper = chars_of("PROJECT(");
            if starts_with(line, &lower) || starts_with(line, &upper) {
                let a = trim_start_repeats(line, &lower);
                let b = trim_start_repeats(&a, &upper);
                let c = trim_end_matches(&b, CharClass::Is(')'));
                let inner = trim(&c);
                match first_word_of(&inner) {
                    Some(word) => {
                        let bare = trim_matches(&word, CharClass::Is('"'));
                        let name = trim_matches(&bare, CharClass::Is('\''));
                        if name.len() > 0 {
                            Some(Some(string_of(&name)))
                        } else {
                            None
                        }
                    },
                    None => Some(None),
                }
            } else {
                None
            }
        },
        LineRule::SwiftName => {
            if contains(line, &chars_of("name:")) {
                Some(quoted_in(line))
            } else {
                None
            }
        },
        LineRule::GemspecName => {
            if contains(line, &chars_of(".name")) && contains_char(line, '=') {
                match quoted_in(line) {
                    Some(n) => Some(Some(n)),
                    None => None,
                }
            } else {
                None
            }
        },
        LineRule::MixApp => {
            let pattern = chars_of("app:");
            proof {
                reveal_strlit("app:");
            }
            match find_text(line, &pattern) {
                Some(pos) => {
                    let tail = slice_of(line, pos + 4, line.len());
                    let after = trim_start_matches(&tail, CharClass::Whitespace);
                    match strip_prefix(&after, &vec![':']) {
                        Some(atom) => {
                            let name = take_while(&atom, CharClass::Word);
                            if name.len() > 0 {
                                Some(Some(string_of(&name)))
                            } else {
                                None
                            }
                        },
                        None => None,
                    }
                },
                None => None,
            }
        },
        LineRule::PubspecName => {
            match strip_prefix(line, &chars_of("name:")) {
                Some(rest) => {
                    let value = trim(&rest);
                    if value.len() > 0 {
                        Some(Some(string_of(&value)))
                    } else {
                        None
                    }
                },
                None => None,
            }
        },
        LineRule::SbtName => {
            if starts_with(line, &chars_of("name")) && contains(line, &chars_of(":=")) {
                match quoted_in(line) {
                    Some(n) => Some(Some(n)),
                    None => None,
                }
            } else {
                None
            }
        },
    }
}

/// What scanning the text of a manifest under a rule yields: the verdict
/// of the first line, trimmed, on which the scan ends.
pub fn scan_manifest(rule: LineRule, content: &str) -> (r: Option<Option<String>>)
    ensures
        verdict_view(r) == scan_text(rule, content@),
{
    let text = chars_of(content);
    let all = lines(&text);
    let ghost views = line_views(all@);
    let mut i: usize = 0;
    assert(views.skip(0) =~= views);
    while i < all.len()
        invariant
            i <= all.len(),
            views == line_views(all@),
            views == lines_of(content@),
            scan_text(rule, content@) == scan_lines(rule, views.skip(i as int)),
        decreases all.len() - i,
    {
        let line = trim(&all[i]);
        proof {
            assert(views.skip(i as int).drop_first() =~= views.skip(i + 1));
        }
        match judge_line(rule, &line) {
            Some(v) => {
                return Some(v);
            },
            None => {},
        }
        i += 1;
    }
    None
}

/// The name in the `[metadata]` section of an INI-style manifest.
pub fn scan_cfg(content: &str) -> (r: Option<String>)
    ensures
        optional_text(r) == cfg_scan(lines_of(content@), false),
{
    let text = chars_of(content);
    let all = lines(&text);
    let ghost views = line_views(all@);
    let header = chars_of("[metadata]");
    let mut in_metadata = false;
    let mut i: usize = 0;
    assert(views.skip(0) =~= views);
    while i < all.len()
        invariant
            i <= all.len(),
            views == line_views(all@),
            views == lines_of(content@),
            header@ == "[metadata]"@,
            cfg_scan(lines_of(content@), false) == cfg_scan(views.skip(i as int), in_metadata),
        decreases all.len() - i,
    {
        let line = trim(&all[i]);
        proof {
            assert(views.skip(i as int).drop_first() =~= views.skip(i + 1));
        }
        if crate::text::same_text(&line, &header) {
            in_metadata = true;
        } else if starts_with(&line, &vec!['[']) && ends_with(&line, &vec![']']) {
            in_metadata = false;
        } else if in_metadata && assigns_name(&line) {
            return match field_after_first(&line, '=') {
                Some(v) => {
                    let value = trim(&v);
                    Some(string_of(&value))
                },
                None => None,
            };
        }
        i += 1;
    }
    None
}

/// The name that a JSON manifest gives under its top-level `name`.
pub fn name_in_json(content: &str) -> (r: Option<String>)
    ensures
        optional_text(r) == json_name(content@),
{
    match json_string_member(content, "name") {
        Ok(Some(n)) => Some(n),
        Ok(None) => None,
        Err(_) => None,
    }
}

/// The result of a scan that ended with a name.
pub open spec fn found_name(v: Option<Option<Seq<char>>>) -> Option<Seq<char>> {
    match v {
        Some(Some(n)) => Some(n),
        _ => None,
    }
}

impl Scanner {
    /// Extract a quoted string value from a line.
    pub fn extract_quoted_value(line: &str) -> (r: Option<String>)
        ensures
            optional_text(r) == quoted_value(line@),
    {
        quoted_in(&chars_of(line))
    }

    /// Check if a line contains a name field assignment.
    pub fn is_name_line(line: &str) -> (r: bool)
        ensures
            r == is_name_assignment(line@),
    {
        assigns_name(&chars_of(line))
    }

    /// Extract the name from a single line if it assigns a name.
    pub fn extract_name_from_line(line: &str) -> (r: Option<String>)
        ensures
            optional_text(r) == name_from_line(line@),
    {
        let text = chars_of(line);
        if !assigns_name(&text) {
            return None;
        }
        quoted_in(&text)
    }

    /// The name that scanning a manifest under a rule ends with, if it
    /// ends with one.
    pub fn extract_with(rule: LineRule, content: &str) -> (r: Option<String>)
        ensures
            optional_text(r) == found_name(scan_text(rule, content@)),
    {
        match scan_manifest(rule, content) {
            Some(Some(n)) => Some(n),
            Some(None) => None,
            None => None,
        }
    }

    /// Parse the name field from TOML content: the quoted value of the
    /// first line that assigns `name` a quoted value.
    pub fn parse_toml_name_field(content: &str) -> (r: Option<String>)
        ensures
            optional_text(r) == found_name(scan_text(LineRule::TomlName, content@)),
    {
        Self::extract_with(LineRule::TomlName, content)
    }

    /// Extract name from TOML-like content: the quoted value of the first
    /// line that assigns `name`.
    pub fn extract_name_from_toml_like_content(content: &str) -> (r: Option<String>)
        ensures
            optional_text(r) == found_name(scan_text(LineRule::FirstNameLine, content@)),
    {
        Self::extract_with(LineRule::FirstNameLine, content)
    }

    /// Extract name from Python content: the quoted value of the first
    /// line that holds `name` and an equals sign.
    pub fn extract_name_from_python_content(content: &str) -> (r: Option<String>)
        ensures
            optional_text(r) == found_name(scan_text(LineRule::SetupCall, content@)),
    {
        Self::extract_with(LineRule::SetupCall, content)
    }

    /// Extract name from INI-style configuration content: the value of
    /// `name` in the `[metadata]` section.
    pub fn extract_name_from_cfg_content(content: &str) -> (r: Option<String>)
        ensures
            optional_text(r) == cfg_scan(lines_of(content@), false),
    {
        scan_cfg(content)
    }
}

/// Whether a file name is that of a manifest whose text the detectors
/// read: a snapshot needs the text of these files and of no others.
pub open spec fn is_manifest(name: Seq<char>) -> bool {
    name == "Cargo.toml"@ || name == "package.json"@ || name == "deno.json"@ || name
        == "deno.jsonc"@ || name == "composer.json"@ || name == "pyproject.toml"@ || name
        == "setup.py"@ || name == "setup.cfg"@ || name == "go.mod"@ || name == "pom.xml"@ || name
        == "settings.gradle"@ || name == "settings.gradle.kts"@ || name == "CMakeLists.txt"@
        || name == "Package.swift"@ || name == "mix.exs"@ || name == "pubspec.yaml"@ || name
        == "build.sbt"@ || crate::path::extension_of(name) == Some("gemspec"@)
}

/// Whether a file name is that of a manifest whose text the detectors read.
pub fn is_manifest_name(name: &str) -> (r: bool)
    ensures
        r == is_manifest(name@),
{
    crate::text::str_eq(name, "Cargo.toml") || crate::text::str_eq(name, "package.json")
        || crate::text::str_eq(name, "deno.json") || crate::text::str_eq(name, "deno.jsonc")
        || crate::text::str_eq(name, "composer.json") || crate::text::str_eq(
        name,
        "pyproject.toml",
    ) || crate::text::str_eq(name, "setup.py") || crate::text::str_eq(name, "setup.cfg")
        || crate::text::str_eq(name, "go.mod") || crate::text::str_eq(name, "pom.xml")
        || crate::text::str_eq(name, "settings.gradle") || crate::text::str_eq(
        name,
        "settings.gradle.kts",
    ) || crate::text::str_eq(name, "CMakeLists.txt") || crate::text::str_eq(
        name,
        "Package.swift",
    ) || crate::text::str_eq(name, "mix.exs") || crate::text::str_eq(name, "pubspec.yaml")
        || crate::text::str_eq(name, "build.sbt") || match crate::path::extension(name) {
        Some(ext) => crate::text::str_eq(ext.as_str(), "gemspec"),
        None => false,
    }
}

} // verus!
