//! Character-level text utilities with exact sequence specifications.
//!
//! Text is handled as a vector of characters; every operation states its
//! result over the viewed `Seq<char>`.

use vstd::prelude::*;

verus! {
/// Appending one character to a `String` extends its view by that character.
pub assume_specification[ String::push ](s: &mut String, ch: char)
    ensures
        final(s)@ == old(s)@.push(ch),
;

/// The characters of `s`, in order.
pub fn chars_of(s: &str) -> (r: Vec<char>)
    ensures
        r@ == s@,
{
    let mut out: Vec<char> = Vec::new();
    for c in it: s.chars()
        invariant
            out@ == it.seq().take(it.index() as int),
            it.seq() == s@,
    {
        out.push(c);
    }
    out
}

/// The string made of the characters of `cs`, in order.
pub fn string_of(cs: &Vec<char>) -> (r: String)
    ensures
        r@ == cs@,
{
    let mut out: String = String::new();
    let mut i: usize = 0;
    while i < cs.len()
        invariant
            i <= cs.len(),
            out@ == cs@.take(i as int),
        decreases cs.len() - i,
    {
        out.push(cs[i]);
        i += 1;
    }
    out
}

/// Copies the characters of `s` from index `from` up to, not including, `to`.
pub fn slice_of(s: &Vec<char>, from: usize, to: usize) -> (r: Vec<char>)
    requires
        from <= to <= s.len(),
    ensures
        r@ == s@.subrange(from as int, to as int),
{
    let mut out: Vec<char> = Vec::new();
    let mut i: usize = from;
    while i < to
        invariant
            from <= i <= to <= s.len(),
            out@ == s@.subrange(from as int, i as int),
        decreases to - i,
    {
        out.push(s[i]);
        i += 1;
    }
    out
}

/// Whether two character sequences are equal.
pub fn same_text(a: &Vec<char>, b: &Vec<char>) -> (r: bool)
    ensures
        r == (a@ == b@),
{
    if a.len() != b.len() {
        return false;
    }
    let mut i: usize = 0;
    while i < a.len()
        invariant
            i <= a.len(),
            a.len() == b.len(),
            a@.take(i as int) == b@.take(i as int),
        decreases a.len() - i,
    {
        if a[i] != b[i] {
            return false;
        }
        i += 1;
    }
    assert(a@.take(a.len() as int) == a@);
    assert(b@.take(b.len() as int) == b@);
    true
}

/// Whether `s` and `t` hold the same characters.
pub fn str_eq(s: &str, t: &str) -> (r: bool)
    ensures
        r == (s@ == t@),
{
    let a = chars_of(s);
    let b = chars_of(t);
    same_text(&a, &b)
}

/// Whether `c` is Unicode-alphanumeric, as the standard library classifies it.
pub uninterp spec fn is_alphanumeric_char(c: char) -> bool;

/// `char::is_alphanumeric` decides membership in the alphabetic and numeric
/// character categories; its verdict is a fixed property of the character.
pub assume_specification[ char::is_alphanumeric ](c: char) -> (r: bool)
    ensures
        r == is_alphanumeric_char(c),
;

/// The characters with the Unicode `White_Space` property.
pub open spec fn is_whitespace_char(c: char) -> bool {
    let u = c as u32;
    (0x09 <= u <= 0x0D) || u == 0x20 || u == 0x85 || u == 0xA0 || u == 0x1680 || (0x2000 <= u
        <= 0x200A) || u == 0x2028 || u == 0x2029 || u == 0x202F || u == 0x205F || u == 0x3000
}

/// Whether `c` is a whitespace character.
pub fn is_whitespace(c: char) -> (r: bool)
    ensures
        r == is_whitespace_char(c),
{
    let u: u32 = c as u32;
    (0x09 <= u && u <= 0x0D) || u == 0x20 || u == 0x85 || u == 0xA0 || u == 0x1680 || (0x2000 <= u
        && u <= 0x200A) || u == 0x2028 || u == 0x2029 || u == 0x202F || u == 0x205F || u == 0x3000
}

/// A set of characters that trimming and scanning can be asked to match.
#[derive(Clone, Copy, Debug)]
pub enum CharClass {
    /// Unicode whitespace.
    Whitespace,
    /// Everything but whitespace.
    NonWhitespace,
    /// Exactly the given character.
    Is(char),
    /// Every character but the given one.
    IsNot(char),
    /// Characters allowed in an identifier: alphanumeric or an underscore.
    Word,
}

impl CharClass {
    /// Whether `c` belongs to the class.
    pub open spec fn holds(self, c: char) -> bool {
        match self {
            CharClass::Whitespace => is_whitespace_char(c),
            CharClass::NonWhitespace => !is_whitespace_char(c),
            CharClass::Is(x) => c == x,
            CharClass::IsNot(x) => c != x,
            CharClass::Word => is_alphanumeric_char(c) || c == '_',
        }
    }

    /// Whether `c` belongs to the class.
    pub fn test(&self, c: char) -> (r: bool)
        ensures
            r == self.holds(c),
    {
        match self {
            CharClass::Whitespace => is_whitespace(c),
            CharClass::NonWhitespace => !is_whitespace(c),
            CharClass::Is(x) => c == *x,
            CharClass::IsNot(x) => c != *x,
            CharClass::Word => c.is_alphanumeric() || c == '_',
        }
    }
}

/// How many characters at the start of `s` belong to `class`.
pub open spec fn leading_run(s: Seq<char>, class: CharClass) -> nat
    decreases s.len(),
{
    if s.len() > 0 && class.holds(s[0]) {
        1 + leading_run(s.drop_first(), class)
    } else {
        0
    }
}

/// How many characters at the end of `s` belong to `class`.
pub open spec fn trailing_run(s: Seq<char>, class: CharClass) -> nat
    decreases s.len(),
{
    if s.len() > 0 && class.holds(s.last()) {
        1 + trailing_run(s.drop_last(), class)
    } else {
        0
    }
}

/// `s` without its leading characters in `class`.
pub open spec fn trim_start_of(s: Seq<char>, class: CharClass) -> Seq<char> {
    s.skip(leading_run(s, class) as int)
}

/// `s` without its trailing characters in `class`.
pub open spec fn trim_end_of(s: Seq<char>, class: CharClass) -> Seq<char> {
    s.take(s.len() - trailing_run(s, class))
}

/// `s` without its leading and trailing characters in `class`.
pub open spec fn trim_of(s: Seq<char>, class: CharClass) -> Seq<char> {
    trim_end_of(trim_start_of(s, class), class)
}

/// `s` without surrounding whitespace.
pub open spec fn trimmed(s: Seq<char>) -> Seq<char> {
    trim_of(s, CharClass::Whitespace)
}

/// The longest prefix of `s` whose characters all belong to `class`.
pub open spec fn take_while_of(s: Seq<char>, class: CharClass) -> Seq<char> {
    s.take(leading_run(s, class) as int)
}

/// The leading run is bounded by the length, covers only class members, and
/// stops at the first character outside the class.
pub proof fn lemma_leading_run(s: Seq<char>, class: CharClass)
    ensures
        leading_run(s, class) <= s.len(),
        forall|i: int| 0 <= i < leading_run(s, class) ==> class.holds(#[trigger] s[i]),
        leading_run(s, class) < s.len() ==> !class.holds(s[leading_run(s, class) as int]),
    decreases s.len(),
{
    if s.len() > 0 && class.holds(s[0]) {
        let t = s.drop_first();
        lemma_leading_run(t, class);
        assert forall|i: int| 0 <= i < leading_run(s, class) implies class.holds(
            #[trigger] s[i],
        ) by {
            if i > 0 {
                assert(s[i] == t[i - 1]);
            }
        }
    }
}

/// A position that is preceded only by class members and holds a character
/// outside the class (or is the end) is the length of the leading run.
pub proof fn lemma_leading_run_is(s: Seq<char>, class: CharClass, n: int)
    requires
        0 <= n <= s.len(),
        forall|i: int| 0 <= i < n ==> class.holds(#[trigger] s[i]),
        n < s.len() ==> !class.holds(s[n]),
    ensures
        leading_run(s, class) == n,
    decreases s.len(),
{
    if n > 0 {
        let t = s.drop_first();
        assert forall|i: int| 0 <= i < n - 1 implies class.holds(#[trigger] t[i]) by {}
        lemma_leading_run_is(t, class, n - 1);
    }
}

/// The trailing run is bounded by the length, covers only class members, and
/// stops at the last character outside the class.
pub proof fn lemma_trailing_run(s: Seq<char>, class: CharClass)
    ensures
        trailing_run(s, class) <= s.len(),
        forall|i: int|
            s.len() - trailing_run(s, class) <= i < s.len() ==> class.holds(#[trigger] s[i]),
        trailing_run(s, class) < s.len() ==> !class.holds(
            s[s.len() - trailing_run(s, class) - 1],
        ),
    decreases s.len(),
{
    if s.len() > 0 && class.holds(s.last()) {
        let t = s.drop_last();
        lemma_trailing_run(t, class);
        assert forall|i: int|
            s.len() - trailing_run(s, class) <= i < s.len() implies class.holds(
            #[trigger] s[i],
        ) by {
            if i < s.len() - 1 {
                assert(s[i] == t[i]);
            }
        }
    }
}

/// A position that is followed only by class members and is preceded by a
/// character outside the class (or is the start) marks the trailing run.
pub proof fn lemma_trailing_run_is(s: Seq<char>, class: CharClass, n: int)
    requires
        0 <= n <= s.len(),
        forall|i: int| n <= i < s.len() ==> class.holds(#[trigger] s[i]),
        n > 0 ==> !class.holds(s[n - 1]),
    ensures
        trailing_run(s, class) == s.len() - n,
    decreases s.len(),
{
    if n < s.len() {
        let t = s.drop_last();
        assert forall|i: int| n <= i < t.len() implies class.holds(#[trigger] t[i]) by {}
        lemma_trailing_run_is(t, class, n);
    }
}

/// The number of leading characters of `s` that belong to `class`.
pub fn leading_count(s: &Vec<char>, class: CharClass) -> (n: usize)
    ensures
        n == leading_run(s@, class),
        n <= s.len(),
{
    let mut i: usize = 0;
    while i < s.len() && class.test(s[i])
        invariant
            i <= s.len(),
            forall|k: int| 0 <= k < i ==> class.holds(#[trigger] s@[k]),
        decreases s.len() - i,
    {
        i += 1;
    }
    proof {
        lemma_leading_run_is(s@, class, i as int);
    }
    i
}

/// The number of trailing characters of `s` that belong to `class`.
pub fn trailing_count(s: &Vec<char>, class: CharClass) -> (n: usize)
    ensures
        n == trailing_run(s@, class),
        n <= s.len(),
{
    let mut i: usize = s.len();
    while i > 0 && class.test(s[i - 1])
        invariant
            i <= s.len(),
            forall|k: int| i <= k < s.len() ==> class.holds(#[trigger] s@[k]),
        decreases i,
    {
        i -= 1;
    }
    proof {
        lemma_trailing_run_is(s@, class, i as int);
    }
    s.len() - i
}

/// `s` without its leading characters in `class`.
pub fn trim_start_matches(s: &Vec<char>, class: CharClass) -> (r: Vec<char>)
    ensures
        r@ == trim_start_of(s@, class),
{
    let n = leading_count(s, class);
    slice_of(s, n, s.len())
}

/// `s` without its trailing characters in `class`.
pub fn trim_end_matches(s: &Vec<char>, class: CharClass) -> (r: Vec<char>)
    ensures
        r@ == trim_end_of(s@, class),
{
    let n = trailing_count(s, class);
    slice_of(s, 0, s.len() - n)
}

/// `s` without its leading and trailing characters in `class`.
pub fn trim_matches(s: &Vec<char>, class: CharClass) -> (r: Vec<char>)
    ensures
        r@ == trim_of(s@, class),
{
    let t = trim_start_matches(s, class);
    trim_end_matches(&t, class)
}

/// `s` without surrounding whitespace.
pub fn trim(s: &Vec<char>) -> (r: Vec<char>)
    ensures
        r@ == trimmed(s@),
{
    trim_matches(s, CharClass::Whitespace)
}

/// The longest prefix of `s` whose characters all belong to `class`.
pub fn take_while(s: &Vec<char>, class: CharClass) -> (r: Vec<char>)
    ensures
        r@ == take_while_of(s@, class),
{
    let n = leading_count(s, class);
    slice_of(s, 0, n)
}

/// The position of the first `c` in `s`, if there is one.
pub open spec fn first_index_of(s: Seq<char>, c: char) -> Option<int> {
    let n = leading_run(s, CharClass::IsNot(c));
    if n < s.len() {
        Some(n as int)
    } else {
        None
    }
}

/// The position of the last `c` in `s`, if there is one.
pub open spec fn last_index_of(s: Seq<char>, c: char) -> Option<int> {
    let n = trailing_run(s, CharClass::IsNot(c));
    if n < s.len() {
        Some(s.len() - n - 1)
    } else {
        None
    }
}

/// `first_index_of` names the least position holding `c`, and is `None`
/// exactly when `c` does not occur.
pub proof fn lemma_first_index_of(s: Seq<char>, c: char)
    ensures
        match first_index_of(s, c) {
            Some(i) => 0 <= i < s.len() && s[i] == c && forall|k: int|
                0 <= k < i ==> #[trigger] s[k] != c,
            None => !s.contains(c),
        },
{
    lemma_leading_run(s, CharClass::IsNot(c));
}

/// `last_index_of` names the greatest position holding `c`, and is `None`
/// exactly when `c` does not occur.
pub proof fn lemma_last_index_of(s: Seq<char>, c: char)
    ensures
        match last_index_of(s, c) {
            Some(i) => 0 <= i < s.len() && s[i] == c && forall|k: int|
                i < k < s.len() ==> #[trigger] s[k] != c,
            None => !s.contains(c),
        },
{
    lemma_trailing_run(s, CharClass::IsNot(c));
}

/// The position of the first `c` in `s`.
pub fn find_char(s: &Vec<char>, c: char) -> (r: Option<usize>)
    ensures
        match r {
            Some(i) => first_index_of(s@, c) == Some(i as int) && i < s.len(),
            None => first_index_of(s@, c).is_none(),
        },
{
    let n = leading_count(s, CharClass::IsNot(c));
    if n < s.len() {
        Some(n)
    } else {
        None
    }
}

/// The position of the last `c` in `s`.
pub fn rfind_char(s: &Vec<char>, c: char) -> (r: Option<usize>)
    ensures
        match r {
            Some(i) => last_index_of(s@, c) == Some(i as int) && i < s.len(),
            None => last_index_of(s@, c).is_none(),
        },
{
    let n = trailing_count(s, CharClass::IsNot(c));
    if n < s.len() {
        Some(s.len() - n - 1)
    } else {
        None
    }
}

/// Whether `c` occurs in `s`.
pub fn contains_char(s: &Vec<char>, c: char) -> (r: bool)
    ensures
        r == s@.contains(c),
{
    proof {
        lemma_first_index_of(s@, c);
    }
    find_char(s, c).is_some()
}

/// Whether `s` begins with `prefix`.
pub fn starts_with(s: &Vec<char>, prefix: &Vec<char>) -> (r: bool)
    ensures
        r == prefix@.is_prefix_of(s@),
{
    if prefix.len() > s.len() {
        return false;
    }
    let mut i: usize = 0;
    while i < prefix.len()
        invariant
            i <= prefix.len() <= s.len(),
            forall|k: int| 0 <= k < i ==> s@[k] == prefix@[k],
        decreases prefix.len() - i,
    {
        if s[i] != prefix[i] {
            return false;
        }
        i += 1;
    }
    true
}

/// Whether `s` ends with `suffix`.
pub fn ends_with(s: &Vec<char>, suffix: &Vec<char>) -> (r: bool)
    ensures
        r == suffix@.is_suffix_of(s@),
{
    if suffix.len() > s.len() {
        return false;
    }
    let base: usize = s.len() - suffix.len();
    let mut i: usize = 0;
    while i < suffix.len()
        invariant
            i <= suffix.len() <= s.len(),
            base == s.len() - suffix.len(),
            forall|k: int| 0 <= k < i ==> s@[base + k] == suffix@[k],
        decreases suffix.len() - i,
    {
        if s[base + i] != suffix[i] {
            return false;
        }
        i += 1;
    }
    true
}

/// Whether `pat` stands in `s` at position `i`.
pub open spec fn occurs_at(s: Seq<char>, pat: Seq<char>, i: int) -> bool {
    0 <= i && i + pat.len() <= s.len() && s.subrange(i, i + pat.len()) == pat
}

/// The first position at or after `from` where `pat` stands in `s`.
pub open spec fn first_occurrence_from(s: Seq<char>, pat: Seq<char>, from: int) -> Option<int>
    decreases s.len() + 1 - from,
{
    if from < 0 || from + pat.len() > s.len() {
        None
    } else if occurs_at(s, pat, from) {
        Some(from)
    } else {
        first_occurrence_from(s, pat, from + 1)
    }
}

/// The first position where `pat` stands in `s`.
pub open spec fn first_occurrence(s: Seq<char>, pat: Seq<char>) -> Option<int> {
    first_occurrence_from(s, pat, 0)
}

/// Whether `pat` stands somewhere in `s`.
pub open spec fn contains_text(s: Seq<char>, pat: Seq<char>) -> bool {
    first_occurrence(s, pat).is_some()
}

/// `first_occurrence_from` names the least matching position at or after
/// `from`, and is `None` exactly when there is none.
pub proof fn lemma_first_occurrence_from(s: Seq<char>, pat: Seq<char>, from: int)
    requires
        0 <= from,
    ensures
        match first_occurrence_from(s, pat, from) {
            Some(i) => from <= i && occurs_at(s, pat, i) && forall|k: int|
                from <= k < i ==> !occurs_at(s, pat, k),
            None => forall|k: int| from <= k ==> !occurs_at(s, pat, k),
        },
    decreases s.len() + 1 - from,
{
    if from + pat.len() > s.len() {
    } else if occurs_at(s, pat, from) {
    } else {
        lemma_first_occurrence_from(s, pat, from + 1);
    }
}

/// Whether `pat` stands in `s` at position `i`.
pub fn matches_at(s: &Vec<char>, pat: &Vec<char>, i: usize) -> (r: bool)
    ensures
        r == occurs_at(s@, pat@, i as int),
{
    if i > s.len() || pat.len() > s.len() - i {
        return false;
    }
    let mut k: usize = 0;
    while k < pat.len()
        invariant
            k <= pat.len(),
            i + pat.len() <= s.len(),
            forall|j: int| 0 <= j < k ==> s@[i + j] == pat@[j],
        decreases pat.len() - k,
    {
        if s[i + k] != pat[k] {
            return false;
        }
        k += 1;
    }
    assert(s@.subrange(i as int, i + pat@.len()) =~= pat@);
    true
}

/// The first position where `pat` stands in `s`.
pub fn find_text(s: &Vec<char>, pat: &Vec<char>) -> (r: Option<usize>)
    ensures
        match r {
            Some(i) => first_occurrence(s@, pat@) == Some(i as int) && i + pat.len() <= s.len(),
            None => first_occurrence(s@, pat@).is_none(),
        },
{
    if pat.len() > s.len() {
        return None;
    }
    let last: usize = s.len() - pat.len();
    let mut i: usize = 0;
    while i < last
        invariant
            i <= last,
            last == s.len() - pat.len(),
            first_occurrence(s@, pat@) == first_occurrence_from(s@, pat@, i as int),
        decreases last - i,
    {
        if matches_at(s, pat, i) {
            return Some(i);
        }
        i += 1;
    }
    if matches_at(s, pat, last) {
        Some(last)
    } else {
        assert(first_occurrence_from(s@, pat@, last + 1).is_none());
        None
    }
}

/// Whether `pat` stands somewhere in `s`.
pub fn contains(s: &Vec<char>, pat: &Vec<char>) -> (r: bool)
    ensures
        r == contains_text(s@, pat@),
{
    find_text(s, pat).is_some()
}

/// `s` without `prefix` in front, when it begins with it.
pub open spec fn without_prefix(s: Seq<char>, prefix: Seq<char>) -> Option<Seq<char>> {
    if prefix.is_prefix_of(s) {
        Some(s.skip(prefix.len() as int))
    } else {
        None
    }
}

/// `s` without `suffix` at its end, when it ends with it.
pub open spec fn without_suffix(s: Seq<char>, suffix: Seq<char>) -> Option<Seq<char>> {
    if suffix.is_suffix_of(s) {
        Some(s.take(s.len() - suffix.len()))
    } else {
        None
    }
}

/// `s` without `prefix` in front, when it begins with it.
pub fn strip_prefix(s: &Vec<char>, prefix: &Vec<char>) -> (r: Option<Vec<char>>)
    ensures
        match r {
            Some(t) => without_prefix(s@, prefix@) == Some(t@),
            None => without_prefix(s@, prefix@).is_none(),
        },
{
    if starts_with(s, prefix) {
        Some(slice_of(s, prefix.len(), s.len()))
    } else {
        None
    }
}

/// `s` without `suffix` at its end, when it ends with it.
pub fn strip_suffix(s: &Vec<char>, suffix: &Vec<char>) -> (r: Option<Vec<char>>)
    ensures
        match r {
            Some(t) => without_suffix(s@, suffix@) == Some(t@),
            None => without_suffix(s@, suffix@).is_none(),
        },
{
    if ends_with(s, suffix) {
        Some(slice_of(s, 0, s.len() - suffix.len()))
    } else {
        None
    }
}

/// `s` after every leading repetition of `pat` has been removed.
pub open spec fn without_leading_repeats(s: Seq<char>, pat: Seq<char>) -> Seq<char>
    decreases s.len(),
{
    if pat.len() > 0 && pat.is_prefix_of(s) {
        without_leading_repeats(s.skip(pat.len() as int), pat)
    } else {
        s
    }
}

/// `s` after every leading repetition of `pat` has been removed.
pub fn trim_start_repeats(s: &Vec<char>, pat: &Vec<char>) -> (r: Vec<char>)
    ensures
        r@ == without_leading_repeats(s@, pat@),
{
    let mut from: usize = 0;
    assert(s@.skip(0) =~= s@);
    if pat.len() > 0 {
        while matches_at(s, pat, from)
            invariant
                from <= s.len(),
                pat.len() > 0,
                without_leading_repeats(s@, pat@) == without_leading_repeats(
                    s@.skip(from as int),
                    pat@,
                ),
            decreases s.len() - from,
        {
            proof {
                let t = s@.skip(from as int);
                assert(t.skip(pat@.len() as int) =~= s@.skip(from + pat@.len()));
            }
            from += pat.len();
        }
        proof {
            let t = s@.skip(from as int);
            if pat@.is_prefix_of(t) {
                assert(t.subrange(0, pat@.len() as int) =~= s@.subrange(
                    from as int,
                    from + pat@.len(),
                ));
            }
        }
    }
    slice_of(s, from, s.len())
}

/// The text between the first and the second `sep` of `s` (or the end, when
/// there is no second one); `None` when `s` holds no `sep`.
pub open spec fn second_field(s: Seq<char>, sep: char) -> Option<Seq<char>> {
    match first_index_of(s, sep) {
        Some(i) => {
            let rest = s.skip(i + 1);
            Some(take_while_of(rest, CharClass::IsNot(sep)))
        },
        None => None,
    }
}

/// The text between the first and the second `sep` of `s`.
pub fn field_after_first(s: &Vec<char>, sep: char) -> (r: Option<Vec<char>>)
    ensures
        match r {
            Some(t) => second_field(s@, sep) == Some(t@),
            None => second_field(s@, sep).is_none(),
        },
{
    match find_char(s, sep) {
        Some(i) => {
            let rest = slice_of(s, i + 1, s.len());
            Some(take_while(&rest, CharClass::IsNot(sep)))
        },
        None => None,
    }
}

/// The text after the last `sep` of `s`; all of `s` when it holds no `sep`.
pub open spec fn last_field(s: Seq<char>, sep: char) -> Seq<char> {
    s.skip(s.len() - trailing_run(s, CharClass::IsNot(sep)))
}

/// The text after the last `sep` of `s`.
pub fn field_after_last(s: &Vec<char>, sep: char) -> (r: Vec<char>)
    ensures
        r@ == last_field(s@, sep),
{
    let n = trailing_count(s, CharClass::IsNot(sep));
    slice_of(s, s.len() - n, s.len())
}

/// The first maximal run of non-whitespace characters of `s`, if any.
pub open spec fn first_word(s: Seq<char>) -> Option<Seq<char>> {
    let t = trim_start_of(s, CharClass::Whitespace);
    if t.len() == 0 {
        None
    } else {
        Some(take_while_of(t, CharClass::NonWhitespace))
    }
}

/// The first maximal run of non-whitespace characters of `s`.
pub fn first_word_of(s: &Vec<char>) -> (r: Option<Vec<char>>)
    ensures
        match r {
            Some(t) => first_word(s@) == Some(t@),
            None => first_word(s@).is_none(),
        },
{
    let t = trim_start_matches(s, CharClass::Whitespace);
    if t.len() == 0 {
        None
    } else {
        Some(take_while(&t, CharClass::NonWhitespace))
    }
}

/// The end of the first line of `s`: the position of its first line feed, or
/// the length of `s`.
pub open spec fn line_end(s: Seq<char>) -> nat {
    leading_run(s, CharClass::IsNot('\n'))
}

/// A line without the carriage return that preceded its line feed.
pub open spec fn without_carriage_return(line: Seq<char>, terminated: bool) -> Seq<char> {
    if terminated && line.len() > 0 && line.last() == '\r' {
        line.drop_last()
    } else {
        line
    }
}

/// The lines of `s`: the pieces between line feeds, each without the
/// carriage return that preceded its line feed; a final line feed ends the
/// last line and starts no new one.
pub open spec fn lines_of(s: Seq<char>) -> Seq<Seq<char>>
    decreases s.len(),
{
    if s.len() == 0 {
        Seq::empty()
    } else {
        let end = line_end(s);
        if end < s.len() {
            seq![without_carriage_return(s.take(end as int), true)] + lines_of(
                s.skip(end as int + 1),
            )
        } else {
            seq![s]
        }
    }
}

/// The view of each line of a vector of lines.
pub open spec fn line_views(lines: Seq<Vec<char>>) -> Seq<Seq<char>> {
    lines.map_values(|l: Vec<char>| l@)
}

/// The lines of `s`.
pub fn lines(s: &Vec<char>) -> (r: Vec<Vec<char>>)
    ensures
        line_views(r@) == lines_of(s@),
{
    let mut out: Vec<Vec<char>> = Vec::new();
    let mut pos: usize = 0;
    assert(s@.skip(0) =~= s@);
    while pos < s.len()
        invariant
            pos <= s.len(),
            lines_of(s@) == line_views(out@) + lines_of(s@.skip(pos as int)),
        decreases s.len() - pos,
    {
        let rest = slice_of(s, pos, s.len());
        let end = leading_count(&rest, CharClass::IsNot('\n'));
        if end < rest.len() {
            let mut stop: usize = end;
            if stop > 0 && rest[stop - 1] == '\r' {
                stop -= 1;
            }
            let line = slice_of(&rest, 0, stop);
            assert(line@ =~= without_carriage_return(rest@.take(end as int), true));
            out.push(line);
            proof {
                assert(rest@.skip(end + 1) =~= s@.skip(pos + end + 1));
            }
            pos = pos + end + 1;
        } else {
            let line = slice_of(&rest, 0, rest.len());
            assert(line@ =~= rest@);
            out.push(line);
            pos = s.len();
        }
    }
    out
}

/// The lower-case form of an ASCII letter; other characters unchanged.
pub open spec fn ascii_lower_char(c: char) -> char {
    if 'A' <= c && c <= 'Z' {
        ((c as u8) + 32) as char
    } else {
        c
    }
}

/// `s` with its ASCII letters in lower case.
pub open spec fn ascii_lower(s: Seq<char>) -> Seq<char> {
    s.map_values(|c: char| ascii_lower_char(c))
}

/// Whether `a` and `b` are equal up to the case of ASCII letters.
pub open spec fn eq_ignore_ascii_case(a: Seq<char>, b: Seq<char>) -> bool {
    ascii_lower(a) == ascii_lower(b)
}

/// The lower-case form of an ASCII letter; other characters unchanged.
pub fn to_ascii_lower(c: char) -> (r: char)
    ensures
        r == ascii_lower_char(c),
{
    if 'A' <= c && c <= 'Z' {
        ((c as u8) + 32) as char
    } else {
        c
    }
}

/// Whether `a` and `b` are equal up to the case of ASCII letters.
pub fn same_ignoring_ascii_case(a: &Vec<char>, b: &Vec<char>) -> (r: bool)
    ensures
        r == eq_ignore_ascii_case(a@, b@),
{
    if a.len() != b.len() {
        assert(ascii_lower(a@).len() != ascii_lower(b@).len());
        return false;
    }
    let mut i: usize = 0;
    while i < a.len()
        invariant
            i <= a.len(),
            a.len() == b.len(),
            forall|k: int| 0 <= k < i ==> ascii_lower_char(a@[k]) == ascii_lower_char(b@[k]),
        decreases a.len() - i,
    {
        if to_ascii_lower(a[i]) != to_ascii_lower(b[i]) {
            assert(ascii_lower(a@)[i as int] != ascii_lower(b@)[i as int]);
            return false;
        }
        i += 1;
    }
    assert(ascii_lower(a@) =~= ascii_lower(b@));
    true
}

/// Whether `a` comes before `b`, or equals it, in the lexicographic order of
/// their characters.
pub open spec fn lex_le(a: Seq<char>, b: Seq<char>) -> bool
    decreases a.len(),
{
    if a.len() == 0 {
        true
    } else if b.len() == 0 {
        false
    } else if a[0] != b[0] {
        a[0] < b[0]
    } else {
        lex_le(a.drop_first(), b.drop_first())
    }
}

/// Whether `a` comes before `b`, or equals it, in lexicographic order.
pub fn lex_at_most(a: &Vec<char>, b: &Vec<char>) -> (r: bool)
    ensures
        r == lex_le(a@, b@),
{
    let mut i: usize = 0;
    assert(a@.skip(0) =~= a@);
    assert(b@.skip(0) =~= b@);
    while i < a.len() && i < b.len()
        invariant
            i <= a.len(),
            i <= b.len(),
            lex_le(a@, b@) == lex_le(a@.skip(i as int), b@.skip(i as int)),
        decreases a.len() - i,
    {
        if a[i] != b[i] {
            return a[i] < b[i];
        }
        proof {
            assert(a@.skip(i as int).drop_first() =~= a@.skip(i + 1));
            assert(b@.skip(i as int).drop_first() =~= b@.skip(i + 1));
        }
        i += 1;
    }
    i == a.len()
}

/// The character of a decimal digit.
pub open spec fn digit_char(d: nat) -> char {
    if d == 0 {
        '0'
    } else if d == 1 {
        '1'
    } else if d == 2 {
        '2'
    } else if d == 3 {
        '3'
    } else if d == 4 {
        '4'
    } else if d == 5 {
        '5'
    } else if d == 6 {
        '6'
    } else if d == 7 {
        '7'
    } else if d == 8 {
        '8'
    } else {
        '9'
    }
}

/// The decimal numeral of `n`, without leading zeros.
pub open spec fn decimal_text(n: nat) -> Seq<char>
    decreases n,
{
    if n < 10 {
        seq![digit_char(n)]
    } else {
        decimal_text(n / 10).push(digit_char(n % 10))
    }
}

/// The character of a decimal digit.
fn digit_to_char(d: u64) -> (r: char)
    requires
        d < 10,
    ensures
        r == digit_char(d as nat),
{
    if d == 0 {
        '0'
    } else if d == 1 {
        '1'
    } else if d == 2 {
        '2'
    } else if d == 3 {
        '3'
    } else if d == 4 {
        '4'
    } else if d == 5 {
        '5'
    } else if d == 6 {
        '6'
    } else if d == 7 {
        '7'
    } else if d == 8 {
        '8'
    } else {
        '9'
    }
}

/// Appends the decimal numeral of `n` to `out`.
pub fn push_decimal(out: &mut String, n: u64)
    ensures
        final(out)@ == old(out)@ + decimal_text(n as nat),
    decreases n,
{
    if n < 10 {
        out.push(digit_to_char(n));
    } else {
        push_decimal(out, n / 10);
        out.push(digit_to_char(n % 10));
    }
}

/// Every text comes before or equals itself.
pub proof fn lemma_lex_le_reflexive(a: Seq<char>)
    ensures
        lex_le(a, a),
    decreases a.len(),
{
    if a.len() > 0 {
        lemma_lex_le_reflexive(a.drop_first());
    }
}

/// Of two texts, one comes before or equals the other.
pub proof fn lemma_lex_le_total(a: Seq<char>, b: Seq<char>)
    ensures
        lex_le(a, b) || lex_le(b, a),
    decreases a.len(),
{
    if a.len() > 0 && b.len() > 0 && a[0] == b[0] {
        lemma_lex_le_total(a.drop_first(), b.drop_first());
    }
}

/// The lexicographic order is transitive.
pub proof fn lemma_lex_le_transitive(a: Seq<char>, b: Seq<char>, c: Seq<char>)
    requires
        lex_le(a, b),
        lex_le(b, c),
    ensures
        lex_le(a, c),
    decreases a.len(),
{
    if a.len() > 0 && b.len() > 0 && c.len() > 0 && a[0] == b[0] && b[0] == c[0] {
        lemma_lex_le_transitive(a.drop_first(), b.drop_first(), c.drop_first());
    }
}

} // verus!
