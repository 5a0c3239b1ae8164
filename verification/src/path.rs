//! Paths as text.
//!
//! A path is a string whose pieces are separated by `/`. Its components are
//! the pieces that are neither empty nor `.`; a leading `/` makes it
//! absolute.

use vstd::prelude::*;
use vstd::string::StringExecFns;
use crate::text::{
    chars_of, last_index_of, leading_count, leading_run, lemma_leading_run, lemma_leading_run_is, rfind_char,
    same_text, slice_of, string_of, CharClass,
};

verus! {
/// The position of the first `sep` in `s`, or the length of `s`.
pub open spec fn first_break(s: Seq<char>, sep: char) -> nat {
    leading_run(s, CharClass::IsNot(sep))
}

/// The pieces of `s` between occurrences of `sep`; always at least one.
pub open spec fn split_on(s: Seq<char>, sep: char) -> Seq<Seq<char>>
    decreases s.len(),
{
    if s.len() == 0 {
        seq![s]
    } else {
        let n = first_break(s, sep);
        if n < s.len() {
            seq![s.take(n as int)] + split_on(s.skip(n as int + 1), sep)
        } else {
            seq![s]
        }
    }
}

/// Whether a piece of a path counts as a component.
pub open spec fn is_component(piece: Seq<char>) -> bool {
    piece.len() > 0 && piece != seq!['.']
}

/// The components of `path`, in order.
pub open spec fn components(path: Seq<char>) -> Seq<Seq<char>> {
    split_on(path, '/').filter(|p: Seq<char>| is_component(p))
}

/// Whether one of the components of `path` is `name`.
pub open spec fn has_component(path: Seq<char>, name: Seq<char>) -> bool {
    components(path).contains(name)
}

/// The final component of `path`, unless there is none or it is `..`.
pub open spec fn file_name(path: Seq<char>) -> Option<Seq<char>> {
    let c = components(path);
    if c.len() == 0 || c.last() == seq!['.', '.'] {
        None
    } else {
        Some(c.last())
    }
}

/// `base` extended by `child`: an absolute `child` stands alone, an empty
/// `base` adds nothing, and a separator is put between the two unless
/// `base` already ends with one.
pub open spec fn joined(base: Seq<char>, child: Seq<char>) -> Seq<char> {
    if child.len() > 0 && child[0] == '/' {
        child
    } else if base.len() == 0 {
        child
    } else if base.last() == '/' {
        base + child
    } else {
        base + seq!['/'] + child
    }
}

/// The extension of a file name: what follows its last `.`, unless the name
/// has no `.` or only a leading one.
pub open spec fn extension_of(name: Seq<char>) -> Option<Seq<char>> {
    match last_index_of(name, '.') {
        Some(i) => if i == 0 {
            None
        } else {
            Some(name.skip(i + 1))
        },
        None => None,
    }
}

/// The stem of a file name: what precedes its last `.`, or the whole name
/// when it has no `.` or only a leading one.
pub open spec fn stem_of(name: Seq<char>) -> Seq<char> {
    match last_index_of(name, '.') {
        Some(i) => if i == 0 {
            name
        } else {
            name.take(i)
        },
        None => name,
    }
}

/// The views of a vector of character vectors.
pub open spec fn piece_views(pieces: Seq<Vec<char>>) -> Seq<Seq<char>> {
    pieces.map_values(|p: Vec<char>| p@)
}

/// The pieces of `s` between occurrences of `sep`.
pub fn split(s: &Vec<char>, sep: char) -> (r: Vec<Vec<char>>)
    ensures
        piece_views(r@) == split_on(s@, sep),
{
    let mut out: Vec<Vec<char>> = Vec::new();
    let mut pos: usize = 0;
    assert(s@.skip(0) =~= s@);
    loop
        invariant
            pos <= s.len(),
            split_on(s@, sep) == piece_views(out@) + split_on(s@.skip(pos as int), sep),
        decreases s.len() - pos,
    {
        let rest = slice_of(s, pos, s.len());
        let n = leading_count(&rest, CharClass::IsNot(sep));
        let piece = slice_of(&rest, 0, n);
        out.push(piece);
        if n < rest.len() {
            assert(rest@.skip(n + 1) =~= s@.skip(pos + n + 1));
            pos = pos + n + 1;
        } else {
            assert(piece@ =~= rest@);
            return out;
        }
    }
}

/// Whether a piece of a path counts as a component.
fn counts_as_component(piece: &Vec<char>) -> (r: bool)
    ensures
        r == is_component(piece@),
{
    if piece.len() == 0 {
        false
    } else if piece.len() == 1 && piece[0] == '.' {
        assert(piece@ =~= seq!['.']);
        false
    } else {
        true
    }
}

/// The components of `path`, in order.
pub fn path_components(path: &str) -> (r: Vec<Vec<char>>)
    ensures
        piece_views(r@) == components(path@),
{
    let text = chars_of(path);
    let mut pieces = split(&text, '/');
    let ghost all = piece_views(pieces@);
    let ghost keep = |p: Seq<char>| is_component(p);
    let mut out: Vec<Vec<char>> = Vec::new();
    let mut i: usize = 0;
    while i < pieces.len()
        invariant
            i <= pieces.len(),
            all == piece_views(pieces@),
            all == split_on(path@, '/'),
            keep == (|p: Seq<char>| is_component(p)),
            piece_views(out@) == all.take(i as int).filter(keep),
        decreases pieces.len() - i,
    {
        proof {
            assert(all.take(i + 1) =~= all.take(i as int).push(all[i as int]));
            all.take(i as int).lemma_filter_push(all[i as int], keep);
        }
        if counts_as_component(&pieces[i]) {
            let piece = slice_of(&pieces[i], 0, pieces[i].len());
            assert(piece@ =~= pieces@[i as int]@);
            out.push(piece);
        }
        i += 1;
    }
    assert(all.take(all.len() as int) =~= all);
    out
}

/// Whether one of the components of `path` is `name`.
pub fn path_has_component(path: &str, name: &str) -> (r: bool)
    ensures
        r == has_component(path@, name@),
{
    let parts = path_components(path);
    let wanted = chars_of(name);
    let ghost all = piece_views(parts@);
    let mut i: usize = 0;
    while i < parts.len()
        invariant
            i <= parts.len(),
            all == piece_views(parts@),
            all == components(path@),
            wanted@ == name@,
            forall|k: int| 0 <= k < i ==> all[k] != name@,
        decreases parts.len() - i,
    {
        if same_text(&parts[i], &wanted) {
            assert(all[i as int] == name@);
            return true;
        }
        i += 1;
    }
    false
}

/// The final component of `path`, unless there is none or it is `..`.
pub fn path_file_name(path: &str) -> (r: Option<String>)
    ensures
        match r {
            Some(n) => file_name(path@) == Some(n@),
            None => file_name(path@).is_none(),
        },
{
    let parts = path_components(path);
    if parts.len() == 0 {
        return None;
    }
    let last = &parts[parts.len() - 1];
    if last.len() == 2 && last[0] == '.' && last[1] == '.' {
        assert(last@ =~= seq!['.', '.']);
        None
    } else {
        Some(string_of(last))
    }
}

/// `base` extended by `child`.
pub fn join(base: &str, child: &str) -> (r: String)
    ensures
        r@ == joined(base@, child@),
{
    let b = chars_of(base);
    let c = chars_of(child);
    if c.len() > 0 && c[0] == '/' {
        String::from_str(child)
    } else if b.len() == 0 {
        String::from_str(child)
    } else if b[b.len() - 1] == '/' {
        let mut out = String::from_str(base);
        out.append(child);
        out
    } else {
        let mut out = String::from_str(base);
        proof {
            reveal_strlit("/");
        }
        out.append("/");
        out.append(child);
        out
    }
}

/// The extension of a file name.
pub fn extension(name: &str) -> (r: Option<String>)
    ensures
        match r {
            Some(e) => extension_of(name@) == Some(e@),
            None => extension_of(name@).is_none(),
        },
{
    let text = chars_of(name);
    match rfind_char(&text, '.') {
        Some(i) => {
            if i == 0 {
                None
            } else {
                let tail = slice_of(&text, i + 1, text.len());
                Some(string_of(&tail))
            }
        },
        None => None,
    }
}

/// The stem of a file name.
pub fn file_stem(name: &str) -> (r: String)
    ensures
        r@ == stem_of(name@),
{
    let text = chars_of(name);
    match rfind_char(&text, '.') {
        Some(i) => {
            if i == 0 {
                String::from_str(name)
            } else {
                let head = slice_of(&text, 0, i);
                string_of(&head)
            }
        },
        None => String::from_str(name),
    }
}

/// Whether `name` can name an entry of a directory: it is not empty, holds
/// no separator, and is not `.`.
pub open spec fn is_entry_name(name: Seq<char>) -> bool {
    name.len() > 0 && !name.contains('/') && name != seq!['.']
}

/// A text without a separator is one piece.
pub proof fn lemma_split_without_separator(s: Seq<char>, sep: char)
    requires
        !s.contains(sep),
    ensures
        split_on(s, sep) == seq![s],
{
    if s.len() > 0 {
        assert forall|i: int| 0 <= i < s.len() implies CharClass::IsNot(sep).holds(
            #[trigger] s[i],
        ) by {}
        lemma_leading_run_is(s, CharClass::IsNot(sep), s.len() as int);
    }
}

/// The components among pieces that end with `piece` are those among the
/// pieces before it, and `piece` itself if it counts as a component.
pub proof fn lemma_components_of_pieces(pieces: Seq<Seq<char>>, piece: Seq<char>)
    ensures
        pieces.push(piece).filter(|p: Seq<char>| is_component(p)) == (if is_component(piece) {
            pieces.filter(|p: Seq<char>| is_component(p)).push(piece)
        } else {
            pieces.filter(|p: Seq<char>| is_component(p))
        }),
        Seq::<Seq<char>>::empty().filter(|p: Seq<char>| is_component(p)) == Seq::<
            Seq<char>,
        >::empty(),
{
    let keep = |p: Seq<char>| is_component(p);
    pieces.lemma_filter_push(piece, keep);
    assert(Seq::<Seq<char>>::empty().filter(keep) =~= Seq::<Seq<char>>::empty()) by {
        reveal(Seq::filter);
    }
}

/// The only component of an entry name is the name itself.
pub proof fn lemma_components_of_entry_name(name: Seq<char>)
    requires
        is_entry_name(name),
    ensures
        components(name) == seq![name],
{
    lemma_split_without_separator(name, '/');
    let none = Seq::<Seq<char>>::empty();
    lemma_components_of_pieces(none, name);
}

/// The only component of an entry name behind a separator is the name.
pub proof fn lemma_components_behind_separator(name: Seq<char>)
    requires
        is_entry_name(name),
    ensures
        components(seq!['/'] + name) == seq![name],
{
    let rooted = seq!['/'] + name;
    let nothing = Seq::<char>::empty();
    lemma_split_without_separator(name, '/');
    lemma_leading_run_is(rooted, CharClass::IsNot('/'), 0);
    assert(rooted.take(0) =~= nothing);
    assert(rooted.skip(1) =~= name);
    let none = Seq::<Seq<char>>::empty();
    lemma_components_of_pieces(none, nothing);
    lemma_components_of_pieces(none.push(nothing), name);
    assert(seq![nothing] + seq![name] =~= none.push(nothing).push(name));
}


/// Splitting a text that holds a separator between two parts gives the
/// pieces of the first part followed by the pieces of the second.
pub proof fn lemma_split_concat(a: Seq<char>, b: Seq<char>, sep: char)
    ensures
        split_on(a + seq![sep] + b, sep) == split_on(a, sep) + split_on(b, sep),
    decreases a.len(),
{
    let s = a + seq![sep] + b;
    let class = CharClass::IsNot(sep);
    lemma_leading_run(a, class);
    let m = first_break(a, sep);
    assert(s[a.len() as int] == sep);
    assert forall|i: int| 0 <= i < m implies class.holds(#[trigger] s[i]) by {
        assert(s[i] == a[i]);
    }
    if m < a.len() {
        assert(s[m as int] == a[m as int]);
        lemma_leading_run_is(s, class, m as int);
        assert(s.take(m as int) =~= a.take(m as int));
        assert(s.skip(m as int + 1) =~= a.skip(m as int + 1) + seq![sep] + b);
        lemma_split_concat(a.skip(m as int + 1), b, sep);
        assert(split_on(a, sep) == seq![a.take(m as int)] + split_on(a.skip(m as int + 1), sep));
        assert(split_on(s, sep) == seq![s.take(m as int)] + split_on(s.skip(m as int + 1), sep));
        assert(seq![a.take(m as int)] + (split_on(a.skip(m as int + 1), sep) + split_on(b, sep))
            =~= seq![a.take(m as int)] + split_on(a.skip(m as int + 1), sep) + split_on(b, sep));
    } else {
        lemma_leading_run_is(s, class, a.len() as int);
        assert(s.take(a.len() as int) =~= a);
        assert(s.skip(a.len() as int + 1) =~= b);
        assert(split_on(a, sep) == seq![a]);
        assert(split_on(s, sep) == seq![a] + split_on(b, sep));
    }
}

/// The components of a text that holds a separator between two parts are
/// the components of the first part followed by those of the second.
pub proof fn lemma_components_concat(a: Seq<char>, b: Seq<char>)
    ensures
        components(a + seq!['/'] + b) == components(a) + components(b),
{
    lemma_split_concat(a, b, '/');
    Seq::filter_distributes_over_add(
        split_on(a, '/'),
        split_on(b, '/'),
        |p: Seq<char>| is_component(p),
    );
}

/// The empty text has no component.
pub proof fn lemma_components_of_nothing()
    ensures
        components(Seq::<char>::empty()) == Seq::<Seq<char>>::empty(),
{
    let nothing = Seq::<char>::empty();
    let none = Seq::<Seq<char>>::empty();
    assert(split_on(nothing, '/') == seq![nothing]);
    lemma_components_of_pieces(none, nothing);
    assert(seq![nothing] =~= none.push(nothing));
}

/// Two texts that meet at a separator, or of which one is empty, have
/// together the components of the one followed by those of the other.
pub proof fn lemma_components_meet(a: Seq<char>, b: Seq<char>)
    requires
        a.len() == 0 || b.len() == 0 || a.last() == '/' || b[0] == '/',
    ensures
        components(a + b) == components(a) + components(b),
{
    let nothing = Seq::<char>::empty();
    lemma_components_of_nothing();
    if a.len() == 0 {
        assert(a =~= nothing);
        assert(a + b =~= b);
        assert(components(a) + components(b) =~= components(b));
    } else if b.len() == 0 {
        assert(b =~= nothing);
        assert(a + b =~= a);
        assert(components(a) + components(b) =~= components(a));
    } else if a.last() == '/' {
        let head = a.drop_last();
        assert(a =~= head + seq!['/'] + nothing);
        assert(a + b =~= head + seq!['/'] + b);
        lemma_components_concat(head, nothing);
        lemma_components_concat(head, b);
        assert(components(head) + components(nothing) =~= components(head));
    } else {
        let tail = b.skip(1);
        assert(b =~= nothing + seq!['/'] + tail);
        assert(a + b =~= a + seq!['/'] + tail);
        lemma_components_concat(nothing, tail);
        lemma_components_concat(a, tail);
        assert(components(nothing) + components(tail) =~= components(tail));
    }
}


/// Whether `name` can name an entry of a directory.
pub fn is_valid_entry_name(name: &str) -> (r: bool)
    ensures
        r == is_entry_name(name@),
{
    let text = chars_of(name);
    if text.len() == 0 {
        return false;
    }
    if crate::text::contains_char(&text, '/') {
        return false;
    }
    if text.len() == 1 && text[0] == '.' {
        assert(text@ =~= seq!['.']);
        return false;
    }
    if text.len() == 1 {
        assert(seq!['.'][0] == '.');
    } else {
        assert(seq!['.'].len() == 1);
    }
    true
}

} // verus!
