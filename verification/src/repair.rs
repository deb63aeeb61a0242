//! Mending the small faults that hand-edited JSON tends to have, before the
//! text goes to the parser.

use crate::text::{chars_of, is_space, space};
use vstd::prelude::*;

verus! {

/// Where a reader of JSON text stands with respect to string literals.
pub enum Lex {
    /// Outside any string.
    Plain,
    /// Inside a string.
    Quoted,
    /// Inside a string, right behind a backslash.
    Escaped,
}

/// Where the reader stands after `c`, having stood at `before`.
pub open spec fn lex_step(before: Lex, c: char) -> Lex {
    match before {
        Lex::Plain => if c == '"' {
            Lex::Quoted
        } else {
            Lex::Plain
        },
        Lex::Quoted => if c == '\\' {
            Lex::Escaped
        } else if c == '"' {
            Lex::Plain
        } else {
            Lex::Quoted
        },
        Lex::Escaped => Lex::Quoted,
    }
}

/// Where the reader stands after the first `n` characters of `s`.
pub open spec fn lex_after(s: Seq<char>, n: int) -> Lex
    decreases n,
{
    if n <= 0 {
        Lex::Plain
    } else {
        lex_step(lex_after(s, n - 1), s[n - 1])
    }
}

/// Whether `c` closes an object or an array.
pub open spec fn is_closer(c: char) -> bool {
    c == '}' || c == ']'
}

/// Whether `j` is the index of the first character behind index `i` that is
/// no blank.
pub open spec fn next_solid_at(s: Seq<char>, i: int, j: int) -> bool {
    &&& i < j < s.len()
    &&& !is_space(s[j])
    &&& forall|k: int| i < k < j ==> is_space(s[k])
}

/// Whether the character at index `i` is a comma outside any string with
/// nothing but blanks between it and the end of an object or an array.
pub open spec fn is_trailing_comma(s: Seq<char>, i: int) -> bool {
    &&& 0 <= i < s.len()
    &&& s[i] == ','
    &&& lex_after(s, i) is Plain
    &&& exists|j: int| next_solid_at(s, i, j) && is_closer(s[j])
}

/// Whether mending leaves out the character at index `i`: a byte order mark
/// at the very start, or a trailing comma.
pub open spec fn is_dropped(s: Seq<char>, i: int) -> bool {
    (i == 0 && s.len() > 0 && s[0] == '\u{feff}') || is_trailing_comma(s, i)
}

/// The first `n` characters of `s` without those that mending leaves out.
pub open spec fn kept(s: Seq<char>, n: int) -> Seq<char>
    decreases n,
{
    if n <= 0 {
        Seq::empty()
    } else if is_dropped(s, n - 1) {
        kept(s, n - 1)
    } else {
        kept(s, n - 1).push(s[n - 1])
    }
}

/// `s`, mended: without a byte order mark at its start and without trailing
/// commas.
pub open spec fn repaired(s: Seq<char>) -> Seq<char> {
    kept(s, s.len() as int)
}

/// A run of characters that are all kept goes into the result as it is.
proof fn lemma_kept_run(s: Seq<char>, from: int, to: int)
    requires
        0 <= from <= to <= s.len(),
        forall|i: int| from <= i < to ==> !is_dropped(s, i),
    ensures
        kept(s, to) == kept(s, from) + s.subrange(from, to),
    decreases to - from,
{
    if from == to {
        assert(s.subrange(from, to) =~= Seq::<char>::empty());
        assert(kept(s, from) + Seq::<char>::empty() =~= kept(s, from));
    } else {
        lemma_kept_run(s, from, to - 1);
        assert((kept(s, from) + s.subrange(from, to - 1)).push(s[to - 1]) =~= kept(s, from)
            + s.subrange(from, to));
    }
}

/// A text that has neither a byte order mark at its start nor a comma
/// outside its strings comes out of the mending as it went in.
pub proof fn lemma_sound_text_unchanged(s: Seq<char>)
    requires
        s.len() == 0 || s[0] != '\u{feff}',
        forall|i: int| 0 <= i < s.len() && s[i] == ',' ==> !(lex_after(s, i) is Plain),
    ensures
        repaired(s) == s,
{
    lemma_kept_run(s, 0, s.len() as int);
    assert(s.subrange(0, s.len() as int) =~= s);
    assert(kept(s, 0) + s =~= s);
}

/// Whether the reader stands outside any string.
fn is_plain(lex: &Lex) -> (r: bool)
    ensures
        r == (*lex is Plain),
{
    match lex {
        Lex::Plain => true,
        _ => false,
    }
}

/// Where the reader stands after `c`.
fn step(before: Lex, c: char) -> (r: Lex)
    ensures
        r == lex_step(before, c),
{
    match before {
        Lex::Plain => if c == '"' {
            Lex::Quoted
        } else {
            Lex::Plain
        },
        Lex::Quoted => if c == '\\' {
            Lex::Escaped
        } else if c == '"' {
            Lex::Plain
        } else {
            Lex::Quoted
        },
        Lex::Escaped => Lex::Quoted,
    }
}

/// Whether the first character behind index `i` that is no blank closes an
/// object or an array.
fn closes_next(chars: &Vec<char>, i: usize) -> (r: bool)
    requires
        i < chars@.len(),
    ensures
        r == exists|j: int| next_solid_at(chars@, i as int, j) && is_closer(chars@[j]),
{
    let n: usize = chars.len();
    let mut j: usize = i + 1;
    while j < n && space(chars[j])
        invariant
            n == chars@.len(),
            i < j <= n,
            forall|k: int| i < k < j ==> is_space(chars@[k]),
        decreases n - j,
    {
        j += 1;
    }
    let found = j < n && (chars[j] == '}' || chars[j] == ']');
    proof {
        if found {
            assert(next_solid_at(chars@, i as int, j as int));
        } else {
            assert forall|k: int| next_solid_at(chars@, i as int, k) implies !is_closer(
                chars@[k],
            ) by {
                if k < j {
                    assert(is_space(chars@[k]));
                } else if j < k {
                    assert(is_space(chars@[j as int]));
                }
            }
        }
    }
    found
}

/// Mends a JSON text: takes away a byte order mark at its start, and each
/// comma that has only blanks between it and the end of an object or an
/// array.
pub fn fix_json(text: &str) -> (r: String)
    ensures
        r@ == repaired(text@),
{
    let chars = chars_of(text);
    let n: usize = chars.len();
    let mut out = String::new();
    let mut lex = Lex::Plain;
    let mut run: usize = 0;
    let mut i: usize = 0;
    while i < n
        invariant
            chars@ == text@,
            n == chars@.len(),
            run <= i <= n,
            lex == lex_after(text@, i as int),
            out@ == kept(text@, run as int),
            forall|k: int| run <= k < i ==> !is_dropped(text@, k),
        decreases n - i,
    {
        let c = chars[i];
        let drop = if i == 0 && c == '\u{feff}' {
            true
        } else if c == ',' && is_plain(&lex) {
            closes_next(&chars, i)
        } else {
            false
        };
        assert(drop == is_dropped(text@, i as int));
        if drop {
            proof {
                lemma_kept_run(text@, run as int, i as int);
            }
            out.append(text.substring_char(run, i));
            run = i + 1;
        }
        lex = step(lex, c);
        i += 1;
    }
    proof {
        lemma_kept_run(text@, run as int, n as int);
    }
    out.append(text.substring_char(run, n));
    out
}

} // verus!
