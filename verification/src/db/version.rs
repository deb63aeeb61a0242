//! The form in which the database keeps a version: three numbers with dots
//! between them.

use crate::text::{chars_of, digit, is_digit, is_space, space};
use vstd::prelude::*;

verus! {

/// `v` from its first digit on.
pub open spec fn without_leading_noise(v: Seq<char>) -> Seq<char>
    decreases v.len(),
{
    if v.len() == 0 || is_digit(v[0]) {
        v
    } else {
        without_leading_noise(v.drop_first())
    }
}

/// `v` up to its last character that is no blank.
pub open spec fn without_trailing_blanks(v: Seq<char>) -> Seq<char>
    decreases v.len(),
{
    if v.len() == 0 || !is_space(v.last()) {
        v
    } else {
        without_trailing_blanks(v.drop_last())
    }
}

/// The part of `v` that can be a version number: what stands from the first
/// digit on, without the blanks at the end.
pub open spec fn version_core(v: Seq<char>) -> Seq<char> {
    without_trailing_blanks(without_leading_noise(v))
}

/// Whether `s` is made of numbers with single dots between them: digits and
/// dots only, a digit at both ends, no dot next to a dot.
pub open spec fn is_dotted_number(s: Seq<char>) -> bool {
    &&& s.len() > 0
    &&& forall|i: int| 0 <= i < s.len() ==> is_digit(#[trigger] s[i]) || s[i] == '.'
    &&& s[0] != '.'
    &&& s.last() != '.'
    &&& forall|i: int| 0 < i < s.len() ==> !(#[trigger] s[i] == '.' && s[i - 1] == '.')
}

/// The number of dots in `s`.
pub open spec fn dots(s: Seq<char>) -> nat
    decreases s.len(),
{
    if s.len() == 0 {
        0
    } else {
        dots(s.drop_last()) + if s.last() == '.' {
            1nat
        } else {
            0nat
        }
    }
}

/// The numbers that a version of `found` dots lacks, each as a zero behind a
/// dot.
pub open spec fn padding(found: nat) -> Seq<char> {
    if found == 0 {
        ".0.0"@
    } else if found == 1 {
        ".0"@
    } else {
        Seq::empty()
    }
}

/// The version that the database keeps for a version text `v`. Where the core
/// of `v` is one, two or three numbers with dots between them, it is that
/// core, filled up with zeros to three numbers. Any other text is kept as it
/// is.
pub open spec fn fixed_version(v: Seq<char>) -> Seq<char> {
    let core = version_core(v);
    if is_dotted_number(core) && dots(core) <= 2 {
        core + padding(dots(core))
    } else {
        v
    }
}

proof fn lemma_noise_skip(v: Seq<char>, k: int)
    requires
        0 <= k <= v.len(),
        forall|j: int| 0 <= j < k ==> !is_digit(v[j]),
    ensures
        without_leading_noise(v) == without_leading_noise(v.skip(k)),
    decreases k,
{
    if k == 0 {
        assert(v.skip(0) =~= v);
    } else {
        lemma_noise_skip(v.drop_first(), k - 1);
        assert(v.drop_first().skip(k - 1) =~= v.skip(k));
    }
}

proof fn lemma_blanks_take(v: Seq<char>, k: int)
    requires
        0 <= k <= v.len(),
        forall|j: int| k <= j < v.len() ==> is_space(v[j]),
    ensures
        without_trailing_blanks(v) == without_trailing_blanks(v.take(k)),
    decreases v.len() - k,
{
    if k == v.len() {
        assert(v.take(k) =~= v);
    } else {
        lemma_blanks_take(v.drop_last(), k);
        assert(v.drop_last().take(k) =~= v.take(k));
    }
}

proof fn lemma_dots_concat(a: Seq<char>, b: Seq<char>)
    ensures
        dots(a + b) == dots(a) + dots(b),
    decreases b.len(),
{
    if b.len() == 0 {
        assert(a + b =~= a);
    } else {
        lemma_dots_concat(a, b.drop_last());
        assert((a + b).drop_last() =~= a + b.drop_last());
    }
}

proof fn lemma_padding(found: nat)
    ensures
        dots(padding(found)) == if found == 0 {
            2nat
        } else if found == 1 {
            1nat
        } else {
            0nat
        },
        padding(found) == if found == 0 {
            seq!['.', '0', '.', '0']
        } else if found == 1 {
            seq!['.', '0']
        } else {
            Seq::<char>::empty()
        },
{
    reveal_strlit(".0");
    reveal_strlit(".0.0");
    reveal_with_fuel(dots, 5);
    assert(".0"@ =~= seq!['.', '0']);
    assert(".0.0"@ =~= seq!['.', '0', '.', '0']);
    assert(seq!['.', '0'].drop_last() =~= seq!['.']);
    assert(seq!['.'].drop_last() =~= Seq::<char>::empty());
    assert(seq!['.', '0', '.', '0'].drop_last() =~= seq!['.', '0', '.']);
    assert(seq!['.', '0', '.'].drop_last() =~= seq!['.', '0']);
}

/// Where the core of a version text is one, two or three numbers with dots
/// between them, the fixed version is three numbers with dots between them,
/// and begins with that core.
pub proof fn lemma_fixed_version_has_three_numbers(v: Seq<char>)
    requires
        is_dotted_number(version_core(v)),
        dots(version_core(v)) <= 2,
    ensures
        is_dotted_number(fixed_version(v)),
        dots(fixed_version(v)) == 2,
        version_core(v).is_prefix_of(fixed_version(v)),
{
    let core = version_core(v);
    let pad = padding(dots(core));
    let fixed = fixed_version(v);
    lemma_padding(dots(core));
    lemma_dots_concat(core, pad);
    assert(fixed == core + pad);
    assert(is_digit(core.last())) by {
        assert(is_digit(core[core.len() - 1]) || core[core.len() - 1] == '.');
    }
    assert forall|i: int| 0 <= i < fixed.len() implies is_digit(#[trigger] fixed[i]) || fixed[i]
        == '.' by {
        if i < core.len() {
            assert(fixed[i] == core[i]);
        } else {
            assert(fixed[i] == pad[i - core.len()]);
        }
    }
    assert forall|i: int| 0 < i < fixed.len() implies !(#[trigger] fixed[i] == '.' && fixed[i - 1]
        == '.') by {
        if i < core.len() {
            assert(fixed[i] == core[i]);
            assert(fixed[i - 1] == core[i - 1]);
        } else if i == core.len() {
            assert(fixed[i - 1] == core.last());
        } else {
            assert(fixed[i] == pad[i - core.len()]);
            assert(fixed[i - 1] == pad[i - 1 - core.len()]);
        }
    }
    assert(fixed[0] == core[0]);
    assert(fixed.last() != '.') by {
        if pad.len() == 0 {
            assert(fixed =~= core);
        } else {
            assert(fixed.last() == pad.last());
        }
    }
}

/// Fixing a fixed version changes nothing.
pub proof fn lemma_fixed_version_twice(v: Seq<char>)
    ensures
        fixed_version(fixed_version(v)) == fixed_version(v),
{
    let core = version_core(v);
    if is_dotted_number(core) && dots(core) <= 2 {
        let fixed = fixed_version(v);
        lemma_fixed_version_has_three_numbers(v);
        assert(is_digit(fixed[0]));
        assert(is_digit(fixed.last())) by {
            assert(is_digit(fixed[fixed.len() - 1]) || fixed[fixed.len() - 1] == '.');
        }
        assert(without_leading_noise(fixed) == fixed);
        assert(without_trailing_blanks(fixed) == fixed);
        lemma_padding(2);
        assert(fixed + Seq::<char>::empty() =~= fixed);
    }
}

/// Whether the characters from `start` up to `end` are numbers with single
/// dots between them, and how many dots there are.
fn dotted(chars: &Vec<char>, start: usize, end: usize) -> (r: Option<usize>)
    requires
        start <= end <= chars@.len(),
    ensures
        match r {
            Some(d) => is_dotted_number(chars@.subrange(start as int, end as int)) && d == dots(
                chars@.subrange(start as int, end as int),
            ),
            None => !is_dotted_number(chars@.subrange(start as int, end as int)),
        },
{
    let ghost core = chars@.subrange(start as int, end as int);
    if start == end {
        return None;
    }
    if chars[start] == '.' || chars[end - 1] == '.' {
        assert(core[0] == chars@[start as int]);
        assert(core.last() == chars@[end - 1]);
        return None;
    }
    let mut found: usize = 0;
    let mut i: usize = start;
    while i < end
        invariant
            start <= i <= end <= chars@.len(),
            core == chars@.subrange(start as int, end as int),
            found == dots(core.take(i - start)),
            found <= i - start,
            forall|j: int| 0 <= j < i - start ==> is_digit(#[trigger] core[j]) || core[j] == '.',
            forall|j: int| 0 < j < i - start ==> !(#[trigger] core[j] == '.' && core[j - 1] == '.'),
        decreases end - i,
    {
        let c = chars[i];
        assert(core[i - start] == c);
        assert(core.take(i - start + 1).drop_last() =~= core.take(i - start));
        if c == '.' {
            if i > start && chars[i - 1] == '.' {
                assert(core[i - start - 1] == '.');
                return None;
            }
            found += 1;
        } else if !digit(c) {
            return None;
        }
        i += 1;
    }
    assert(core.take(end - start) =~= core);
    Some(found)
}

/// Brings a version into the form that the database keeps.
pub fn fix_version(version: &str) -> (r: String)
    ensures
        r@ == fixed_version(version@),
{
    let chars = chars_of(version);
    let n: usize = chars.len();
    let mut start: usize = 0;
    while start < n && !digit(chars[start])
        invariant
            n == chars@.len(),
            start <= n,
            forall|j: int| 0 <= j < start ==> !is_digit(chars@[j]),
        decreases n - start,
    {
        start += 1;
    }
    let ghost tail = chars@.skip(start as int);
    proof {
        lemma_noise_skip(chars@, start as int);
        assert(without_leading_noise(tail) == tail) by {
            if tail.len() > 0 {
                assert(tail[0] == chars@[start as int]);
            }
        }
    }
    let mut end: usize = n;
    while end > start && space(chars[end - 1])
        invariant
            n == chars@.len(),
            start <= end <= n,
            forall|j: int| end <= j < n ==> is_space(chars@[j]),
        decreases end - start,
    {
        end -= 1;
    }
    let ghost core = chars@.subrange(start as int, end as int);
    proof {
        lemma_blanks_take(tail, end - start);
        assert(tail.take(end - start) =~= core);
        assert(without_trailing_blanks(core) == core) by {
            if core.len() > 0 {
                assert(core.last() == chars@[end - 1]);
            }
        }
        assert(version_core(version@) == core);
    }
    match dotted(&chars, start, end) {
        Some(found) => {
            if found <= 2 {
                let mut out = String::from_str(version.substring_char(start, end));
                if found == 0 {
                    out.append(".0.0");
                } else if found == 1 {
                    out.append(".0");
                }
                assert(out@ =~= core + padding(found as nat));
                out
            } else {
                String::from_str(version)
            }
        },
        None => String::from_str(version),
    }
}

} // verus!
