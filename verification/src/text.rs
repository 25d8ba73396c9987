use vstd::prelude::*;
use vstd::string::StrSliceExecFns;
use vstd::string::StringExecFns;

verus! {

/// ASCII lowercase of one character: `A`..`Z` map to `a`..`z`, every other
/// character is unchanged.
pub open spec fn lower_char(c: char) -> char {
    if 65 <= c as u32 && c as u32 <= 90 {
        ((c as u32 + 32) as u8) as char
    } else {
        c
    }
}

/// One character as it is compared: folded to lowercase when `ci` is set.
pub open spec fn fold_char(c: char, ci: bool) -> char {
    if ci {
        lower_char(c)
    } else {
        c
    }
}

/// ASCII lowercase of a whole string of characters.
pub open spec fn lower(s: Seq<char>) -> Seq<char> {
    s.map_values(|c: char| lower_char(c))
}

/// A string as it is compared: folded to lowercase when `ci` is set.
pub open spec fn fold_cased(s: Seq<char>, ci: bool) -> Seq<char> {
    if ci {
        lower(s)
    } else {
        s
    }
}

/// `p` occurs in `l` as a contiguous run starting at position `i`.
pub open spec fn occurs_at(l: Seq<char>, p: Seq<char>, i: int) -> bool {
    0 <= i && i + p.len() <= l.len() && l.subrange(i, i + p.len() as int) == p
}

/// `p` occurs somewhere in `l`; every string contains the empty string.
pub open spec fn contains_seq(l: Seq<char>, p: Seq<char>) -> bool {
    exists|i: int| occurs_at(l, p, i)
}

fn lower_char_exec(c: char) -> (r: char)
    ensures
        r == lower_char(c),
{
    let u = c as u32;
    if 65 <= u && u <= 90 {
        ((u + 32) as u8) as char
    } else {
        c
    }
}

fn chars_equal(a: char, b: char, ci: bool) -> (r: bool)
    ensures
        r == (fold_char(a, ci) == fold_char(b, ci)),
{
    if ci {
        lower_char_exec(a) == lower_char_exec(b)
    } else {
        a == b
    }
}

/// Whether the folded line equals the folded pattern.
pub fn equal_folded(line: &str, pattern: &str, ci: bool) -> (r: bool)
    ensures
        r == (fold_cased(line@, ci) == fold_cased(pattern@, ci)),
{
    let n = line.unicode_len();
    let m = pattern.unicode_len();
    if n != m {
        proof {
            assert(fold_cased(line@, ci).len() == n);
            assert(fold_cased(pattern@, ci).len() == m);
        }
        return false;
    }
    let mut j: usize = 0;
    while j < n
        invariant
            n == line@.len(),
            m == pattern@.len(),
            n == m,
            j <= n,
            forall|k: int|
                0 <= k < j ==> fold_cased(line@, ci)[k] == fold_cased(pattern@, ci)[k],
        decreases n - j,
    {
        if !chars_equal(line.get_char(j), pattern.get_char(j), ci) {
            assert(fold_cased(line@, ci)[j as int] != fold_cased(pattern@, ci)[j as int]);
            return false;
        }
        j += 1;
    }
    proof {
        assert(fold_cased(line@, ci) =~= fold_cased(pattern@, ci));
    }
    true
}

fn match_at(line: &str, pattern: &str, i: usize, ci: bool) -> (r: bool)
    requires
        line@.len() <= usize::MAX,
        i + pattern@.len() <= line@.len(),
    ensures
        r == occurs_at(fold_cased(line@, ci), fold_cased(pattern@, ci), i as int),
{
    let m = pattern.unicode_len();
    let mut j: usize = 0;
    while j < m
        invariant
            m == pattern@.len(),
            line@.len() <= usize::MAX,
            i + m <= line@.len(),
            j <= m,
            forall|k: int|
                0 <= k < j ==> fold_cased(line@, ci)[i + k] == fold_cased(pattern@, ci)[k],
        decreases m - j,
    {
        if !chars_equal(line.get_char(i + j), pattern.get_char(j), ci) {
            assert(fold_cased(line@, ci).subrange(i as int, i + m) != fold_cased(pattern@, ci)) by {
                assert(fold_cased(line@, ci).subrange(i as int, i + m)[j as int] == fold_cased(
                    line@,
                    ci,
                )[i + j]);
            }
            return false;
        }
        j += 1;
    }
    proof {
        assert(fold_cased(line@, ci).subrange(i as int, i + m) =~= fold_cased(pattern@, ci));
    }
    true
}

/// Whether the folded line contains the folded pattern as a substring.
pub fn contains_folded(line: &str, pattern: &str, ci: bool) -> (r: bool)
    ensures
        r == contains_seq(fold_cased(line@, ci), fold_cased(pattern@, ci)),
{
    let n = line.unicode_len();
    let m = pattern.unicode_len();
    if m > n {
        proof {
            assert forall|k: int| !occurs_at(fold_cased(line@, ci), fold_cased(pattern@, ci), k) by {
                assert(fold_cased(line@, ci).len() == n);
                assert(fold_cased(pattern@, ci).len() == m);
            }
        }
        return false;
    }
    if m == 0 {
        proof {
            assert(fold_cased(line@, ci).subrange(0, 0) =~= fold_cased(pattern@, ci));
            assert(occurs_at(fold_cased(line@, ci), fold_cased(pattern@, ci), 0));
        }
        return true;
    }
    let mut i: usize = 0;
    while i <= n - m
        invariant
            n == line@.len(),
            m == pattern@.len(),
            0 < m <= n,
            i <= n - m + 1,
            forall|k: int|
                0 <= k < i ==> !occurs_at(fold_cased(line@, ci), fold_cased(pattern@, ci), k),
        decreases n - m + 1 - i,
    {
        if match_at(line, pattern, i, ci) {
            assert(contains_seq(fold_cased(line@, ci), fold_cased(pattern@, ci)));
            return true;
        }
        i += 1;
    }
    proof {
        assert forall|k: int| !occurs_at(fold_cased(line@, ci), fold_cased(pattern@, ci), k) by {
            assert(fold_cased(line@, ci).len() == n);
            assert(fold_cased(pattern@, ci).len() == m);
        }
    }
    false
}

/// The character for one decimal digit.
pub open spec fn digit_char(d: int) -> char {
    ((48 + d) as u8) as char
}

/// The decimal representation of `n`, most significant digit first.
pub open spec fn dec_digits(n: nat) -> Seq<char>
    decreases n,
{
    if n < 10 {
        seq![digit_char(n as int)]
    } else {
        dec_digits(n / 10) + seq![digit_char((n % 10) as int)]
    }
}

/// A reported hit line: the bare text, or `"<number>:<text>"` when line
/// numbers are shown.
pub open spec fn rendered_line(line: Seq<char>, number: nat, show: bool) -> Seq<char> {
    if show {
        dec_digits(number) + seq![':'] + line
    } else {
        line
    }
}

/// Relies on `String::push`: appends exactly one character to the string.
#[verifier::external_body]
fn push_char(s: &mut String, c: char)
    ensures
        final(s)@ == old(s)@.push(c),
{
    s.push(c);
}

fn digit_char_exec(d: usize) -> (r: char)
    requires
        d < 10,
    ensures
        r == digit_char(d as int),
{
    ((48 + d) as u8) as char
}

fn push_decimal(s: &mut String, n: usize)
    ensures
        final(s)@ == old(s)@ + dec_digits(n as nat),
    decreases n,
{
    if n < 10 {
        push_char(s, digit_char_exec(n));
        proof {
            assert(old(s)@.push(digit_char(n as int)) =~= old(s)@ + dec_digits(n as nat));
        }
    } else {
        push_decimal(s, n / 10);
        push_char(s, digit_char_exec(n % 10));
        proof {
            assert((old(s)@ + dec_digits((n / 10) as nat)).push(digit_char((n % 10) as int)) =~= old(
                s,
            )@ + dec_digits(n as nat));
        }
    }
}

/// The text reported for a hit line, with the line number prefix when asked.
pub fn render_line(line: &String, number: usize, show: bool) -> (r: String)
    ensures
        r@ == rendered_line(line@, number as nat, show),
{
    if show {
        let mut s = String::new();
        push_decimal(&mut s, number);
        push_char(&mut s, ':');
        s.append(line.as_str());
        proof {
            assert(s@ =~= rendered_line(line@, number as nat, show));
        }
        s
    } else {
        line.clone()
    }
}

} // verus!
