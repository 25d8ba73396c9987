use vstd::prelude::*;
use crate::text;
use crate::Flags;
use crate::FileText;
use crate::line_hit;
use crate::scan_from;
use crate::file_output;
use crate::file_contrib;
use crate::grep_output;

verus! {

/// Swapping the case of one ASCII letter; every other character is
/// unchanged.
pub open spec fn swap_char(c: char) -> char {
    if 65 <= c as u32 && c as u32 <= 90 {
        ((c as u32 + 32) as u8) as char
    } else if 97 <= c as u32 && c as u32 <= 122 {
        ((c as u32 - 32) as u8) as char
    } else {
        c
    }
}

/// Swapping the case of every ASCII letter in a string.
pub open spec fn swap_case(s: Seq<char>) -> Seq<char> {
    s.map_values(|c: char| swap_char(c))
}

/// Swapping case does not change the lowercase folding of a string.
pub proof fn lemma_lower_swap(s: Seq<char>)
    ensures
        text::lower(swap_case(s)) == text::lower(s),
{
    assert(text::lower(swap_case(s)) =~= text::lower(s)) by {
        assert forall|i: int| 0 <= i < s.len() implies text::lower_char(swap_char(s[i]))
            == text::lower_char(s[i]) by {
            let c = s[i];
            assert(text::lower_char(swap_char(c)) == text::lower_char(c));
        }
    }
}

/// With case-insensitive matching on, whether a line hits depends only on
/// the lowercase foldings of the pattern and of the line: strings that fold
/// alike match alike.
pub proof fn lemma_case_insensitive_hit(
    p1: Seq<char>,
    p2: Seq<char>,
    l1: Seq<char>,
    l2: Seq<char>,
    entire: bool,
)
    requires
        text::lower(p1) == text::lower(p2),
        text::lower(l1) == text::lower(l2),
    ensures
        line_hit(p1, l1, true, entire) == line_hit(p2, l2, true, entire),
{
}

/// Case-insensitive matching is invariant under swapping the case of either
/// the pattern or the line.
pub proof fn lemma_case_swap_invariant(pattern: Seq<char>, line: Seq<char>, entire: bool)
    ensures
        line_hit(pattern, line, true, entire) == line_hit(swap_case(pattern), line, true, entire),
        line_hit(pattern, line, true, entire) == line_hit(pattern, swap_case(line), true, entire),
{
    lemma_lower_swap(pattern);
    lemma_lower_swap(line);
    lemma_case_insensitive_hit(pattern, swap_case(pattern), line, line, entire);
    lemma_case_insensitive_hit(pattern, pattern, line, swap_case(line), entire);
}

/// With case-insensitive matching on, the whole scan is invariant under
/// replacing the pattern by one that folds to the same lowercase string.
pub proof fn lemma_scan_pattern_case(
    f: Flags,
    p1: Seq<char>,
    p2: Seq<char>,
    path: Seq<char>,
    lines: Seq<Seq<char>>,
    k: nat,
)
    requires
        f.case_insensitive,
        text::lower(p1) == text::lower(p2),
    ensures
        scan_from(f, p1, path, lines, k) == scan_from(f, p2, path, lines, k),
    decreases lines.len(),
{
    if lines.len() > 0 {
        lemma_case_insensitive_hit(p1, p2, lines[0], lines[0], f.entire_line_only);
        lemma_scan_pattern_case(f, p1, p2, path, lines.drop_first(), (k + 1) as nat);
    }
}

/// Entire-line mode strengthens matching: an entire-line hit is also a
/// containment hit, and a line that contains the pattern without equalling
/// it (after folding) is a containment hit but no entire-line hit.
pub proof fn lemma_entire_line(pattern: Seq<char>, line: Seq<char>, ci: bool)
    ensures
        line_hit(pattern, line, ci, true) ==> line_hit(pattern, line, ci, false),
        line_hit(pattern, line, ci, false) && text::fold_cased(line, ci) != text::fold_cased(
            pattern,
            ci,
        ) ==> !line_hit(pattern, line, ci, true),
{
    let l = text::fold_cased(line, ci);
    let p = text::fold_cased(pattern, ci);
    if line_hit(pattern, line, ci, true) {
        assert(l.subrange(0, p.len() as int) =~= p);
        assert(text::occurs_at(l, p, 0));
    }
}

proof fn lemma_filter_singleton<A>(x: A, pred: spec_fn(A) -> bool)
    ensures
        seq![x].filter(pred) == (if pred(x) {
            seq![x]
        } else {
            Seq::<A>::empty()
        }),
{
    reveal_with_fuel(Seq::filter, 2);
    assert(seq![x].drop_last() =~= Seq::<A>::empty());
    assert(seq![x].last() == x);
    assert(Seq::<A>::empty().push(x) =~= seq![x]);
}

proof fn lemma_filter_all<A>(s: Seq<A>, pred: spec_fn(A) -> bool)
    requires
        forall|i: int| 0 <= i < s.len() ==> pred(#[trigger] s[i]),
    ensures
        s.filter(pred) == s,
    decreases s.len(),
{
    reveal_with_fuel(Seq::filter, 1);
    if s.len() > 0 {
        lemma_filter_all(s.drop_last(), pred);
        assert(s.drop_last().push(s.last()) =~= s);
    }
}

proof fn lemma_plain_scan_is_filter(
    f: Flags,
    pattern: Seq<char>,
    path: Seq<char>,
    lines: Seq<Seq<char>>,
    k: nat,
)
    requires
        !f.show_line_number,
        !f.file_name_only,
        !f.case_insensitive,
        !f.invert_mode,
        !f.entire_line_only,
    ensures
        scan_from(f, pattern, path, lines, k) == lines.filter(
            |l: Seq<char>| text::contains_seq(l, pattern),
        ),
    decreases lines.len(),
{
    let pred = |l: Seq<char>| text::contains_seq(l, pattern);
    if lines.len() == 0 {
        assert(lines.filter(pred) =~= Seq::<Seq<char>>::empty());
    } else {
        lemma_plain_scan_is_filter(f, pattern, path, lines.drop_first(), (k + 1) as nat);
        assert(lines =~= seq![lines[0]] + lines.drop_first());
        Seq::filter_distributes_over_add(seq![lines[0]], lines.drop_first(), pred);
        lemma_filter_singleton(lines[0], pred);
        if pred(lines[0]) {
            assert(scan_from(f, pattern, path, lines, k) =~= lines.filter(pred));
        } else {
            assert(Seq::<Seq<char>>::empty() + lines.drop_first().filter(pred)
                =~= lines.drop_first().filter(pred));
            assert(scan_from(f, pattern, path, lines, k) =~= lines.filter(pred));
        }
    }
}

/// With every switch off, a file's output is exactly the subsequence of its
/// lines that contain the pattern as a substring, in original order,
/// unprefixed.
pub proof fn lemma_default_output(
    f: Flags,
    pattern: Seq<char>,
    path: Seq<char>,
    lines: Seq<Seq<char>>,
)
    requires
        !f.show_line_number,
        !f.file_name_only,
        !f.case_insensitive,
        !f.invert_mode,
        !f.entire_line_only,
    ensures
        file_output(f, pattern, path, lines) == lines.filter(
            |l: Seq<char>| text::contains_seq(l, pattern),
        ),
{
    lemma_plain_scan_is_filter(f, pattern, path, lines, 1);
}

/// With only invert mode on, every line of the file is reported in order: a
/// hit line is still reported, by the hit rule, and every other line is
/// reported by the invert rule; both come out bare, so the output is the
/// whole file.
pub proof fn lemma_invert_reports_every_line(
    f: Flags,
    pattern: Seq<char>,
    path: Seq<char>,
    lines: Seq<Seq<char>>,
    k: nat,
)
    requires
        !f.show_line_number,
        !f.file_name_only,
        f.invert_mode,
    ensures
        scan_from(f, pattern, path, lines, k) == lines,
    decreases lines.len(),
{
    if lines.len() > 0 {
        lemma_invert_reports_every_line(f, pattern, path, lines.drop_first(), (k + 1) as nat);
        assert(seq![lines[0]] + lines.drop_first() =~= lines);
    }
}

/// The complement reading of invert mode, on the inputs where it holds:
/// when no line contains the pattern, turning on invert mode alone reports
/// exactly the lines that do not contain the pattern — here, every line. (A
/// file with a hit line also reports that hit, so the complement reading
/// fails on such a file.)
pub proof fn lemma_invert_complement(
    f: Flags,
    pattern: Seq<char>,
    path: Seq<char>,
    lines: Seq<Seq<char>>,
)
    requires
        !f.show_line_number,
        !f.file_name_only,
        !f.case_insensitive,
        f.invert_mode,
        !f.entire_line_only,
        forall|i: int| 0 <= i < lines.len() ==> !text::contains_seq(#[trigger] lines[i], pattern),
    ensures
        file_output(f, pattern, path, lines) == lines.filter(
            |l: Seq<char>| !text::contains_seq(l, pattern),
        ),
{
    lemma_invert_reports_every_line(f, pattern, path, lines, 1);
    lemma_filter_all(lines, |l: Seq<char>| !text::contains_seq(l, pattern));
}

/// With filename-only on and invert mode off, a file's whole output
/// collapses to at most one emission: the path alone, exactly when at least
/// one line is a hit.
pub proof fn lemma_file_name_only(
    f: Flags,
    pattern: Seq<char>,
    path: Seq<char>,
    lines: Seq<Seq<char>>,
    k: nat,
)
    requires
        f.file_name_only,
        !f.invert_mode,
    ensures
        scan_from(f, pattern, path, lines, k) == (if (exists|i: int|
            0 <= i < lines.len() && line_hit(
                pattern,
                #[trigger] lines[i],
                f.case_insensitive,
                f.entire_line_only,
            )) {
            seq![path]
        } else {
            Seq::<Seq<char>>::empty()
        }),
    decreases lines.len(),
{
    if lines.len() > 0 {
        if line_hit(pattern, lines[0], f.case_insensitive, f.entire_line_only) {
        } else {
            lemma_file_name_only(f, pattern, path, lines.drop_first(), (k + 1) as nat);
            if exists|i: int|
                0 <= i < lines.len() && line_hit(
                    pattern,
                    #[trigger] lines[i],
                    f.case_insensitive,
                    f.entire_line_only,
                ) {
                let i = choose|i: int|
                    0 <= i < lines.len() && line_hit(
                        pattern,
                        #[trigger] lines[i],
                        f.case_insensitive,
                        f.entire_line_only,
                    );
                assert(lines.drop_first()[i - 1] == lines[i]);
            }
            assert forall|i: int|
                0 <= i < lines.drop_first().len() && line_hit(
                    pattern,
                    #[trigger] lines.drop_first()[i],
                    f.case_insensitive,
                    f.entire_line_only,
                ) implies exists|j: int|
                0 <= j < lines.len() && line_hit(
                    pattern,
                    #[trigger] lines[j],
                    f.case_insensitive,
                    f.entire_line_only,
                ) by {
                assert(lines[i + 1] == lines.drop_first()[i]);
            }
        }
    }
}

/// One reported line of a scan without filename collapsing: whether it was
/// a hit, its 1-based line number, and the bare line text.
pub open spec fn emissions(
    pattern: Seq<char>,
    lines: Seq<Seq<char>>,
    ci: bool,
    entire: bool,
    invert: bool,
    k: nat,
) -> Seq<(bool, nat, Seq<char>)>
    decreases lines.len(),
{
    if lines.len() == 0 {
        Seq::empty()
    } else {
        let rest = emissions(pattern, lines.drop_first(), ci, entire, invert, (k + 1) as nat);
        if line_hit(pattern, lines[0], ci, entire) {
            seq![(true, k, lines[0])] + rest
        } else if invert {
            seq![(false, k, lines[0])] + rest
        } else {
            rest
        }
    }
}

/// How one emission is written: a hit gets the line number prefix when line
/// numbers are shown; an inverted line is always written bare.
pub open spec fn written(e: (bool, nat, Seq<char>), show: bool) -> Seq<char> {
    if e.0 {
        text::rendered_line(e.2, e.1, show)
    } else {
        e.2
    }
}

proof fn lemma_scan_writes_emissions(
    f: Flags,
    pattern: Seq<char>,
    path: Seq<char>,
    lines: Seq<Seq<char>>,
    k: nat,
)
    requires
        !f.file_name_only,
    ensures
        scan_from(f, pattern, path, lines, k) == emissions(
            pattern,
            lines,
            f.case_insensitive,
            f.entire_line_only,
            f.invert_mode,
            k,
        ).map_values(|e: (bool, nat, Seq<char>)| written(e, f.show_line_number)),
    decreases lines.len(),
{
    let wr = |e: (bool, nat, Seq<char>)| written(e, f.show_line_number);
    if lines.len() == 0 {
        assert(emissions(
            pattern,
            lines,
            f.case_insensitive,
            f.entire_line_only,
            f.invert_mode,
            k,
        ).map_values(wr) =~= Seq::<Seq<char>>::empty());
    } else {
        lemma_scan_writes_emissions(f, pattern, path, lines.drop_first(), (k + 1) as nat);
        assert(scan_from(f, pattern, path, lines, k) =~= emissions(
            pattern,
            lines,
            f.case_insensitive,
            f.entire_line_only,
            f.invert_mode,
            k,
        ).map_values(wr));
    }
}

/// Turning on line numbers changes only how hits are written: with
/// filename-only off, the scans with and without line numbers report the
/// same occurrences in the same order; each hit comes out prefixed with its
/// 1-based line number and `:`, and each inverted line comes out unchanged.
pub proof fn lemma_show_line_number(
    f1: Flags,
    f2: Flags,
    pattern: Seq<char>,
    path: Seq<char>,
    lines: Seq<Seq<char>>,
)
    requires
        !f1.file_name_only,
        !f2.file_name_only,
        f1.show_line_number,
        !f2.show_line_number,
        f1.case_insensitive == f2.case_insensitive,
        f1.entire_line_only == f2.entire_line_only,
        f1.invert_mode == f2.invert_mode,
    ensures
        ({
            let em = emissions(
                pattern,
                lines,
                f1.case_insensitive,
                f1.entire_line_only,
                f1.invert_mode,
                1,
            );
            let with_numbers = file_output(f1, pattern, path, lines);
            let plain = file_output(f2, pattern, path, lines);
            &&& with_numbers.len() == em.len()
            &&& plain.len() == em.len()
            &&& forall|j: int| 0 <= j < em.len() ==> plain[j] == (#[trigger] em[j]).2
            &&& forall|j: int|
                0 <= j < em.len() ==> with_numbers[j] == (if (#[trigger] em[j]).0 {
                    text::dec_digits(em[j].1) + seq![':'] + em[j].2
                } else {
                    em[j].2
                })
        }),
{
    lemma_scan_writes_emissions(f1, pattern, path, lines, 1);
    lemma_scan_writes_emissions(f2, pattern, path, lines, 1);
}

/// A file whose text could not be read contributes nothing: dropping it
/// from the scanned list leaves the overall output unchanged.
pub proof fn lemma_unreadable_file_skipped(
    f: Flags,
    pattern: Seq<char>,
    files: Seq<FileText>,
    i: int,
)
    requires
        0 <= i < files.len(),
        files[i].lines is None,
    ensures
        grep_output(f, pattern, files) == grep_output(f, pattern, files.remove(i)),
    decreases files.len(),
{
    if i == 0 {
        assert(files.remove(0) =~= files.drop_first());
        assert(Seq::<Seq<char>>::empty() + grep_output(f, pattern, files.drop_first())
            =~= grep_output(f, pattern, files.drop_first()));
    } else {
        lemma_unreadable_file_skipped(f, pattern, files.drop_first(), i - 1);
        assert(files.remove(i).drop_first() =~= files.drop_first().remove(i - 1));
        assert(files.remove(i)[0] == files[0]);
    }
}

} // verus!
