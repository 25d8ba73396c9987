use vstd::prelude::*;

mod text;
pub mod laws;

pub use text::contains_seq;
pub use text::dec_digits;
pub use text::digit_char;
pub use text::fold_cased;
pub use text::lower;
pub use text::lower_char;
pub use text::occurs_at;
pub use text::rendered_line;
pub use text::contains_folded;
pub use text::equal_folded;
pub use text::render_line;

verus! {

/// The search configuration: five independent switches, the pattern to look
/// for, and the list of file paths to scan.
pub struct Flags {
    /// Prefix each matching line with its 1-based line number and `:`.
    pub show_line_number: bool,
    /// Report only the names of files that contain at least one matching line.
    pub file_name_only: bool,
    /// Compare pattern and line after folding both to ASCII lowercase.
    pub case_insensitive: bool,
    /// Also report, bare, each line that fails to match. Hit lines are still
    /// reported by the hit rule, a documented quirk of the scanner.
    pub invert_mode: bool,
    /// A line matches only if it equals the pattern, not merely contains it.
    pub entire_line_only: bool,
    /// The literal text to search for.
    pub pattern: String,
    /// The file paths to scan, in order.
    pub files: Vec<String>,
}

impl Flags {
    /// A configuration with every switch off, an empty pattern and no files.
    pub fn new() -> (r: Flags)
        ensures
            !r.show_line_number,
            !r.file_name_only,
            !r.case_insensitive,
            !r.invert_mode,
            !r.entire_line_only,
            r.pattern@ == Seq::<char>::empty(),
            r.files@ == Seq::<String>::empty(),
    {
        Flags {
            show_line_number: false,
            file_name_only: false,
            case_insensitive: false,
            invert_mode: false,
            entire_line_only: false,
            pattern: String::new(),
            files: Vec::new(),
        }
    }
}

/// The text of one file to scan: its path and, when it could be read, its
/// lines in order, line terminators already stripped.
pub struct FileText {
    /// The path the file was opened under, reported in filename-only mode.
    pub path: String,
    /// The file's lines, or `None` when the file could not be read.
    pub lines: Option<Vec<String>>,
}

/// Whether a line is a hit: after optional case folding, the line equals the
/// pattern (entire-line mode) or contains it as a substring.
pub open spec fn line_hit(pattern: Seq<char>, line: Seq<char>, ci: bool, entire: bool) -> bool {
    if entire {
        text::fold_cased(line, ci) == text::fold_cased(pattern, ci)
    } else {
        text::contains_seq(text::fold_cased(line, ci), text::fold_cased(pattern, ci))
    }
}

/// What the scanner does with one line.
#[derive(Clone, Copy, Debug, PartialEq, Eq, Structural)]
pub enum LineAction {
    /// The line is a hit: report it, or the file's path in filename-only mode.
    EmitHit,
    /// The line is not a hit and invert mode is on: report the bare line.
    EmitInverted,
    /// Report nothing for this line.
    Ignore,
}

/// The decision made for one line under the given switches.
pub open spec fn spec_line_action(
    pattern: Seq<char>,
    line: Seq<char>,
    ci: bool,
    entire: bool,
    invert: bool,
) -> LineAction {
    if line_hit(pattern, line, ci, entire) {
        LineAction::EmitHit
    } else if invert {
        LineAction::EmitInverted
    } else {
        LineAction::Ignore
    }
}

/// The single decision function of the scanner: given the flags and one
/// line, says whether the line is reported as a hit, reported because invert
/// mode is on, or not reported at all.
pub fn decide_line(pattern: &str, line: &str, flags: &Flags) -> (r: LineAction)
    ensures
        r == spec_line_action(
            pattern@,
            line@,
            flags.case_insensitive,
            flags.entire_line_only,
            flags.invert_mode,
        ),
{
    let hit = if flags.entire_line_only {
        text::equal_folded(line, pattern, flags.case_insensitive)
    } else {
        text::contains_folded(line, pattern, flags.case_insensitive)
    };
    if hit {
        LineAction::EmitHit
    } else if flags.invert_mode {
        LineAction::EmitInverted
    } else {
        LineAction::Ignore
    }
}

/// Output of scanning a file's remaining lines, the first of which has
/// 1-based line number `k`: a hit reports the rendered line — or, in
/// filename-only mode, the path alone, ending the file's scan — and a line
/// that is not a hit is reported bare when invert mode is on.
pub open spec fn scan_from(
    f: Flags,
    pattern: Seq<char>,
    path: Seq<char>,
    lines: Seq<Seq<char>>,
    k: nat,
) -> Seq<Seq<char>>
    decreases lines.len(),
{
    if lines.len() == 0 {
        Seq::empty()
    } else {
        let rest = scan_from(f, pattern, path, lines.drop_first(), (k + 1) as nat);
        if line_hit(pattern, lines[0], f.case_insensitive, f.entire_line_only) {
            if f.file_name_only {
                seq![path]
            } else {
                seq![text::rendered_line(lines[0], k, f.show_line_number)] + rest
            }
        } else if f.invert_mode {
            seq![lines[0]] + rest
        } else {
            rest
        }
    }
}

/// The whole output of scanning one readable file.
pub open spec fn file_output(
    f: Flags,
    pattern: Seq<char>,
    path: Seq<char>,
    lines: Seq<Seq<char>>,
) -> Seq<Seq<char>> {
    scan_from(f, pattern, path, lines, 1)
}

/// What one file contributes to the overall output: nothing when its text
/// could not be read, otherwise the scan of its lines.
pub open spec fn file_contrib(f: Flags, pattern: Seq<char>, file: FileText) -> Seq<Seq<char>> {
    match file.lines {
        Option::None => Seq::empty(),
        Option::Some(ls) => file_output(f, pattern, file.path@, ls.deep_view()),
    }
}

/// The whole output: each file's contribution, in file order.
pub open spec fn grep_output(f: Flags, pattern: Seq<char>, files: Seq<FileText>) -> Seq<Seq<char>>
    decreases files.len(),
{
    if files.len() == 0 {
        Seq::empty()
    } else {
        file_contrib(f, pattern, files[0]) + grep_output(f, pattern, files.drop_first())
    }
}

/// Scans the lines of one file and returns what that file contributes to the
/// output. The text searched for is the `pattern` argument; the pattern
/// stored in the flags is not consulted.
pub fn handle_file(path: &str, pattern: &str, flags: &Flags, lines: &Vec<String>) -> (r: Vec<
    String,
>)
    ensures
        r.deep_view() == file_output(*flags, pattern@, path@, lines.deep_view()),
{
    let mut result: Vec<String> = Vec::new();
    let ghost all: Seq<Seq<char>> = lines.deep_view();
    proof {
        assert(all.skip(0) =~= all);
        assert(result.deep_view() + scan_from(*flags, pattern@, path@, all, 1) =~= scan_from(
            *flags,
            pattern@,
            path@,
            all,
            1,
        ));
    }
    let n = lines.len();
    let mut idx: usize = 0;
    while idx < n
        invariant
            n == lines@.len(),
            idx <= n,
            all == lines.deep_view(),
            file_output(*flags, pattern@, path@, all) == result.deep_view() + scan_from(
                *flags,
                pattern@,
                path@,
                all.skip(idx as int),
                (idx + 1) as nat,
            ),
        decreases n - idx,
    {
        let line = &lines[idx];
        proof {
            assert(all.skip(idx as int).len() == n - idx);
            assert(all.skip(idx as int)[0] == line@);
            assert(all.skip(idx as int).drop_first() =~= all.skip(idx as int + 1));
        }
        let action = decide_line(pattern, line.as_str(), flags);
        match action {
            LineAction::EmitHit => {
                if flags.file_name_only {
                    let ghost before = result.deep_view();
                    result.push(path.to_owned());
                    proof {
                        assert(result.deep_view() =~= before.push(path@));
                        assert(before.push(path@) =~= before + seq![path@]);
                    }
                    return result;
                } else {
                    let rendered = text::render_line(line, idx + 1, flags.show_line_number);
                    let ghost before = result.deep_view();
                    result.push(rendered);
                    proof {
                        assert(result.deep_view() =~= before.push(
                            text::rendered_line(line@, (idx + 1) as nat, flags.show_line_number),
                        ));
                        assert(forall|s: Seq<Seq<char>>, x: Seq<char>, t: Seq<Seq<char>>|
                            s.push(x) + t =~= s + (seq![x] + t));
                    }
                }
            },
            LineAction::EmitInverted => {
                let ghost before = result.deep_view();
                result.push(line.clone());
                proof {
                    assert(result.deep_view() =~= before.push(line@));
                    assert(forall|s: Seq<Seq<char>>, x: Seq<char>, t: Seq<Seq<char>>|
                        s.push(x) + t =~= s + (seq![x] + t));
                }
            },
            LineAction::Ignore => {},
        }
        idx += 1;
    }
    proof {
        assert(all.skip(n as int) =~= Seq::<Seq<char>>::empty());
        assert(result.deep_view() + Seq::<Seq<char>>::empty() =~= result.deep_view());
    }
    result
}

/// Scans every file in order and returns the concatenated output. A file
/// whose text could not be read contributes nothing.
pub fn grep(pattern: &str, flags: &Flags, files: &Vec<FileText>) -> (r: Vec<String>)
    ensures
        r.deep_view() == grep_output(*flags, pattern@, files@),
{
    let mut result: Vec<String> = Vec::new();
    proof {
        assert(files@.skip(0) =~= files@);
        assert(result.deep_view() + grep_output(*flags, pattern@, files@) =~= grep_output(
            *flags,
            pattern@,
            files@,
        ));
    }
    let n = files.len();
    let mut idx: usize = 0;
    while idx < n
        invariant
            n == files@.len(),
            idx <= n,
            grep_output(*flags, pattern@, files@) == result.deep_view() + grep_output(
                *flags,
                pattern@,
                files@.skip(idx as int),
            ),
        decreases n - idx,
    {
        let file = &files[idx];
        proof {
            assert(files@.skip(idx as int).len() == n - idx);
            assert(files@.skip(idx as int)[0] == files@[idx as int]);
            assert(files@.skip(idx as int).drop_first() =~= files@.skip(idx as int + 1));
        }
        match &file.lines {
            Option::Some(ls) => {
                let mut part = handle_file(file.path.as_str(), pattern, flags, ls);
                let ghost before = result.deep_view();
                let ghost part_view = part.deep_view();
                result.append(&mut part);
                proof {
                    assert(result.deep_view() =~= before + part_view);
                }
            },
            Option::None => {},
        }
        idx += 1;
    }
    result
}

} // verus!
