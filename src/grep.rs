//! Content search across checkouts through an external text-search tool:
//! which tool to use, how to call it, and how to read what it printed. Lines
//! of the plain tool are parsed into a path, a line number and the content;
//! a line that does not have that shape is skipped.

use vstd::prelude::*;
use crate::git::CommandOutput;
use crate::text::{
    append_range, chars_of, find_char, first_index_of, is_prefix, split_on, split_text, starts_with,
    str_eq, strip_leading, texts, trim, trim_of, trim_start_matches,
};

verus! {

/// The text-search tool in use.
#[derive(Clone, Copy, Debug, PartialEq, Eq, Structural)]
pub enum SearchTool {
    /// `rg`, preferred when present.
    Ripgrep,
    /// `grep`.
    Grep,
}

/// Picks the tool once: ripgrep when it is present, else grep, else none.
pub fn select_search_tool(ripgrep_found: bool, grep_found: bool) -> (r: Option<SearchTool>)
    ensures
        ripgrep_found ==> r == Some(SearchTool::Ripgrep),
        !ripgrep_found && grep_found ==> r == Some(SearchTool::Grep),
        !ripgrep_found && !grep_found ==> r is None,
{
    if ripgrep_found {
        Some(SearchTool::Ripgrep)
    } else if grep_found {
        Some(SearchTool::Grep)
    } else {
        None
    }
}

/// The arguments each tool is called with, around the pattern and the path.
pub open spec fn tool_arguments(tool: SearchTool, pattern: Seq<char>, path: Seq<char>) -> Seq<
    Seq<char>,
> {
    match tool {
        SearchTool::Ripgrep => seq![
            "--color=always"@,
            "--heading"@,
            "--line-number"@,
            "--smart-case"@,
            "--no-ignore"@,
            pattern,
            path,
        ],
        SearchTool::Grep => seq!["-r"@, "-n"@, "--color=always"@, "-i"@, pattern, path],
    }
}

impl SearchTool {
    /// The executable's name.
    pub fn program(&self) -> (r: String)
        ensures
            r@ == (match self {
                SearchTool::Ripgrep => "rg"@,
                SearchTool::Grep => "grep"@,
            }),
    {
        match self {
            SearchTool::Ripgrep => String::from_str("rg"),
            SearchTool::Grep => String::from_str("grep"),
        }
    }

    /// The arguments that search `path` for `pattern`.
    pub fn arguments(&self, pattern: &str, path: &str) -> (r: Vec<String>)
        ensures
            texts(r@) == tool_arguments(*self, pattern@, path@),
    {
        let mut v: Vec<String> = Vec::new();
        match self {
            SearchTool::Ripgrep => {
                v.push(String::from_str("--color=always"));
                v.push(String::from_str("--heading"));
                v.push(String::from_str("--line-number"));
                v.push(String::from_str("--smart-case"));
                v.push(String::from_str("--no-ignore"));
            },
            SearchTool::Grep => {
                v.push(String::from_str("-r"));
                v.push(String::from_str("-n"));
                v.push(String::from_str("--color=always"));
                v.push(String::from_str("-i"));
            },
        }
        v.push(String::from_str(pattern));
        v.push(String::from_str(path));
        assert(texts(v@) =~= tool_arguments(*self, pattern@, path@));
        v
    }
}

/// A line without the carriage return of a `\r\n` ending.
pub open spec fn without_cr(line: Seq<char>) -> Seq<char> {
    if line.len() > 0 && line.last() == '\r' {
        line.drop_last()
    } else {
        line
    }
}

/// The lines of `s` as `str::lines` gives them: split at `\n`, a `\r`
/// before it dropped, and no empty line after a final `\n`.
pub open spec fn lines_of(s: Seq<char>) -> Seq<Seq<char>> {
    let pieces = split_on(s, '\n');
    let body = if pieces.last().len() == 0 { pieces.drop_last() } else { pieces };
    Seq::new(
        body.len(),
        |i: int| if i < pieces.len() - 1 { without_cr(body[i]) } else { body[i] },
    )
}

proof fn lemma_split_nonempty(s: Seq<char>, sep: char, cur: Seq<char>)
    ensures
        crate::text::split_from(s, sep, cur).len() >= 1,
    decreases s.len(),
{
    if s.len() > 0 {
        if s[0] == sep {
            lemma_split_nonempty(s.drop_first(), sep, Seq::empty());
        } else {
            lemma_split_nonempty(s.drop_first(), sep, cur.push(s[0]));
        }
    }
}

fn strip_cr(s: &str) -> (r: String)
    ensures
        r@ == without_cr(s@),
{
    let n = s.unicode_len();
    let mut r = String::new();
    if n > 0 && s.get_char(n - 1) == '\r' {
        append_range(&mut r, s, 0, n - 1);
        assert(s@.subrange(0, n - 1) =~= s@.drop_last());
    } else {
        append_range(&mut r, s, 0, n);
        assert(s@.subrange(0, n as int) =~= s@);
    }
    r
}

/// The lines of `s`.
pub fn text_lines(s: &str) -> (r: Vec<String>)
    ensures
        texts(r@) == lines_of(s@),
{
    let pieces = split_text(s, '\n');
    proof {
        lemma_split_nonempty(s@, '\n', Seq::empty());
    }
    let n = pieces.len();
    let keep = if pieces[n - 1].as_str().unicode_len() == 0 { n - 1 } else { n };
    let mut out: Vec<String> = Vec::new();
    let mut i: usize = 0;
    while i < keep
        invariant
            n == pieces@.len(),
            n >= 1,
            texts(pieces@) == split_on(s@, '\n'),
            keep == (if split_on(s@, '\n').last().len() == 0 { n - 1 } else { n as int }),
            i <= keep,
            out@.len() == i,
            forall|j: int| 0 <= j < i ==> out@[j]@ == lines_of(s@)[j],
        decreases keep - i,
    {
        assert(texts(pieces@)[i as int] == pieces@[i as int]@);
        let line = if i < n - 1 {
            strip_cr(pieces[i].as_str())
        } else {
            String::from_str(pieces[i].as_str())
        };
        out.push(line);
        i += 1;
    }
    assert(texts(out@) =~= lines_of(s@));
    out
}

/// A ripgrep output line that reports a match: not empty and not a file
/// heading of the form `root:`.
pub open spec fn is_ripgrep_match(line: Seq<char>, root: Seq<char>) -> bool {
    line.len() > 0 && !is_prefix(root + ":"@, line)
}

/// How many of `lines` report a ripgrep match.
pub open spec fn count_ripgrep_matches(lines: Seq<Seq<char>>, root: Seq<char>) -> nat
    decreases lines.len(),
{
    if lines.len() == 0 {
        0
    } else {
        count_ripgrep_matches(lines.drop_last(), root) + if is_ripgrep_match(lines.last(), root) {
            1nat
        } else {
            0nat
        }
    }
}

/// How many matches a ripgrep run over `root` reported: none unless it
/// succeeded with some output.
pub fn ripgrep_match_count(output: &CommandOutput, root: &str) -> (r: usize)
    ensures
        !output.success || output.stdout@.len() == 0 ==> r == 0,
        output.success && output.stdout@.len() > 0 ==> r == count_ripgrep_matches(
            lines_of(output.stdout@),
            root@,
        ),
{
    if !output.success || output.stdout.as_str().unicode_len() == 0 {
        return 0;
    }
    let lines = text_lines(output.stdout.as_str());
    let mut heading = String::from_str(root);
    heading.append(":");
    let mut count: usize = 0;
    let mut i: usize = 0;
    while i < lines.len()
        invariant
            i <= lines@.len(),
            count <= i,
            heading@ == root@ + ":"@,
            count == count_ripgrep_matches(texts(lines@).subrange(0, i as int), root@),
        decreases lines.len() - i,
    {
        let ghost prefix = texts(lines@).subrange(0, i + 1);
        assert(prefix.drop_last() =~= texts(lines@).subrange(0, i as int));
        let line = lines[i].as_str();
        if line.unicode_len() > 0 && !starts_with(line, heading.as_str()) {
            count += 1;
        }
        i += 1;
    }
    assert(texts(lines@).subrange(0, i as int) =~= texts(lines@));
    count
}

/// A line of grouped grep results.
#[derive(Debug, PartialEq, Eq)]
pub enum GrepLine {
    /// The matches below are in this file, relative to the checkout.
    File(String),
    /// A match: its line number and its content, trimmed.
    Hit { line_number: String, content: String },
}

/// A grouped line as plain values.
pub enum GrepLineView {
    File(Seq<char>),
    Hit(Seq<char>, Seq<char>),
}

impl View for GrepLine {
    type V = GrepLineView;

    open spec fn view(&self) -> GrepLineView {
        match self {
            GrepLine::File(f) => GrepLineView::File(f@),
            GrepLine::Hit { line_number, content } => GrepLineView::Hit(line_number@, content@),
        }
    }
}

/// The views of grouped lines.
pub open spec fn grep_line_views(v: Seq<GrepLine>) -> Seq<GrepLineView> {
    v.map_values(|l: GrepLine| l@)
}

/// The file a grep line names: the text before its first `:`, without the
/// `root` prefix and leading `/`; nothing when the line has no `:`.
pub open spec fn grep_file_of(line: Seq<char>, root: Seq<char>) -> Option<Seq<char>> {
    match first_index_of(line, ':') {
        None => None,
        Some(k) => {
            let file = line.subrange(0, k);
            let rel = if is_prefix(root, file) {
                file.subrange(root.len() as int, file.len() as int)
            } else {
                file
            };
            Some(strip_leading(rel, "/"@))
        },
    }
}

/// The line number and trimmed content of a grep line: the texts between
/// its first and second `:`, and after the second; nothing without a
/// second `:`.
pub open spec fn grep_hit_of(line: Seq<char>) -> Option<(Seq<char>, Seq<char>)> {
    match first_index_of(line, ':') {
        None => None,
        Some(k) => {
            let rest = line.subrange(k + 1, line.len() as int);
            match first_index_of(rest, ':') {
                None => None,
                Some(j) => Some((rest.subrange(0, j), trim_of(rest.subrange(j + 1, rest.len() as int)))),
            }
        },
    }
}

/// The grouped display of grep lines, `current` being the file last
/// announced: a heading whenever the file changes, then each match.
pub open spec fn grep_display(lines: Seq<Seq<char>>, root: Seq<char>, current: Seq<char>) -> Seq<
    GrepLineView,
>
    decreases lines.len(),
{
    if lines.len() == 0 {
        Seq::empty()
    } else {
        let line = lines[0];
        match grep_file_of(line, root) {
            None => grep_display(lines.drop_first(), root, current),
            Some(f) => {
                let heading = if f != current { seq![GrepLineView::File(f)] } else { Seq::empty() };
                let hit = match grep_hit_of(line) {
                    Some((n, c)) => seq![GrepLineView::Hit(n, c)],
                    None => Seq::empty(),
                };
                heading + hit + grep_display(lines.drop_first(), root, f)
            },
        }
    }
}

fn parse_grep_line(line: &str, root: &str) -> (r: (Option<String>, Option<(String, String)>))
    ensures
        match r.0 {
            Some(f) => grep_file_of(line@, root@) == Some(f@),
            None => grep_file_of(line@, root@) is None,
        },
        match r.1 {
            Some((n, c)) => grep_hit_of(line@) == Some((n@, c@)),
            None => grep_hit_of(line@) is None,
        },
{
    let c = chars_of(line);
    let n = c.len();
    match find_char(&c, ':') {
        None => (None, None),
        Some(k) => {
            let file = line.substring_char(0, k);
            let rel = if starts_with(file, root) {
                let fl = file.unicode_len();
                let rl = root.unicode_len();
                file.substring_char(rl, fl)
            } else {
                file
            };
            let stripped = trim_start_matches(rel, "/");
            let rest = line.substring_char(k + 1, n);
            let rc = chars_of(rest);
            let rn = rc.len();
            let hit = match find_char(&rc, ':') {
                None => None,
                Some(j) => {
                    let mut number = String::new();
                    append_range(&mut number, rest, 0, j);
                    let content = trim(rest.substring_char(j + 1, rn));
                    Some((number, content))
                },
            };
            (Some(stripped), hit)
        },
    }
}

/// How a grep run over `root` reads: the number of lines it printed, and
/// those lines grouped by file. Nothing unless it succeeded with some
/// output.
pub fn group_grep_output(output: &CommandOutput, root: &str) -> (r: (usize, Vec<GrepLine>))
    ensures
        !output.success || output.stdout@.len() == 0 ==> r.0 == 0 && r.1@.len() == 0,
        output.success && output.stdout@.len() > 0 ==> r.0 == lines_of(output.stdout@).len()
            && grep_line_views(r.1@) == grep_display(lines_of(output.stdout@), root@, Seq::empty()),
{
    if !output.success || output.stdout.as_str().unicode_len() == 0 {
        return (0, Vec::new());
    }
    let lines = text_lines(output.stdout.as_str());
    let ghost all = texts(lines@);
    let mut out: Vec<GrepLine> = Vec::new();
    let mut current = String::new();
    let mut i: usize = 0;
    assert(all.subrange(0, all.len() as int) =~= all);
    assert(grep_line_views(out@) + grep_display(all, root@, current@) =~= grep_display(
        all,
        root@,
        Seq::empty(),
    ));
    while i < lines.len()
        invariant
            all == texts(lines@),
            i <= lines@.len(),
            grep_display(all, root@, Seq::empty()) == grep_line_views(out@) + grep_display(
                all.subrange(i as int, all.len() as int),
                root@,
                current@,
            ),
        decreases lines.len() - i,
    {
        let ghost rest = all.subrange(i as int, all.len() as int);
        let ghost before = grep_line_views(out@);
        assert(rest.drop_first() =~= all.subrange(i + 1, all.len() as int));
        assert(rest[0] == lines@[i as int]@);
        let (file, hit) = parse_grep_line(lines[i].as_str(), root);
        match file {
            None => {},
            Some(f) => {
                let ghost cur = current@;
                if !str_eq(f.as_str(), current.as_str()) {
                    out.push(GrepLine::File(f.clone()));
                }
                let ghost mid = grep_line_views(out@);
                assert(mid == before + (if f@ != cur { seq![GrepLineView::File(f@)] } else { Seq::empty() }));
                match hit {
                    Some((n, c)) => {
                        out.push(GrepLine::Hit { line_number: n, content: c });
                    },
                    None => {},
                }
                current = f;
            },
        }
        i += 1;
    }
    (lines.len(), out)
}

} // verus!
