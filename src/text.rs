use vstd::prelude::*;

use crate::chars::{
    is_space, char_vec, char_views, first_index, find_from, lemma_first_index, lit, occurs_at, skip_char,
    slice_chars, space_char, split_chars, split_on, split_words, string_of, strip_leading,
    trim_bounds, trimmed, views, words,
};
use crate::error::Error;

verus! {

// ---------------------------------------------------------------- subtasks

/// The subtask a line of a decomposition names: the line trimmed, without leading `-`, `*`
/// or `•` marks, trimmed again.
pub open spec fn subtask_of(line: Seq<char>) -> Seq<char> {
    trimmed(strip_leading(strip_leading(strip_leading(trimmed(line), '-'), '*'), '•'))
}

/// The non-empty subtasks of the lines, in order.
pub open spec fn kept_subtasks(lines: Seq<Seq<char>>) -> Seq<Seq<char>>
    decreases lines.len(),
{
    if lines.len() == 0 {
        seq![]
    } else {
        kept_subtasks(lines.drop_last()) + if subtask_of(lines.last()).len() > 0 {
            seq![subtask_of(lines.last())]
        } else {
            seq![]
        }
    }
}

/// The subtasks of a raw decomposition, one per non-empty line.
pub open spec fn subtasks_of(raw: Seq<char>) -> Seq<Seq<char>> {
    kept_subtasks(split_on(raw, '\n'))
}

fn line_subtask(l: &Vec<char>) -> (r: Vec<char>)
    ensures
        r@ == subtask_of(l@),
{
    let (a, b) = trim_bounds(l, 0, l.len());
    assert(l@.subrange(0, l@.len() as int) =~= l@);
    let a1 = skip_char(l, a, b, '-');
    let a2 = skip_char(l, a1, b, '*');
    let a3 = skip_char(l, a2, b, '•');
    let (c, d) = trim_bounds(l, a3, b);
    slice_chars(l, c, d)
}

/// Splits a raw decomposition into subtasks: one per line, trimmed, without a leading
/// `-`, `*` or `•`, empty lines dropped.
pub fn parse_subtasks(raw: &str) -> (r: Vec<String>)
    ensures
        views(r@) =~= subtasks_of(raw@),
{
    let v = char_vec(raw);
    let lines = split_chars(&v, '\n');
    let ghost ls = char_views(lines@);
    let mut out: Vec<String> = Vec::new();
    let mut i: usize = 0;
    assert(ls.take(0) =~= Seq::<Seq<char>>::empty());
    while i < lines.len()
        invariant
            ls == char_views(lines@),
            ls =~= split_on(v@, '\n'),
            v@ == raw@,
            i <= lines.len(),
            views(out@) =~= kept_subtasks(ls.take(i as int)),
        decreases lines.len() - i,
    {
        let t = line_subtask(&lines[i]);
        proof {
            assert(ls.take(i + 1).drop_last() =~= ls.take(i as int));
            assert(ls.take(i + 1).last() == lines@[i as int]@);
        }
        if t.len() > 0 {
            let ghost before = views(out@);
            out.push(string_of(&t));
            proof {
                assert(views(out@) =~= before.push(t@));
            }
        } else {
            proof {
                assert(views(out@) + seq![] =~= views(out@));
            }
        }
        i = i + 1;
    }
    proof {
        assert(ls.take(ls.len() as int) =~= ls);
    }
    out
}

// ---------------------------------------------------------------- votes

pub open spec fn is_digit(c: char) -> bool {
    '0' <= c <= '9'
}

pub open spec fn digit_value(c: char) -> nat {
    (c as nat - '0' as nat) as nat
}

/// The ASCII digits of `t`, in order.
pub open spec fn digits_of(t: Seq<char>) -> Seq<char>
    decreases t.len(),
{
    if t.len() == 0 {
        seq![]
    } else {
        digits_of(t.drop_last()) + if is_digit(t.last()) {
            seq![t.last()]
        } else {
            seq![]
        }
    }
}

/// The number that a sequence of decimal digits writes.
pub open spec fn decimal(d: Seq<char>) -> nat
    decreases d.len(),
{
    if d.len() == 0 {
        0
    } else {
        decimal(d.drop_last()) * 10 + digit_value(d.last())
    }
}

/// The 0-based choice a token names among `options`, if it names one.
pub open spec fn token_vote(t: Seq<char>, options: nat) -> Option<usize> {
    let d = digits_of(t);
    if d.len() > 0 && decimal(d) <= usize::MAX && 1 <= decimal(d) <= options {
        Some((decimal(d) - 1) as usize)
    } else {
        None
    }
}

/// The first choice that one of the tokens names.
pub open spec fn first_vote(ts: Seq<Seq<char>>, options: nat) -> Option<usize>
    decreases ts.len(),
{
    if ts.len() == 0 {
        None
    } else if token_vote(ts[0], options) is Some {
        token_vote(ts[0], options)
    } else {
        first_vote(ts.drop_first(), options)
    }
}

fn parse_token_vote(t: &Vec<char>, options: usize) -> (r: Option<usize>)
    ensures
        r == token_vote(t@, options as nat),
{
    let mut acc: usize = 0;
    let mut over = false;
    let mut seen = false;
    let mut j: usize = 0;
    assert(t@.take(0) =~= Seq::<char>::empty());
    while j < t.len()
        invariant
            j <= t.len(),
            seen == (digits_of(t@.take(j as int)).len() > 0),
            !over ==> acc == decimal(digits_of(t@.take(j as int))),
            over ==> decimal(digits_of(t@.take(j as int))) > usize::MAX,
        decreases t.len() - j,
    {
        let c = t[j];
        let ghost d = digits_of(t@.take(j as int));
        proof {
            assert(t@.take(j + 1).drop_last() =~= t@.take(j as int));
            assert(t@.take(j + 1).last() == c);
        }
        if '0' <= c && c <= '9' {
            let dv = (c as u32 - '0' as u32) as usize;
            proof {
                assert(d.push(c).drop_last() =~= d);
                assert(digits_of(t@.take(j + 1)) =~= d.push(c));
                assert(decimal(d.push(c)) == decimal(d) * 10 + digit_value(c));
                assert(dv == digit_value(c));
            }
            if !over {
                match acc.checked_mul(10) {
                    Some(m) => match m.checked_add(dv) {
                        Some(x) => {
                            acc = x;
                        },
                        None => {
                            over = true;
                        },
                    },
                    None => {
                        over = true;
                        proof {
                            assert(decimal(d) * 10 + digit_value(c) > usize::MAX);
                        }
                    },
                }
            } else {
                proof {
                    assert(decimal(d) * 10 + digit_value(c) > usize::MAX) by (nonlinear_arith)
                        requires
                            decimal(d) > usize::MAX,
                    ;
                }
            }
            seen = true;
        } else {
            proof {
                assert(digits_of(t@.take(j + 1)) =~= d);
            }
        }
        j = j + 1;
    }
    proof {
        assert(t@.take(t@.len() as int) =~= t@);
    }
    if seen && !over && 1 <= acc && acc <= options {
        Some(acc - 1)
    } else {
        None
    }
}

/// Reads a vote from a raw response: the first whitespace-separated token whose ASCII digits
/// write a number in `[1, options]` gives that choice, 0-based.
pub fn parse_vote_response(raw: &str, options: usize) -> (r: Option<usize>)
    ensures
        r == first_vote(words(raw@), options as nat),
        r matches Some(c) ==> c < options,
{
    let v = char_vec(raw);
    let tokens = split_words(&v);
    let ghost ts = char_views(tokens@);
    let mut i: usize = 0;
    assert(ts.skip(0) =~= ts);
    while i < tokens.len()
        invariant
            ts == char_views(tokens@),
            ts =~= words(raw@),
            i <= tokens.len(),
            first_vote(ts.skip(i as int), options as nat) == first_vote(ts, options as nat),
        decreases tokens.len() - i,
    {
        let r = parse_token_vote(&tokens[i], options);
        proof {
            assert(ts.skip(i as int)[0] == tokens@[i as int]@);
            assert(ts.skip(i as int).drop_first() =~= ts.skip(i + 1));
        }
        if r.is_some() {
            return r;
        }
        i = i + 1;
    }
    None
}

// ---------------------------------------------------------------- target paths

pub open spec fn edge_mark(c: char) -> bool {
    c == '(' || c == ')' || c == ':' || c == ',' || c == '\'' || c == '"'
}

pub open spec fn strip_marks_start(s: Seq<char>) -> Seq<char>
    decreases s.len(),
{
    if s.len() > 0 && edge_mark(s[0]) {
        strip_marks_start(s.drop_first())
    } else {
        s
    }
}

pub open spec fn strip_marks_end(s: Seq<char>) -> Seq<char>
    decreases s.len(),
{
    if s.len() > 0 && edge_mark(s.last()) {
        strip_marks_end(s.drop_last())
    } else {
        s
    }
}

/// A token without brackets, colons, commas or quotes at its ends.
pub open spec fn cleaned(t: Seq<char>) -> Seq<char> {
    strip_marks_end(strip_marks_start(t))
}

/// A cleaned token that names a file: it holds a `.` or a `/` and does not end with `.`.
pub open spec fn names_file(c: Seq<char>) -> bool {
    (c.contains('.') || c.contains('/')) && !(c.len() > 0 && c.last() == '.')
}

pub open spec fn first_file_token(ts: Seq<Seq<char>>) -> Option<Seq<char>>
    decreases ts.len(),
{
    if ts.len() == 0 {
        None
    } else if names_file(cleaned(ts[0])) {
        Some(cleaned(ts[0]))
    } else {
        first_file_token(ts.drop_first())
    }
}

pub fn has_char(v: &Vec<char>, lo: usize, hi: usize, c: char) -> (r: bool)
    requires
        lo <= hi <= v.len(),
    ensures
        r == v@.subrange(lo as int, hi as int).contains(c),
{
    let mut i = lo;
    while i < hi
        invariant
            lo <= i <= hi <= v.len(),
            forall|x: int| lo <= x < i ==> #[trigger] v@[x] != c,
        decreases hi - i,
    {
        if v[i] == c {
            assert(v@.subrange(lo as int, hi as int)[i - lo] == c);
            return true;
        }
        i = i + 1;
    }
    assert forall|x: int| 0 <= x < hi - lo implies #[trigger] v@.subrange(lo as int, hi as int)[x]
        != c by {
        assert(v@.subrange(lo as int, hi as int)[x] == v@[lo + x]);
    }
    false
}

fn cleaned_bounds(v: &Vec<char>) -> (r: (usize, usize))
    ensures
        r.0 <= r.1 <= v.len(),
        v@.subrange(r.0 as int, r.1 as int) =~= cleaned(v@),
{
    let n = v.len();
    let mut a: usize = 0;
    assert(v@.subrange(0, n as int) =~= v@);
    while a < n && (v[a] == '(' || v[a] == ')' || v[a] == ':' || v[a] == ',' || v[a] == '\''
        || v[a] == '"')
        invariant
            a <= n == v.len(),
            strip_marks_start(v@) == strip_marks_start(v@.subrange(a as int, n as int)),
        decreases n - a,
    {
        assert(v@.subrange(a as int, n as int).drop_first() =~= v@.subrange(a + 1, n as int));
        a = a + 1;
    }
    if a < n {
        assert(v@.subrange(a as int, n as int)[0] == v@[a as int]);
    }
    let mut b: usize = n;
    while b > a && (v[b - 1] == '(' || v[b - 1] == ')' || v[b - 1] == ':' || v[b - 1] == ','
        || v[b - 1] == '\'' || v[b - 1] == '"')
        invariant
            a <= b <= n == v.len(),
            strip_marks_start(v@) == v@.subrange(a as int, n as int),
            cleaned(v@) == strip_marks_end(v@.subrange(a as int, b as int)),
        decreases b - a,
    {
        assert(v@.subrange(a as int, b as int).drop_last() =~= v@.subrange(a as int, b - 1));
        b = b - 1;
    }
    (a, b)
}

/// The first token of a step description that looks like a file path.
pub fn extract_target_path(description: &str) -> (r: Option<String>)
    ensures
        r matches Some(p) ==> first_file_token(words(description@)) == Some(p@),
        r is None ==> first_file_token(words(description@)) is None,
{
    let v = char_vec(description);
    let tokens = split_words(&v);
    let ghost ts = char_views(tokens@);
    let mut i: usize = 0;
    assert(ts.skip(0) =~= ts);
    while i < tokens.len()
        invariant
            ts == char_views(tokens@),
            ts =~= words(description@),
            i <= tokens.len(),
            first_file_token(ts.skip(i as int)) == first_file_token(ts),
        decreases tokens.len() - i,
    {
        let t = &tokens[i];
        proof {
            assert(ts.skip(i as int)[0] == t@);
            assert(ts.skip(i as int).drop_first() =~= ts.skip(i + 1));
        }
        let (a, b) = cleaned_bounds(t);
        let has_mark = has_char(t, a, b, '.') || has_char(t, a, b, '/');
        let ends_dot = b > a && t[b - 1] == '.';
        if has_mark && !ends_dot {
            return Some(string_of(&slice_chars(t, a, b)));
        }
        i = i + 1;
    }
    None
}

// ---------------------------------------------------------------- fenced code

/// The body of the first fenced code block of `s`, without its language line; `s` itself when
/// it holds no complete fence pair.
pub open spec fn code_content(s: Seq<char>) -> Seq<char> {
    let fence = seq!['`', '`', '`'];
    match first_index(s, fence, 0) {
        None => s,
        Some(a) => match first_index(s, fence, a + 3) {
            None => s,
            Some(b) => {
                let block = s.subrange(a + 3, b);
                match first_index(block, seq!['\n'], 0) {
                    Some(nl) => block.subrange(nl + 1, block.len() as int),
                    None => block,
                }
            },
        },
    }
}

/// Extracts the body of the first fenced code block of a solution, or the solution itself.
pub fn extract_code_content(raw: &str) -> (r: String)
    ensures
        r@ == code_content(raw@),
{
    let v = char_vec(raw);
    let fence = lit("```");
    proof {
        reveal_strlit("```");
        assert(fence@ =~= seq!['`', '`', '`']);
    }
    match find_from(&v, &fence, 0) {
        None => string_of(&v),
        Some(a) => {
            proof {
                lemma_first_index(v@, fence@, 0);
                assert(fence@.len() == 3);
            }
            assert(a + 3 <= v.len());
            match find_from(&v, &fence, a + 3) {
                None => string_of(&v),
                Some(b) => {
                    proof {
                        lemma_first_index(v@, fence@, a + 3);
                    }
                    let block = slice_chars(&v, a + 3, b);
                    let nl = lit("\n");
                    proof {
                        reveal_strlit("\n");
                        assert(nl@ =~= seq!['\n']);
                    }
                    match find_from(&block, &nl, 0) {
                        Some(k) => {
                            proof {
                                lemma_first_index(block@, nl@, 0);
                            }
                            string_of(&slice_chars(&block, k + 1, block.len()))
                        },
                        None => string_of(&block),
                    }
                },
            }
        },
    }
}

// ---------------------------------------------------------------- file blocks

/// The first index at or after `j` that does not hold white space.
pub open spec fn first_non_space(s: Seq<char>, j: int) -> int
    decreases s.len() - j,
{
    if 0 <= j < s.len() && space_char(s[j]) {
        first_non_space(s, j + 1)
    } else {
        j
    }
}

/// The opening tag `<file path="...">` at `i`: where the path starts and ends, and where the
/// content starts. The tag needs white space after `<file` and a non-empty path.
pub open spec fn xml_header(s: Seq<char>, i: int) -> Option<(int, int, int)> {
    if !(0 <= i && i + 5 <= s.len() && s.subrange(i, i + 5) == "<file"@) {
        None
    } else {
        let j = first_non_space(s, i + 5);
        if j == i + 5 || !(j + 6 <= s.len() && s.subrange(j, j + 6) == "path=\""@) {
            None
        } else {
            match first_index(s, "\""@, j + 6) {
                None => None,
                Some(pe) => if pe == j + 6 || !(pe + 2 <= s.len() && s.subrange(pe, pe + 2)
                    == "\">"@) {
                    None
                } else {
                    Some((j + 6, pe, pe + 2))
                },
            }
        }
    }
}

/// The file block that starts at `i`, closed by the first `</file>` after its tag: its path,
/// its trimmed content, and where it ends.
pub open spec fn xml_block_at(s: Seq<char>, i: int) -> Option<(Seq<char>, Seq<char>, int)> {
    match xml_header(s, i) {
        None => None,
        Some(h) => match first_index(s, "</file>"@, h.2) {
            None => None,
            Some(ce) => Some((s.subrange(h.0, h.1), trimmed(s.subrange(h.2, ce)), ce + 7)),
        },
    }
}

/// The file blocks of `s` from `i` on, leftmost first, none overlapping.
pub open spec fn xml_blocks_from(s: Seq<char>, i: int) -> Seq<(Seq<char>, Seq<char>)>
    decreases s.len() - i,
{
    if i < 0 || i >= s.len() {
        seq![]
    } else {
        match xml_block_at(s, i) {
            Some(b) => if i < b.2 <= s.len() {
                seq![(b.0, b.1)] + xml_blocks_from(s, b.2)
            } else {
                seq![]
            },
            None => xml_blocks_from(s, i + 1),
        }
    }
}

proof fn lemma_first_non_space(s: Seq<char>, j: int)
    ensures
        first_non_space(s, j) >= j,
        0 <= j <= s.len() ==> first_non_space(s, j) <= s.len(),
    decreases s.len() - j,
{
    if 0 <= j < s.len() && space_char(s[j]) {
        lemma_first_non_space(s, j + 1);
    }
}

proof fn lemma_xml_header(s: Seq<char>, i: int)
    ensures
        xml_header(s, i) matches Some(h) ==> 0 <= i && i + 5 < h.0 <= h.1 && h.1 + 2 == h.2
            && h.2 <= s.len(),
{
    reveal_strlit("\"");
    if 0 <= i && i + 5 <= s.len() && s.subrange(i, i + 5) == "<file"@ {
        lemma_first_non_space(s, i + 5);
        let j = first_non_space(s, i + 5);
        lemma_first_index(s, "\""@, j + 6);
    }
}

pub open spec fn pair_views(v: Seq<(String, String)>) -> Seq<(Seq<char>, Seq<char>)> {
    v.map_values(|p: (String, String)| (p.0@, p.1@))
}

fn xml_header_at(v: &Vec<char>, i: usize, open_tag: &Vec<char>, path_attr: &Vec<char>, quote: &Vec<char>, close_attr: &Vec<char>) -> (r: Option<(usize, usize, usize)>)
    requires
        open_tag@ == "<file"@,
        path_attr@ == "path=\""@,
        quote@ == "\""@,
        close_attr@ == "\">"@,
    ensures
        r matches Some(t) ==> xml_header(v@, i as int) == Some((t.0 as int, t.1 as int, t.2 as int)),
        r is None ==> xml_header(v@, i as int) is None,
{
    proof {
        reveal_strlit("<file");
        reveal_strlit("path=\"");
        reveal_strlit("\"");
        reveal_strlit("\">");
    }
    if !occurs_at(v, i, open_tag) {
        return None;
    }
    let mut j = i + 5;
    while j < v.len() && is_space(v[j])
        invariant
            i + 5 <= j <= v.len(),
            first_non_space(v@, i + 5) == first_non_space(v@, j as int),
        decreases v.len() - j,
    {
        j = j + 1;
    }
    if j == i + 5 || !occurs_at(v, j, path_attr) {
        return None;
    }
    match find_from(v, quote, j + 6) {
        None => None,
        Some(pe) => {
            proof {
                lemma_first_index(v@, quote@, j + 6);
            }
            if pe == j + 6 || !occurs_at(v, pe, close_attr) {
                None
            } else {
                Some((j + 6, pe, pe + 2))
            }
        },
    }
}

/// The `<file path="...">...</file>` blocks of a solution: each path with its trimmed content.
pub fn extract_xml_files(raw: &str) -> (r: Vec<(String, String)>)
    ensures
        pair_views(r@) =~= xml_blocks_from(raw@, 0),
{
    let v = char_vec(raw);
    let open_tag = lit("<file");
    let path_attr = lit("path=\"");
    let quote = lit("\"");
    let close_attr = lit("\">");
    let end_tag = lit("</file>");
    proof {
        reveal_strlit("</file>");
    }
    let ghost s = v@;
    let mut out: Vec<(String, String)> = Vec::new();
    let mut i: usize = 0;
    while i < v.len()
        invariant
            s == v@,
            s == raw@,
            open_tag@ == "<file"@,
            path_attr@ == "path=\""@,
            quote@ == "\""@,
            close_attr@ == "\">"@,
            end_tag@ == "</file>"@,
            i <= s.len(),
            pair_views(out@) + xml_blocks_from(s, i as int) =~= xml_blocks_from(s, 0),
        decreases s.len() - i,
    {
        match xml_header_at(&v, i, &open_tag, &path_attr, &quote, &close_attr) {
            None => {
                i = i + 1;
            },
            Some((ps, pe, cs)) => {
                proof {
                    lemma_xml_header(s, i as int);
                }
                match find_from(&v, &end_tag, cs) {
                    None => {
                        i = i + 1;
                    },
                    Some(ce) => {
                        proof {
                            lemma_first_index(v@, end_tag@, cs as int);
                            reveal_strlit("</file>");
                            assert(end_tag@.len() == 7);
                        }
                        let path = string_of(&slice_chars(&v, ps, pe));
                        let (a, b) = trim_bounds(&v, cs, ce);
                        let content = string_of(&slice_chars(&v, a, b));
                        let ghost before = pair_views(out@);
                        out.push((path, content));
                        proof {
                            assert(pair_views(out@) =~= before.push((s.subrange(ps as int, pe as int), trimmed(s.subrange(cs as int, ce as int)))));
                        }
                        proof {
                            assert(xml_block_at(s, i as int) == Some((s.subrange(ps as int, pe as int), trimmed(s.subrange(cs as int, ce as int)), ce + 7)));
                            assert(xml_blocks_from(s, i as int) == seq![(s.subrange(ps as int, pe as int), trimmed(s.subrange(cs as int, ce as int)))] + xml_blocks_from(s, ce + 7));
                        }
                        i = ce + 7;
                    },
                }
            },
        }
    }
    proof {
        assert(xml_blocks_from(s, i as int) =~= Seq::<(Seq<char>, Seq<char>)>::empty());
    }
    out
}

// ---------------------------------------------------------------- path safety

/// A path that the applier may write: relative, with no `..` and no `.git` component.
pub open spec fn path_is_safe(s: Seq<char>) -> bool {
    &&& !(s.len() > 0 && s[0] == '/')
    &&& forall|i: int|
        0 <= i < split_on(s, '/').len() ==> #[trigger] split_on(s, '/')[i] != seq!['.', '.']
            && split_on(s, '/')[i] != seq!['.', 'g', 'i', 't']
}

pub fn is_lit(v: &Vec<char>, p: &Vec<char>) -> (r: bool)
    ensures
        r == (v@ == p@),
{
    if v.len() != p.len() {
        return false;
    }
    let b = occurs_at(v, 0, p);
    assert(v@.subrange(0, v@.len() as int) =~= v@);
    b
}

/// Checks a target path for the applier: absolute paths, `..` components and `.git`
/// components are refused.
pub fn validate_target_path(raw: &str) -> (r: Result<String, Error>)
    ensures
        r is Ok <==> path_is_safe(raw@),
        r matches Ok(p) ==> p@ == raw@,
        r matches Err(e) ==> e is FileSystem,
{
    let v = char_vec(raw);
    if v.len() > 0 && v[0] == '/' {
        return Err(Error::FileSystem(String::from_str("Absolute paths are forbidden: ").concat(raw)));
    }
    let parts = split_chars(&v, '/');
    let ghost ps = char_views(parts@);
    let up = lit("..");
    let git = lit(".git");
    proof {
        reveal_strlit("..");
        reveal_strlit(".git");
        assert(up@ =~= seq!['.', '.']);
        assert(git@ =~= seq!['.', 'g', 'i', 't']);
    }
    let mut i: usize = 0;
    while i < parts.len()
        invariant
            ps == char_views(parts@),
            ps =~= split_on(v@, '/'),
            v@ == raw@,
            up@ == seq!['.', '.'],
            git@ == seq!['.', 'g', 'i', 't'],
            i <= parts.len(),
            forall|j: int| 0 <= j < i ==> #[trigger] ps[j] != seq!['.', '.'] && ps[j] != seq!['.', 'g', 'i', 't'],
        decreases parts.len() - i,
    {
        proof {
            assert(ps[i as int] == parts@[i as int]@);
            assert(split_on(raw@, '/')[i as int] == ps[i as int]);
        }
        if is_lit(&parts[i], &up) {
            return Err(Error::FileSystem(String::from_str("Path traversal (..) is forbidden: ").concat(raw)));
        }
        if is_lit(&parts[i], &git) {
            return Err(Error::FileSystem(String::from_str("Modifying .git directory is forbidden: ").concat(raw)));
        }
        i = i + 1;
    }
    Ok(String::from_str(raw))
}

// ---------------------------------------------------------------- previews

/// Longest preview of a red-flagged sample, in characters.
pub const PREVIEW_LIMIT: usize = 160;

/// The preview of a sample: trimmed, and cut to 159 characters and an ellipsis when longer
/// than the limit.
pub open spec fn preview_of(s: Seq<char>) -> Seq<char> {
    let t = trimmed(s);
    if t.len() > PREVIEW_LIMIT {
        t.subrange(0, PREVIEW_LIMIT - 1).push('…')
    } else {
        t
    }
}

pub fn preview_sample(text: &str) -> (r: String)
    ensures
        r@ == preview_of(text@),
        r@.len() <= PREVIEW_LIMIT,
{
    let v = char_vec(text);
    let (a, b) = trim_bounds(&v, 0, v.len());
    assert(v@.subrange(0, v@.len() as int) =~= v@);
    if b - a > PREVIEW_LIMIT {
        let mut cut = slice_chars(&v, a, a + PREVIEW_LIMIT - 1);
        cut.push('…');
        assert(cut@ =~= v@.subrange(a as int, b as int).subrange(0, PREVIEW_LIMIT - 1).push('…'));
        string_of(&cut)
    } else {
        string_of(&slice_chars(&v, a, b))
    }
}

// ---------------------------------------------------------------- option listing

pub open spec fn digit_char(d: nat) -> char {
    (('0' as nat) + d) as char
}

/// The decimal writing of `n`.
pub open spec fn decimal_text(n: nat) -> Seq<char>
    decreases n,
{
    if n < 10 {
        seq![digit_char(n)]
    } else {
        decimal_text(n / 10).push(digit_char(n % 10))
    }
}

fn digit(m: usize) -> (c: char)
    requires
        m < 10,
    ensures
        c == digit_char(m as nat),
{
    if m == 0 {
        '0'
    } else if m == 1 {
        '1'
    } else if m == 2 {
        '2'
    } else if m == 3 {
        '3'
    } else if m == 4 {
        '4'
    } else if m == 5 {
        '5'
    } else if m == 6 {
        '6'
    } else if m == 7 {
        '7'
    } else if m == 8 {
        '8'
    } else {
        '9'
    }
}

pub fn decimal_chars(n: usize) -> (r: Vec<char>)
    ensures
        r@ == decimal_text(n as nat),
    decreases n,
{
    let d = digit(n % 10);
    if n < 10 {
        let mut r = Vec::new();
        r.push(d);
        assert(r@ =~= seq![d]);
        r
    } else {
        let mut r = decimal_chars(n / 10);
        r.push(d);
        r
    }
}

/// The vote prompt's listing: `Option i:` then the option, a blank line after each.
pub open spec fn options_text(opts: Seq<Seq<char>>) -> Seq<char>
    decreases opts.len(),
{
    if opts.len() == 0 {
        seq![]
    } else {
        options_text(opts.drop_last()) + seq!['O', 'p', 't', 'i', 'o', 'n', ' '] + decimal_text(
            opts.len(),
        ) + seq![':', '\n'] + opts.last() + seq!['\n', '\n']
    }
}

pub fn enumerate_options(options: &Vec<String>) -> (r: String)
    ensures
        r@ == options_text(views(options@)),
{
    let ghost os = views(options@);
    let mut out: Vec<char> = Vec::new();
    let mut i: usize = 0;
    assert(os.take(0) =~= Seq::<Seq<char>>::empty());
    while i < options.len()
        invariant
            os == views(options@),
            i <= options.len(),
            out@ == options_text(os.take(i as int)),
        decreases options.len() - i,
    {
        let head = lit("Option ");
        let num = decimal_chars(i + 1);
        let body = char_vec(options[i].as_str());
        proof {
            reveal_strlit("Option ");
            assert(os.take(i + 1).drop_last() =~= os.take(i as int));
            assert(os.take(i + 1).last() == options@[i as int]@);
        }
        let ghost before = out@;
        let mut j: usize = 0;
        while j < head.len()
            invariant
                j <= head.len(),
                out@ == before + head@.take(j as int),
            decreases head.len() - j,
        {
            out.push(head[j]);
            assert(head@.take(j + 1) =~= head@.take(j as int).push(head@[j as int]));
            j = j + 1;
        }
        let ghost b2 = out@;
        j = 0;
        while j < num.len()
            invariant
                j <= num.len(),
                out@ == b2 + num@.take(j as int),
            decreases num.len() - j,
        {
            out.push(num[j]);
            assert(num@.take(j + 1) =~= num@.take(j as int).push(num@[j as int]));
            j = j + 1;
        }
        out.push(':');
        out.push('\n');
        let ghost b3 = out@;
        j = 0;
        while j < body.len()
            invariant
                j <= body.len(),
                out@ == b3 + body@.take(j as int),
            decreases body.len() - j,
        {
            out.push(body[j]);
            assert(body@.take(j + 1) =~= body@.take(j as int).push(body@[j as int]));
            j = j + 1;
        }
        out.push('\n');
        out.push('\n');
        proof {
            assert(head@.take(head@.len() as int) =~= head@);
            assert(num@.take(num@.len() as int) =~= num@);
            assert(body@.take(body@.len() as int) =~= body@);
            assert(head@ =~= seq!['O', 'p', 't', 'i', 'o', 'n', ' ']);
            assert(out@ =~= options_text(os.take(i + 1)));
        }
        i = i + 1;
    }
    proof {
        assert(os.take(os.len() as int) =~= os);
    }
    string_of(&out)
}

// ---------------------------------------------------------------- delimiters

pub open spec fn opener_for(c: char) -> char {
    if c == ')' {
        '('
    } else if c == ']' {
        '['
    } else {
        '{'
    }
}

/// Whether the brackets of `s` fail to nest, given the brackets still open before it.
pub open spec fn unbalanced_from(s: Seq<char>, open: Seq<char>) -> bool
    decreases s.len(),
{
    if s.len() == 0 {
        open.len() > 0
    } else {
        let c = s[0];
        if c == '(' || c == '[' || c == '{' {
            unbalanced_from(s.drop_first(), open.push(c))
        } else if c == ')' || c == ']' || c == '}' {
            if open.len() == 0 || open.last() != opener_for(c) {
                true
            } else {
                unbalanced_from(s.drop_first(), open.drop_last())
            }
        } else {
            unbalanced_from(s.drop_first(), open)
        }
    }
}

/// Whether the round, square and curly brackets of a text fail to nest.
pub fn is_unbalanced(text: &str) -> (r: bool)
    ensures
        r == unbalanced_from(text@, seq![]),
{
    let v = char_vec(text);
    let mut open: Vec<char> = Vec::new();
    let mut i: usize = 0;
    assert(v@.skip(0) =~= v@);
    while i < v.len()
        invariant
            i <= v.len(),
            v@ == text@,
            unbalanced_from(v@.skip(i as int), open@) == unbalanced_from(text@, seq![]),
        decreases v.len() - i,
    {
        let c = v[i];
        proof {
            assert(v@.skip(i as int)[0] == c);
            assert(v@.skip(i as int).drop_first() =~= v@.skip(i + 1));
        }
        if c == '(' || c == '[' || c == '{' {
            open.push(c);
        } else if c == ')' || c == ']' || c == '}' {
            let want = if c == ')' {
                '('
            } else if c == ']' {
                '['
            } else {
                '{'
            };
            match open.pop() {
                Some(top) => {
                    if top != want {
                        return true;
                    }
                },
                None => {
                    return true;
                },
            }
        }
        i = i + 1;
    }
    assert(v@.skip(v@.len() as int).len() == 0);
    open.len() > 0
}

// ---------------------------------------------------------------- languages

pub open spec fn ends_with(s: Seq<char>, p: Seq<char>) -> bool {
    p.len() <= s.len() && s.subrange(s.len() - p.len(), s.len() as int) == p
}

pub fn ends_with_lit(v: &Vec<char>, p: &str) -> (r: bool)
    ensures
        r == ends_with(v@, p@),
{
    let pv = lit(p);
    if pv.len() > v.len() {
        return false;
    }
    occurs_at(v, v.len() - pv.len(), &pv)
}

/// The language a file's extension names: `.rs`, `.py`, `.java`, `.js` and `.ts`.
pub open spec fn language_of(path: Seq<char>) -> Option<Seq<char>> {
    if ends_with(path, ".rs"@) {
        Some("rust"@)
    } else if ends_with(path, ".py"@) {
        Some("python"@)
    } else if ends_with(path, ".java"@) {
        Some("java"@)
    } else if ends_with(path, ".js"@) || ends_with(path, ".ts"@) {
        Some("javascript"@)
    } else {
        None
    }
}

pub fn infer_language(path: &str) -> (r: Option<String>)
    ensures
        r matches Some(l) ==> language_of(path@) == Some(l@),
        r is None ==> language_of(path@) is None,
{
    let v = char_vec(path);
    if ends_with_lit(&v, ".rs") {
        Some(String::from_str("rust"))
    } else if ends_with_lit(&v, ".py") {
        Some(String::from_str("python"))
    } else if ends_with_lit(&v, ".java") {
        Some(String::from_str("java"))
    } else if ends_with_lit(&v, ".js") || ends_with_lit(&v, ".ts") {
        Some(String::from_str("javascript"))
    } else {
        None
    }
}

} // verus!
