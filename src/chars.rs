use vstd::prelude::*;

verus! {

/// Whether a character is white space: the code points of Unicode's White_Space property,
/// which `char::is_whitespace` tests.
pub open spec fn space_char(c: char) -> bool {
    let u = c as u32;
    (0x9 <= u && u <= 0xD) || u == 0x20 || u == 0x85 || u == 0xA0 || u == 0x1680 || (0x2000 <= u
        && u <= 0x200A) || u == 0x2028 || u == 0x2029 || u == 0x202F || u == 0x205F || u == 0x3000
}

pub fn is_space(c: char) -> (r: bool)
    ensures
        r == space_char(c),
        c == ' ' || c == '\t' || c == '\n' || c == '\r' ==> r,
        '0' <= c <= '9' ==> !r,
{
    let u = c as u32;
    (0x9 <= u && u <= 0xD) || u == 0x20 || u == 0x85 || u == 0xA0 || u == 0x1680 || (0x2000 <= u
        && u <= 0x200A) || u == 0x2028 || u == 0x2029 || u == 0x202F || u == 0x205F || u == 0x3000
}

/// Relies on `str::chars` collected into a `Vec`: the characters of the string, in order.
#[verifier::external_body]
pub fn char_vec(s: &str) -> (r: Vec<char>)
    ensures
        r@ == s@,
{
    s.chars().collect()
}

/// Relies on collecting characters into a `String`: the string of those characters.
#[verifier::external_body]
pub fn string_of(v: &Vec<char>) -> (r: String)
    ensures
        r@ == v@,
{
    v.iter().collect()
}

/// The characters that a sequence of strings holds.
pub open spec fn views(v: Seq<String>) -> Seq<Seq<char>> {
    v.map_values(|x: String| x@)
}

pub open spec fn char_views(v: Seq<Vec<char>>) -> Seq<Seq<char>> {
    v.map_values(|x: Vec<char>| x@)
}

/// `s` without its leading white space.
pub open spec fn trim_start(s: Seq<char>) -> Seq<char>
    decreases s.len(),
{
    if s.len() > 0 && space_char(s[0]) {
        trim_start(s.drop_first())
    } else {
        s
    }
}

/// `s` without its trailing white space.
pub open spec fn trim_end(s: Seq<char>) -> Seq<char>
    decreases s.len(),
{
    if s.len() > 0 && space_char(s.last()) {
        trim_end(s.drop_last())
    } else {
        s
    }
}

/// `s` without white space at either end.
pub open spec fn trimmed(s: Seq<char>) -> Seq<char> {
    trim_end(trim_start(s))
}

/// `s` without the copies of `c` that start it.
pub open spec fn strip_leading(s: Seq<char>, c: char) -> Seq<char>
    decreases s.len(),
{
    if s.len() > 0 && s[0] == c {
        strip_leading(s.drop_first(), c)
    } else {
        s
    }
}

/// The pieces of `s` between the separators `sep`, `cur` being the start of the first piece.
pub open spec fn split_from(s: Seq<char>, sep: char, cur: Seq<char>) -> Seq<Seq<char>>
    decreases s.len(),
{
    if s.len() == 0 {
        seq![cur]
    } else if s[0] == sep {
        seq![cur] + split_from(s.drop_first(), sep, seq![])
    } else {
        split_from(s.drop_first(), sep, cur.push(s[0]))
    }
}

/// The pieces of `s` between the separators `sep` (empty pieces included).
pub open spec fn split_on(s: Seq<char>, sep: char) -> Seq<Seq<char>> {
    split_from(s, sep, seq![])
}

/// The words of `s`, `cur` being the start of the first one.
pub open spec fn words_from(s: Seq<char>, cur: Seq<char>) -> Seq<Seq<char>>
    decreases s.len(),
{
    if s.len() == 0 {
        if cur.len() == 0 {
            seq![]
        } else {
            seq![cur]
        }
    } else if space_char(s[0]) {
        (if cur.len() == 0 {
            seq![]
        } else {
            seq![cur]
        }) + words_from(s.drop_first(), seq![])
    } else {
        words_from(s.drop_first(), cur.push(s[0]))
    }
}

/// The maximal runs of characters other than white space, in order.
pub open spec fn words(s: Seq<char>) -> Seq<Seq<char>> {
    words_from(s, seq![])
}

proof fn lemma_skip_step<A>(s: Seq<A>, i: int)
    requires
        0 <= i < s.len(),
    ensures
        s.skip(i)[0] == s[i],
        s.skip(i).drop_first() =~= s.skip(i + 1),
        s.skip(i).len() > 0,
{
}

/// Index of the first character of `v[lo..hi]` that is not white space, or `hi`.
fn skip_spaces(v: &Vec<char>, lo: usize, hi: usize) -> (r: usize)
    requires
        lo <= hi <= v.len(),
    ensures
        lo <= r <= hi,
        trim_start(v@.subrange(lo as int, hi as int)) =~= v@.subrange(r as int, hi as int),
{
    let mut i = lo;
    while i < hi && is_space(v[i])
        invariant
            lo <= i <= hi <= v.len(),
            trim_start(v@.subrange(lo as int, hi as int)) == trim_start(
                v@.subrange(i as int, hi as int),
            ),
        decreases hi - i,
    {
        assert(v@.subrange(i as int, hi as int).drop_first() =~= v@.subrange(
            i as int + 1,
            hi as int,
        ));
        i = i + 1;
    }
    if i < hi {
        assert(v@.subrange(i as int, hi as int)[0] == v@[i as int]);
    }
    i
}

/// End of `v[lo..hi]` once its trailing white space is cut.
fn cut_spaces(v: &Vec<char>, lo: usize, hi: usize) -> (r: usize)
    requires
        lo <= hi <= v.len(),
    ensures
        lo <= r <= hi,
        trim_end(v@.subrange(lo as int, hi as int)) =~= v@.subrange(lo as int, r as int),
{
    let mut j = hi;
    while j > lo && is_space(v[j - 1])
        invariant
            lo <= j <= hi <= v.len(),
            trim_end(v@.subrange(lo as int, hi as int)) == trim_end(
                v@.subrange(lo as int, j as int),
            ),
        decreases j - lo,
    {
        assert(v@.subrange(lo as int, j as int).drop_last() =~= v@.subrange(
            lo as int,
            j as int - 1,
        ));
        j = j - 1;
    }
    j
}

/// Bounds of `v[lo..hi]` without white space at either end.
pub fn trim_bounds(v: &Vec<char>, lo: usize, hi: usize) -> (r: (usize, usize))
    requires
        lo <= hi <= v.len(),
    ensures
        lo <= r.0 <= r.1 <= hi,
        trimmed(v@.subrange(lo as int, hi as int)) =~= v@.subrange(r.0 as int, r.1 as int),
{
    let a = skip_spaces(v, lo, hi);
    let b = cut_spaces(v, a, hi);
    (a, b)
}

/// The characters `v[lo..hi]`.
pub fn slice_chars(v: &Vec<char>, lo: usize, hi: usize) -> (r: Vec<char>)
    requires
        lo <= hi <= v.len(),
    ensures
        r@ =~= v@.subrange(lo as int, hi as int),
{
    let mut r: Vec<char> = Vec::new();
    let mut i = lo;
    while i < hi
        invariant
            lo <= i <= hi <= v.len(),
            r@ =~= v@.subrange(lo as int, i as int),
        decreases hi - i,
    {
        r.push(v[i]);
        i = i + 1;
    }
    r
}

/// `s` with white space cut from both ends.
pub fn trim_string(s: &str) -> (r: String)
    ensures
        r@ == trimmed(s@),
{
    let v = char_vec(s);
    let (a, b) = trim_bounds(&v, 0, v.len());
    assert(v@.subrange(0, v@.len() as int) =~= v@);
    string_of(&slice_chars(&v, a, b))
}

/// Index past the copies of `c` that start `v[lo..hi]`.
pub fn skip_char(v: &Vec<char>, lo: usize, hi: usize, c: char) -> (r: usize)
    requires
        lo <= hi <= v.len(),
    ensures
        lo <= r <= hi,
        strip_leading(v@.subrange(lo as int, hi as int), c) =~= v@.subrange(r as int, hi as int),
{
    let mut i = lo;
    while i < hi && v[i] == c
        invariant
            lo <= i <= hi <= v.len(),
            strip_leading(v@.subrange(lo as int, hi as int), c) == strip_leading(
                v@.subrange(i as int, hi as int),
                c,
            ),
        decreases hi - i,
    {
        assert(v@.subrange(i as int, hi as int).drop_first() =~= v@.subrange(
            i as int + 1,
            hi as int,
        ));
        i = i + 1;
    }
    if i < hi {
        assert(v@.subrange(i as int, hi as int)[0] == v@[i as int]);
    }
    i
}

/// The pieces of `v` between the separators `sep`.
pub fn split_chars(v: &Vec<char>, sep: char) -> (r: Vec<Vec<char>>)
    ensures
        char_views(r@) =~= split_on(v@, sep),
{
    let ghost s = v@;
    let mut out: Vec<Vec<char>> = Vec::new();
    let mut cur: Vec<char> = Vec::new();
    let mut i: usize = 0;
    proof {
        assert(s.skip(0) =~= s);
        assert(char_views(out@) + split_from(s.skip(0), sep, cur@) =~= split_on(s, sep));
    }
    while i < v.len()
        invariant
            s == v@,
            i <= s.len(),
            char_views(out@) + split_from(s.skip(i as int), sep, cur@) =~= split_on(s, sep),
        decreases s.len() - i,
    {
        proof {
            lemma_skip_step(s, i as int);
        }
        let c = v[i];
        if c == sep {
            let ghost before = char_views(out@);
            let ghost piece = cur@;
            out.push(cur);
            cur = Vec::new();
            proof {
                assert(char_views(out@) =~= before.push(piece));
                assert(split_from(s.skip(i as int), sep, piece) =~= seq![piece] + split_from(
                    s.skip(i + 1),
                    sep,
                    seq![],
                ));
                assert(before + (seq![piece] + split_from(s.skip(i + 1), sep, seq![])) =~= before.push(piece) + split_from(s.skip(i + 1), sep, seq![]));
            }
        } else {
            cur.push(c);
        }
        i = i + 1;
    }
    let ghost before = char_views(out@);
    out.push(cur);
    proof {
        assert(s.skip(s.len() as int).len() == 0);
        assert(char_views(out@) =~= before.push(cur@));
    }
    out
}

/// The words of `v`, split at white space.
pub fn split_words(v: &Vec<char>) -> (r: Vec<Vec<char>>)
    ensures
        char_views(r@) =~= words(v@),
{
    let ghost s = v@;
    let mut out: Vec<Vec<char>> = Vec::new();
    let mut cur: Vec<char> = Vec::new();
    let mut i: usize = 0;
    proof {
        assert(s.skip(0) =~= s);
        assert(char_views(out@) + words_from(s.skip(0), cur@) =~= words(s));
    }
    while i < v.len()
        invariant
            s == v@,
            i <= s.len(),
            char_views(out@) + words_from(s.skip(i as int), cur@) =~= words(s),
        decreases s.len() - i,
    {
        proof {
            lemma_skip_step(s, i as int);
        }
        let c = v[i];
        if is_space(c) {
            let ghost before = char_views(out@);
            let ghost piece = cur@;
            proof {
                assert(words_from(s.skip(i as int), piece) == (if piece.len() == 0 {
                    seq![]
                } else {
                    seq![piece]
                }) + words_from(s.skip(i + 1), seq![]));
            }
            if cur.len() > 0 {
                out.push(cur);
                cur = Vec::new();
                proof {
                    assert(char_views(out@) =~= before.push(piece));
                    assert(before + (seq![piece] + words_from(s.skip(i + 1), seq![])) =~= before.push(piece) + words_from(s.skip(i + 1), seq![]));
                }
            } else {
                proof {
                    assert(cur@ =~= seq![]);
                    assert(seq![] + words_from(s.skip(i + 1), seq![]) =~= words_from(s.skip(i + 1), seq![]));
                }
            }
        } else {
            let ghost piece = cur@;
            cur.push(c);
            proof {
                assert(words_from(s.skip(i as int), piece) == words_from(s.skip(i + 1), cur@));
            }
        }
        i = i + 1;
    }
    proof {
        assert(s.skip(s.len() as int).len() == 0);
    }
    if cur.len() > 0 {
        let ghost before = char_views(out@);
        out.push(cur);
        proof {
            assert(char_views(out@) =~= before.push(cur@));
        }
    } else {
        proof {
            assert(char_views(out@) + seq![] =~= char_views(out@));
        }
    }
    out
}

/// Number of words in `s`.
pub fn word_count(s: &str) -> (r: usize)
    ensures
        r == words(s@).len(),
{
    let v = char_vec(s);
    let w = split_words(&v);
    assert(char_views(w@).len() == w@.len());
    w.len()
}

/// Whether `s` starts with `p`.
pub open spec fn starts_with(s: Seq<char>, p: Seq<char>) -> bool {
    p.len() <= s.len() && s.subrange(0, p.len() as int) == p
}

/// Whether `s` ends with `p`.
pub open spec fn ends_with(s: Seq<char>, p: Seq<char>) -> bool {
    p.len() <= s.len() && s.subrange(s.len() - p.len(), s.len() as int) == p
}

/// Whether `p` occurs in `v` at `i`.
pub fn occurs_at(v: &Vec<char>, i: usize, p: &Vec<char>) -> (r: bool)
    ensures
        r == (i + p.len() <= v.len() && v@.subrange(i as int, i + p.len()) == p@),
{
    if i > v.len() || p.len() > v.len() - i {
        return false;
    }
    let mut j: usize = 0;
    while j < p.len()
        invariant
            i + p.len() <= v.len(),
            j <= p.len(),
            v@.subrange(i as int, i + j) =~= p@.subrange(0, j as int),
        decreases p.len() - j,
    {
        if v[i + j] != p[j] {
            assert(v@.subrange(i as int, i + p.len())[j as int] != p@[j as int]);
            return false;
        }
        j = j + 1;
    }
    assert(p@.subrange(0, p.len() as int) =~= p@);
    true
}

/// The first index at or after `from` where `p` occurs in `s`.
pub open spec fn first_index(s: Seq<char>, p: Seq<char>, from: int) -> Option<int>
    decreases s.len() - from,
{
    if from < 0 || from + p.len() > s.len() {
        None
    } else if p.len() == 0 || s.subrange(from, from + p.len()) == p {
        Some(from)
    } else {
        first_index(s, p, from + 1)
    }
}

pub proof fn lemma_first_index(s: Seq<char>, p: Seq<char>, from: int)
    ensures
        first_index(s, p, from) matches Some(k) ==> from <= k && k + p.len() <= s.len()
            && s.subrange(k, k + p.len()) == p,
    decreases s.len() - from,
{
    if from < 0 || from + p.len() > s.len() {
    } else if p.len() == 0 {
        assert(s.subrange(from, from) =~= p);
    } else if s.subrange(from, from + p.len()) == p {
    } else {
        lemma_first_index(s, p, from + 1);
    }
}

/// Searches `v` for `p`, from `from` on.
pub fn find_from(v: &Vec<char>, p: &Vec<char>, from: usize) -> (r: Option<usize>)
    ensures
        r matches Some(i) ==> first_index(v@, p@, from as int) == Some(i as int),
        r is None ==> first_index(v@, p@, from as int) is None,
{
    let mut i = from;
    while i < v.len()
        invariant
            from <= i,
            first_index(v@, p@, from as int) == first_index(v@, p@, i as int),
        decreases v.len() - i,
    {
        if occurs_at(v, i, p) {
            return Some(i);
        }
        if p.len() == 0 {
            assert(v@.subrange(i as int, i as int) =~= p@);
        }
        if p.len() > v.len() - i {
            return None;
        }
        i = i + 1;
    }
    if occurs_at(v, i, p) {
        return Some(i);
    }
    if p.len() == 0 && i <= v.len() {
        assert(v@.subrange(i as int, i as int) =~= p@);
    }
    None
}

/// The characters of a literal.
pub fn lit(s: &str) -> (r: Vec<char>)
    ensures
        r@ == s@,
{
    char_vec(s)
}

} // verus!
