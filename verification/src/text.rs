//! Character-level text utilities shared by the classifier, the extractors
//! and the completion detector.
//!
//! Captured terminal text arrives as `&str`; the scanning logic works on
//! `Vec<char>` so that every step is plain indexing over the string's view.
//! Whitespace, lower-casing and number parsing are defined here over the
//! ASCII range, which is all the heuristics depend on.

use vstd::prelude::*;

verus! {

// ---------------------------------------------------------------------------
// Specification: characters
// ---------------------------------------------------------------------------

/// ASCII whitespace, as the field and trim helpers understand it.
pub open spec fn is_ws(c: char) -> bool {
    c == ' ' || c == '\t' || c == '\n' || c == '\r' || c == '\u{b}' || c == '\u{c}'
}

/// ASCII decimal digit.
pub open spec fn is_digit(c: char) -> bool {
    ||| c == '0'
    ||| c == '1'
    ||| c == '2'
    ||| c == '3'
    ||| c == '4'
    ||| c == '5'
    ||| c == '6'
    ||| c == '7'
    ||| c == '8'
    ||| c == '9'
}

/// Numeric value of an ASCII digit.
pub open spec fn digit_val(c: char) -> nat
    recommends
        is_digit(c),
{
    match c {
        '0' => 0,
        '1' => 1,
        '2' => 2,
        '3' => 3,
        '4' => 4,
        '5' => 5,
        '6' => 6,
        '7' => 7,
        '8' => 8,
        _ => 9,
    }
}

/// The digit character for a value below ten.
pub open spec fn digit_char_of(d: nat) -> char {
    if d == 0 {
        '0'
    } else if d == 1 {
        '1'
    } else if d == 2 {
        '2'
    } else if d == 3 {
        '3'
    } else if d == 4 {
        '4'
    } else if d == 5 {
        '5'
    } else if d == 6 {
        '6'
    } else if d == 7 {
        '7'
    } else if d == 8 {
        '8'
    } else {
        '9'
    }
}

/// ASCII lower-casing of one character; everything else is unchanged.
pub open spec fn lower_char(c: char) -> char {
    match c {
        'A' => 'a',
        'B' => 'b',
        'C' => 'c',
        'D' => 'd',
        'E' => 'e',
        'F' => 'f',
        'G' => 'g',
        'H' => 'h',
        'I' => 'i',
        'J' => 'j',
        'K' => 'k',
        'L' => 'l',
        'M' => 'm',
        'N' => 'n',
        'O' => 'o',
        'P' => 'p',
        'Q' => 'q',
        'R' => 'r',
        'S' => 's',
        'T' => 't',
        'U' => 'u',
        'V' => 'v',
        'W' => 'w',
        'X' => 'x',
        'Y' => 'y',
        'Z' => 'z',
        _ => c,
    }
}

/// ASCII lower-casing of a whole sequence.
pub open spec fn lower(s: Seq<char>) -> Seq<char> {
    s.map_values(|c: char| lower_char(c))
}

// ---------------------------------------------------------------------------
// Specification: substring search
// ---------------------------------------------------------------------------

/// `needle` occurs at position `i` of `hay`.
pub open spec fn matches_at(hay: Seq<char>, needle: Seq<char>, i: int) -> bool {
    &&& 0 <= i
    &&& i + needle.len() <= hay.len()
    &&& hay.subrange(i, i + needle.len()) == needle
}

/// `needle` occurs somewhere in `hay`.
pub open spec fn contains_seq(hay: Seq<char>, needle: Seq<char>) -> bool {
    exists|i: int| matches_at(hay, needle, i)
}

/// `s` begins with `p`.
pub open spec fn starts_with_seq(s: Seq<char>, p: Seq<char>) -> bool {
    p.len() <= s.len() && s.subrange(0, p.len() as int) == p
}

/// `s` ends with `p`.
pub open spec fn ends_with_seq(s: Seq<char>, p: Seq<char>) -> bool {
    p.len() <= s.len() && s.subrange(s.len() - p.len(), s.len() as int) == p
}

// ---------------------------------------------------------------------------
// Specification: trimming, lines and fields
// ---------------------------------------------------------------------------

/// `s` without leading ASCII whitespace.
pub open spec fn trim_start(s: Seq<char>) -> Seq<char>
    decreases s.len(),
{
    if s.len() > 0 && is_ws(s[0]) {
        trim_start(s.drop_first())
    } else {
        s
    }
}

/// `s` without trailing ASCII whitespace.
pub open spec fn trim_end(s: Seq<char>) -> Seq<char>
    decreases s.len(),
{
    if s.len() > 0 && is_ws(s.last()) {
        trim_end(s.drop_last())
    } else {
        s
    }
}

/// `s` without leading and trailing ASCII whitespace.
pub open spec fn trim(s: Seq<char>) -> Seq<char> {
    trim_end(trim_start(s))
}

/// A line terminated by `'\n'` loses one trailing `'\r'`.
pub open spec fn strip_tail_cr(s: Seq<char>) -> Seq<char> {
    if s.len() > 0 && s.last() == '\r' {
        s.drop_last()
    } else {
        s
    }
}

/// Helper for [`lines_of`]: text still to scan, line collected so far.
pub open spec fn lines_rec(s: Seq<char>, cur: Seq<char>) -> Seq<Seq<char>>
    decreases s.len(),
{
    if s.len() == 0 {
        if cur.len() == 0 {
            Seq::empty()
        } else {
            seq![cur]
        }
    } else if s[0] == '\n' {
        seq![strip_tail_cr(cur)] + lines_rec(s.drop_first(), Seq::empty())
    } else {
        lines_rec(s.drop_first(), cur.push(s[0]))
    }
}

/// The lines of `s`: split at `'\n'`, one `'\r'` stripped before each split
/// point, no empty final line when the text ends in a newline.
pub open spec fn lines_of(s: Seq<char>) -> Seq<Seq<char>> {
    lines_rec(s, Seq::empty())
}

/// Helper for [`fields_of`]: text still to scan, field collected so far.
pub open spec fn fields_rec(s: Seq<char>, cur: Seq<char>) -> Seq<Seq<char>>
    decreases s.len(),
{
    if s.len() == 0 {
        if cur.len() == 0 {
            Seq::empty()
        } else {
            seq![cur]
        }
    } else if is_ws(s[0]) {
        if cur.len() == 0 {
            fields_rec(s.drop_first(), Seq::empty())
        } else {
            seq![cur] + fields_rec(s.drop_first(), Seq::empty())
        }
    } else {
        fields_rec(s.drop_first(), cur.push(s[0]))
    }
}

/// The whitespace-separated fields of `s`; runs of whitespace count as one
/// separator and produce no empty fields.
pub open spec fn fields_of(s: Seq<char>) -> Seq<Seq<char>> {
    fields_rec(s, Seq::empty())
}

// ---------------------------------------------------------------------------
// Specification: numbers
// ---------------------------------------------------------------------------

/// Value of a sequence of ASCII digits read left to right.
pub open spec fn digits_val(s: Seq<char>) -> nat
    decreases s.len(),
{
    if s.len() == 0 {
        0
    } else {
        digits_val(s.drop_last()) * 10 + digit_val(s.last())
    }
}

/// Every character of `s` is an ASCII digit.
pub open spec fn all_digits(s: Seq<char>) -> bool {
    forall|i: int| 0 <= i < s.len() ==> is_digit(#[trigger] s[i])
}

/// The unsigned-integer reading of `s`: an optional leading `'+'`, then one
/// or more digits, and nothing else.
pub open spec fn parse_uint(s: Seq<char>) -> Option<nat> {
    let body = if s.len() > 0 && s[0] == '+' {
        s.drop_first()
    } else {
        s
    };
    if body.len() > 0 && all_digits(body) {
        Some(digits_val(body))
    } else {
        None
    }
}

/// The decimal digits of `n`, most significant first.
pub open spec fn dec_str(n: nat) -> Seq<char>
    decreases n,
{
    if n < 10 {
        seq![digit_char_of(n)]
    } else {
        dec_str(n / 10) + seq![digit_char_of(n % 10)]
    }
}

// ---------------------------------------------------------------------------
// Specification: joining
// ---------------------------------------------------------------------------

/// The elements of `items` concatenated with `sep` between neighbours.
pub open spec fn join_with(items: Seq<Seq<char>>, sep: Seq<char>) -> Seq<char>
    decreases items.len(),
{
    if items.len() == 0 {
        Seq::empty()
    } else if items.len() == 1 {
        items[0]
    } else {
        join_with(items.drop_last(), sep) + sep + items.last()
    }
}

/// `c` repeated `n` times.
pub open spec fn repeat_char(c: char, n: nat) -> Seq<char> {
    Seq::new(n, |i: int| c)
}

/// The views of a vector of character vectors.
pub open spec fn views_of(v: Seq<Vec<char>>) -> Seq<Seq<char>> {
    v.map_values(|l: Vec<char>| l@)
}

/// The views of a vector of strings.
pub open spec fn string_views(v: Seq<String>) -> Seq<Seq<char>> {
    v.map_values(|s: String| s@)
}

// ---------------------------------------------------------------------------
// Executable code
// ---------------------------------------------------------------------------

/// The characters of a string, in order, as a vector.
pub fn chars_vec(s: &str) -> (v: Vec<char>)
    ensures
        v@ == s@,
{
    let n = s.unicode_len();
    let mut v: Vec<char> = Vec::new();
    let mut i: usize = 0;
    while i < n
        invariant
            i <= n,
            n == s@.len(),
            v@ == s@.subrange(0, i as int),
        decreases n - i,
    {
        v.push(s.get_char(i));
        i = i + 1;
    }
    proof {
        assert(v@ =~= s@);
    }
    v
}

/// A string holding exactly the characters of `v`.
///
/// Relies on `std`'s `FromIterator` for `String`: collecting characters
/// yields the string of those characters in order.
#[verifier::external_body]
pub fn string_from_chars(v: &Vec<char>) -> (s: String)
    ensures
        s@ == v@,
{
    v.iter().collect()
}

/// ASCII lower-casing of a character vector.
pub fn lower_vec(v: &Vec<char>) -> (r: Vec<char>)
    ensures
        r@ == lower(v@),
{
    let mut r: Vec<char> = Vec::new();
    let mut i: usize = 0;
    while i < v.len()
        invariant
            i <= v@.len(),
            r@ == lower(v@.subrange(0, i as int)),
        decreases v@.len() - i,
    {
        let c = v[i];
        let lc: char = match c {
            'A' => 'a',
            'B' => 'b',
            'C' => 'c',
            'D' => 'd',
            'E' => 'e',
            'F' => 'f',
            'G' => 'g',
            'H' => 'h',
            'I' => 'i',
            'J' => 'j',
            'K' => 'k',
            'L' => 'l',
            'M' => 'm',
            'N' => 'n',
            'O' => 'o',
            'P' => 'p',
            'Q' => 'q',
            'R' => 'r',
            'S' => 's',
            'T' => 't',
            'U' => 'u',
            'V' => 'v',
            'W' => 'w',
            'X' => 'x',
            'Y' => 'y',
            'Z' => 'z',
            _ => c,
        };
        r.push(lc);
        proof {
            assert(lower(v@.subrange(0, i + 1 as int)) =~= lower(v@.subrange(0, i as int)).push(lower_char(c)));
        }
        i = i + 1;
    }
    proof {
        assert(v@.subrange(0, v@.len() as int) =~= v@);
    }
    r
}

/// Whether `needle` occurs at position `i` of `hay`.
pub fn matches_at_exec(hay: &Vec<char>, needle: &Vec<char>, i: usize) -> (r: bool)
    requires
        i + needle@.len() <= hay@.len(),
    ensures
        r == matches_at(hay@, needle@, i as int),
{
    let hn = hay.len();
    let nn = needle.len();
    let mut j: usize = 0;
    while j < nn
        invariant
            hn == hay@.len(),
            nn == needle@.len(),
            j <= nn,
            i + nn <= hn,
            hay@.subrange(i as int, i + j) =~= needle@.subrange(0, j as int),
        decreases nn - j,
    {
        if hay[i + j] != needle[j] {
            proof {
                assert(hay@.subrange(i as int, i + needle@.len())[j as int] == hay@[i + j]);
                assert(needle@.subrange(0, needle@.len() as int) =~= needle@);
            }
            return false;
        }
        proof {
            assert(hay@.subrange(i as int, i + j + 1) =~= hay@.subrange(i as int, i + j).push(hay@[i + j]));
            assert(needle@.subrange(0, j + 1) =~= needle@.subrange(0, j as int).push(needle@[j as int]));
        }
        j = j + 1;
    }
    proof {
        assert(needle@.subrange(0, needle@.len() as int) =~= needle@);
        assert(hay@.subrange(i as int, i + needle@.len()) =~= needle@);
    }
    true
}

/// Whether `needle` occurs anywhere in `hay`.
pub fn contains_chars(hay: &Vec<char>, needle: &Vec<char>) -> (r: bool)
    ensures
        r == contains_seq(hay@, needle@),
{
    if needle.len() > hay.len() {
        proof {
            assert(forall|i: int| !matches_at(hay@, needle@, i));
        }
        return false;
    }
    if needle.len() == 0 {
        proof {
            assert(hay@.subrange(0, 0) =~= needle@);
            assert(matches_at(hay@, needle@, 0));
        }
        return true;
    }
    let last_start = hay.len() - needle.len();
    let mut i: usize = 0;
    while i <= last_start
        invariant
            needle@.len() >= 1,
            needle@.len() <= hay@.len(),
            last_start == hay@.len() - needle@.len(),
            last_start < hay@.len(),
            hay@.len() <= usize::MAX,
            i <= last_start + 1,
            forall|k: int| 0 <= k < i ==> !matches_at(hay@, needle@, k),
        decreases last_start + 1 - i,
    {
        if matches_at_exec(hay, needle, i) {
            return true;
        }
        i = i + 1;
    }
    proof {
        assert(forall|k: int| matches_at(hay@, needle@, k) ==> 0 <= k <= last_start);
    }
    false
}

/// Whether two character vectors hold the same characters.
pub fn eq_chars(a: &Vec<char>, b: &Vec<char>) -> (r: bool)
    ensures
        r == (a@ == b@),
{
    if a.len() != b.len() {
        return false;
    }
    let mut i: usize = 0;
    while i < a.len()
        invariant
            a@.len() == b@.len(),
            i <= a@.len(),
            forall|k: int| 0 <= k < i ==> a@[k] == b@[k],
        decreases a@.len() - i,
    {
        if a[i] != b[i] {
            return false;
        }
        i = i + 1;
    }
    proof {
        assert(a@ =~= b@);
    }
    true
}

/// Whether `s` starts with `p`.
pub fn starts_with_chars(s: &Vec<char>, p: &Vec<char>) -> (r: bool)
    ensures
        r == starts_with_seq(s@, p@),
{
    if p.len() > s.len() {
        return false;
    }
    matches_at_exec(s, p, 0)
}

/// Whether `s` ends with `p`.
pub fn ends_with_chars(s: &Vec<char>, p: &Vec<char>) -> (r: bool)
    ensures
        r == ends_with_seq(s@, p@),
{
    if p.len() > s.len() {
        return false;
    }
    matches_at_exec(s, p, s.len() - p.len())
}

/// The characters of `v` from position `i` on.
pub fn skip_chars(v: &Vec<char>, i: usize) -> (r: Vec<char>)
    requires
        i <= v@.len(),
    ensures
        r@ == v@.skip(i as int),
{
    let n = v.len();
    let mut r: Vec<char> = Vec::new();
    let mut j: usize = i;
    while j < n
        invariant
            n == v@.len(),
            i <= j <= n,
            r@ == v@.subrange(i as int, j as int),
        decreases n - j,
    {
        proof {
            assert(v@.subrange(i as int, j + 1) =~= v@.subrange(i as int, j as int).push(v@[j as int]));
        }
        r.push(v[j]);
        j = j + 1;
    }
    proof {
        assert(v@.subrange(i as int, n as int) =~= v@.skip(i as int));
    }
    r
}

/// The first `k` characters of `v`.
pub fn take_chars(v: &Vec<char>, k: usize) -> (r: Vec<char>)
    requires
        k <= v@.len(),
    ensures
        r@ == v@.take(k as int),
{
    let mut r: Vec<char> = Vec::new();
    let mut j: usize = 0;
    while j < k
        invariant
            k <= v@.len(),
            j <= k,
            r@ == v@.subrange(0, j as int),
        decreases k - j,
    {
        proof {
            assert(v@.subrange(0, j + 1) =~= v@.subrange(0, j as int).push(v@[j as int]));
        }
        r.push(v[j]);
        j = j + 1;
    }
    proof {
        assert(v@.subrange(0, k as int) =~= v@.take(k as int));
    }
    r
}

/// Appends all characters of `src` to `dst`.
pub fn append_chars(dst: &mut Vec<char>, src: &Vec<char>)
    ensures
        final(dst)@ == old(dst)@ + src@,
{
    let n = src.len();
    let mut i: usize = 0;
    while i < n
        invariant
            n == src@.len(),
            i <= n,
            dst@ == old(dst)@ + src@.subrange(0, i as int),
        decreases n - i,
    {
        proof {
            assert(old(dst)@ + src@.subrange(0, i + 1) =~= (old(dst)@ + src@.subrange(0, i as int)).push(
                src@[i as int],
            ));
        }
        dst.push(src[i]);
        i = i + 1;
    }
    proof {
        assert(src@.subrange(0, n as int) =~= src@);
    }
}

/// `c` repeated `n` times, as a vector.
pub fn repeat_chars(c: char, n: usize) -> (v: Vec<char>)
    ensures
        v@ == repeat_char(c, n as nat),
{
    let mut v: Vec<char> = Vec::new();
    let mut i: usize = 0;
    while i < n
        invariant
            i <= n,
            v@ == repeat_char(c, i as nat),
        decreases n - i,
    {
        proof {
            assert(repeat_char(c, (i + 1) as nat) =~= repeat_char(c, i as nat).push(c));
        }
        v.push(c);
        i = i + 1;
    }
    v
}

proof fn lemma_views_push(v: Seq<Vec<char>>, x: Vec<char>)
    ensures
        views_of(v.push(x)) == views_of(v).push(x@),
{
    assert(views_of(v.push(x)) =~= views_of(v).push(x@));
}

pub proof fn lemma_skip_one(s: Seq<char>, i: int)
    requires
        0 <= i < s.len(),
    ensures
        s.skip(i).drop_first() == s.skip(i + 1),
        s.skip(i)[0] == s[i],
        s.skip(i).len() == s.len() - i,
{
    assert(s.skip(i).drop_first() =~= s.skip(i + 1));
}

/// The lines of `v`, as by [`lines_of`].
pub fn split_lines(v: &Vec<char>) -> (r: Vec<Vec<char>>)
    ensures
        views_of(r@) == lines_of(v@),
{
    let n = v.len();
    let mut r: Vec<Vec<char>> = Vec::new();
    let mut cur: Vec<char> = Vec::new();
    let mut i: usize = 0;
    proof {
        assert(v@.skip(0) =~= v@);
    }
    while i < n
        invariant
            n == v@.len(),
            i <= n,
            lines_of(v@) == views_of(r@) + lines_rec(v@.skip(i as int), cur@),
        decreases n - i,
    {
        let c = v[i];
        proof {
            lemma_skip_one(v@, i as int);
        }
        if c == '\n' {
            let ghost cur0 = cur@;
            let mut line: Vec<char> = Vec::new();
            core::mem::swap(&mut line, &mut cur);
            if line.len() > 0 && line[line.len() - 1] == '\r' {
                line.pop();
            }
            proof {
                assert(line@ == strip_tail_cr(cur0));
                lemma_views_push(r@, line);
                assert(views_of(r@).push(line@) + lines_rec(v@.skip(i + 1), Seq::empty()) =~= views_of(r@)
                    + (seq![strip_tail_cr(cur0)] + lines_rec(v@.skip(i + 1), Seq::empty())));
            }
            r.push(line);
        } else {
            cur.push(c);
        }
        i = i + 1;
    }
    proof {
        assert(v@.skip(n as int) =~= Seq::<char>::empty());
    }
    if cur.len() > 0 {
        proof {
            lemma_views_push(r@, cur);
        }
        r.push(cur);
    }
    r
}

/// The whitespace-separated fields of `v`, as by [`fields_of`].
pub fn split_fields(v: &Vec<char>) -> (r: Vec<Vec<char>>)
    ensures
        views_of(r@) == fields_of(v@),
{
    let n = v.len();
    let mut r: Vec<Vec<char>> = Vec::new();
    let mut cur: Vec<char> = Vec::new();
    let mut i: usize = 0;
    proof {
        assert(v@.skip(0) =~= v@);
    }
    while i < n
        invariant
            n == v@.len(),
            i <= n,
            fields_of(v@) == views_of(r@) + fields_rec(v@.skip(i as int), cur@),
        decreases n - i,
    {
        let c = v[i];
        proof {
            lemma_skip_one(v@, i as int);
        }
        if c == ' ' || c == '\t' || c == '\n' || c == '\r' || c == '\u{b}' || c == '\u{c}' {
            if cur.len() > 0 {
                let ghost cur0 = cur@;
                proof {
                    assert(fields_rec(v@.skip(i as int), cur0) == seq![cur0] + fields_rec(
                        v@.skip(i + 1),
                        Seq::empty(),
                    ));
                }
                let mut field: Vec<char> = Vec::new();
                core::mem::swap(&mut field, &mut cur);
                proof {
                    lemma_views_push(r@, field);
                    assert(views_of(r@).push(cur0) + fields_rec(v@.skip(i + 1), Seq::empty()) =~= views_of(
                        r@,
                    ) + (seq![cur0] + fields_rec(v@.skip(i + 1), Seq::empty())));
                }
                r.push(field);
            } else {
                proof {
                    assert(cur@ =~= Seq::<char>::empty());
                    assert(fields_rec(v@.skip(i as int), cur@) == fields_rec(
                        v@.skip(i + 1),
                        Seq::empty(),
                    ));
                }
            }
        } else {
            cur.push(c);
        }
        i = i + 1;
    }
    proof {
        assert(v@.skip(n as int) =~= Seq::<char>::empty());
    }
    if cur.len() > 0 {
        proof {
            lemma_views_push(r@, cur);
        }
        r.push(cur);
    }
    r
}

/// Whether `c` is ASCII whitespace.
pub fn is_ws_exec(c: char) -> (r: bool)
    ensures
        r == is_ws(c),
{
    c == ' ' || c == '\t' || c == '\n' || c == '\r' || c == '\u{b}' || c == '\u{c}'
}

/// `v` without leading and trailing ASCII whitespace.
pub fn trim_chars(v: &Vec<char>) -> (r: Vec<char>)
    ensures
        r@ == trim(v@),
{
    let n = v.len();
    let mut start: usize = 0;
    proof {
        assert(v@.skip(0) =~= v@);
    }
    while start < n && is_ws_exec(v[start])
        invariant
            n == v@.len(),
            start <= n,
            trim_start(v@) == trim_start(v@.skip(start as int)),
        decreases n - start,
    {
        proof {
            lemma_skip_one(v@, start as int);
        }
        start = start + 1;
    }
    proof {
        if start < n {
            lemma_skip_one(v@, start as int);
        } else {
            assert(v@.skip(start as int) =~= Seq::<char>::empty());
        }
        assert(trim_start(v@) == v@.skip(start as int));
    }
    let mut end: usize = n;
    proof {
        assert(v@.skip(start as int) =~= v@.subrange(start as int, n as int));
    }
    while end > start && is_ws_exec(v[end - 1])
        invariant
            n == v@.len(),
            start <= end <= n,
            trim_start(v@) == v@.skip(start as int),
            trim_end(v@.skip(start as int)) == trim_end(v@.subrange(start as int, end as int)),
        decreases end,
    {
        proof {
            let sub = v@.subrange(start as int, end as int);
            assert(sub.last() == v@[end - 1]);
            assert(sub.drop_last() =~= v@.subrange(start as int, end - 1));
        }
        end = end - 1;
    }
    proof {
        let sub = v@.subrange(start as int, end as int);
        if end > start {
            assert(sub.last() == v@[end - 1]);
            assert(!is_ws(sub.last()));
        }
        assert(trim_end(sub) == sub);
    }
    let mut r: Vec<char> = Vec::new();
    let mut i: usize = start;
    while i < end
        invariant
            n == v@.len(),
            start <= i <= end <= n,
            r@ == v@.subrange(start as int, i as int),
        decreases end - i,
    {
        proof {
            assert(v@.subrange(start as int, i + 1) =~= v@.subrange(start as int, i as int).push(v@[i as int]));
        }
        r.push(v[i]);
        i = i + 1;
    }
    r
}

/// The suffix of `t` after its last `'\n'`; all of `t` when it has none.
pub open spec fn after_last_nl(t: Seq<char>) -> Seq<char>
    decreases t.len(),
{
    if t.len() == 0 {
        t
    } else if t.last() == '\n' {
        Seq::empty()
    } else {
        after_last_nl(t.drop_last()).push(t.last())
    }
}

/// The last line of the trimmed text: trailing and leading whitespace is
/// dropped, then everything after the last remaining `'\n'` is returned.
pub open spec fn last_trimmed_line(s: Seq<char>) -> Seq<char> {
    after_last_nl(trim(s))
}

/// The suffix of `v` after its last `'\n'`.
pub fn after_last_nl_exec(v: &Vec<char>) -> (r: Vec<char>)
    ensures
        r@ == after_last_nl(v@),
{
    let n = v.len();
    let mut cut: usize = n;
    proof {
        assert(v@.subrange(0, n as int) =~= v@);
        assert(v@.subrange(n as int, n as int) =~= Seq::<char>::empty());
        assert(after_last_nl(v@) + Seq::<char>::empty() =~= after_last_nl(v@));
    }
    while cut > 0 && v[cut - 1] != '\n'
        invariant
            n == v@.len(),
            cut <= n,
            after_last_nl(v@) == after_last_nl(v@.subrange(0, cut as int)) + v@.subrange(cut as int, n as int),
        decreases cut,
    {
        proof {
            let sub = v@.subrange(0, cut as int);
            assert(sub.last() == v@[cut - 1]);
            assert(sub.drop_last() =~= v@.subrange(0, cut - 1));
            assert(after_last_nl(sub) == after_last_nl(sub.drop_last()).push(sub.last()));
            assert(after_last_nl(sub.drop_last()).push(sub.last()) + v@.subrange(cut as int, n as int)
                =~= after_last_nl(sub.drop_last()) + v@.subrange(cut - 1, n as int));
        }
        cut = cut - 1;
    }
    proof {
        let sub = v@.subrange(0, cut as int);
        if cut == 0 {
            assert(sub.len() == 0);
            assert(Seq::<char>::empty() + v@.subrange(0, n as int) =~= v@.subrange(0, n as int));
        } else {
            assert(sub.last() == v@[cut - 1]);
            assert(sub.last() == '\n');
            assert(Seq::<char>::empty() + v@.subrange(cut as int, n as int) =~= v@.subrange(
                cut as int,
                n as int,
            ));
        }
        assert(after_last_nl(v@) == v@.subrange(cut as int, n as int));
    }
    let mut r: Vec<char> = Vec::new();
    let mut i: usize = cut;
    while i < n
        invariant
            n == v@.len(),
            cut <= i <= n,
            r@ == v@.subrange(cut as int, i as int),
        decreases n - i,
    {
        proof {
            assert(v@.subrange(cut as int, i + 1) =~= v@.subrange(cut as int, i as int).push(v@[i as int]));
        }
        r.push(v[i]);
        i = i + 1;
    }
    r
}

proof fn lemma_digits_val_take_le(s: Seq<char>, j: int)
    requires
        0 <= j <= s.len(),
    ensures
        digits_val(s.take(j)) <= digits_val(s),
    decreases s.len() - j,
{
    if j < s.len() {
        lemma_digits_val_take_le(s, j + 1);
        assert(s.take(j + 1).drop_last() =~= s.take(j));
        assert(digits_val(s.take(j + 1)) == digits_val(s.take(j)) * 10 + digit_val(s.take(j + 1).last()));
    } else {
        assert(s.take(j) =~= s);
    }
}

/// The unsigned integer written in `v`, when it fits in a `u64`.
pub fn parse_u64_chars(v: &Vec<char>) -> (r: Option<u64>)
    ensures
        match r {
            Some(x) => parse_uint(v@) == Some(x as nat),
            None => parse_uint(v@) matches Some(n) ==> n > u64::MAX,
        },
{
    let n = v.len();
    let start: usize = if n > 0 && v[0] == '+' {
        1
    } else {
        0
    };
    let ghost body = if v@.len() > 0 && v@[0] == '+' {
        v@.drop_first()
    } else {
        v@
    };
    proof {
        assert(body =~= v@.subrange(start as int, n as int));
    }
    if start == n {
        return None;
    }
    let mut acc: u64 = 0;
    let mut i: usize = start;
    proof {
        assert(body.take(0) =~= Seq::<char>::empty());
    }
    while i < n
        invariant
            n == v@.len(),
            start <= i <= n,
            start < n,
            body == v@.subrange(start as int, n as int),
            body == (if v@.len() > 0 && v@[0] == '+' {
                v@.drop_first()
            } else {
                v@
            }),
            all_digits(body.take(i - start)),
            acc == digits_val(body.take(i - start)),
        decreases n - i,
    {
        let c = v[i];
        proof {
            assert(body[i - start] == v@[i as int]);
        }
        let d: u64 = match c {
            '0' => 0,
            '1' => 1,
            '2' => 2,
            '3' => 3,
            '4' => 4,
            '5' => 5,
            '6' => 6,
            '7' => 7,
            '8' => 8,
            '9' => 9,
            _ => {
                proof {
                    assert(!is_digit(body[i - start]));
                }
                return None;
            },
        };
        proof {
            assert(is_digit(body[i - start]) && digit_val(body[i - start]) == d);
        }
        if acc > u64::MAX / 10 || (acc == u64::MAX / 10 && d > u64::MAX % 10) {
            proof {
                let pre = body.take(i - start + 1);
                assert(pre.drop_last() =~= body.take(i - start));
                assert(pre.last() == body[i - start]);
                assert(digits_val(pre) == acc * 10 + d);
                assert(acc * 10 + d > u64::MAX);
                if all_digits(body) {
                    lemma_digits_val_take_le(body, i - start + 1);
                }
            }
            return None;
        }
        proof {
            let pre = body.take(i - start + 1);
            assert(pre.drop_last() =~= body.take(i - start));
            assert(pre.last() == body[i - start]);
            assert(acc * 10 + d <= u64::MAX);
        }
        acc = acc * 10 + d;
        i = i + 1;
    }
    proof {
        assert(body.take(n - start) =~= body);
    }
    Some(acc)
}

/// The unsigned integer written in `v`, when it fits in a `u8`; mirrors how
/// a percentage column is read.
pub fn parse_u8_chars(v: &Vec<char>) -> (r: Option<u8>)
    ensures
        match r {
            Some(x) => parse_uint(v@) == Some(x as nat),
            None => parse_uint(v@) matches Some(n) ==> n > u8::MAX,
        },
{
    match parse_u64_chars(v) {
        Some(x) => {
            if x <= 255 {
                Some(x as u8)
            } else {
                None
            }
        },
        None => None,
    }
}

fn digit_char(d: u64) -> (c: char)
    requires
        d < 10,
    ensures
        seq![c] == dec_str(d as nat),
        c == dec_str(d as nat)[0],
{
    match d {
        0 => '0',
        1 => '1',
        2 => '2',
        3 => '3',
        4 => '4',
        5 => '5',
        6 => '6',
        7 => '7',
        8 => '8',
        _ => '9',
    }
}

/// The decimal digits of `n`, most significant first.
pub fn u64_dec_chars(n: u64) -> (v: Vec<char>)
    ensures
        v@ == dec_str(n as nat),
    decreases n,
{
    if n < 10 {
        let mut v: Vec<char> = Vec::new();
        v.push(digit_char(n));
        proof {
            assert(v@ =~= dec_str(n as nat));
        }
        v
    } else {
        let mut v = u64_dec_chars(n / 10);
        v.push(digit_char(n % 10));
        proof {
            assert(v@ =~= dec_str((n / 10) as nat) + dec_str((n % 10) as nat));
            assert(dec_str(n as nat) == dec_str(n as nat / 10) + seq![dec_str(n as nat % 10)[0]]);
            assert(dec_str(n as nat % 10) =~= seq![dec_str(n as nat % 10)[0]]);
        }
        v
    }
}

/// `n` written in decimal.
pub fn u64_dec_string(n: u64) -> (s: String)
    ensures
        s@ == dec_str(n as nat),
{
    let v = u64_dec_chars(n);
    string_from_chars(&v)
}

/// `n` written in decimal.
pub fn usize_dec_string(n: usize) -> (s: String)
    ensures
        s@ == dec_str(n as nat),
{
    u64_dec_string(n as u64)
}

// ---------------------------------------------------------------------------
// Single-character search, splitting and trimming
// ---------------------------------------------------------------------------

/// The position of the leftmost `c` in `s`, if any.
pub open spec fn find_char(s: Seq<char>, c: char) -> Option<int>
    decreases s.len(),
{
    if s.len() == 0 {
        None
    } else if s[0] == c {
        Some(0)
    } else {
        match find_char(s.drop_first(), c) {
            Some(i) => Some(i + 1),
            None => None,
        }
    }
}

/// The position of the rightmost `c` in `s`, if any.
pub open spec fn rfind_char(s: Seq<char>, c: char) -> Option<int>
    decreases s.len(),
{
    if s.len() == 0 {
        None
    } else if s.last() == c {
        Some(s.len() - 1)
    } else {
        rfind_char(s.drop_last(), c)
    }
}

/// Helper for [`split_char`]: text still to scan, piece collected so far.
pub open spec fn split_char_rec(s: Seq<char>, c: char, cur: Seq<char>) -> Seq<Seq<char>>
    decreases s.len(),
{
    if s.len() == 0 {
        seq![cur]
    } else if s[0] == c {
        seq![cur] + split_char_rec(s.drop_first(), c, Seq::empty())
    } else {
        split_char_rec(s.drop_first(), c, cur.push(s[0]))
    }
}

/// `s` split at every `c`, empty pieces kept; the empty text gives one
/// empty piece.
pub open spec fn split_char(s: Seq<char>, c: char) -> Seq<Seq<char>> {
    split_char_rec(s, c, Seq::empty())
}

/// `s` without leading `c` characters.
pub open spec fn trim_char_start(s: Seq<char>, c: char) -> Seq<char>
    decreases s.len(),
{
    if s.len() > 0 && s[0] == c {
        trim_char_start(s.drop_first(), c)
    } else {
        s
    }
}

/// `s` without trailing `c` characters.
pub open spec fn trim_char_end(s: Seq<char>, c: char) -> Seq<char>
    decreases s.len(),
{
    if s.len() > 0 && s.last() == c {
        trim_char_end(s.drop_last(), c)
    } else {
        s
    }
}

/// `s` without leading and trailing `c` characters.
pub open spec fn trim_char(s: Seq<char>, c: char) -> Seq<char> {
    trim_char_end(trim_char_start(s, c), c)
}

/// The position of the leftmost `c` in `v`, if any.
pub fn find_char_exec(v: &Vec<char>, c: char) -> (r: Option<usize>)
    ensures
        match r {
            Some(i) => i < v@.len() && find_char(v@, c) == Some(i as int),
            None => find_char(v@, c) is None,
        },
{
    let n = v.len();
    let mut i: usize = 0;
    proof {
        assert(v@.skip(0) =~= v@);
    }
    while i < n
        invariant
            n == v@.len(),
            i <= n,
            find_char(v@, c) == (match find_char(v@.skip(i as int), c) {
                Some(j) => Some(j + i),
                None => None,
            }),
        decreases n - i,
    {
        proof {
            lemma_skip_one(v@, i as int);
        }
        if v[i] == c {
            proof {
                assert(v@.skip(i as int)[0] == c);
                assert(find_char(v@.skip(i as int), c) == Some(0int));
            }
            return Some(i);
        }
        i = i + 1;
    }
    proof {
        assert(v@.skip(n as int) =~= Seq::<char>::empty());
    }
    None
}

/// The position of the rightmost `c` in `v`, if any.
pub fn rfind_char_exec(v: &Vec<char>, c: char) -> (r: Option<usize>)
    ensures
        match r {
            Some(i) => i < v@.len() && rfind_char(v@, c) == Some(i as int),
            None => rfind_char(v@, c) is None,
        },
{
    let n = v.len();
    let mut t: usize = n;
    proof {
        assert(v@.take(n as int) =~= v@);
    }
    while t > 0
        invariant
            n == v@.len(),
            t <= n,
            rfind_char(v@, c) == rfind_char(v@.take(t as int), c),
        decreases t,
    {
        proof {
            let sub = v@.take(t as int);
            assert(sub.last() == v@[t - 1]);
            assert(sub.drop_last() =~= v@.take(t - 1));
        }
        if v[t - 1] == c {
            return Some(t - 1);
        }
        t = t - 1;
    }
    None
}

/// `v` split at every `c`, empty pieces kept.
pub fn split_char_exec(v: &Vec<char>, c: char) -> (r: Vec<Vec<char>>)
    ensures
        views_of(r@) == split_char(v@, c),
{
    let n = v.len();
    let mut r: Vec<Vec<char>> = Vec::new();
    let mut cur: Vec<char> = Vec::new();
    let mut i: usize = 0;
    proof {
        assert(v@.skip(0) =~= v@);
    }
    while i < n
        invariant
            n == v@.len(),
            i <= n,
            split_char(v@, c) == views_of(r@) + split_char_rec(v@.skip(i as int), c, cur@),
        decreases n - i,
    {
        proof {
            lemma_skip_one(v@, i as int);
        }
        if v[i] == c {
            let ghost cur0 = cur@;
            let mut piece: Vec<char> = Vec::new();
            core::mem::swap(&mut piece, &mut cur);
            proof {
                lemma_views_push(r@, piece);
                assert(views_of(r@).push(cur0) + split_char_rec(v@.skip(i + 1), c, Seq::empty())
                    =~= views_of(r@) + (seq![cur0] + split_char_rec(v@.skip(i + 1), c, Seq::empty())));
            }
            r.push(piece);
        } else {
            cur.push(v[i]);
        }
        i = i + 1;
    }
    proof {
        assert(v@.skip(n as int) =~= Seq::<char>::empty());
        lemma_views_push(r@, cur);
        assert(views_of(r@).push(cur@) =~= views_of(r@) + seq![cur@]);
    }
    r.push(cur);
    r
}

/// `v` without leading and trailing `c` characters.
pub fn trim_char_exec(v: &Vec<char>, c: char) -> (r: Vec<char>)
    ensures
        r@ == trim_char(v@, c),
{
    let n = v.len();
    let mut start: usize = 0;
    proof {
        assert(v@.skip(0) =~= v@);
    }
    while start < n && v[start] == c
        invariant
            n == v@.len(),
            start <= n,
            trim_char_start(v@, c) == trim_char_start(v@.skip(start as int), c),
        decreases n - start,
    {
        proof {
            lemma_skip_one(v@, start as int);
        }
        start = start + 1;
    }
    proof {
        if start < n {
            lemma_skip_one(v@, start as int);
        } else {
            assert(v@.skip(start as int) =~= Seq::<char>::empty());
        }
        assert(trim_char_start(v@, c) == v@.skip(start as int));
        assert(v@.skip(start as int) =~= v@.subrange(start as int, n as int));
    }
    let mut end: usize = n;
    while end > start && v[end - 1] == c
        invariant
            n == v@.len(),
            start <= end <= n,
            trim_char_start(v@, c) == v@.skip(start as int),
            trim_char_end(v@.skip(start as int), c) == trim_char_end(
                v@.subrange(start as int, end as int),
                c,
            ),
        decreases end,
    {
        proof {
            let sub = v@.subrange(start as int, end as int);
            assert(sub.last() == v@[end - 1]);
            assert(sub.drop_last() =~= v@.subrange(start as int, end - 1));
        }
        end = end - 1;
    }
    proof {
        let sub = v@.subrange(start as int, end as int);
        if end > start {
            assert(sub.last() == v@[end - 1]);
        }
        assert(trim_char_end(sub, c) == sub);
    }
    let mut r: Vec<char> = Vec::new();
    let mut i: usize = start;
    while i < end
        invariant
            n == v@.len(),
            start <= i <= end <= n,
            r@ == v@.subrange(start as int, i as int),
        decreases end - i,
    {
        proof {
            assert(v@.subrange(start as int, i + 1) =~= v@.subrange(start as int, i as int).push(
                v@[i as int],
            ));
        }
        r.push(v[i]);
        i = i + 1;
    }
    r
}

// ---------------------------------------------------------------------------
// Per-line counting and collecting
// ---------------------------------------------------------------------------

/// How many elements of `lines` satisfy `p`.
pub open spec fn count_matching(lines: Seq<Seq<char>>, p: spec_fn(Seq<char>) -> bool) -> nat
    decreases lines.len(),
{
    if lines.len() == 0 {
        0
    } else {
        count_matching(lines.drop_last(), p) + if p(lines.last()) {
            1nat
        } else {
            0nat
        }
    }
}

pub proof fn lemma_count_matching_snoc(lines: Seq<Seq<char>>, l: Seq<char>, p: spec_fn(Seq<char>) -> bool)
    ensures
        count_matching(lines.push(l), p) == count_matching(lines, p) + if p(l) {
            1nat
        } else {
            0nat
        },
{
    assert(lines.push(l).drop_last() =~= lines);
    assert(lines.push(l).last() == l);
}

/// Everything `f` collects from the elements of `lines`, in order.
pub open spec fn collect_from<T>(lines: Seq<Seq<char>>, f: spec_fn(Seq<char>) -> Seq<T>) -> Seq<T>
    decreases lines.len(),
{
    if lines.len() == 0 {
        Seq::empty()
    } else {
        collect_from(lines.drop_last(), f) + f(lines.last())
    }
}

pub proof fn lemma_collect_from_snoc<T>(lines: Seq<Seq<char>>, l: Seq<char>, f: spec_fn(Seq<char>) -> Seq<T>)
    ensures
        collect_from(lines.push(l), f) == collect_from(lines, f) + f(l),
{
    assert(lines.push(l).drop_last() =~= lines);
    assert(lines.push(l).last() == l);
}

// ---------------------------------------------------------------------------
// Leftmost occurrence and removal
// ---------------------------------------------------------------------------

/// The position of the leftmost occurrence of `pat` in `s`, if any.
pub open spec fn find_first(s: Seq<char>, pat: Seq<char>) -> Option<int>
    decreases s.len(),
{
    if matches_at(s, pat, 0) {
        Some(0)
    } else if s.len() == 0 {
        None
    } else {
        match find_first(s.drop_first(), pat) {
            Some(i) => Some(i + 1),
            None => None,
        }
    }
}

pub proof fn lemma_find_first_properties(s: Seq<char>, pat: Seq<char>)
    ensures
        match find_first(s, pat) {
            Some(i) => matches_at(s, pat, i) && forall|k: int| 0 <= k < i ==> !matches_at(s, pat, k),
            None => !contains_seq(s, pat),
        },
    decreases s.len(),
{
    if !matches_at(s, pat, 0) && s.len() > 0 {
        lemma_find_first_properties(s.drop_first(), pat);
        let t = s.drop_first();
        assert forall|j: int| 1 <= j && matches_at(s, pat, j) implies matches_at(t, pat, j - 1) by {
            assert(t.subrange(j - 1, j - 1 + pat.len()) =~= s.subrange(j, j + pat.len()));
        }
        assert forall|j: int| 0 <= j && matches_at(t, pat, j) implies matches_at(s, pat, j + 1) by {
            assert(s.subrange(j + 1, j + 1 + pat.len()) =~= t.subrange(j, j + pat.len()));
        }
        match find_first(t, pat) {
            Some(i) => {
                assert(matches_at(s, pat, i + 1));
            },
            None => {
                assert forall|j: int| !matches_at(s, pat, j) by {
                    if 1 <= j && matches_at(s, pat, j) {
                        assert(matches_at(t, pat, j - 1));
                        assert(contains_seq(t, pat));
                    }
                }
            },
        }
    }
}

/// `s` with every occurrence of `pat` removed, scanning left to right.
pub open spec fn remove_all(s: Seq<char>, pat: Seq<char>) -> Seq<char>
    recommends
        pat.len() >= 1,
    decreases s.len(),
{
    if pat.len() == 0 {
        s
    } else if matches_at(s, pat, 0) {
        remove_all(s.skip(pat.len() as int), pat)
    } else if s.len() == 0 {
        s
    } else {
        seq![s[0]] + remove_all(s.drop_first(), pat)
    }
}

proof fn lemma_shift_match(s: Seq<char>, pat: Seq<char>, i: int)
    requires
        0 <= i <= s.len(),
    ensures
        matches_at(s, pat, i) == matches_at(s.skip(i), pat, 0),
{
    if i + pat.len() <= s.len() {
        assert(s.skip(i).subrange(0, pat.len() as int) =~= s.subrange(i, i + pat.len()));
    }
}

/// `v` with every occurrence of `pat` removed, scanning left to right.
pub fn remove_all_chars(v: &Vec<char>, pat: &Vec<char>) -> (r: Vec<char>)
    requires
        pat@.len() >= 1,
    ensures
        r@ == remove_all(v@, pat@),
{
    let n = v.len();
    let pn = pat.len();
    let mut r: Vec<char> = Vec::new();
    let mut i: usize = 0;
    proof {
        assert(v@.skip(0) =~= v@);
        assert(r@ + remove_all(v@.skip(0), pat@) =~= remove_all(v@, pat@));
    }
    while i < n
        invariant
            n == v@.len(),
            pn == pat@.len(),
            pn >= 1,
            i <= n,
            remove_all(v@, pat@) == r@ + remove_all(v@.skip(i as int), pat@),
        decreases n - i,
    {
        proof {
            lemma_shift_match(v@, pat@, i as int);
        }
        if n - i >= pn && matches_at_exec(v, pat, i) {
            proof {
                assert(v@.skip(i as int).skip(pn as int) =~= v@.skip(i + pn));
            }
            i = i + pn;
        } else {
            proof {
                lemma_skip_one(v@, i as int);
                assert(remove_all(v@.skip(i as int), pat@) == seq![v@[i as int]] + remove_all(
                    v@.skip(i + 1),
                    pat@,
                ));
                assert(r@ + (seq![v@[i as int]] + remove_all(v@.skip(i + 1), pat@)) =~= r@.push(
                    v@[i as int],
                ) + remove_all(v@.skip(i + 1), pat@));
                if n - i < pn {
                    assert(!matches_at(v@.skip(i as int), pat@, 0));
                }
            }
            r.push(v[i]);
            i = i + 1;
        }
    }
    proof {
        assert(v@.skip(n as int) =~= Seq::<char>::empty());
        assert(remove_all(Seq::<char>::empty(), pat@) =~= Seq::<char>::empty());
        assert(r@ + Seq::<char>::empty() =~= r@);
    }
    r
}

/// The position of the leftmost occurrence of `pat` in `v`, if any.
pub fn find_first_exec(v: &Vec<char>, pat: &Vec<char>) -> (r: Option<usize>)
    ensures
        match r {
            Some(i) => i + pat@.len() <= v@.len() && find_first(v@, pat@) == Some(i as int),
            None => find_first(v@, pat@) is None,
        },
{
    proof {
        lemma_find_first_properties(v@, pat@);
    }
    if pat.len() > v.len() {
        proof {
            assert(forall|i: int| !matches_at(v@, pat@, i));
        }
        return None;
    }
    let last_start = v.len() - pat.len();
    let mut i: usize = 0;
    while i <= last_start
        invariant
            pat@.len() <= v@.len(),
            last_start == v@.len() - pat@.len(),
            last_start < v@.len() || pat@.len() == 0,
            i <= last_start + 1,
            v@.len() <= usize::MAX,
            forall|k: int| 0 <= k < i ==> !matches_at(v@, pat@, k),
        decreases last_start + 1 - i,
    {
        if matches_at_exec(v, pat, i) {
            proof {
                lemma_find_first_properties(v@, pat@);
                match find_first(v@, pat@) {
                    Some(j) => {
                        if j < i {
                            assert(!matches_at(v@, pat@, j));
                        }
                        if j > i {
                            assert(!matches_at(v@, pat@, i as int));
                        }
                    },
                    None => {
                        assert(!contains_seq(v@, pat@));
                        assert(matches_at(v@, pat@, i as int));
                    },
                }
            }
            return Some(i);
        }
        if i == last_start {
            proof {
                assert(forall|k: int| matches_at(v@, pat@, k) ==> 0 <= k <= last_start);
                lemma_find_first_properties(v@, pat@);
                match find_first(v@, pat@) {
                    Some(j) => {
                        assert(matches_at(v@, pat@, j));
                    },
                    None => {},
                }
            }
            return None;
        }
        i = i + 1;
    }
    proof {
        assert(forall|k: int| matches_at(v@, pat@, k) ==> 0 <= k <= last_start);
        lemma_find_first_properties(v@, pat@);
        match find_first(v@, pat@) {
            Some(j) => {
                assert(matches_at(v@, pat@, j));
            },
            None => {},
        }
    }
    None
}

/// The strings of `items` joined with `sep` between neighbours.
pub fn join_strings(items: &Vec<String>, sep: &str) -> (r: String)
    ensures
        r@ == join_with(string_views(items@), sep@),
{
    let n = items.len();
    let mut r = String::new();
    let mut i: usize = 0;
    while i < n
        invariant
            n == items@.len(),
            i <= n,
            r@ == join_with(string_views(items@.subrange(0, i as int)), sep@),
        decreases n - i,
    {
        if i > 0 {
            r.append(sep);
        }
        r.append(items[i].as_str());
        proof {
            let pre = string_views(items@.subrange(0, i as int));
            let post = string_views(items@.subrange(0, i + 1));
            assert(post.drop_last() =~= pre);
            assert(post.last() == items@[i as int]@);
            if i == 0 {
                assert(join_with(post, sep@) == post[0]);
                assert(post[0] == items@[0]@);
            }
        }
        i = i + 1;
    }
    proof {
        assert(items@.subrange(0, n as int) =~= items@);
    }
    r
}

} // verus!

