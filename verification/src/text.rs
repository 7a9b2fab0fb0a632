//! Character-level text handling shared by every parser in the crate.
//!
//! Text is modelled by its sequence of Unicode scalar values (`Seq<char>`),
//! which is the view vstd gives `str` and `String`. Parsers work on
//! `Vec<char>` copies and hand `String`s back to callers.
use vstd::prelude::*;

verus! {

broadcast use vstd::string::group_string_axioms;

// --- Specifications -----------------------------------------------------------

/// Unicode `White_Space`, the set `char::is_whitespace` and `str::trim` use.
pub open spec fn is_ws(c: char) -> bool {
    ||| c == ' ' || c == '\t' || c == '\n' || c == '\r'
    ||| c == '\u{b}' || c == '\u{c}' || c == '\u{85}' || c == '\u{a0}'
    ||| c == '\u{1680}' || ('\u{2000}' <= c && c <= '\u{200a}')
    ||| c == '\u{2028}' || c == '\u{2029}' || c == '\u{202f}'
    ||| c == '\u{205f}' || c == '\u{3000}'
}

/// `s` without its leading whitespace.
pub open spec fn trim_start(s: Seq<char>) -> Seq<char>
    decreases s.len(),
{
    if s.len() > 0 && is_ws(s[0]) {
        trim_start(s.subrange(1, s.len() as int))
    } else {
        s
    }
}

/// `s` without its trailing whitespace.
pub open spec fn trim_end(s: Seq<char>) -> Seq<char>
    decreases s.len(),
{
    if s.len() > 0 && is_ws(s.last()) {
        trim_end(s.drop_last())
    } else {
        s
    }
}

/// `str::trim`: both ends stripped of whitespace.
pub open spec fn trim(s: Seq<char>) -> Seq<char> {
    trim_end(trim_start(s))
}

/// A line as `str::lines` yields it: a `"\r"` directly before the newline
/// that ended it is dropped.
pub open spec fn strip_cr(line: Seq<char>) -> Seq<char> {
    if line.len() > 0 && line.last() == '\r' {
        line.drop_last()
    } else {
        line
    }
}

/// Reading `s` left to right: the lines already ended by a newline, and the
/// characters of the line still open.
pub open spec fn scan_lines(s: Seq<char>) -> (Seq<Seq<char>>, Seq<char>)
    decreases s.len(),
{
    if s.len() == 0 {
        (seq![], seq![])
    } else {
        let (done, open) = scan_lines(s.drop_last());
        if s.last() == '\n' {
            (done.push(strip_cr(open)), seq![])
        } else {
            (done, open.push(s.last()))
        }
    }
}

/// `str::lines`: lines split at `"\n"` (or `"\r\n"`); a final newline does
/// not start an empty last line.
pub open spec fn lines(s: Seq<char>) -> Seq<Seq<char>> {
    let (done, open) = scan_lines(s);
    if open.len() > 0 {
        done.push(open)
    } else {
        done
    }
}

/// `s` contains `pat` starting at index `i`.
pub open spec fn occurs_at(s: Seq<char>, pat: Seq<char>, i: int) -> bool {
    0 <= i && i + pat.len() <= s.len() && s.subrange(i, i + pat.len()) == pat
}

/// `str::contains` for a string pattern.
pub open spec fn contains(s: Seq<char>, pat: Seq<char>) -> bool {
    exists|i: int| occurs_at(s, pat, i)
}

/// `str::starts_with` for a string pattern.
pub open spec fn starts_with(s: Seq<char>, pat: Seq<char>) -> bool {
    occurs_at(s, pat, 0)
}

/// `s` occurs somewhere in `list`.
pub open spec fn seq_has(list: Seq<Seq<char>>, s: Seq<char>) -> bool {
    exists|i: int| 0 <= i < list.len() && list[i] == s
}

/// The decimal digit character for `d < 10`.
pub open spec fn digit_char(d: nat) -> char {
    (('0' as nat) + d) as char
}

/// Decimal notation of `n`, as `u32`'s `Display` prints it.
pub open spec fn decimal(n: nat) -> Seq<char>
    decreases n,
{
    if n < 10 {
        seq![digit_char(n)]
    } else {
        decimal(n / 10).push(digit_char(n % 10))
    }
}

pub open spec fn is_digit(c: char) -> bool {
    '0' <= c && c <= '9'
}

pub open spec fn digit_value(c: char) -> nat {
    ((c as nat) - ('0' as nat)) as nat
}

/// The number written by a string of ASCII digits.
pub open spec fn digits_value(s: Seq<char>) -> nat
    decreases s.len(),
{
    if s.len() == 0 {
        0
    } else {
        digits_value(s.drop_last()) * 10 + digit_value(s.last())
    }
}

pub open spec fn all_digits(s: Seq<char>) -> bool {
    forall|i: int| 0 <= i < s.len() ==> is_digit(#[trigger] s[i])
}

/// The digits of an unsigned number: `s` without one leading `+`.
pub open spec fn unsigned_body(s: Seq<char>) -> Seq<char> {
    if s.len() > 0 && s[0] == '+' {
        s.subrange(1, s.len() as int)
    } else {
        s
    }
}

/// `u8::from_str`: an optional `+`, then one or more ASCII digits, naming a
/// value below 256.
pub open spec fn parse_u8_spec(s: Seq<char>) -> Option<u8> {
    let body = unsigned_body(s);
    if body.len() > 0 && all_digits(body) && digits_value(body) < 256 {
        Some(digits_value(body) as u8)
    } else {
        None
    }
}

/// The text of an optional string.
pub open spec fn opt_str(o: Option<String>) -> Option<Seq<char>> {
    match o {
        Some(s) => Some(s@),
        None => None,
    }
}

// --- Conversions ----------------------------------------------------------------

/// The characters of `s`, in order.
pub fn chars_of(s: &str) -> (v: Vec<char>)
    ensures
        v@ == s@,
{
    let mut v: Vec<char> = Vec::new();
    for c in it: s.chars()
        invariant
            v@ == it.seq().take(it.index() as int),
            it.seq() == s@,
    {
        v.push(c);
    }
    v
}

/// Appends one character (`String::push`).
#[verifier::external_body]
pub(crate) fn push_char(s: &mut String, c: char)
    ensures
        final(s)@ == old(s)@.push(c),
{
    s.push(c);
}

/// Removes the last character (`String::pop`).
#[verifier::external_body]
pub(crate) fn pop_char(s: &mut String) -> (r: Option<char>)
    ensures
        old(s)@.len() == 0 ==> r is None && final(s)@ == old(s)@,
        old(s)@.len() > 0 ==> r == Some(old(s)@.last()) && final(s)@ == old(s)@.drop_last(),
{
    s.pop()
}

/// The string made of the characters `v[from..to]`.
pub fn string_range(v: &Vec<char>, from: usize, to: usize) -> (s: String)
    requires
        from <= to <= v@.len(),
    ensures
        s@ == v@.subrange(from as int, to as int),
{
    let mut s = String::new();
    let mut i = from;
    while i < to
        invariant
            from <= i <= to <= v@.len(),
            s@ == v@.subrange(from as int, i as int),
        decreases to - i,
    {
        push_char(&mut s, v[i]);
        assert(v@.subrange(from as int, i + 1) == v@.subrange(from as int, i as int).push(v@[i as int]));
        i = i + 1;
    }
    s
}

/// The string made of all the characters of `v`.
pub fn string_of(v: &Vec<char>) -> (s: String)
    ensures
        s@ == v@,
{
    let s = string_range(v, 0, v.len());
    assert(v@.subrange(0, v@.len() as int) == v@);
    s
}

/// Owned copy of a string slice.
pub fn owned(s: &str) -> (r: String)
    ensures
        r@ == s@,
{
    s.to_owned()
}

/// `a` followed by `b`.
pub fn concat(a: &str, b: &str) -> (r: String)
    ensures
        r@ == a@ + b@,
{
    let mut r = a.to_owned();
    r.append(b);
    r
}

/// Unicode lowercase mapping of a string, as `str::to_lowercase` computes it
/// (full case mapping, context-sensitive final sigma).
pub uninterp spec fn lowercase(s: Seq<char>) -> Seq<char>;

/// `str::to_lowercase`; its result is named by [`lowercase`].
#[verifier::external_body]
pub fn to_lowercase(s: &str) -> (r: String)
    ensures
        r@ == lowercase(s@),
{
    s.to_lowercase()
}

// --- Predicates and slicing ---------------------------------------------------------

/// Whether `c` is whitespace (`char::is_whitespace`).
pub fn is_ws_char(c: char) -> (b: bool)
    ensures
        b == is_ws(c),
{
    c == ' ' || c == '\t' || c == '\n' || c == '\r' || c == '\u{b}' || c == '\u{c}' || c
        == '\u{85}' || c == '\u{a0}' || c == '\u{1680}' || ('\u{2000}' <= c && c <= '\u{200a}')
        || c == '\u{2028}' || c == '\u{2029}' || c == '\u{202f}' || c == '\u{205f}' || c
        == '\u{3000}'
}

proof fn lemma_trim_start_step(s: Seq<char>, i: int)
    requires
        0 <= i < s.len(),
        is_ws(s[i]),
    ensures
        trim_start(s.subrange(i, s.len() as int)) == trim_start(s.subrange(i + 1, s.len() as int)),
{
    let t = s.subrange(i, s.len() as int);
    assert(t.subrange(1, t.len() as int) == s.subrange(i + 1, s.len() as int));
}

proof fn lemma_trim_end_step(s: Seq<char>, j: int)
    requires
        0 < j <= s.len(),
        is_ws(s[j - 1]),
    ensures
        trim_end(s.subrange(0, j)) == trim_end(s.subrange(0, j - 1)),
{
    assert(s.subrange(0, j).drop_last() == s.subrange(0, j - 1));
}

/// The bounds `[a, b)` of `trim(v)` inside `v`.
pub fn trim_bounds(v: &Vec<char>) -> (r: (usize, usize))
    ensures
        r.0 <= r.1 <= v@.len(),
        trim(v@) == v@.subrange(r.0 as int, r.1 as int),
{
    let n = v.len();
    let mut a: usize = 0;
    assert(v@.subrange(0, n as int) == v@);
    while a < n && is_ws_char(v[a])
        invariant
            a <= n == v@.len(),
            trim_start(v@) == trim_start(v@.subrange(a as int, n as int)),
        decreases n - a,
    {
        proof {
            lemma_trim_start_step(v@, a as int);
        }
        a = a + 1;
    }
    let ghost t = v@.subrange(a as int, n as int);
    assert(trim_start(t) == t);
    assert(t.subrange(0, n - a) == t);
    let mut b: usize = n;
    while b > a && is_ws_char(v[b - 1])
        invariant
            a <= b <= n == v@.len(),
            t == v@.subrange(a as int, n as int),
            trim_end(t) == trim_end(t.subrange(0, b - a)),
        decreases b,
    {
        proof {
            lemma_trim_end_step(t, (b - a) as int);
            assert(t.subrange(0, b - a - 1) == t.subrange(0, (b - 1 - a) as int));
        }
        b = b - 1;
    }
    proof {
        let u = t.subrange(0, b - a);
        assert(u == v@.subrange(a as int, b as int));
        assert(trim_end(u) == u);
    }
    (a, b)
}

/// `str::trim` on characters.
pub fn trim_chars(v: &Vec<char>) -> (r: Vec<char>)
    ensures
        r@ == trim(v@),
{
    let (a, b) = trim_bounds(v);
    slice_chars(v, a, b)
}

/// Copy of `v[from..to]`.
pub fn slice_chars(v: &Vec<char>, from: usize, to: usize) -> (r: Vec<char>)
    requires
        from <= to <= v@.len(),
    ensures
        r@ == v@.subrange(from as int, to as int),
{
    let mut r: Vec<char> = Vec::new();
    let mut i = from;
    while i < to
        invariant
            from <= i <= to <= v@.len(),
            r@ == v@.subrange(from as int, i as int),
        decreases to - i,
    {
        r.push(v[i]);
        assert(v@.subrange(from as int, i + 1) == v@.subrange(from as int, i as int).push(v@[i as int]));
        i = i + 1;
    }
    r
}

/// Whether the two character sequences are equal.
pub fn chars_eq(a: &Vec<char>, b: &Vec<char>) -> (r: bool)
    ensures
        r == (a@ == b@),
{
    if a.len() != b.len() {
        return false;
    }
    let mut i: usize = 0;
    while i < a.len()
        invariant
            i <= a@.len() == b@.len(),
            a@.subrange(0, i as int) == b@.subrange(0, i as int),
        decreases a@.len() - i,
    {
        if a[i] != b[i] {
            assert(a@[i as int] != b@[i as int]);
            return false;
        }
        assert(a@.subrange(0, i + 1) == a@.subrange(0, i as int).push(a@[i as int]));
        assert(b@.subrange(0, i + 1) == b@.subrange(0, i as int).push(b@[i as int]));
        i = i + 1;
    }
    assert(a@ == a@.subrange(0, i as int));
    assert(b@ == b@.subrange(0, i as int));
    true
}

/// Whether `v` spells exactly the string `s`.
pub fn is_str(v: &Vec<char>, s: &str) -> (r: bool)
    ensures
        r == (v@ == s@),
{
    let w = chars_of(s);
    chars_eq(v, &w)
}

/// Whether `pat` occurs in `v` at index `i`.
pub fn occurs_at_exec(v: &Vec<char>, pat: &Vec<char>, i: usize) -> (r: bool)
    ensures
        r == occurs_at(v@, pat@, i as int),
{
    if i > v.len() || pat.len() > v.len() - i {
        return false;
    }
    let mut k: usize = 0;
    while k < pat.len()
        invariant
            i + pat@.len() <= v@.len(),
            v@.len() <= usize::MAX,
            k <= pat@.len(),
            forall|j: int| 0 <= j < k ==> v@[i + j] == pat@[j],
        decreases pat@.len() - k,
    {
        if v[i + k] != pat[k] {
            assert(v@.subrange(i as int, i + pat@.len())[k as int] != pat@[k as int]);
            return false;
        }
        k = k + 1;
    }
    assert(v@.subrange(i as int, i + pat@.len()) == pat@);
    true
}

/// Whether `v` starts with the string `p`.
pub fn starts_with_str(v: &Vec<char>, p: &str) -> (r: bool)
    ensures
        r == starts_with(v@, p@),
{
    let pat = chars_of(p);
    occurs_at_exec(v, &pat, 0)
}

/// The first index at which `pat` occurs in `v` at or after `from`.
pub fn find_from(v: &Vec<char>, pat: &Vec<char>, from: usize) -> (r: Option<usize>)
    ensures
        match r {
            Some(i) => from <= i && occurs_at(v@, pat@, i as int) && forall|j: int|
                from <= j < i ==> !occurs_at(v@, pat@, j),
            None => forall|j: int| from <= j ==> !occurs_at(v@, pat@, j),
        },
{
    let mut i = from;
    while i <= v.len()
        invariant
            from <= i,
            forall|j: int| from <= j < i ==> !occurs_at(v@, pat@, j),
        decreases v@.len() + 1 - i,
    {
        if occurs_at_exec(v, pat, i) {
            return Some(i);
        }
        if i == v.len() {
            assert forall|j: int| from <= j implies !occurs_at(v@, pat@, j) by {
                if j > v@.len() {
                    assert(!occurs_at(v@, pat@, j));
                }
            }
            return None;
        }
        i = i + 1;
    }
    None
}

/// Whether the string `p` occurs in `v`.
pub fn contains_str(v: &Vec<char>, p: &str) -> (r: bool)
    ensures
        r == contains(v@, p@),
{
    let pat = chars_of(p);
    match find_from(v, &pat, 0) {
        Some(_) => true,
        None => {
            assert forall|j: int| !occurs_at(v@, pat@, j) by {
                if j >= 0 {
                }
            }
            false
        },
    }
}

/// The first index of character `c` in `v` at or after `from`.
pub fn find_char(v: &Vec<char>, c: char, from: usize) -> (r: Option<usize>)
    ensures
        match r {
            Some(i) => from <= i < v@.len() && v@[i as int] == c && forall|j: int|
                from <= j < i ==> v@[j] != c,
            None => forall|j: int| from <= j < v@.len() ==> v@[j] != c,
        },
{
    let mut i = from;
    while i < v.len()
        invariant
            from <= i || i >= v@.len(),
            forall|j: int| from <= j < i && j < v@.len() ==> v@[j] != c,
        decreases v@.len() - i,
    {
        if v[i] == c {
            return Some(i);
        }
        i = i + 1;
    }
    None
}

/// Index of the first `c` in `s`, or -1.
pub open spec fn first_index_of(s: Seq<char>, c: char) -> int {
    if exists|i: int| 0 <= i < s.len() && s[i] == c {
        choose|i: int| 0 <= i < s.len() && s[i] == c && forall|j: int| 0 <= j < i ==> s[j] != c
    } else {
        -1
    }
}

/// The first occurrence of `c` is at `i` (or `i == s.len()` when there is none).
pub proof fn lemma_first_index_of(s: Seq<char>, c: char, i: int)
    requires
        0 <= i <= s.len(),
        forall|j: int| 0 <= j < i ==> s[j] != c,
        i == s.len() || s[i] == c,
    ensures
        first_index_of(s, c) == if i == s.len() { -1 } else { i },
{
    if i < s.len() {
        assert(exists|k: int|
            0 <= k < s.len() && s[k] == c && forall|j: int| 0 <= j < k ==> s[j] != c) by {
            assert(forall|j: int| 0 <= j < i ==> s[j] != c);
        }
        let k = first_index_of(s, c);
        if k < i {
            assert(s[k] != c);
        } else if k > i {
            assert(s[i] != c);
        }
    }
}

/// Index of the first `c` in `v`, exactly [`first_index_of`].
pub fn index_of_char(v: &Vec<char>, c: char) -> (r: Option<usize>)
    ensures
        match r {
            Some(i) => i < v@.len() && first_index_of(v@, c) == i,
            None => first_index_of(v@, c) == -1,
        },
{
    match find_char(v, c, 0) {
        Some(i) => {
            proof {
                lemma_first_index_of(v@, c, i as int);
            }
            Some(i)
        },
        None => {
            proof {
                lemma_first_index_of(v@, c, v@.len() as int);
            }
            None
        },
    }
}

/// `splitn(3, sep)`: the text before the first `sep`, between the first
/// and second, and after the second (missing parts empty).
pub open spec fn split3(line: Seq<char>, sep: char) -> (Seq<char>, Seq<char>, Seq<char>) {
    let a = first_index_of(line, sep);
    if a < 0 {
        (line, seq![], seq![])
    } else {
        let rest = line.subrange(a + 1, line.len() as int);
        let b = first_index_of(rest, sep);
        if b < 0 {
            (line.subrange(0, a), rest, seq![])
        } else {
            (line.subrange(0, a), rest.subrange(0, b), rest.subrange(b + 1, rest.len() as int))
        }
    }
}

/// Split a line at its first two `sep` characters (`splitn(3, sep)`).
#[verifier::rlimit(100)]
#[verifier::spinoff_prover]
pub fn split3_exec(line: &Vec<char>, sep: char) -> (r: (Vec<char>, Vec<char>, Vec<char>))
    ensures
        (r.0@, r.1@, r.2@) == split3(line@, sep),
{
    match find_char(line, sep, 0) {
        None => {
            proof {
                lemma_first_index_of(line@, sep, line@.len() as int);
            }
            (slice_chars(line, 0, line.len()), Vec::new(), Vec::new())
        },
        Some(a) => {
            proof {
                lemma_first_index_of(line@, sep, a as int);
            }
            let ghost rest = line@.subrange(a + 1, line@.len() as int);
            let n = line.len();
            assert(a < n);
            match find_char(line, sep, a + 1) {
                None => {
                    proof {
                        lemma_first_index_of(rest, sep, rest.len() as int);
                        assert(line@.subrange(0, line@.len() as int) == line@);
                    }
                    (slice_chars(line, 0, a), slice_chars(line, a + 1, line.len()), Vec::new())
                },
                Some(b) => {
                    proof {
                        assert forall|j: int| 0 <= j < b - a - 1 implies rest[j] != sep by {
                            assert(rest[j] == line@[a + 1 + j]);
                        }
                        lemma_first_index_of(rest, sep, b - a - 1);
                        assert(rest.subrange(0, b - a - 1) == line@.subrange(a + 1, b as int));
                        assert(rest.subrange(b - a, rest.len() as int) == line@.subrange(
                            b + 1,
                            line@.len() as int,
                        ));
                    }
                    (
                        slice_chars(line, 0, a),
                        slice_chars(line, a + 1, b),
                        slice_chars(line, b + 1, line.len()),
                    )
                },
            }
        },
    }
}

// --- Lines ------------------------------------------------------------------------------

proof fn lemma_scan_lines_step(s: Seq<char>, i: int)
    requires
        0 <= i < s.len(),
    ensures
        scan_lines(s.take(i + 1)) == ({
            let (done, open) = scan_lines(s.take(i));
            if s[i] == '\n' {
                (done.push(strip_cr(open)), seq![])
            } else {
                (done, open.push(s[i]))
            }
        }),
{
    assert(s.take(i + 1).drop_last() == s.take(i));
}

/// `str::lines` on characters.
pub fn lines_of(v: &Vec<char>) -> (r: Vec<Vec<char>>)
    ensures
        r@.len() == lines(v@).len(),
        forall|i: int| 0 <= i < r@.len() ==> #[trigger] r@[i]@ == lines(v@)[i],
{
    let mut done: Vec<Vec<char>> = Vec::new();
    let mut open: Vec<char> = Vec::new();
    let mut i: usize = 0;
    while i < v.len()
        invariant
            i <= v@.len(),
            done@.len() == scan_lines(v@.take(i as int)).0.len(),
            forall|k: int| 0 <= k < done@.len() ==> #[trigger] done@[k]@ == scan_lines(v@.take(i as int)).0[k],
            open@ == scan_lines(v@.take(i as int)).1,
        decreases v@.len() - i,
    {
        proof {
            lemma_scan_lines_step(v@, i as int);
        }
        let c = v[i];
        if c == '\n' {
            let n = open.len();
            let line = if n > 0 && open[n - 1] == '\r' {
                slice_chars(&open, 0, n - 1)
            } else {
                slice_chars(&open, 0, n)
            };
            proof {
                assert(open@.subrange(0, n as int) == open@);
                assert(open@.subrange(0, n - 1) == open@.drop_last());
            }
            done.push(line);
            open = Vec::new();
        } else {
            open.push(c);
        }
        i = i + 1;
    }
    assert(v@.take(v@.len() as int) == v@);
    if open.len() > 0 {
        done.push(open);
    }
    done
}

/// The lines of `s`, as owned strings.
pub fn lines_str(s: &str) -> (r: Vec<Vec<char>>)
    ensures
        r@.len() == lines(s@).len(),
        forall|i: int| 0 <= i < r@.len() ==> #[trigger] r@[i]@ == lines(s@)[i],
{
    let v = chars_of(s);
    lines_of(&v)
}

// --- Splitting at a separator ---------------------------------------------------------

/// Reading `s` left to right: the pieces already ended by `sep`, and the
/// piece still open.
pub open spec fn split_scan(s: Seq<char>, sep: char) -> (Seq<Seq<char>>, Seq<char>)
    decreases s.len(),
{
    if s.len() == 0 {
        (seq![], seq![])
    } else {
        let (done, open) = split_scan(s.drop_last(), sep);
        if s.last() == sep {
            (done.push(open), seq![])
        } else {
            (done, open.push(s.last()))
        }
    }
}

/// `str::split(sep)`: every piece between separators, empty ones included;
/// there is always at least one piece.
pub open spec fn split_on(s: Seq<char>, sep: char) -> Seq<Seq<char>> {
    let (done, open) = split_scan(s, sep);
    done.push(open)
}

proof fn lemma_split_scan_step(s: Seq<char>, sep: char, i: int)
    requires
        0 <= i < s.len(),
    ensures
        split_scan(s.take(i + 1), sep) == ({
            let (done, open) = split_scan(s.take(i), sep);
            if s[i] == sep {
                (done.push(open), seq![])
            } else {
                (done, open.push(s[i]))
            }
        }),
{
    assert(s.take(i + 1).drop_last() == s.take(i));
}

/// `str::split(sep)` on characters.
pub fn split_chars(v: &Vec<char>, sep: char) -> (r: Vec<Vec<char>>)
    ensures
        r@.len() == split_on(v@, sep).len(),
        forall|i: int| 0 <= i < r@.len() ==> #[trigger] r@[i]@ == split_on(v@, sep)[i],
{
    let mut done: Vec<Vec<char>> = Vec::new();
    let mut open: Vec<char> = Vec::new();
    let mut i: usize = 0;
    while i < v.len()
        invariant
            i <= v@.len(),
            done@.len() == split_scan(v@.take(i as int), sep).0.len(),
            forall|k: int| 0 <= k < done@.len() ==> #[trigger] done@[k]@ == split_scan(v@.take(i as int), sep).0[k],
            open@ == split_scan(v@.take(i as int), sep).1,
        decreases v@.len() - i,
    {
        proof {
            lemma_split_scan_step(v@, sep, i as int);
        }
        let c = v[i];
        if c == sep {
            let piece = open;
            done.push(piece);
            open = Vec::new();
        } else {
            open.push(c);
        }
        i = i + 1;
    }
    assert(v@.take(v@.len() as int) == v@);
    done.push(open);
    done
}

/// Whether `word` is one of the pieces of `v` split at `sep`.
pub fn has_piece(v: &Vec<char>, sep: char, word: &str) -> (r: bool)
    ensures
        r == seq_has(split_on(v@, sep), word@),
{
    let pieces = split_chars(v, sep);
    let mut k: usize = 0;
    while k < pieces.len()
        invariant
            k <= pieces@.len() == split_on(v@, sep).len(),
            forall|i: int| 0 <= i < pieces@.len() ==> #[trigger] pieces@[i]@ == split_on(v@, sep)[i],
            forall|i: int| 0 <= i < k ==> split_on(v@, sep)[i] != word@,
        decreases pieces@.len() - k,
    {
        if is_str(&pieces[k], word) {
            assert(pieces@[k as int]@ == split_on(v@, sep)[k as int]);
            return true;
        }
        assert(pieces@[k as int]@ == split_on(v@, sep)[k as int]);
        k = k + 1;
    }
    false
}

// --- Numbers ---------------------------------------------------------------------

proof fn lemma_digits_value_bound(s: Seq<char>)
    requires
        all_digits(s),
    ensures
        digits_value(s) < pow10(s.len()),
    decreases s.len(),
{
    if s.len() > 0 {
        assert(all_digits(s.drop_last()));
        lemma_digits_value_bound(s.drop_last());
        assert(is_digit(s[s.len() - 1]));
    }
}

pub open spec fn pow10(n: nat) -> nat
    decreases n,
{
    if n == 0 {
        1
    } else {
        10 * pow10((n - 1) as nat)
    }
}

/// `u8::from_str` on characters.
pub fn parse_u8(v: &Vec<char>) -> (r: Option<u8>)
    ensures
        r == parse_u8_spec(v@),
{
    let start: usize = if v.len() > 0 && v[0] == '+' {
        1
    } else {
        0
    };
    let ghost body = unsigned_body(v@);
    assert(body == v@.subrange(start as int, v@.len() as int));
    if start >= v.len() {
        return None;
    }
    let mut value: u32 = 0;
    let mut i = start;
    while i < v.len()
        invariant
            start <= i <= v@.len(),
            body == unsigned_body(v@),
            body == v@.subrange(start as int, v@.len() as int),
            all_digits(v@.subrange(start as int, i as int)),
            value == digits_value(v@.subrange(start as int, i as int)),
            value < 256,
        decreases v@.len() - i,
    {
        let c = v[i];
        let ghost prefix = v@.subrange(start as int, i as int);
        let ghost next = v@.subrange(start as int, i + 1);
        assert(next.drop_last() == prefix);
        assert(body[i - start] == c);
        if !('0' <= c && c <= '9') {
            assert(!is_digit(body[i - start]));
            assert(!all_digits(body));
            assert(parse_u8_spec(v@) == None::<u8>);
            return None;
        }
        let d = (c as u32) - ('0' as u32);
        assert(next.last() == c);
        assert(d == digit_value(c));
        assert(digits_value(next) == digits_value(prefix) * 10 + digit_value(next.last()));
        value = value * 10 + d;
        assert(all_digits(next)) by {
            assert forall|k: int| 0 <= k < next.len() implies is_digit(#[trigger] next[k]) by {
                if k < prefix.len() {
                    assert(next[k] == prefix[k]);
                }
            }
        }
        if value >= 256 {
            proof {
                assert(next == body.subrange(0, i + 1 - start));
                lemma_digits_prefix_monotone(body, (i + 1 - start) as nat);
                assert(!(all_digits(body) && digits_value(body) < 256));
                assert(parse_u8_spec(v@) == None::<u8>);
            }
            return None;
        }
        i = i + 1;
    }
    assert(v@.subrange(start as int, i as int) == body);
    Some(value as u8)
}

/// A prefix of a digit string never names a larger number than the string.
proof fn lemma_digits_prefix_monotone(s: Seq<char>, k: nat)
    requires
        k <= s.len(),
        all_digits(s.subrange(0, k as int)),
    ensures
        all_digits(s) ==> digits_value(s.subrange(0, k as int)) <= digits_value(s),
    decreases s.len() - k,
{
    if all_digits(s) {
        if k < s.len() {
            let a = s.subrange(0, k as int);
            let b = s.subrange(0, (k + 1) as int);
            assert forall|i: int| 0 <= i < b.len() implies is_digit(#[trigger] b[i]) by {
                assert(b[i] == s[i]);
            }
            lemma_digits_prefix_monotone(s, k + 1);
            assert(b.drop_last() == a);
            assert(digits_value(b) == digits_value(a) * 10 + digit_value(b.last()));
        } else {
            assert(s.subrange(0, k as int) == s);
        }
    }
}

/// Decimal notation of `n` (`Display` of an unsigned integer).
pub fn decimal_string(n: u64) -> (s: String)
    ensures
        s@ == decimal(n as nat),
{
    // Collect the digits least significant first, then emit them reversed.
    let mut digits: Vec<char> = Vec::new();
    let mut m = n;
    let ghost mut rest: Seq<char> = seq![];
    while m >= 10
        invariant
            decimal(n as nat) == decimal(m as nat) + rest,
            digits@.len() == rest.len(),
            forall|i: int| 0 <= i < rest.len() ==> #[trigger] digits@[i] == rest[rest.len() - 1 - i],
        decreases m,
    {
        let d = m % 10;
        let c = ((d as u8) + ('0' as u8)) as char;
        proof {
            assert(c == digit_char(d as nat));
            let old_rest = rest;
            rest = seq![c] + rest;
            assert(decimal(m as nat) == decimal((m / 10) as nat).push(c));
            assert(decimal((m / 10) as nat) + rest == decimal((m / 10) as nat).push(c) + old_rest);
        }
        digits.push(c);
        m = m / 10;
    }
    let c = ((m as u8) + ('0' as u8)) as char;
    proof {
        assert(c == digit_char(m as nat));
        assert(decimal(m as nat) == seq![c]);
        rest = seq![c] + rest;
    }
    digits.push(c);
    let mut s = String::new();
    let mut k = digits.len();
    while k > 0
        invariant
            k <= digits@.len() == rest.len(),
            decimal(n as nat) == rest,
            forall|i: int| 0 <= i < rest.len() ==> #[trigger] digits@[i] == rest[rest.len() - 1 - i],
            s@ == rest.subrange(0, rest.len() - k),
        decreases k,
    {
        k = k - 1;
        push_char(&mut s, digits[k]);
        assert(rest.subrange(0, rest.len() - k) == rest.subrange(0, rest.len() - k - 1).push(rest[rest.len() - 1 - k]));
    }
    assert(rest.subrange(0, rest.len() as int) == rest);
    s
}

} // verus!
