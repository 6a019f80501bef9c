//! Character-level text helpers shared by every parser and printer of the
//! crate: splitting text into lines, prefix tests, decimal numbers.

use vstd::prelude::*;

verus! {

// ---------------------------------------------------------------------
// Prefixes and small predicates
// ---------------------------------------------------------------------

/// `s` begins with `p`.
pub open spec fn has_prefix(s: Seq<char>, p: Seq<char>) -> bool {
    p.len() <= s.len() && s.subrange(0, p.len() as int) == p
}

/// `s` without its first `n` characters.
pub open spec fn after(s: Seq<char>, n: int) -> Seq<char> {
    s.subrange(n, s.len() as int)
}

/// Drops one trailing carriage return, if there is one.
pub open spec fn strip_one_cr(s: Seq<char>) -> Seq<char> {
    if s.len() > 0 && s.last() == '\r' {
        s.drop_last()
    } else {
        s
    }
}

pub open spec fn is_ascii_digit(c: char) -> bool {
    '0' <= c && c <= '9'
}

/// Numeric value of an ASCII digit.
pub open spec fn digit_value(c: char) -> nat {
    (c as int - '0' as int) as nat
}

/// The ASCII digit of `d` (`d < 10`).
pub open spec fn digit_char(d: nat) -> char {
    ((d + 48) as u8) as char
}

/// Value of a run of ASCII digits, read as a decimal number.
pub open spec fn decimal_value(s: Seq<char>) -> nat
    decreases s.len(),
{
    if s.len() == 0 {
        0
    } else {
        decimal_value(s.drop_last()) * 10 + digit_value(s.last())
    }
}

/// Decimal notation of `n`, without leading zeros (`"0"` for zero).
pub open spec fn decimal(n: nat) -> Seq<char>
    decreases n,
{
    if n < 10 {
        seq![digit_char(n)]
    } else {
        decimal(n / 10).push(digit_char(n % 10))
    }
}

/// Every character of `s` is an ASCII digit.
pub open spec fn all_digits(s: Seq<char>) -> bool {
    forall|i: int| 0 <= i < s.len() ==> is_ascii_digit(#[trigger] s[i])
}

/// Index of the first character at or after `i` that is not an ASCII digit
/// (`s.len()` when the digits run to the end).
pub open spec fn digits_end(s: Seq<char>, i: int) -> int
    decreases s.len() - i,
{
    if i < 0 || i >= s.len() {
        if i < 0 { 0 } else { s.len() as int }
    } else if is_ascii_digit(s[i]) {
        digits_end(s, i + 1)
    } else {
        i
    }
}

// ---------------------------------------------------------------------
// Splitting into lines
// ---------------------------------------------------------------------

/// State of a left-to-right scan that cuts text at `'\n'`: the lines
/// finished so far and the characters of the line under way.
pub open spec fn lines_scan(s: Seq<char>) -> (Seq<Seq<char>>, Seq<char>)
    decreases s.len(),
{
    if s.len() == 0 {
        (Seq::empty(), Seq::empty())
    } else {
        let (done, cur) = lines_scan(s.drop_last());
        if s.last() == '\n' {
            (done.push(strip_one_cr(cur)), Seq::empty())
        } else {
            (done, cur.push(s.last()))
        }
    }
}

/// The lines of `s`, as `str::lines` yields them: cut at each `'\n'`, a
/// `"\r\n"` ending counting as one line ending, and a final line ending
/// being optional (no empty last line after it).
pub open spec fn text_lines(s: Seq<char>) -> Seq<Seq<char>> {
    let (done, cur) = lines_scan(s);
    if cur.len() > 0 {
        done.push(cur)
    } else {
        done
    }
}

// ---------------------------------------------------------------------
// Executable helpers
// ---------------------------------------------------------------------

/// Trusted: `String::push` appends one character to the string.
#[verifier::external_body]
pub(crate) fn push_char(s: &mut String, c: char)
    ensures
        final(s)@ == old(s)@.push(c),
{
    s.push(c);
}

/// The characters of `s`.
pub fn chars_of(s: &str) -> (r: Vec<char>)
    ensures
        r@ == s@,
{
    let mut r: Vec<char> = Vec::new();
    for c in it: s.chars()
        invariant
            r@ == it.seq().take(it.index() as int),
    {
        r.push(c);
    }
    r
}

/// Appends `chars[start..end]` to `s`.
pub fn push_chars(s: &mut String, chars: &Vec<char>, start: usize, end: usize)
    requires
        start <= end <= chars.len(),
    ensures
        final(s)@ == old(s)@ + chars@.subrange(start as int, end as int),
{
    let mut i = start;
    while i < end
        invariant
            start <= i <= end <= chars.len(),
            s@ == old(s)@ + chars@.subrange(start as int, i as int),
        decreases end - i,
    {
        push_char(s, chars[i]);
        i += 1;
        assert(chars@.subrange(start as int, i as int) =~= chars@.subrange(
            start as int,
            (i - 1) as int,
        ).push(chars@[i - 1]));
    }
}

/// A string made of `chars[start..end]`.
pub fn string_of(chars: &Vec<char>, start: usize, end: usize) -> (r: String)
    requires
        start <= end <= chars.len(),
    ensures
        r@ == chars@.subrange(start as int, end as int),
{
    let mut r = String::new();
    push_chars(&mut r, chars, start, end);
    assert(Seq::<char>::empty() + chars@.subrange(start as int, end as int) =~= chars@.subrange(
        start as int,
        end as int,
    ));
    r
}

/// Appends the whole of `t` to `s`.
pub fn push_str(s: &mut String, t: &str)
    ensures
        final(s)@ == old(s)@ + t@,
{
    let cs = chars_of(t);
    push_chars(s, &cs, 0, cs.len());
    assert(cs@.subrange(0, cs@.len() as int) =~= cs@);
}

/// `line`, from position `pos` on, begins with `p`.
pub fn starts_with_at(line: &Vec<char>, pos: usize, p: &str) -> (r: bool)
    requires
        pos <= line.len(),
    ensures
        r == has_prefix(after(line@, pos as int), p@),
{
    let pc = chars_of(p);
    if pc.len() > line.len() - pos {
        return false;
    }
    let ghost rest = after(line@, pos as int);
    let mut i: usize = 0;
    while i < pc.len()
        invariant
            pc@ == p@,
            pos <= line.len(),
            pc.len() <= line.len() - pos,
            rest == after(line@, pos as int),
            0 <= i <= pc.len(),
            forall|k: int| 0 <= k < i ==> rest[k] == pc@[k],
        decreases pc.len() - i,
    {
        if line[pos + i] != pc[i] {
            assert(rest.subrange(0, pc.len() as int)[i as int] != pc@[i as int]);
            return false;
        }
        i += 1;
    }
    assert(rest.subrange(0, pc.len() as int) =~= pc@);
    true
}

/// `line` begins with `p`.
pub fn starts_with(line: &Vec<char>, p: &str) -> (r: bool)
    ensures
        r == has_prefix(line@, p@),
{
    assert(after(line@, 0) =~= line@);
    starts_with_at(line, 0, p)
}

/// The lines of `s` (see `text_lines`), each without one more trailing
/// carriage return.
pub fn stripped_lines(s: &str) -> (r: Vec<Vec<char>>)
    ensures
        r.deep_view() == text_lines(s@).map_values(|l: Seq<char>| strip_one_cr(l)),
{
    let cs = chars_of(s);
    let lines = split_lines(&cs);
    let ghost src = lines.deep_view();
    assert forall|k: int| 0 <= k < lines.len() implies #[trigger] lines@[k]@ == src[k] by {
        assert(lines@[k].deep_view() =~= lines@[k]@);
    }
    let mut r: Vec<Vec<char>> = Vec::new();
    let n = lines.len();
    let mut lines = lines;
    // Consume the lines from the back, then put them in order.
    let mut rev: Vec<Vec<char>> = Vec::new();
    while lines.len() > 0
        invariant
            lines.len() + rev.len() == n,
            src.len() == n,
            forall|k: int| 0 <= k < lines.len() ==> #[trigger] lines@[k]@ == src[k],
            forall|k: int|
                0 <= k < rev.len() ==> #[trigger] rev@[k]@ == strip_one_cr(src[n - 1 - k]),
        decreases lines.len(),
    {
        let l = lines.pop().unwrap();
        rev.push(strip_cr(l));
    }
    while rev.len() > 0
        invariant
            rev.len() + r.len() == n,
            src.len() == n,
            forall|k: int|
                0 <= k < rev.len() ==> #[trigger] rev@[k]@ == strip_one_cr(src[n - 1 - k]),
            forall|k: int| 0 <= k < r.len() ==> #[trigger] r@[k]@ == strip_one_cr(src[k]),
        decreases rev.len(),
    {
        let l = rev.pop().unwrap();
        r.push(l);
    }
    assert forall|k: int| 0 <= k < r.len() implies #[trigger] r.deep_view()[k] == r@[k]@ by {
        assert(r@[k].deep_view() =~= r@[k]@);
    }
    assert(r.deep_view() =~= src.map_values(|l: Seq<char>| strip_one_cr(l)));
    r
}

/// `line` without one trailing carriage return.
pub fn strip_cr(line: Vec<char>) -> (r: Vec<char>)
    ensures
        r@ == strip_one_cr(line@),
{
    let mut line = line;
    if line.len() > 0 && line[line.len() - 1] == '\r' {
        line.pop();
    }
    line
}

/// Cuts `s` into lines (see `text_lines`).
pub fn split_lines(s: &Vec<char>) -> (r: Vec<Vec<char>>)
    ensures
        r.deep_view() == text_lines(s@),
{
    let mut done: Vec<Vec<char>> = Vec::new();
    let mut cur: Vec<char> = Vec::new();
    let mut i: usize = 0;
    while i < s.len()
        invariant
            0 <= i <= s.len(),
            (done.deep_view(), cur@) == lines_scan(s@.take(i as int)),
        decreases s.len() - i,
    {
        let c = s[i];
        assert(s@.take((i + 1) as int).drop_last() =~= s@.take(i as int));
        if c == '\n' {
            let finished = strip_cr(cur);
            let ghost before = done.deep_view();
            assert(finished.deep_view() =~= finished@);
            done.push(finished);
            cur = Vec::new();
            assert(done.deep_view() =~= before.push(finished@));
        } else {
            cur.push(c);
        }
        i += 1;
    }
    assert(s@.take(s.len() as int) =~= s@);
    if cur.len() > 0 {
        let ghost before = done.deep_view();
        assert(cur.deep_view() =~= cur@);
        let ghost last = cur@;
        done.push(cur);
        assert(done.deep_view() =~= before.push(last));
    }
    done
}

/// Appends the decimal notation of `n` to `s`.
pub fn push_decimal(s: &mut String, n: u64)
    ensures
        final(s)@ == old(s)@ + decimal(n as nat),
    decreases n,
{
    if n >= 10 {
        push_decimal(s, n / 10);
    }
    let d = (n % 10) as u8;
    push_char(s, (d + 48) as char);
    assert(decimal(n as nat) =~= if n < 10 {
        seq![digit_char(n as nat)]
    } else {
        decimal((n / 10) as nat).push(digit_char((n % 10) as nat))
    });
}

/// The decimal notation of a number is a non-empty run of digits that
/// reads back as the number.
pub proof fn lemma_decimal_reads_back(n: nat)
    ensures
        decimal(n).len() >= 1,
        all_digits(decimal(n)),
        decimal_value(decimal(n)) == n,
    decreases n,
{
    if n < 10 {
        assert(((n + 48) as u8) as int == n + 48);
        assert(digit_char(n) as int == n + 48);
        assert('0' as int == 48);
        assert(digit_value(digit_char(n)) == n);
        assert(seq![digit_char(n)].drop_last() =~= Seq::<char>::empty());
        assert(decimal(n) =~= seq![digit_char(n)]);
        assert(decimal_value(Seq::<char>::empty()) == 0);
        assert(seq![digit_char(n)].last() == digit_char(n));
        assert(decimal_value(seq![digit_char(n)]) == n);
    } else {
        lemma_decimal_reads_back(n / 10);
        let d = (n % 10) as nat;
        assert(((d + 48) as u8) as int == d + 48);
        assert(digit_char(d) as int == d + 48);
        assert('0' as int == 48);
        assert(digit_value(digit_char(d)) == d);
        let s = decimal(n / 10);
        assert(s.push(digit_char(d)).drop_last() =~= s);
        assert(decimal_value(s.push(digit_char(d))) == decimal_value(s) * 10 + d);
        assert(decimal(n) == s.push(digit_char(d)));
        assert((n / 10) * 10 + d == n);
        assert(all_digits(s.push(digit_char(d)))) by {
            assert forall|i: int| 0 <= i < s.len() + 1 implies is_ascii_digit(
                #[trigger] s.push(digit_char(d))[i],
            ) by {
                if i < s.len() {
                    assert(s.push(digit_char(d))[i] == s[i]);
                }
            }
        }
    }
}

/// A run of `len` digits at `i`, followed by a non-digit or the end, ends
/// at `i + len`.
pub proof fn lemma_digits_end_of_run(s: Seq<char>, i: int, len: int)
    requires
        0 <= i,
        0 <= len,
        i + len <= s.len(),
        forall|k: int| i <= k < i + len ==> is_ascii_digit(#[trigger] s[k]),
        i + len == s.len() || !is_ascii_digit(s[i + len]),
    ensures
        digits_end(s, i) == i + len,
    decreases len,
{
    if len > 0 {
        lemma_digits_end_of_run(s, i + 1, len - 1);
    }
}

pub proof fn lemma_digits_end_bounds(s: Seq<char>, i: int)
    requires
        0 <= i <= s.len(),
    ensures
        i <= digits_end(s, i) <= s.len(),
        forall|k: int| i <= k < digits_end(s, i) ==> is_ascii_digit(#[trigger] s[k]),
        digits_end(s, i) < s.len() ==> !is_ascii_digit(s[digits_end(s, i)]),
    decreases s.len() - i,
{
    if i < s.len() && is_ascii_digit(s[i]) {
        lemma_digits_end_bounds(s, i + 1);
    }
}

/// Reads the run of ASCII digits of `line` that starts at `start`: where it
/// ends, and its value when that fits in a `u32`.
pub fn scan_number(line: &Vec<char>, start: usize) -> (r: (usize, Option<u32>))
    requires
        start <= line.len(),
    ensures
        r.0 == digits_end(line@, start as int),
        start <= r.0 <= line.len(),
        r.1 == (if decimal_value(line@.subrange(start as int, r.0 as int)) <= u32::MAX {
            Some(decimal_value(line@.subrange(start as int, r.0 as int)) as u32)
        } else {
            None::<u32>
        }),
{
    proof {
        lemma_digits_end_bounds(line@, start as int);
    }
    let mut j = start;
    let mut acc: u64 = 0;
    let mut over = false;
    assert(line@.subrange(start as int, start as int) =~= Seq::<char>::empty());
    while j < line.len() && '0' <= line[j] && line[j] <= '9'
        invariant
            start <= j <= line.len(),
            digits_end(line@, start as int) == digits_end(line@, j as int),
            !over ==> acc == decimal_value(line@.subrange(start as int, j as int)) && acc
                <= u32::MAX,
            over ==> decimal_value(line@.subrange(start as int, j as int)) > u32::MAX,
        decreases line.len() - j,
    {
        let d = (line[j] as u32 - '0' as u32) as u64;
        assert(line@.subrange(start as int, j + 1).drop_last() =~= line@.subrange(
            start as int,
            j as int,
        ));
        assert(d == digit_value(line@[j as int]));
        if !over {
            acc = acc * 10 + d;
            if acc > u32::MAX as u64 {
                over = true;
            }
        }
        j += 1;
    }
    if over {
        (j, None)
    } else {
        (j, Some(acc as u32))
    }
}

// ---------------------------------------------------------------------
// Fields, separators, whitespace, numbers
// ---------------------------------------------------------------------

/// Index of the first `c` in `s` at or after `i` (`s.len()` when none).
pub open spec fn find_from(s: Seq<char>, i: int, c: char) -> int
    decreases s.len() - i,
{
    if i < 0 {
        find_from(s, 0, c)
    } else if i >= s.len() {
        s.len() as int
    } else if s[i] == c {
        i
    } else {
        find_from(s, i + 1, c)
    }
}

pub proof fn lemma_find_from_bounds(s: Seq<char>, i: int, c: char)
    requires
        0 <= i <= s.len(),
    ensures
        i <= find_from(s, i, c) <= s.len(),
        find_from(s, i, c) < s.len() ==> s[find_from(s, i, c)] == c,
        forall|k: int| i <= k < find_from(s, i, c) ==> s[k] != c,
    decreases s.len() - i,
{
    if i < s.len() && s[i] != c {
        lemma_find_from_bounds(s, i + 1, c);
    }
}

/// Position of the first `c` in `s` at or after `start`, if any.
pub fn find_char(s: &Vec<char>, start: usize, c: char) -> (r: Option<usize>)
    requires
        start <= s.len(),
    ensures
        match r {
            Some(k) => k == find_from(s@, start as int, c) && k < s.len(),
            None => find_from(s@, start as int, c) == s.len(),
        },
{
    proof {
        lemma_find_from_bounds(s@, start as int, c);
    }
    let mut k = start;
    while k < s.len()
        invariant
            start <= k <= s.len(),
            find_from(s@, start as int, c) == find_from(s@, k as int, c),
        decreases s.len() - k,
    {
        if s[k] == c {
            return Some(k);
        }
        k += 1;
    }
    None
}

/// State of a scan cutting `s` at every `sep`: the non-empty pieces found
/// so far and the piece under way.
pub open spec fn fields_scan(s: Seq<char>, sep: char) -> (Seq<Seq<char>>, Seq<char>)
    decreases s.len(),
{
    if s.len() == 0 {
        (Seq::empty(), Seq::empty())
    } else {
        let (done, cur) = fields_scan(s.drop_last(), sep);
        if s.last() == sep {
            if cur.len() > 0 {
                (done.push(cur), Seq::empty())
            } else {
                (done, Seq::empty())
            }
        } else {
            (done, cur.push(s.last()))
        }
    }
}

/// The non-empty pieces of `s` cut at every `sep`, in order.
pub open spec fn nonempty_fields(s: Seq<char>, sep: char) -> Seq<Seq<char>> {
    let (done, cur) = fields_scan(s, sep);
    if cur.len() > 0 {
        done.push(cur)
    } else {
        done
    }
}

/// Cuts `s` at every `sep`, keeping the non-empty pieces.
pub fn split_nonempty(s: &Vec<char>, sep: char) -> (r: Vec<Vec<char>>)
    ensures
        r.deep_view() == nonempty_fields(s@, sep),
{
    let mut done: Vec<Vec<char>> = Vec::new();
    let mut cur: Vec<char> = Vec::new();
    let mut i: usize = 0;
    while i < s.len()
        invariant
            0 <= i <= s.len(),
            (done.deep_view(), cur@) == fields_scan(s@.take(i as int), sep),
        decreases s.len() - i,
    {
        let c = s[i];
        assert(s@.take((i + 1) as int).drop_last() =~= s@.take(i as int));
        if c == sep {
            if cur.len() > 0 {
                let ghost before = done.deep_view();
                assert(cur.deep_view() =~= cur@);
                let ghost piece = cur@;
                done.push(cur);
                assert(done.deep_view() =~= before.push(piece));
            }
            cur = Vec::new();
        } else {
            cur.push(c);
        }
        i += 1;
    }
    assert(s@.take(s.len() as int) =~= s@);
    if cur.len() > 0 {
        let ghost before = done.deep_view();
        assert(cur.deep_view() =~= cur@);
        let ghost last = cur@;
        done.push(cur);
        assert(done.deep_view() =~= before.push(last));
    }
    done
}

/// `str::trim`'s notion of whitespace: the Unicode `White_Space` code
/// points.
pub open spec fn is_whitespace(c: char) -> bool {
    ||| '\t' <= c <= '\r'
    ||| c == ' '
    ||| c == '\u{85}'
    ||| c == '\u{a0}'
    ||| c == '\u{1680}'
    ||| '\u{2000}' <= c <= '\u{200a}'
    ||| c == '\u{2028}'
    ||| c == '\u{2029}'
    ||| c == '\u{202f}'
    ||| c == '\u{205f}'
    ||| c == '\u{3000}'
}

pub fn char_is_whitespace(c: char) -> (r: bool)
    ensures
        r == is_whitespace(c),
{
    ('\t' <= c && c <= '\r') || c == ' ' || c == '\u{85}' || c == '\u{a0}' || c == '\u{1680}' || (
    '\u{2000}' <= c && c <= '\u{200a}') || c == '\u{2028}' || c == '\u{2029}' || c == '\u{202f}'
        || c == '\u{205f}' || c == '\u{3000}'
}

/// Index of the first non-whitespace character at or after `i`.
pub open spec fn skip_whitespace(s: Seq<char>, i: int) -> int
    decreases s.len() - i,
{
    if i < 0 {
        skip_whitespace(s, 0)
    } else if i >= s.len() {
        s.len() as int
    } else if is_whitespace(s[i]) {
        skip_whitespace(s, i + 1)
    } else {
        i
    }
}

/// Index just past the last non-whitespace character before `j`, not
/// going below `lo`.
pub open spec fn back_whitespace(s: Seq<char>, lo: int, j: int) -> int
    decreases j - lo,
{
    if j <= lo {
        lo
    } else if is_whitespace(s[j - 1]) {
        back_whitespace(s, lo, j - 1)
    } else {
        j
    }
}

/// `s` without leading whitespace (`str::trim_start`).
pub open spec fn trim_start(s: Seq<char>) -> Seq<char> {
    after(s, skip_whitespace(s, 0))
}

/// `s` without leading and trailing whitespace (`str::trim`).
pub open spec fn trim(s: Seq<char>) -> Seq<char> {
    let a = skip_whitespace(s, 0);
    s.subrange(a, back_whitespace(s, a, s.len() as int))
}

pub proof fn lemma_skip_whitespace_bounds(s: Seq<char>, i: int)
    requires
        0 <= i <= s.len(),
    ensures
        i <= skip_whitespace(s, i) <= s.len(),
    decreases s.len() - i,
{
    if i < s.len() && is_whitespace(s[i]) {
        lemma_skip_whitespace_bounds(s, i + 1);
    }
}

/// Skipping whitespace in a suffix is skipping it in the whole from where
/// the suffix starts.
pub proof fn lemma_skip_whitespace_shift(s: Seq<char>, k: int)
    requires
        0 <= k <= s.len(),
    ensures
        trim_start(after(s, k)) == s.subrange(skip_whitespace(s, k), s.len() as int),
        k <= skip_whitespace(s, k) <= s.len(),
{
    lemma_skip_whitespace_bounds(s, k);
    lemma_skip_whitespace_offset(s, k, k);
    let t = after(s, k);
    assert(skip_whitespace(t, 0) + k == skip_whitespace(s, k));
    assert(after(t, skip_whitespace(t, 0)) =~= s.subrange(skip_whitespace(s, k), s.len() as int));
}

proof fn lemma_skip_whitespace_offset(s: Seq<char>, k: int, i: int)
    requires
        0 <= k <= i <= s.len(),
    ensures
        skip_whitespace(after(s, k), i - k) + k == skip_whitespace(s, i),
    decreases s.len() - i,
{
    let t = after(s, k);
    if i < s.len() && is_whitespace(s[i]) {
        assert(t[i - k] == s[i]);
        lemma_skip_whitespace_offset(s, k, i + 1);
    } else if i < s.len() {
        assert(t[i - k] == s[i]);
    }
}

pub proof fn lemma_back_whitespace_bounds(s: Seq<char>, lo: int, j: int)
    requires
        0 <= lo <= j <= s.len(),
    ensures
        lo <= back_whitespace(s, lo, j) <= j,
    decreases j - lo,
{
    if j > lo && is_whitespace(s[j - 1]) {
        lemma_back_whitespace_bounds(s, lo, j - 1);
    }
}

/// Where leading whitespace of `s` from `start` on ends.
pub fn skip_ws(s: &Vec<char>, start: usize) -> (r: usize)
    requires
        start <= s.len(),
    ensures
        r == skip_whitespace(s@, start as int),
        start <= r <= s.len(),
{
    proof {
        lemma_skip_whitespace_bounds(s@, start as int);
    }
    let mut i = start;
    while i < s.len() && char_is_whitespace(s[i])
        invariant
            start <= i <= s.len(),
            skip_whitespace(s@, start as int) == skip_whitespace(s@, i as int),
        decreases s.len() - i,
    {
        i += 1;
    }
    i
}

/// `s` with leading and trailing whitespace removed.
pub fn trimmed(s: &Vec<char>) -> (r: String)
    ensures
        r@ == trim(s@),
{
    let a = skip_ws(s, 0);
    let mut j = s.len();
    proof {
        lemma_back_whitespace_bounds(s@, a as int, j as int);
    }
    while j > a && char_is_whitespace(s[j - 1])
        invariant
            a <= j <= s.len(),
            back_whitespace(s@, a as int, s.len() as int) == back_whitespace(s@, a as int, j as int),
        decreases j - a,
    {
        j -= 1;
    }
    string_of(s, a, j)
}

/// What `u32::from_str` makes of `s`: an optional `+`, then one or more
/// ASCII digits whose value fits in a `u32`.
pub open spec fn parse_u32_spec(s: Seq<char>) -> Option<u32> {
    let d = if s.len() > 1 && s[0] == '+' {
        after(s, 1)
    } else {
        s
    };
    if s.len() == 0 || !all_digits(d) || decimal_value(d) > u32::MAX {
        None
    } else {
        Some(decimal_value(d) as u32)
    }
}

/// Reads `s[start..end]` as `u32::from_str` would.
pub fn parse_u32(s: &Vec<char>, start: usize, end: usize) -> (r: Option<u32>)
    requires
        start <= end <= s.len(),
    ensures
        r == parse_u32_spec(s@.subrange(start as int, end as int)),
{
    let ghost t = s@.subrange(start as int, end as int);
    if start == end {
        return None;
    }
    let first = if end - start > 1 && s[start] == '+' {
        start + 1
    } else {
        start
    };
    let ghost d = if t.len() > 1 && t[0] == '+' {
        after(t, 1)
    } else {
        t
    };
    assert(d =~= s@.subrange(first as int, end as int));
    let (stop, value) = scan_number(s, first);
    proof {
        lemma_digits_end_bounds(s@, first as int);
    }
    if stop < end {
        assert(!is_ascii_digit(d[stop - first]));
        return None;
    }
    // The digit run may go on past `end`: read only up to `end`.
    let mut j = first;
    let mut acc: u64 = 0;
    let mut over = false;
    assert(s@.subrange(first as int, first as int) =~= Seq::<char>::empty());
    while j < end
        invariant
            first <= j <= end <= s.len(),
            forall|k: int| first <= k < end ==> is_ascii_digit(#[trigger] s@[k]),
            !over ==> acc == decimal_value(s@.subrange(first as int, j as int)) && acc <= u32::MAX,
            over ==> decimal_value(s@.subrange(first as int, j as int)) > u32::MAX,
        decreases end - j,
    {
        let dv = (s[j] as u32 - '0' as u32) as u64;
        assert(s@.subrange(first as int, j + 1).drop_last() =~= s@.subrange(first as int, j as int));
        if !over {
            acc = acc * 10 + dv;
            if acc > u32::MAX as u64 {
                over = true;
            }
        }
        j += 1;
    }
    if over {
        None
    } else {
        Some(acc as u32)
    }
}

} // verus!
