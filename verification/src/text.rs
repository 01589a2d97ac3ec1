//! Character-level helpers shared by the parsers and the text the UI shows.

use vstd::prelude::*;
use vstd::string::*;

verus! {

/// Index of the first occurrence of `c` in `s`, or `s.len()` when there is none.
pub open spec fn find(s: Seq<char>, c: char) -> int
    decreases s.len(),
{
    if s.len() == 0 {
        0
    } else if s[0] == c {
        0
    } else {
        1 + find(s.drop_first(), c)
    }
}

/// `find` returns the least index holding `c`, or the length.
pub proof fn lemma_find(s: Seq<char>, c: char)
    ensures
        0 <= find(s, c) <= s.len(),
        forall|j: int| 0 <= j < find(s, c) ==> s[j] != c,
        find(s, c) < s.len() ==> s[find(s, c)] == c,
    decreases s.len(),
{
    if s.len() > 0 && s[0] != c {
        lemma_find(s.drop_first(), c);
        assert forall|j: int| 0 <= j < find(s, c) implies s[j] != c by {
            if j > 0 {
                assert(s[j] == s.drop_first()[j - 1]);
            }
        }
    }
}

/// An index with no `c` before it and `c` (or the end) at it is `find`.
pub proof fn lemma_find_is(s: Seq<char>, c: char, i: int)
    requires
        0 <= i <= s.len(),
        forall|j: int| 0 <= j < i ==> s[j] != c,
        i < s.len() ==> s[i] == c,
    ensures
        find(s, c) == i,
    decreases s.len(),
{
    if s.len() > 0 && s[0] != c {
        assert forall|j: int| 0 <= j < i - 1 implies s.drop_first()[j] != c by {
            assert(s.drop_first()[j] == s[j + 1]);
        }
        lemma_find_is(s.drop_first(), c, i - 1);
    }
}

/// The characters of a string slice, in order.
pub fn chars_of(s: &str) -> (v: Vec<char>)
    ensures
        v@ == s@,
{
    broadcast use vstd::string::group_string_axioms;

    let mut v: Vec<char> = Vec::new();
    for c in it: s.chars()
        invariant
            v@ == it.seq().take(it.index() as int),
            it.seq() == s@,
    {
        v.push(c);
    }
    v
}


/// The character for a decimal digit.
pub open spec fn digit_char(d: int) -> char {
    (48 + d) as char
}

/// Decimal text of a natural number, without leading zeros.
pub open spec fn dec(n: nat) -> Seq<char>
    decreases n,
{
    if n < 10 {
        seq![digit_char(n as int)]
    } else {
        dec(n / 10).push(digit_char((n % 10) as int))
    }
}

/// Decimal text of an integer: a minus sign before the digits of a negative one.
pub open spec fn dec_int(n: int) -> Seq<char> {
    if n < 0 {
        seq!['-'] + dec((-n) as nat)
    } else {
        dec(n as nat)
    }
}

/// `String::push`: the string gains `c` at its end.
#[verifier::external_body]
pub(crate) fn push_char(s: &mut String, c: char)
    ensures
        final(s)@ == old(s)@.push(c),
{
    s.push(c)
}

fn digit_to_char(d: u64) -> (c: char)
    requires
        d < 10,
    ensures
        c == digit_char(d as int),
{
    if d == 0 { '0' }
    else if d == 1 { '1' }
    else if d == 2 { '2' }
    else if d == 3 { '3' }
    else if d == 4 { '4' }
    else if d == 5 { '5' }
    else if d == 6 { '6' }
    else if d == 7 { '7' }
    else if d == 8 { '8' }
    else { '9' }
}

/// Appends the decimal digits of `n`.
pub fn push_decimal(s: &mut String, n: u64)
    ensures
        final(s)@ == old(s)@ + dec(n as nat),
    decreases n,
{
    if n >= 10 {
        push_decimal(s, n / 10);
    }
    let c = digit_to_char(n % 10);
    push_char(s, c);
    proof {
        if n < 10 {
            assert(dec(n as nat) == seq![digit_char(n as int)]);
        }
    }
}

/// Appends the decimal text of a signed integer.
pub fn push_signed_decimal(s: &mut String, n: i64)
    ensures
        final(s)@ == old(s)@ + dec_int(n as int),
{
    if n < 0 {
        push_char(s, '-');
        let m: u64 = if n == i64::MIN { 9223372036854775808u64 } else { (-n) as u64 };
        push_decimal(s, m);
        assert(s@ =~= old(s)@ + dec_int(n as int));
    } else {
        push_decimal(s, n as u64);
    }
}

/// Appends a string slice.
pub fn push_str(s: &mut String, t: &str)
    ensures
        final(s)@ == old(s)@ + t@,
{
    s.append(t);
}

/// Position of the first `c` at or after `from` in `v`, or `v.len()`.
pub fn find_from(v: &Vec<char>, from: usize, c: char) -> (r: usize)
    requires
        from <= v.len(),
    ensures
        from <= r <= v.len(),
        r == from + find(v@.skip(from as int), c),
{
    let mut i = from;
    while i < v.len() && v[i] != c
        invariant
            from <= i <= v.len(),
            forall|j: int| from <= j < i ==> v@[j] != c,
        decreases v.len() - i,
    {
        i = i + 1;
    }
    proof {
        let t = v@.skip(from as int);
        lemma_find_is(t, c, i - from);
    }
    i
}

/// `s` without one `'\r'` at its end.
pub open spec fn strip_cr(s: Seq<char>) -> Seq<char> {
    if s.len() > 0 && s.last() == '\r' {
        s.drop_last()
    } else {
        s
    }
}

/// The lines of a text, as `str::lines` yields them: split at `'\n'`, a `'\r'`
/// just before a `'\n'` dropped, and no empty line after a final `'\n'`.
pub open spec fn lines_of(s: Seq<char>) -> Seq<Seq<char>>
    decreases s.len(),
{
    if s.len() == 0 {
        seq![]
    } else {
        let i = find(s, '\n');
        if 0 <= i < s.len() {
            seq![strip_cr(s.take(i))] + lines_of(s.skip(i + 1))
        } else {
            seq![s]
        }
    }
}

/// The pieces of `s` between occurrences of `sep`, as `str::split` yields them.
pub open spec fn split_on(s: Seq<char>, sep: char) -> Seq<Seq<char>>
    decreases s.len(),
{
    let i = find(s, sep);
    if 0 <= i < s.len() {
        seq![s.take(i)] + split_on(s.skip(i + 1), sep)
    } else {
        seq![s]
    }
}

/// The pieces of a line between occurrences of `sep`, as slices of it.
pub fn split_by<'a>(line: &'a str, sep: char) -> (cols: Vec<&'a str>)
    ensures
        cols@.len() == split_on(line@, sep).len(),
        forall|k: int| 0 <= k < cols@.len() ==> #[trigger] cols@[k]@ == split_on(line@, sep)[k],
{
    let v = chars_of(line);
    let n = v.len();
    let mut cols: Vec<&'a str> = Vec::new();
    let ghost mut done: Seq<Seq<char>> = seq![];
    let mut pos: usize = 0;
    assert(line@.skip(0) == line@);
    loop
        invariant_except_break
            pos <= n,
            split_on(line@, sep) == done + split_on(line@.skip(pos as int), sep),
        invariant
            v@ == line@,
            n == v.len(),
            cols@.len() == done.len(),
            forall|k: int| 0 <= k < cols@.len() ==> #[trigger] cols@[k]@ == done[k],
        ensures
            split_on(line@, sep) == done,
        decreases n - pos,
    {
        let j = find_from(&v, pos, sep);
        let piece = line.substring_char(pos, j);
        let ghost rest = line@.skip(pos as int);
        cols.push(piece);
        if j == n {
            proof {
                assert(split_on(rest, sep) == seq![rest]);
                assert(piece@ == rest);
                done = done.push(piece@);
                assert(split_on(line@, sep) == done);
            }
            break;
        }
        proof {
            assert(rest.take(j - pos) == piece@);
            assert(rest.skip(j - pos + 1) == line@.skip(j + 1));
            assert(split_on(rest, sep) == seq![piece@] + split_on(line@.skip(j + 1), sep));
            assert(done + (seq![piece@] + split_on(line@.skip(j + 1), sep))
                == done.push(piece@) + split_on(line@.skip(j + 1), sep));
            done = done.push(piece@);
        }
        pos = j + 1;
    }
    cols
}


/// Whitespace as `char::is_whitespace` defines it (the Unicode `White_Space` property).
pub open spec fn is_whitespace(c: char) -> bool {
    let u = c as u32;
    u == 0x20 || (0x09 <= u <= 0x0d) || u == 0x85 || u == 0xa0 || u == 0x1680 || (0x2000 <= u
        <= 0x200a) || u == 0x2028 || u == 0x2029 || u == 0x202f || u == 0x205f || u == 0x3000
}

pub fn char_is_whitespace(c: char) -> (r: bool)
    ensures
        r == is_whitespace(c),
{
    let u = c as u32;
    u == 0x20 || (0x09 <= u && u <= 0x0d) || u == 0x85 || u == 0xa0 || u == 0x1680 || (0x2000 <= u
        && u <= 0x200a) || u == 0x2028 || u == 0x2029 || u == 0x202f || u == 0x205f || u == 0x3000
}

/// `s` without its leading whitespace.
pub open spec fn trim_start(s: Seq<char>) -> Seq<char>
    decreases s.len(),
{
    if s.len() > 0 && is_whitespace(s[0]) {
        trim_start(s.drop_first())
    } else {
        s
    }
}

/// `s` without its trailing whitespace.
pub open spec fn trim_end(s: Seq<char>) -> Seq<char>
    decreases s.len(),
{
    if s.len() > 0 && is_whitespace(s.last()) {
        trim_end(s.drop_last())
    } else {
        s
    }
}

/// `s` without whitespace at either end, as `str::trim` gives it.
pub open spec fn trim(s: Seq<char>) -> Seq<char> {
    trim_end(trim_start(s))
}

/// The bounds of `v` with the whitespace at both ends cut off.
pub fn trim_bounds(v: &Vec<char>) -> (r: (usize, usize))
    ensures
        r.0 <= r.1 <= v.len(),
        v@.subrange(r.0 as int, r.1 as int) == trim(v@),
{
    let n = v.len();
    let mut a: usize = 0;
    assert(v@.skip(0) == v@);
    while a < n && char_is_whitespace(v[a])
        invariant
            a <= n == v.len(),
            trim_start(v@) == trim_start(v@.skip(a as int)),
        decreases n - a,
    {
        assert(v@.skip(a as int).drop_first() == v@.skip(a + 1));
        a = a + 1;
    }
    assert(trim_start(v@) == v@.skip(a as int));
    let mut b: usize = n;
    assert(v@.subrange(a as int, n as int) == v@.skip(a as int));
    while b > a && char_is_whitespace(v[b - 1])
        invariant
            a <= b <= n == v.len(),
            trim(v@) == trim_end(v@.subrange(a as int, b as int)),
        decreases b,
    {
        assert(v@.subrange(a as int, b as int).drop_last() == v@.subrange(a as int, b - 1));
        b = b - 1;
    }
    (a, b)
}

/// Whether `p` occurs in `s` as a contiguous piece.
pub open spec fn contains_seq(s: Seq<char>, p: Seq<char>) -> bool {
    exists|i: int| 0 <= i <= s.len() - p.len() && #[trigger] s.subrange(i, i + p.len()) == p
}

/// Whether the two characters `c0 c1` occur next to each other in `v[lo..hi]`.
pub fn contains_pair(v: &Vec<char>, lo: usize, hi: usize, c0: char, c1: char) -> (r: bool)
    requires
        lo <= hi <= v.len(),
    ensures
        r == contains_seq(v@.subrange(lo as int, hi as int), seq![c0, c1]),
{
    let ghost t = v@.subrange(lo as int, hi as int);
    let mut i = lo;
    while hi - i > 1
        invariant
            lo <= i <= hi,
            hi <= v.len(),
            t == v@.subrange(lo as int, hi as int),
            forall|j: int| 0 <= j < i - lo && j + 1 < hi - lo ==> #[trigger] t.subrange(j, j + 2) != seq![c0, c1],
        decreases hi - i,
    {
        if v[i] == c0 && v[i + 1] == c1 {
            assert(t.subrange(i - lo, i - lo + 2) =~= seq![c0, c1]);
            assert(0 <= i - lo <= t.len() - 2);
            return true;
        }
        assert(t.subrange(i - lo, i - lo + 2) != seq![c0, c1]) by {
            assert(t.subrange(i - lo, i - lo + 2)[0] == v@[i as int]);
            assert(t.subrange(i - lo, i - lo + 2)[1] == v@[i + 1]);
        }
        i = i + 1;
    }
    assert forall|j: int| 0 <= j <= t.len() - 2 implies #[trigger] t.subrange(j, j + 2) != seq![c0, c1] by {}
    false
}

/// Whether `v[lo..hi]` holds exactly the characters of `w`.
pub fn range_equals(v: &Vec<char>, lo: usize, hi: usize, w: &Vec<char>) -> (r: bool)
    requires
        lo <= hi <= v.len(),
    ensures
        r == (v@.subrange(lo as int, hi as int) == w@),
{
    if hi - lo != w.len() {
        return false;
    }
    let mut i: usize = 0;
    while i < w.len()
        invariant
            hi - lo == w.len(),
            lo <= hi <= v.len(),
            forall|j: int| 0 <= j < i ==> v@[lo + j] == w@[j],
        decreases w.len() - i,
    {
        if v[lo + i] != w[i] {
            assert(v@.subrange(lo as int, hi as int)[i as int] != w@[i as int]);
            return false;
        }
        i = i + 1;
    }
    assert(v@.subrange(lo as int, hi as int) =~= w@);
    true
}

/// Whether `c` is one of the ASCII digits `0`..`9`.
pub open spec fn is_digit(c: char) -> bool {
    '0' <= c <= '9'
}

/// The number that a run of decimal digits spells.
pub open spec fn digits_value(s: Seq<char>) -> int
    decreases s.len(),
{
    if s.len() == 0 {
        0
    } else {
        digits_value(s.drop_last()) * 10 + (s.last() as int - 48)
    }
}

/// Ten to the power `n`.
pub open spec fn pow10(n: nat) -> int
    decreases n,
{
    if n == 0 {
        1
    } else {
        10 * pow10((n - 1) as nat)
    }
}

pub proof fn lemma_pow10_positive(n: nat)
    ensures
        pow10(n) >= 1,
    decreases n,
{
    if n > 0 {
        lemma_pow10_positive((n - 1) as nat);
    }
}

/// A run of `n` digits spells a number below `10^n`.
pub proof fn lemma_digits_value_bound(s: Seq<char>)
    requires
        forall|i: int| 0 <= i < s.len() ==> is_digit(#[trigger] s[i]),
    ensures
        0 <= digits_value(s) < pow10(s.len()),
    decreases s.len(),
{
    if s.len() > 0 {
        lemma_digits_value_bound(s.drop_last());
        assert(is_digit(s[s.len() - 1]));
    }
}

/// The leading digit of a run weighs `10^(n-1)`.
pub proof fn lemma_digits_value_first(s: Seq<char>)
    requires
        s.len() > 0,
        forall|i: int| 0 <= i < s.len() ==> is_digit(#[trigger] s[i]),
    ensures
        digits_value(s) == (s[0] as int - 48) * pow10((s.len() - 1) as nat) + digits_value(
            s.drop_first(),
        ),
    decreases s.len(),
{
    if s.len() == 1 {
        assert(s.drop_last().len() == 0);
        assert(s.drop_first().len() == 0);
        assert(digits_value(s.drop_last()) == 0);
        assert(digits_value(s.drop_first()) == 0);
        assert(s.last() == s[0]);
        assert(pow10(0) == 1);
    } else {
        let t = s.drop_last();
        lemma_digits_value_first(t);
        assert(s.drop_first().drop_last() == t.drop_first());
        assert(s.drop_first().last() == s.last());
        assert(t[0] == s[0]);
        let d0 = s[0] as int - 48;
        let p = pow10((s.len() - 2) as nat);
        assert(pow10((s.len() - 1) as nat) == 10 * p);
        assert(digits_value(s) == digits_value(t) * 10 + (s.last() as int - 48));
        assert(digits_value(s.drop_first()) == digits_value(t.drop_first()) * 10 + (s.last() as int
            - 48));
        assert((d0 * p) * 10 == d0 * (10 * p)) by (nonlinear_arith);
    }
}


/// The text `str::to_lowercase` gives for `s` (Unicode lowercase mapping).
pub uninterp spec fn lowercase(s: Seq<char>) -> Seq<char>;

/// `str::to_lowercase`: the lowercase form of `s`, named by `lowercase`; it
/// maps each character, so the empty text stays empty.
#[verifier::external_body]
pub(crate) fn to_lowercase(s: &str) -> (r: String)
    ensures
        r@ == lowercase(s@),
        s@.len() == 0 ==> r@.len() == 0,
{
    s.to_lowercase()
}

/// Whether `needle` occurs in `hay`, as `str::contains` answers it.
pub fn contains_str(hay: &str, needle: &str) -> (r: bool)
    ensures
        r == contains_seq(hay@, needle@),
{
    let h = chars_of(hay);
    let p = chars_of(needle);
    if p.len() > h.len() {
        return false;
    }
    let last = h.len() - p.len();
    let mut i: usize = 0;
    while i <= last
        invariant
            i <= last + 1,
            h@ == hay@,
            p@ == needle@,
            last == h.len() - p.len(),
            forall|j: int| 0 <= j < i ==> #[trigger] hay@.subrange(j, j + needle@.len()) != needle@,
        decreases last + 1 - i,
    {
        if range_equals(&h, i, i + p.len(), &p) {
            return true;
        }
        if i == last {
            assert forall|j: int| 0 <= j <= hay@.len() - needle@.len() implies #[trigger] hay@.subrange(
                j,
                j + needle@.len(),
            ) != needle@ by {
                if j == i {
                    assert(h@.subrange(i as int, i + p.len()) != p@);
                }
            }
            return false;
        }
        i = i + 1;
    }
    false
}

/// `a`, two spaces, then `b`: a list row of two columns.
pub open spec fn two_columns(a: Seq<char>, b: Seq<char>) -> Seq<char> {
    a + "  "@ + b
}

/// Joins two texts with two spaces between them.
pub fn join_two_columns(a: &str, b: &str) -> (r: String)
    ensures
        r@ == two_columns(a@, b@),
{
    let mut s = String::new();
    push_str(&mut s, a);
    push_str(&mut s, "  ");
    push_str(&mut s, b);
    assert(s@ =~= two_columns(a@, b@));
    s
}


/// The lines of a text, as slices of it, as `str::lines` yields them.
pub fn text_lines<'a>(input: &'a str) -> (r: Vec<&'a str>)
    ensures
        r@.len() == lines_of(input@).len(),
        forall|k: int| 0 <= k < r@.len() ==> #[trigger] r@[k]@ == lines_of(input@)[k],
{
    let v = chars_of(input);
    let n = v.len();
    let mut out: Vec<&'a str> = Vec::new();
    let ghost mut done: Seq<Seq<char>> = seq![];
    let mut pos: usize = 0;
    assert(input@.skip(0) == input@);
    loop
        invariant_except_break
            pos <= n,
            lines_of(input@) == done + lines_of(input@.skip(pos as int)),
        invariant
            v@ == input@,
            n == v.len(),
            out@.len() == done.len(),
            forall|k: int| 0 <= k < out@.len() ==> #[trigger] out@[k]@ == done[k],
        ensures
            lines_of(input@) == done,
        decreases n - pos,
    {
        let ghost rest = input@.skip(pos as int);
        if pos == n {
            assert(rest.len() == 0);
            assert(done + Seq::<Seq<char>>::empty() == done);
            break;
        }
        let j = find_from(&v, pos, '\n');
        assert(v@.skip(pos as int) == rest);
        let end = if j < n && j > pos && v[j - 1] == '\r' { j - 1 } else { j };
        let line = input.substring_char(pos, end);
        proof {
            lemma_find(rest, '\n');
            if j < n {
                assert(rest.take(j - pos) == input@.subrange(pos as int, j as int));
                assert(strip_cr(rest.take(j - pos)) == line@);
                assert(rest.skip(j - pos + 1) == input@.skip(j + 1));
                assert(lines_of(rest) == seq![line@] + lines_of(input@.skip(j + 1)));
                assert(done + (seq![line@] + lines_of(input@.skip(j + 1))) == done.push(line@)
                    + lines_of(input@.skip(j + 1)));
            } else {
                assert(line@ == rest);
                assert(lines_of(rest) == seq![rest]);
            }
            done = done.push(line@);
        }
        out.push(line);
        if j == n {
            break;
        }
        pos = j + 1;
    }
    out
}


/// `s` with the whitespace at both ends cut off, as a slice of it.
pub fn trimmed(s: &str) -> (r: &str)
    ensures
        r@ == trim(s@),
{
    let v = chars_of(s);
    let (a, b) = trim_bounds(&v);
    s.substring_char(a, b)
}

/// `s` with the whitespace at its end cut off, as a slice of it.
pub fn trimmed_end(s: &str) -> (r: &str)
    ensures
        r@ == trim_end(s@),
{
    let v = chars_of(s);
    let n = v.len();
    let mut b: usize = n;
    assert(v@.subrange(0, n as int) == v@);
    while b > 0 && char_is_whitespace(v[b - 1])
        invariant
            b <= n == v.len(),
            v@ == s@,
            trim_end(s@) == trim_end(v@.subrange(0, b as int)),
        decreases b,
    {
        assert(v@.subrange(0, b as int).drop_last() == v@.subrange(0, b - 1));
        b = b - 1;
    }
    s.substring_char(0, b)
}

/// Whether two strings hold the same characters.
pub fn str_eq(s: &str, t: &str) -> (r: bool)
    ensures
        r == (s@ == t@),
{
    let v = chars_of(s);
    let w = chars_of(t);
    assert(v@.subrange(0, v@.len() as int) == v@);
    range_equals(&v, 0, v.len(), &w)
}

/// Index of the first whitespace character of `s`, or `s.len()`.
pub open spec fn find_whitespace(s: Seq<char>) -> int
    decreases s.len(),
{
    if s.len() == 0 {
        0
    } else if is_whitespace(s[0]) {
        0
    } else {
        1 + find_whitespace(s.drop_first())
    }
}

pub proof fn lemma_find_whitespace_is(s: Seq<char>, i: int)
    requires
        0 <= i <= s.len(),
        forall|j: int| 0 <= j < i ==> !is_whitespace(s[j]),
        i < s.len() ==> is_whitespace(s[i]),
    ensures
        find_whitespace(s) == i,
    decreases s.len(),
{
    if s.len() > 0 && !is_whitespace(s[0]) {
        assert forall|j: int| 0 <= j < i - 1 implies !is_whitespace(s.drop_first()[j]) by {
            assert(s.drop_first()[j] == s[j + 1]);
        }
        lemma_find_whitespace_is(s.drop_first(), i - 1);
    }
}

pub proof fn lemma_find_whitespace_bounds(s: Seq<char>)
    ensures
        0 <= find_whitespace(s) <= s.len(),
        s.len() > 0 && !is_whitespace(s[0]) ==> find_whitespace(s) >= 1,
    decreases s.len(),
{
    if s.len() > 0 && !is_whitespace(s[0]) {
        lemma_find_whitespace_bounds(s.drop_first());
    }
}

pub proof fn lemma_trim_start(s: Seq<char>)
    ensures
        trim_start(s).len() <= s.len(),
        trim_start(s).len() > 0 ==> !is_whitespace(trim_start(s)[0]),
        trim_start(s) == s.skip(s.len() - trim_start(s).len()),
        forall|j: int| 0 <= j < s.len() - trim_start(s).len() ==> is_whitespace(#[trigger] s[j]),
    decreases s.len(),
{
    if s.len() > 0 && is_whitespace(s[0]) {
        lemma_trim_start(s.drop_first());
        let t = trim_start(s.drop_first());
        assert(s.drop_first().skip(s.drop_first().len() - t.len()) == s.skip(s.len() - t.len()));
        assert forall|j: int| 0 <= j < s.len() - t.len() implies is_whitespace(#[trigger] s[j]) by {
            if j > 0 {
                assert(s[j] == s.drop_first()[j - 1]);
            }
        }
    } else {
        assert(s.skip(0) == s);
    }
}

/// The runs of non-whitespace characters of `s`, as `str::split_whitespace` yields them.
pub open spec fn words(s: Seq<char>) -> Seq<Seq<char>>
    decreases s.len(),
{
    let t = trim_start(s);
    if t.len() == 0 {
        seq![]
    } else {
        let e = find_whitespace(t);
        proof {
            lemma_trim_start(s);
            lemma_find_whitespace_bounds(t);
        }
        seq![t.take(e)] + words(t.skip(e))
    }
}

/// The runs of non-whitespace characters of `s`, as new strings.
pub fn split_whitespace(s: &str) -> (r: Vec<String>)
    ensures
        r@.map_values(|w: String| w@) == words(s@),
{
    let v = chars_of(s);
    let n = v.len();
    let mut out: Vec<String> = Vec::new();
    let ghost mut done: Seq<Seq<char>> = seq![];
    let mut pos: usize = 0;
    assert(s@.skip(0) == s@);
    loop
        invariant_except_break
            pos <= n,
            words(s@) == done + words(s@.skip(pos as int)),
        invariant
            v@ == s@,
            n == v.len(),
            out@.map_values(|w: String| w@) == done,
        ensures
            words(s@) == done,
        decreases n - pos,
    {
        let ghost rest = s@.skip(pos as int);
        let mut a = pos;
        while a < n && char_is_whitespace(v[a])
            invariant
                pos <= a <= n == v.len(),
                v@ == s@,
                rest == s@.skip(pos as int),
                forall|j: int| pos <= j < a ==> is_whitespace(v@[j]),
            decreases n - a,
        {
            a = a + 1;
        }
        proof {
            lemma_trim_start(rest);
            let k = rest.len() - trim_start(rest).len();
            // the number of leading whitespace characters of `rest` is `a - pos`
            assert(forall|j: int| 0 <= j < a - pos ==> is_whitespace(#[trigger] rest[j])) by {
                assert forall|j: int| 0 <= j < a - pos implies is_whitespace(#[trigger] rest[j]) by {
                    assert(rest[j] == v@[pos + j]);
                }
            }
            if a - pos < k {
                assert(rest[a - pos] == v@[a as int]);
                assert(is_whitespace(rest[a - pos]));
            }
            if k < a - pos {
                assert(trim_start(rest)[0] == rest[k]);
            }
            assert(k == a - pos);
            assert(rest.skip(k) == s@.skip(a as int));
        }
        if a == n {
            proof {
                assert(words(rest) == Seq::<Seq<char>>::empty());
                assert(done + Seq::<Seq<char>>::empty() == done);
            }
            break;
        }
        let mut b = a;
        while b < n && !char_is_whitespace(v[b])
            invariant
                a <= b <= n == v.len(),
                v@ == s@,
                forall|j: int| a <= j < b ==> !is_whitespace(v@[j]),
            decreases n - b,
        {
            b = b + 1;
        }
        let word = s.substring_char(a, b).to_owned();
        proof {
            let t = s@.skip(a as int);
            assert forall|j: int| 0 <= j < b - a implies !is_whitespace(t[j]) by {
                assert(t[j] == v@[a + j]);
            }
            if b < n {
                assert(t[b - a] == v@[b as int]);
            }
            lemma_find_whitespace_is(t, b - a);
            assert(t.take(b - a) == word@);
            assert(t.skip(b - a) == s@.skip(b as int));
            assert(words(rest) == seq![word@] + words(s@.skip(b as int)));
            assert(done + (seq![word@] + words(s@.skip(b as int))) == done.push(word@) + words(
                s@.skip(b as int),
            ));
            done = done.push(word@);
        }
        let ghost before = out@.map_values(|w: String| w@);
        out.push(word);
        assert(out@.map_values(|w: String| w@) =~= before.push(word@));
        pos = b;
    }
    out
}

} // verus!
