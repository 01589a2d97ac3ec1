//! Parsers for the machine-readable output of the `flatpak` command line.

use vstd::prelude::*;
use vstd::string::*;
use crate::flatpak_service::error::{ErrorView, FlatpakError};
use crate::flatpak_service::types::{SearchHit, SearchHitView, 
    AppDetail, AppRef, AppRefView, HistoryEntry, HistoryEntryView, Installation, Kind, Permission,
    PermissionView, Remote, RemoteView, installation_name,
};
use crate::time::{parse_time, parsed_time};
use crate::text::{
    chars_of, contains_pair, dec, is_whitespace, lines_of, trim_start, push_decimal, split_on, split_by, strip_cr, text_lines, trim_end, trimmed, trimmed_end, str_eq, words, split_whitespace, contains_seq, digits_value, find, find_from, is_digit, lemma_digits_value_bound,
    lemma_digits_value_first, lemma_find, lemma_find_is, lemma_pow10_positive, pow10, range_equals, trim, trim_bounds,
};

verus! {

// ---------------------------------------------------------------- installation

/// The meaning of an installation column: `system` or `user`, else an error naming it.
pub open spec fn spec_parse_installation(s: Seq<char>) -> core::result::Result<
    Installation,
    ErrorView,
> {
    if s == seq!['s', 'y', 's', 't', 'e', 'm'] {
        Ok(Installation::System)
    } else if s == seq!['u', 's', 'e', 'r'] {
        Ok(Installation::User)
    } else {
        Err(ErrorView::Parse { line: s, msg: "expected 'system' or 'user'"@ })
    }
}

/// The view of a parse result: values as they are, errors by their view.
pub open spec fn result_view<T>(r: core::result::Result<T, FlatpakError>) -> core::result::Result<
    T,
    ErrorView,
> {
    match r {
        Ok(v) => Ok(v),
        Err(e) => Err(e@),
    }
}

/// Reads an installation column.
pub fn parse_installation(s: &str) -> (r: crate::flatpak_service::Result<Installation>)
    ensures
        result_view(r) == spec_parse_installation(s@),
{
    let v = chars_of(s);
    let system = chars_of("system");
    let user = chars_of("user");
    proof {
        reveal_strlit("system");
        reveal_strlit("user");
        assert(system@ == seq!['s', 'y', 's', 't', 'e', 'm']);
        assert(user@ == seq!['u', 's', 'e', 'r']);
        assert(v@.subrange(0, v@.len() as int) == v@);
    }
    if range_equals(&v, 0, v.len(), &system) {
        Ok(Installation::System)
    } else if range_equals(&v, 0, v.len(), &user) {
        Ok(Installation::User)
    } else {
        Err(FlatpakError::Parse { line: s.to_owned(), msg: String::from_str("expected 'system' or 'user'") })
    }
}

// ---------------------------------------------------------------- sizes

/// Characters that may belong to a number: ASCII digits and the decimal point.
pub open spec fn is_number_char(c: char) -> bool {
    is_digit(c) || c == '.'
}

/// The digits and decimal points of `s`, in order.
pub open spec fn keep_numeric(s: Seq<char>) -> Seq<char>
    decreases s.len(),
{
    if s.len() == 0 {
        seq![]
    } else if is_number_char(s.last()) {
        keep_numeric(s.drop_last()).push(s.last())
    } else {
        keep_numeric(s.drop_last())
    }
}

proof fn lemma_keep_numeric(s: Seq<char>)
    ensures
        forall|i: int| 0 <= i < keep_numeric(s).len() ==> is_number_char(#[trigger] keep_numeric(s)[i]),
    decreases s.len(),
{
    if s.len() > 0 {
        lemma_keep_numeric(s.drop_last());
        let r = keep_numeric(s.drop_last());
        if is_number_char(s.last()) {
            assert forall|i: int| 0 <= i < keep_numeric(s).len() implies is_number_char(
                #[trigger] keep_numeric(s)[i],
            ) by {
                if i < r.len() {
                    assert(keep_numeric(s)[i] == r[i]);
                }
            }
        }
    }
}

/// The unit multiplier a size text names: GB, MB, kB, or bytes.
pub open spec fn size_factor(t: Seq<char>) -> int {
    if contains_seq(t, seq!['G', 'B']) {
        1073741824
    } else if contains_seq(t, seq!['M', 'B']) {
        1048576
    } else if contains_seq(t, seq!['k', 'B']) {
        1024
    } else {
        1
    }
}

/// The part of a number text before its decimal point.
pub open spec fn integer_digits(n: Seq<char>) -> Seq<char> {
    n.take(find(n, '.'))
}

/// The part of a number text after its first decimal point (empty without one).
pub open spec fn fraction_digits(n: Seq<char>) -> Seq<char> {
    if find(n, '.') < n.len() {
        n.skip(find(n, '.') + 1)
    } else {
        seq![]
    }
}

/// A size text as `flatpak list` prints it ("388.0 MB", "0 bytes") in bytes:
/// the decimal number its digits and point spell, times the unit it names,
/// rounded down and capped at `u64::MAX`. `0 bytes` and blank texts are 0; a
/// text whose digits and points do not form a number (no digit, or a second
/// point) is an error that names the text.
pub open spec fn spec_parse_size(s: Seq<char>) -> core::result::Result<u64, ErrorView> {
    let t = trim(s);
    if t == "0 bytes"@ || t.len() == 0 {
        Ok(0)
    } else {
        let n = keep_numeric(t);
        let ip = integer_digits(n);
        let fp = fraction_digits(n);
        if find(fp, '.') < fp.len() || ip.len() + fp.len() == 0 {
            Err(ErrorView::Parse { line: s, msg: "cannot parse size"@ })
        } else {
            let p = pow10(fp.len());
            let amount = (digits_value(ip) * p + digits_value(fp)) * size_factor(t) / p;
            Ok(
                if amount > u64::MAX {
                    u64::MAX
                } else {
                    amount as u64
                },
            )
        }
    }
}

proof fn lemma_amount(i: int, f: int, p: int, k: int)
    requires
        p > 0,
        i >= 0,
        f >= 0,
        k >= 1,
    ensures
        (i * p + f) * k / p == i * k + (f * k) / p,
        (f * k) / p >= 0,
{
    assert((i * p + f) * k == f * k + (i * k) * p) by (nonlinear_arith);
    vstd::arithmetic::div_mod::lemma_hoist_over_denominator(f * k, i * k, p as nat);
    assert(f * k >= 0) by (nonlinear_arith)
        requires
            f >= 0,
            k >= 1,
    ;
    vstd::arithmetic::div_mod::lemma_div_pos_is_pos(f * k, p);
}

/// One step of the fraction: prefixing digit `d` to a run worth `x` of `l` digits.
proof fn lemma_fraction_step(d: int, x: int, l: nat, k: int)
    requires
        0 <= d < 10,
        0 <= x,
        k >= 1,
    ensures
        (d * k + (x * k) / pow10(l)) / 10 == ((d * pow10(l) + x) * k) / pow10(l + 1),
{
    let p = pow10(l);
    lemma_pow10_positive(l);
    assert((d * p + x) * k == x * k + (d * k) * p) by (nonlinear_arith);
    assert(x * k >= 0) by (nonlinear_arith)
        requires
            x >= 0,
            k >= 1,
    ;
    vstd::arithmetic::div_mod::lemma_hoist_over_denominator(x * k, d * k, p as nat);
    assert(d * p + x >= 0) by (nonlinear_arith)
        requires
            d >= 0,
            p >= 1,
            x >= 0,
    ;
    assert((d * p + x) * k >= 0) by (nonlinear_arith)
        requires
            d * p + x >= 0,
            k >= 1,
    ;
    vstd::arithmetic::div_mod::lemma_div_denominator((d * p + x) * k, p, 10);
    assert(pow10(l + 1) == 10 * p);
    assert(p * 10 == 10 * p);
}

proof fn lemma_quotient_below(x: int, p: int, k: int)
    requires
        0 <= x < p,
        k >= 1,
    ensures
        (x * k) / p < k,
{
    assert(x * k < p * k) by (nonlinear_arith)
        requires
            0 <= x < p,
            k >= 1,
    ;
    assert(x * k >= 0) by (nonlinear_arith)
        requires
            x >= 0,
            k >= 1,
    ;
    vstd::arithmetic::div_mod::lemma_div_is_ordered(x * k, p * k - 1, p);
    assert((p * k - 1) / p < k) by (nonlinear_arith)
        requires
            p >= 1,
            k >= 1,
    ;
}

/// The number a size text spells, as a fraction: numerator and denominator
/// (a power of ten); zero for `0 bytes` and blank texts.
pub open spec fn size_fraction(s: Seq<char>) -> (int, int) {
    let t = trim(s);
    if t == "0 bytes"@ || t.len() == 0 {
        (0, 1)
    } else {
        let n = keep_numeric(t);
        let fp = fraction_digits(n);
        (digits_value(integer_digits(n)) * pow10(fp.len()) + digits_value(fp), pow10(fp.len()))
    }
}

proof fn lemma_floor_div_monotone(a: int, p: int, b: int, q: int)
    requires
        0 <= a,
        0 <= b,
        p > 0,
        q > 0,
        a * q <= b * p,
    ensures
        a / p <= b / q,
{
    let x = a / p;
    let y = b / q;
    vstd::arithmetic::div_mod::lemma_fundamental_div_mod(a, p);
    vstd::arithmetic::div_mod::lemma_fundamental_div_mod(b, q);
    vstd::arithmetic::div_mod::lemma_mod_pos_bound(a, p);
    vstd::arithmetic::div_mod::lemma_mod_pos_bound(b, q);
    let ra = a % p;
    let rb = b % q;
    assert(p * x <= a);
    assert(p * x * q <= a * q) by (nonlinear_arith)
        requires
            p * x <= a,
            q > 0,
    ;
    assert(x * q <= b) by (nonlinear_arith)
        requires
            p * x * q <= b * p,
            p > 0,
    ;
    assert(x <= y) by (nonlinear_arith)
        requires
            x * q <= b,
            b == q * y + rb,
            rb < q,
            q > 0,
    ;
}

proof fn lemma_size_fraction(s: Seq<char>)
    requires
        spec_parse_size(s) is Ok,
    ensures
        size_fraction(s).0 >= 0,
        size_fraction(s).1 >= 1,
        size_factor(trim(s)) >= 1,
        spec_parse_size(s) == Ok::<u64, ErrorView>(
            if size_fraction(s).0 * size_factor(trim(s)) / size_fraction(s).1 > u64::MAX {
                u64::MAX
            } else {
                (size_fraction(s).0 * size_factor(trim(s)) / size_fraction(s).1) as u64
            },
        ),
{
    let t = trim(s);
    let k = size_factor(t);
    if t == "0 bytes"@ || t.len() == 0 {
        assert(0 * k == 0);
    } else {
        let n = keep_numeric(t);
        let ip = integer_digits(n);
        let fp = fraction_digits(n);
        lemma_keep_numeric(t);
        lemma_find(n, '.');
        assert forall|i: int| 0 <= i < ip.len() implies is_digit(#[trigger] ip[i]) by {
            assert(ip[i] == n[i]);
            assert(is_number_char(n[i]));
        }
        lemma_digits_value_bound(ip);
        lemma_find(fp, '.');
        if find(n, '.') < n.len() {
            assert forall|i: int| 0 <= i < fp.len() implies is_digit(#[trigger] fp[i]) by {
                assert(fp[i] == n[find(n, '.') + 1 + i]);
                assert(is_number_char(n[find(n, '.') + 1 + i]));
            }
        }
        lemma_digits_value_bound(fp);
        lemma_pow10_positive(fp.len());
        let p = pow10(fp.len());
        let iv = digits_value(ip);
        assert(iv * p >= 0) by (nonlinear_arith)
            requires
                iv >= 0,
                p >= 1,
        ;
    }
}

/// A size reads as no more bytes than another when the number it spells,
/// times its unit, is no larger: sizes grow with the number and with the unit
/// (bytes, kB, MB, GB), and a size too large for a `u64` reads as `u64::MAX`
/// rather than wrapping. The numbers are compared as fractions, by cross
/// multiplication.
pub proof fn law_size_monotone(s1: Seq<char>, s2: Seq<char>)
    requires
        spec_parse_size(s1) is Ok,
        spec_parse_size(s2) is Ok,
        size_fraction(s1).0 * size_factor(trim(s1)) * size_fraction(s2).1 <= size_fraction(s2).0
            * size_factor(trim(s2)) * size_fraction(s1).1,
    ensures
        spec_parse_size(s1)->Ok_0 <= spec_parse_size(s2)->Ok_0,
{
    lemma_size_fraction(s1);
    lemma_size_fraction(s2);
    let (n1, d1) = size_fraction(s1);
    let (n2, d2) = size_fraction(s2);
    let k1 = size_factor(trim(s1));
    let k2 = size_factor(trim(s2));
    assert(n1 * k1 >= 0 && n2 * k2 >= 0) by (nonlinear_arith)
        requires
            n1 >= 0,
            n2 >= 0,
            k1 >= 1,
            k2 >= 1,
    ;
    lemma_floor_div_monotone(n1 * k1, d1, n2 * k2, d2);
}

/// A number as sizes write it: ASCII digits and at most one decimal point,
/// with at least one digit.
pub open spec fn plain_number(x: Seq<char>) -> bool {
    &&& forall|i: int| 0 <= i < x.len() ==> is_number_char(#[trigger] x[i])
    &&& exists|i: int| 0 <= i < x.len() && is_digit(#[trigger] x[i])
    &&& forall|i: int, j: int| 0 <= i < j < x.len() && #[trigger] x[i] == '.' ==> #[trigger] x[j] != '.'
}

/// The units sizes are written in: bytes, kB, MB and GB.
pub open spec fn is_size_unit(u: Seq<char>) -> bool {
    ||| u == seq!['b', 'y', 't', 'e', 's']
    ||| u == seq!['k', 'B']
    ||| u == seq!['M', 'B']
    ||| u == seq!['G', 'B']
}

/// The number of bytes a unit stands for.
pub open spec fn unit_factor(u: Seq<char>) -> int {
    if u == seq!['G', 'B'] {
        1073741824
    } else if u == seq!['M', 'B'] {
        1048576
    } else if u == seq!['k', 'B'] {
        1024
    } else {
        1
    }
}

/// A size text: a number, a space, a unit.
pub open spec fn sized(x: Seq<char>, u: Seq<char>) -> Seq<char> {
    x + seq![' '] + u
}

/// The value of a plain number as a fraction: numerator and denominator (a power of ten).
pub open spec fn decimal_fraction(x: Seq<char>) -> (int, int) {
    let fp = fraction_digits(x);
    (digits_value(integer_digits(x)) * pow10(fp.len()) + digits_value(fp), pow10(fp.len()))
}

/// Whether the decimal value of `x` is at most that of `y`.
pub open spec fn decimal_le(x: Seq<char>, y: Seq<char>) -> bool {
    decimal_fraction(x).0 * decimal_fraction(y).1 <= decimal_fraction(y).0 * decimal_fraction(x).1
}

/// `n` as a `u64`, or `u64::MAX` when it is larger.
pub open spec fn capped_u64(n: int) -> u64 {
    if n > u64::MAX {
        u64::MAX
    } else {
        n as u64
    }
}

proof fn lemma_keep_numeric_append(a: Seq<char>, b: Seq<char>)
    ensures
        keep_numeric(a + b) == keep_numeric(a) + keep_numeric(b),
    decreases b.len(),
{
    if b.len() == 0 {
        assert(a + b =~= a);
        assert(keep_numeric(a) + keep_numeric(b) =~= keep_numeric(a));
    } else {
        lemma_keep_numeric_append(a, b.drop_last());
        assert((a + b).drop_last() =~= a + b.drop_last());
        assert((a + b).last() == b.last());
        if is_number_char(b.last()) {
            assert(keep_numeric(a) + keep_numeric(b.drop_last()).push(b.last()) =~= (keep_numeric(a)
                + keep_numeric(b.drop_last())).push(b.last()));
        }
    }
}

proof fn lemma_keep_numeric_all(x: Seq<char>)
    requires
        forall|i: int| 0 <= i < x.len() ==> is_number_char(#[trigger] x[i]),
    ensures
        keep_numeric(x) == x,
    decreases x.len(),
{
    if x.len() > 0 {
        lemma_keep_numeric_all(x.drop_last());
        assert(is_number_char(x[x.len() - 1]));
        assert(x.drop_last().push(x.last()) =~= x);
    }
}

proof fn lemma_keep_numeric_none(x: Seq<char>)
    requires
        forall|i: int| 0 <= i < x.len() ==> !is_number_char(#[trigger] x[i]),
    ensures
        keep_numeric(x) == Seq::<char>::empty(),
    decreases x.len(),
{
    if x.len() > 0 {
        lemma_keep_numeric_none(x.drop_last());
        assert(!is_number_char(x[x.len() - 1]));
    }
}

proof fn lemma_lacks_pair(s: Seq<char>, c: char, d: char)
    requires
        forall|i: int| 0 <= i < s.len() ==> #[trigger] s[i] != c,
    ensures
        !contains_seq(s, seq![c, d]),
{
    let p = seq![c, d];
    assert forall|i: int| 0 <= i <= s.len() - p.len() implies #[trigger] s.subrange(i, i + p.len())
        != p by {
        assert(s.subrange(i, i + p.len())[0] == s[i]);
    }
}

proof fn lemma_sized_lacks(x: Seq<char>, u: Seq<char>, c: char, d: char)
    requires
        plain_number(x),
        !is_number_char(c),
        c != ' ',
        forall|j: int| 0 <= j < u.len() ==> #[trigger] u[j] != c,
    ensures
        !contains_seq(sized(x, u), seq![c, d]),
{
    let s = sized(x, u);
    assert forall|i: int| 0 <= i < s.len() implies #[trigger] s[i] != c by {
        if i < x.len() {
            assert(s[i] == x[i]);
        } else if i > x.len() {
            assert(s[i] == u[i - x.len() - 1]);
        }
    }
    lemma_lacks_pair(s, c, d);
}

proof fn lemma_sized_factor(x: Seq<char>, u: Seq<char>)
    requires
        plain_number(x),
        is_size_unit(u),
    ensures
        size_factor(sized(x, u)) == unit_factor(u),
{
    let s = sized(x, u);
    let k: int = x.len() as int + 1;
    assert(s.subrange(k, k + u.len()) =~= u);
    if u == seq!['G', 'B'] {
        assert(s.subrange(k, k + seq!['G', 'B'].len()) == seq!['G', 'B']);
    } else {
        lemma_sized_lacks(x, u, 'G', 'B');
        if u == seq!['M', 'B'] {
            assert(s.subrange(k, k + seq!['M', 'B'].len()) == seq!['M', 'B']);
        } else {
            lemma_sized_lacks(x, u, 'M', 'B');
            if u == seq!['k', 'B'] {
                assert(s.subrange(k, k + seq!['k', 'B'].len()) == seq!['k', 'B']);
            } else {
                lemma_sized_lacks(x, u, 'k', 'B');
            }
        }
    }
}

proof fn lemma_sized(x: Seq<char>, u: Seq<char>)
    requires
        plain_number(x),
        is_size_unit(u),
    ensures
        trim(sized(x, u)) == sized(x, u),
        spec_parse_size(sized(x, u)) is Ok,
        size_fraction(sized(x, u)) == decimal_fraction(x),
        size_factor(trim(sized(x, u))) == unit_factor(u),
{
    let s = sized(x, u);
    assert(s[0] == x[0]);
    assert(is_number_char(x[0]));
    assert(!is_whitespace(s[0]));
    assert(s.last() == u.last());
    assert(!is_whitespace(s.last()));
    assert(trim_start(s) == s);
    assert(trim_end(s) == s);
    assert(s =~= x + (seq![' '] + u));
    lemma_keep_numeric_append(x, seq![' '] + u);
    lemma_keep_numeric_all(x);
    assert forall|i: int| 0 <= i < (seq![' '] + u).len() implies !is_number_char(
        #[trigger] (seq![' '] + u)[i],
    ) by {
        if i > 0 {
            assert((seq![' '] + u)[i] == u[i - 1]);
        }
    }
    lemma_keep_numeric_none(seq![' '] + u);
    assert(keep_numeric(x) + Seq::<char>::empty() =~= x);
    assert(keep_numeric(s) == x);
    lemma_sized_factor(x, u);
    // the number is well formed
    let f = find(x, '.');
    lemma_find(x, '.');
    let ip = integer_digits(x);
    let fp = fraction_digits(x);
    lemma_find(fp, '.');
    if find(fp, '.') < fp.len() {
        let k = find(fp, '.');
        assert(fp[k] == x[f + 1 + k]);
        assert(x[f] == '.');
    }
    let w = choose|i: int| 0 <= i < x.len() && is_digit(#[trigger] x[i]);
    if f < x.len() {
        if w > f {
            assert(fp.len() > 0);
        } else {
            assert(w != f);
            assert(ip.len() > 0);
        }
    } else {
        assert(ip.len() > 0);
    }
    // "0 bytes" spells zero
    reveal_strlit("0 bytes");
    if s == "0 bytes"@ {
        assert(s[1] == ' ');
        if x.len() > 1 {
            assert(s[1] == x[1]);
            assert(is_number_char(x[1]));
        }
        assert(x.len() == 1);
        assert(x[0] == '0');
        lemma_find_is(x, '.', 1);
        assert(ip =~= x);
        assert(ip.drop_last().len() == 0);
        assert(digits_value(ip.drop_last()) == 0);
        assert(ip.last() == '0');
        assert(digits_value(ip) == 0);
        assert(fp.len() == 0);
        assert(digits_value(fp) == 0);
        assert(pow10(0) == 1);
    }
}

/// Sizes written as a number and a unit grow with the number and with the
/// unit (bytes, kB, MB, GB). Every such text reads, and reads as the number
/// times the unit, rounded down, or as `u64::MAX` when that does not fit.
pub proof fn law_size_by_number_and_unit(x: Seq<char>, y: Seq<char>, u: Seq<char>, v: Seq<char>)
    requires
        plain_number(x),
        plain_number(y),
        is_size_unit(u),
        is_size_unit(v),
    ensures
        spec_parse_size(sized(x, u)) == Ok::<u64, ErrorView>(
            capped_u64(decimal_fraction(x).0 * unit_factor(u) / decimal_fraction(x).1),
        ),
        decimal_le(x, y) ==> spec_parse_size(sized(x, u))->Ok_0 <= spec_parse_size(sized(y, u))->Ok_0,
        unit_factor(u) <= unit_factor(v) ==> spec_parse_size(sized(x, u))->Ok_0 <= spec_parse_size(
            sized(x, v),
        )->Ok_0,
{
    lemma_sized(x, u);
    lemma_sized(y, u);
    lemma_sized(x, v);
    lemma_size_fraction(sized(x, u));
    lemma_size_fraction(sized(y, u));
    lemma_size_fraction(sized(x, v));
    let (n1, d1) = decimal_fraction(x);
    let (n2, d2) = decimal_fraction(y);
    let k = unit_factor(u);
    let kv = unit_factor(v);
    if decimal_le(x, y) {
        assert(n1 * k * d2 <= n2 * k * d1) by (nonlinear_arith)
            requires
                n1 * d2 <= n2 * d1,
                k >= 1,
        ;
        law_size_monotone(sized(x, u), sized(y, u));
    }
    if k <= kv {
        assert(n1 * k * d1 <= n1 * kv * d1) by (nonlinear_arith)
            requires
                n1 >= 0,
                d1 >= 1,
                k <= kv,
        ;
        law_size_monotone(sized(x, u), sized(x, v));
    }
}

/// Reads a size column.
#[verifier::spinoff_prover]
#[verifier::rlimit(40)]
pub fn parse_size(s: &str) -> (r: crate::flatpak_service::Result<u64>)
    ensures
        result_view(r) == spec_parse_size(s@),
{
    let v = chars_of(s);
    let (a, b) = trim_bounds(&v);
    let ghost t = trim(s@);
    let zero_bytes = chars_of("0 bytes");
    if range_equals(&v, a, b, &zero_bytes) || a == b {
        return Ok(0);
    }
    // the digits and points of the trimmed text
    let mut n: Vec<char> = Vec::new();
    let mut i = a;
    assert(v@.subrange(a as int, a as int) =~= seq![]);
    while i < b
        invariant
            a <= i <= b <= v.len(),
            v@ == s@,
            n@ == keep_numeric(v@.subrange(a as int, i as int)),
        decreases b - i,
    {
        assert(v@.subrange(a as int, i + 1).drop_last() == v@.subrange(a as int, i as int));
        let c = v[i];
        if ('0' <= c && c <= '9') || c == '.' {
            n.push(c);
        }
        i = i + 1;
    }
    proof {
        lemma_keep_numeric(t);
    }
    let len = n.len();
    let k = find_from(&n, 0, '.');
    assert(n@.skip(0) == n@);
    let after = if k < len { k + 1 } else { len };
    let second = find_from(&n, after, '.');
    proof {
        lemma_find(n@, '.');
        assert(integer_digits(n@) == n@.subrange(0, k as int));
        assert(fraction_digits(n@) == n@.subrange(after as int, len as int));
        assert(n@.subrange(after as int, len as int) == n@.skip(after as int));
    }
    if second < len || len - (after - k) == 0 {
        return Err(FlatpakError::Parse { line: s.to_owned(), msg: String::from_str("cannot parse size") });
    }
    proof {
        lemma_find(n@.skip(after as int), '.');
        assert forall|q: int| after <= q < len implies n@[q] != '.' by {
            assert(n@.skip(after as int)[q - after] == n@[q]);
        }
    }
    let ghost ip = integer_digits(n@);
    let ghost fp = fraction_digits(n@);
    // the integer part, capped at 2^64
    let cap: u128 = 18446744073709551616u128;
    let mut whole: u128 = 0;
    let mut j: usize = 0;
    while j < k
        invariant
            j <= k <= len == n.len(),
            ip == n@.take(k as int),
            forall|q: int| 0 <= q < k ==> n@[q] != '.',
            forall|q: int| 0 <= q < n@.len() ==> is_number_char(#[trigger] n@[q]),
            cap == 18446744073709551616u128,
            whole == (if digits_value(n@.take(j as int)) < cap {
                digits_value(n@.take(j as int))
            } else {
                cap as int
            }),
        decreases k - j,
    {
        assert(n@.take(j + 1).drop_last() == n@.take(j as int));
        assert(is_number_char(n@[j as int]));
        let d = (n[j] as u32 - 48) as u128;
        if whole >= cap {
            whole = cap;
        } else {
            let w = whole * 10 + d;
            whole = if w >= cap { cap } else { w };
        }
        j = j + 1;
    }
    assert(n@.take(k as int) == ip);
    // the unit
    let factor: u64 = if contains_pair(&v, a, b, 'G', 'B') {
        1073741824
    } else if contains_pair(&v, a, b, 'M', 'B') {
        1048576
    } else if contains_pair(&v, a, b, 'k', 'B') {
        1024
    } else {
        1
    };
    assert(factor == size_factor(t));
    // the fraction times the unit, rounded down, from its last digit to its first
    let mut frac: u64 = 0;
    let mut m = len;
    assert(n@.subrange(len as int, len as int).len() == 0);
    proof {
        assert(digits_value(n@.subrange(len as int, len as int)) == 0);
        assert(pow10(0) == 1);
    }
    while m > after
        invariant
            after <= m <= len == n.len(),
            fp == n@.subrange(after as int, len as int),
            forall|q: int| after <= q < len ==> n@[q] != '.',
            forall|q: int| 0 <= q < n@.len() ==> is_number_char(#[trigger] n@[q]),
            1 <= factor <= 1073741824,
            frac < factor,
            frac == (digits_value(n@.subrange(m as int, len as int)) * factor) / pow10(
                (len - m) as nat,
            ),
        decreases m,
    {
        let ghost tail = n@.subrange(m as int, len as int);
        let ghost longer = n@.subrange(m - 1, len as int);
        assert(is_number_char(n@[m - 1]));
        proof {
            assert forall|q: int| 0 <= q < longer.len() implies is_digit(#[trigger] longer[q]) by {
                assert(longer[q] == n@[m - 1 + q]);
                assert(is_number_char(n@[m - 1 + q]));
            }
            lemma_digits_value_first(longer);
            assert(longer.drop_first() == tail);
            lemma_digits_value_bound(longer);
            lemma_digits_value_bound(tail);
            lemma_fraction_step(
                n@[m - 1] as int - 48,
                digits_value(tail),
                (len - m) as nat,
                factor as int,
            );
            lemma_quotient_below(digits_value(longer), pow10(longer.len()), factor as int);
        }
        let d = (n[m - 1] as u32 - 48) as u64;
        frac = (d * factor + frac) / 10;
        m = m - 1;
    }
    proof {
        assert forall|q: int| 0 <= q < ip.len() implies is_digit(#[trigger] ip[q]) by {
            assert(is_number_char(n@[q]));
        }
        lemma_pow10_positive(fp.len());
        lemma_digits_value_bound(ip);
        lemma_digits_value_bound(fp);
        lemma_amount(digits_value(ip), digits_value(fp), pow10(fp.len()), factor as int);
    }
    if whole >= cap {
        assert(digits_value(ip) * factor >= digits_value(ip)) by (nonlinear_arith)
            requires
                digits_value(ip) >= 0,
                factor >= 1,
        ;
        return Ok(u64::MAX);
    }
    assert(whole * factor <= cap * 1073741824) by (nonlinear_arith)
        requires
            whole < cap,
            factor <= 1073741824,
    ;
    let total: u128 = whole * (factor as u128) + (frac as u128);
    if total > 18446744073709551615u128 {
        Ok(u64::MAX)
    } else {
        Ok(total as u64)
    }
}


// ---------------------------------------------------------------- list

/// The meaning of one non-empty line of `flatpak list --columns=...`: eleven
/// tab-separated columns (name, description, application, version, branch,
/// arch, origin, installation, size, ref, active) or ten (the same without the
/// description); the installation column is read before the size column.
pub open spec fn spec_parse_list_line(line: Seq<char>, kind: Kind) -> core::result::Result<
    AppRefView,
    ErrorView,
> {
    let cols = split_on(line, '\t');
    if cols.len() == 11 {
        match spec_parse_installation(cols[7]) {
            Err(e) => Err(e),
            Ok(installation) => match spec_parse_size(cols[8]) {
                Err(e) => Err(e),
                Ok(size_bytes) => Ok(
                    AppRefView {
                        name: cols[0],
                        description: cols[1],
                        id: cols[2],
                        version: cols[3],
                        branch: cols[4],
                        arch: cols[5],
                        origin: cols[6],
                        installation,
                        size_bytes,
                        ref_: cols[9],
                        kind,
                    },
                ),
            },
        }
    } else if cols.len() == 10 {
        match spec_parse_installation(cols[6]) {
            Err(e) => Err(e),
            Ok(installation) => match spec_parse_size(cols[7]) {
                Err(e) => Err(e),
                Ok(size_bytes) => Ok(
                    AppRefView {
                        name: cols[0],
                        description: seq![],
                        id: cols[1],
                        version: cols[2],
                        branch: cols[3],
                        arch: cols[4],
                        origin: cols[5],
                        installation,
                        size_bytes,
                        ref_: cols[8],
                        kind,
                    },
                ),
            },
        }
    } else {
        Err(
            ErrorView::Parse {
                line,
                msg: "expected 10 or 11 columns, got "@ + dec(cols.len()),
            },
        )
    }
}

/// Each field of a ref read from a `flatpak list` line is its own column of
/// the line: for the ten-column layout (no description) name, id, version,
/// branch, arch, origin, installation, size and ref are columns 0 to 8 in
/// that order; the eleven-column layout has the description as column 1 and everything after
/// it one column further. The installation is the one whose name the column
/// spells and the kind is the one asked for. A line reads exactly when it
/// has ten or eleven columns whose installation and size columns read.
pub proof fn law_list_line_columns(line: Seq<char>, kind: Kind)
    ensures
        ({
            let c = split_on(line, '\t');
            &&& (c.len() == 10 ==> (spec_parse_list_line(line, kind) is Ok <==> (
                spec_parse_installation(c[6]) is Ok && spec_parse_size(c[7]) is Ok)))
            &&& (c.len() == 11 ==> (spec_parse_list_line(line, kind) is Ok <==> (
                spec_parse_installation(c[7]) is Ok && spec_parse_size(c[8]) is Ok)))
            &&& (c.len() != 10 && c.len() != 11 ==> spec_parse_list_line(line, kind) is Err)
            &&& (spec_parse_list_line(line, kind) matches Ok(a) ==> c.len() == 10 ==> {
                &&& a.name == c[0]
                &&& a.description.len() == 0
                &&& a.id == c[1]
                &&& a.version == c[2]
                &&& a.branch == c[3]
                &&& a.arch == c[4]
                &&& a.origin == c[5]
                &&& installation_name(a.installation) == c[6]
                &&& Ok::<u64, ErrorView>(a.size_bytes) == spec_parse_size(c[7])
                &&& a.ref_ == c[8]
                &&& a.kind == kind
            })
            &&& (spec_parse_list_line(line, kind) matches Ok(a) ==> c.len() == 11 ==> {
                &&& a.name == c[0]
                &&& a.description == c[1]
                &&& a.id == c[2]
                &&& a.version == c[3]
                &&& a.branch == c[4]
                &&& a.arch == c[5]
                &&& a.origin == c[6]
                &&& installation_name(a.installation) == c[7]
                &&& Ok::<u64, ErrorView>(a.size_bytes) == spec_parse_size(c[8])
                &&& a.ref_ == c[9]
                &&& a.kind == kind
            })
        }),
{
}

/// The refs that a run of lines describes, in order, skipping empty lines;
/// the first line that cannot be read decides the error.
pub open spec fn spec_parse_list_lines(lines: Seq<Seq<char>>, kind: Kind) -> core::result::Result<
    Seq<AppRefView>,
    ErrorView,
>
    decreases lines.len(),
{
    if lines.len() == 0 {
        Ok(seq![])
    } else if lines[0].len() == 0 {
        spec_parse_list_lines(lines.drop_first(), kind)
    } else {
        match spec_parse_list_line(lines[0], kind) {
            Err(e) => Err(e),
            Ok(a) => match spec_parse_list_lines(lines.drop_first(), kind) {
                Err(e) => Err(e),
                Ok(rest) => Ok(seq![a] + rest),
            },
        }
    }
}

/// The meaning of the whole output of `flatpak list --columns=...`.
pub open spec fn spec_parse_list(input: Seq<char>, kind: Kind) -> core::result::Result<
    Seq<AppRefView>,
    ErrorView,
> {
    spec_parse_list_lines(lines_of(input), kind)
}

/// The views of a run of refs.
pub open spec fn app_refs_view(v: Seq<AppRef>) -> Seq<AppRefView> {
    v.map_values(|a: AppRef| a@)
}

/// `acc` put before the refs of `r`, or the error of `r`.
pub open spec fn after_refs(acc: Seq<AppRefView>, r: core::result::Result<Seq<AppRefView>, ErrorView>) -> core::result::Result<
    Seq<AppRefView>,
    ErrorView,
> {
    match r {
        Ok(v) => Ok(acc + v),
        Err(e) => Err(e),
    }
}

/// Reads one non-empty line of `flatpak list` output.
#[verifier::spinoff_prover]
pub fn parse_list_line(line: &str, kind: Kind) -> (r: crate::flatpak_service::Result<AppRef>)
    ensures
        match r {
            Ok(a) => spec_parse_list_line(line@, kind) == Ok::<AppRefView, ErrorView>(a@),
            Err(e) => spec_parse_list_line(line@, kind) == Err::<AppRefView, ErrorView>(e@),
        },
{
    let cols = split_by(line, '\t');
    let ghost sc = split_on(line@, '\t');
    if cols.len() == 11 {
        let installation = parse_installation(cols[7])?;
        let size_bytes = parse_size(cols[8])?;
        let a = AppRef {
            name: cols[0].to_owned(),
            description: cols[1].to_owned(),
            id: cols[2].to_owned(),
            version: cols[3].to_owned(),
            branch: cols[4].to_owned(),
            arch: cols[5].to_owned(),
            origin: cols[6].to_owned(),
            installation,
            size_bytes,
            ref_: cols[9].to_owned(),
            kind,
        };
        assert(cols@[0]@ == sc[0] && cols@[1]@ == sc[1] && cols@[2]@ == sc[2] && cols@[3]@ == sc[3]);
        assert(cols@[4]@ == sc[4] && cols@[5]@ == sc[5] && cols@[6]@ == sc[6] && cols@[9]@ == sc[9]);
        Ok(a)
    } else if cols.len() == 10 {
        let installation = parse_installation(cols[6])?;
        let size_bytes = parse_size(cols[7])?;
        let a = AppRef {
            name: cols[0].to_owned(),
            description: String::new(),
            id: cols[1].to_owned(),
            version: cols[2].to_owned(),
            branch: cols[3].to_owned(),
            arch: cols[4].to_owned(),
            origin: cols[5].to_owned(),
            installation,
            size_bytes,
            ref_: cols[8].to_owned(),
            kind,
        };
        assert(cols@[0]@ == sc[0] && cols@[1]@ == sc[1] && cols@[2]@ == sc[2] && cols@[3]@ == sc[3]);
        assert(cols@[4]@ == sc[4] && cols@[5]@ == sc[5] && cols@[8]@ == sc[8]);
        Ok(a)
    } else {
        let mut msg = String::from_str("expected 10 or 11 columns, got ");
        push_decimal(&mut msg, cols.len() as u64);
        Err(FlatpakError::Parse { line: line.to_owned(), msg })
    }
}

proof fn lemma_list_lines_cons(l: Seq<char>, tail: Seq<Seq<char>>, kind: Kind)
    ensures
        spec_parse_list_lines(seq![l] + tail, kind) == (if l.len() == 0 {
            spec_parse_list_lines(tail, kind)
        } else {
            match spec_parse_list_line(l, kind) {
                Err(e) => Err(e),
                Ok(a) => after_refs(seq![a], spec_parse_list_lines(tail, kind)),
            }
        }),
{
    let ls = seq![l] + tail;
    assert(ls.drop_first() == tail);
    assert(ls[0] == l);
    match spec_parse_list_lines(tail, kind) {
        Ok(r) => {},
        Err(e) => {},
    }
}

proof fn lemma_after_refs_push(
    acc: Seq<AppRefView>,
    a: AppRefView,
    r: core::result::Result<Seq<AppRefView>, ErrorView>,
)
    ensures
        after_refs(acc, after_refs(seq![a], r)) == after_refs(acc.push(a), r),
{
    match r {
        Ok(v) => {
            assert(acc + (seq![a] + v) == acc.push(a) + v);
        },
        Err(e) => {},
    }
}

/// The first line of a non-empty text and the lines after it.
proof fn lemma_lines_of_first(s: Seq<char>)
    requires
        s.len() > 0,
    ensures
        find(s, '\n') < s.len() ==> lines_of(s) == seq![strip_cr(s.take(find(s, '\n')))] + lines_of(
            s.skip(find(s, '\n') + 1),
        ),
        find(s, '\n') >= s.len() ==> lines_of(s) == seq![s],
{
    lemma_find(s, '\n');
}

proof fn lemma_list_lines_kind(lines: Seq<Seq<char>>, kind: Kind)
    ensures
        spec_parse_list_lines(lines, kind) matches Ok(v) ==> forall|i: int| 0 <= i < v.len() ==> (
        #[trigger] v[i]).kind == kind,
    decreases lines.len(),
{
    if lines.len() > 0 {
        lemma_list_lines_kind(lines.drop_first(), kind);
        if lines[0].len() != 0 {
            if let Ok(a) = spec_parse_list_line(lines[0], kind) {
                if let Ok(rest) = spec_parse_list_lines(lines.drop_first(), kind) {
                    assert forall|i: int| 0 <= i < (seq![a] + rest).len() implies (#[trigger] (seq![a]
                        + rest)[i]).kind == kind by {
                        if i > 0 {
                            assert((seq![a] + rest)[i] == rest[i - 1]);
                        }
                    }
                }
            }
        }
    }
}

/// Every ref read from a listing has the kind that was asked for.
pub proof fn law_list_kind(input: Seq<char>, kind: Kind)
    ensures
        spec_parse_list(input, kind) matches Ok(v) ==> forall|i: int| 0 <= i < v.len() ==> (
        #[trigger] v[i]).kind == kind,
{
    lemma_list_lines_kind(lines_of(input), kind);
}

/// Blank lines contribute nothing: a listing reads the same with an empty line put before it.
pub proof fn law_list_skips_empty_lines(input: Seq<char>, kind: Kind)
    ensures
        spec_parse_list(seq!['\n'] + input, kind) == spec_parse_list(input, kind),
{
    let s = seq!['\n'] + input;
    lemma_find_is(s, '\n', 0);
    assert(s.take(0) =~= Seq::<char>::empty());
    assert(s.skip(1) =~= input);
    lemma_list_lines_cons(seq![], lines_of(input), kind);
    assert(strip_cr(Seq::<char>::empty()) == Seq::<char>::empty());
}

/// The refs of one reading followed by those of another, or the error of the
/// first that fails.
pub open spec fn joined_refs(
    x: core::result::Result<Seq<AppRefView>, ErrorView>,
    y: core::result::Result<Seq<AppRefView>, ErrorView>,
) -> core::result::Result<Seq<AppRefView>, ErrorView> {
    match x {
        Ok(u) => after_refs(u, y),
        Err(e) => Err(e),
    }
}

proof fn lemma_joined_after(
    a: AppRefView,
    x: core::result::Result<Seq<AppRefView>, ErrorView>,
    y: core::result::Result<Seq<AppRefView>, ErrorView>,
)
    ensures
        after_refs(seq![a], joined_refs(x, y)) == joined_refs(after_refs(seq![a], x), y),
{
    match x {
        Ok(u) => match y {
            Ok(w) => {
                assert(seq![a] + (u + w) == (seq![a] + u) + w);
            },
            Err(e) => {},
        },
        Err(e) => {},
    }
}

proof fn lemma_list_concat(a: Seq<char>, b: Seq<char>, kind: Kind)
    requires
        !(a.len() > 0 && a.last() == '\r'),
    ensures
        spec_parse_list_lines(lines_of(a + seq!['\n'] + b), kind) == joined_refs(
            spec_parse_list_lines(lines_of(a), kind),
            spec_parse_list_lines(lines_of(b), kind),
        ),
    decreases a.len(),
{
    let s = a + seq!['\n'] + b;
    let pb = spec_parse_list_lines(lines_of(b), kind);
    lemma_find(a, '\n');
    let j = find(a, '\n');
    assert forall|k: int| 0 <= k < a.len() implies s[k] == a[k] by {}
    assert(s[a.len() as int] == '\n');
    if j == a.len() {
        lemma_find_is(s, '\n', j);
        assert(s.take(j) =~= a);
        assert(s.skip(j + 1) =~= b);
        assert(lines_of(s) == seq![strip_cr(a)] + lines_of(b));
        assert(strip_cr(a) == a);
        lemma_list_lines_cons(a, lines_of(b), kind);
        if a.len() == 0 {
            assert(lines_of(a) == Seq::<Seq<char>>::empty());
            match pb {
                Ok(w) => {
                    assert(Seq::<AppRefView>::empty() + w =~= w);
                },
                Err(e) => {},
            }
        } else {
            assert(lines_of(a) == seq![a]);
            lemma_list_lines_cons(a, Seq::<Seq<char>>::empty(), kind);
            assert(seq![a] + Seq::<Seq<char>>::empty() =~= seq![a]);
            match spec_parse_list_line(a, kind) {
                Ok(x) => {
                    assert(seq![x] + Seq::<AppRefView>::empty() =~= seq![x]);
                },
                Err(e) => {},
            }
        }
    } else {
        lemma_find_is(s, '\n', j);
        let a2 = a.skip(j + 1);
        assert(s.take(j) =~= a.take(j));
        assert(s.skip(j + 1) =~= a2 + seq!['\n'] + b);
        let l0 = strip_cr(a.take(j));
        assert(lines_of(s) == seq![l0] + lines_of(a2 + seq!['\n'] + b));
        assert(lines_of(a) == seq![l0] + lines_of(a2));
        assert(a2.len() > 0 ==> a2.last() == a.last());
        lemma_list_concat(a2, b, kind);
        lemma_list_lines_cons(l0, lines_of(a2 + seq!['\n'] + b), kind);
        lemma_list_lines_cons(l0, lines_of(a2), kind);
        if l0.len() != 0 {
            match spec_parse_list_line(l0, kind) {
                Ok(x) => {
                    lemma_joined_after(x, spec_parse_list_lines(lines_of(a2), kind), pb);
                },
                Err(e) => {},
            }
        }
    }
}

/// A listing cut at a line break reads as its two parts read one after the
/// other: the refs of the first part, then those of the second, or the error
/// of the first part that fails. (A first part ending in a carriage return is
/// left out: the line break would take that character with it.)
pub proof fn law_list_concat(a: Seq<char>, b: Seq<char>, kind: Kind)
    requires
        !(a.len() > 0 && a.last() == '\r'),
    ensures
        spec_parse_list(a + seq!['\n'] + b, kind) == joined_refs(
            spec_parse_list(a, kind),
            spec_parse_list(b, kind),
        ),
{
    lemma_list_concat(a, b, kind);
}

/// Reads the output of `flatpak list --columns=...` into refs of the given kind.
#[verifier::spinoff_prover]
#[verifier::rlimit(40)]
pub fn parse_list(input: &str, kind: Kind) -> (r: crate::flatpak_service::Result<Vec<AppRef>>)
    ensures
        match r {
            Ok(v) => spec_parse_list(input@, kind) == Ok::<Seq<AppRefView>, ErrorView>(app_refs_view(v@)),
            Err(e) => spec_parse_list(input@, kind) == Err::<Seq<AppRefView>, ErrorView>(e@),
        },
{
    let v = chars_of(input);
    let n = v.len();
    let mut out: Vec<AppRef> = Vec::new();
    let mut pos: usize = 0;
    assert(input@.skip(0) == input@);
    assert(app_refs_view(out@) == Seq::<AppRefView>::empty());
    loop
        invariant_except_break
            pos <= n,
            spec_parse_list(input@, kind) == after_refs(
                app_refs_view(out@),
                spec_parse_list_lines(lines_of(input@.skip(pos as int)), kind),
            ),
        invariant
            v@ == input@,
            n == v.len(),
        ensures
            spec_parse_list(input@, kind) == Ok::<Seq<AppRefView>, ErrorView>(app_refs_view(out@)),
        decreases n - pos,
    {
        let ghost rest = input@.skip(pos as int);
        let ghost before = app_refs_view(out@);
        if pos == n {
            assert(rest.len() == 0);
            assert(lines_of(rest).len() == 0);
            assert(before + seq![] == before);
            break;
        }
        let j = find_from(&v, pos, '\n');
        assert(v@.skip(pos as int) == rest);
        let end = if j < n && j > pos && v[j - 1] == '\r' { j - 1 } else { j };
        let line = input.substring_char(pos, end);
        let ghost tail: Seq<Seq<char>> = if j < n { lines_of(input@.skip(j + 1)) } else { seq![] };
        proof {
            lemma_lines_of_first(rest);
            if j < n {
                assert(rest.take(j - pos) == input@.subrange(pos as int, j as int));
                assert(strip_cr(rest.take(j - pos)) == line@);
                assert(rest.skip(j - pos + 1) == input@.skip(j + 1));
                assert(lines_of(rest) == seq![line@] + tail);
            } else {
                assert(line@ == rest);
                assert(seq![rest] == seq![rest] + Seq::<Seq<char>>::empty());
            }
            assert(lines_of(rest) == seq![line@] + tail);
            lemma_list_lines_cons(line@, tail, kind);
        }
        if end > pos {
            let item = match parse_list_line(line, kind) {
                Ok(a) => a,
                Err(e) => {
                    return Err(e);
                },
            };
            out.push(item);
            proof {
                assert(app_refs_view(out@) == before.push(item@));
                lemma_after_refs_push(before, item@, spec_parse_list_lines(tail, kind));
            }
        } else {
            assert(line@.len() == 0);
        }
        if j == n {
            proof {
                assert(spec_parse_list_lines(tail, kind) == Ok::<Seq<AppRefView>, ErrorView>(seq![]));
                assert(app_refs_view(out@) + seq![] == app_refs_view(out@));
            }
            break;
        }
        pos = j + 1;
    }
    Ok(out)
}


// ---------------------------------------------------------------- progress

/// Characters that may stand in a progress number: digits, spaces and points.
pub open spec fn is_progress_char(c: char) -> bool {
    is_digit(c) || c == ' ' || c == '.'
}

/// Index of the first character of `s` that cannot stand in a progress number, or `s.len()`.
pub open spec fn find_non_progress(s: Seq<char>) -> int
    decreases s.len(),
{
    if s.len() == 0 {
        0
    } else if !is_progress_char(s[0]) {
        0
    } else {
        1 + find_non_progress(s.drop_first())
    }
}

proof fn lemma_find_non_progress_is(s: Seq<char>, i: int)
    requires
        0 <= i <= s.len(),
        forall|j: int| 0 <= j < i ==> is_progress_char(s[j]),
        i < s.len() ==> !is_progress_char(s[i]),
    ensures
        find_non_progress(s) == i,
    decreases s.len(),
{
    if s.len() > 0 && is_progress_char(s[0]) {
        assert forall|j: int| 0 <= j < i - 1 implies is_progress_char(s.drop_first()[j]) by {
            assert(s.drop_first()[j] == s[j + 1]);
        }
        lemma_find_non_progress_is(s.drop_first(), i - 1);
    }
}

/// The ASCII digits of `s`, in order.
pub open spec fn keep_digits(s: Seq<char>) -> Seq<char>
    decreases s.len(),
{
    if s.len() == 0 {
        seq![]
    } else if is_digit(s.last()) {
        keep_digits(s.drop_last()).push(s.last())
    } else {
        keep_digits(s.drop_last())
    }
}

/// What follows the first `]` after the first `[` of a line, if there is one.
pub open spec fn progress_rest(s: Seq<char>) -> Option<Seq<char>> {
    let a = find(s, '[');
    if a >= s.len() {
        None
    } else {
        let b = a + find(s.skip(a), ']');
        if b >= s.len() {
            None
        } else {
            Some(s.skip(b + 1))
        }
    }
}

/// Where the progress number in `rest` ends: at its first `%`; without one,
/// just after its first character that cannot stand in a number.
pub open spec fn progress_number_end(rest: Seq<char>) -> Option<int> {
    let p = find(rest, '%');
    if p < rest.len() {
        Some(p)
    } else {
        let q = find_non_progress(rest);
        if q < rest.len() {
            Some(q + 1)
        } else {
            None
        }
    }
}

/// The percentage a progress line of a flatpak job shows, such as
/// `[#####     ]  50% Downloading: ...`: the digits between the bar and the
/// end of the number, read as a `u16`; none without a bar, without digits
/// there, when they spell more than `u16::MAX`, or when the number would end
/// inside a character that is not ASCII.
pub open spec fn spec_parse_progress_line(s: Seq<char>) -> Option<u16> {
    if progress_cut_inside_char(s) {
        None
    } else {
        match progress_rest(s) {
            None => None,
            Some(rest) => match progress_number_end(rest) {
                None => None,
                Some(e) => {
                    let d = keep_digits(rest.take(e));
                    if d.len() == 0 || digits_value(d) > 65535 {
                        None
                    } else {
                        Some(digits_value(d) as u16)
                    }
                },
            },
        }
    }
}

/// The lines on which reading the progress would cut the text inside a
/// character (the number ends, with no `%`, at a character that is not
/// ASCII); they show no percentage.
pub open spec fn progress_cut_inside_char(s: Seq<char>) -> bool {
    match progress_rest(s) {
        None => false,
        Some(rest) => find(rest, '%') >= rest.len() && find_non_progress(rest) < rest.len() && (
        rest[find_non_progress(rest)] as u32) >= 128,
    }
}

/// Where the progress text of a line starts and where its number ends, as
/// indices into its characters, and whether the number ends at a `%`.
fn progress_bounds(v: &Vec<char>) -> (r: Option<(usize, usize, bool)>)
    ensures
        match r {
            None => progress_rest(v@) is None || progress_number_end(progress_rest(v@)->0) is None,
            Some((start, end, pct)) => {
                &&& start <= end <= v.len()
                &&& progress_rest(v@) == Some(v@.skip(start as int))
                &&& progress_number_end(v@.skip(start as int)) == Some(end - start)
                &&& pct == (find(v@.skip(start as int), '%') < v.len() - start)
                &&& !pct ==> end - 1 - start == find_non_progress(v@.skip(start as int)) && start < end
            },
        },
{
    let n = v.len();
    let a = find_from(v, 0, '[');
    assert(v@.skip(0) == v@);
    if a == n {
        return None;
    }
    let b = find_from(v, a, ']');
    if b == n {
        return None;
    }
    let start = b + 1;
    let ghost rest = v@.skip(start as int);
    assert(progress_rest(v@) == Some(rest));
    let p = find_from(v, start, '%');
    if p < n {
        return Some((start, p, true));
    }
    let mut q = start;
    while q < n && (('0' <= v[q] && v[q] <= '9') || v[q] == ' ' || v[q] == '.')
        invariant
            start <= q <= n == v.len(),
            rest == v@.skip(start as int),
            forall|j: int| start <= j < q ==> is_progress_char(v@[j]),
        decreases n - q,
    {
        q = q + 1;
    }
    proof {
        assert forall|j: int| 0 <= j < q - start implies is_progress_char(rest[j]) by {
            assert(rest[j] == v@[start + j]);
        }
        if q < n {
            assert(rest[q - start] == v@[q as int]);
        }
        lemma_find_non_progress_is(rest, q - start);
    }
    if q == n {
        return None;
    }
    Some((start, q + 1, false))
}

/// Whether reading the progress of `line` would cut it inside a character.
pub fn progress_line_cuts_char(line: &str) -> (r: bool)
    ensures
        r == progress_cut_inside_char(line@),
{
    let v = chars_of(line);
    match progress_bounds(&v) {
        None => {
            proof {
                match progress_rest(v@) {
                    None => {},
                    Some(rest) => { lemma_find(rest, '%'); },
                }
            }
            false
        },
        Some((start, end, pct)) => {
            let ghost rest = v@.skip(start as int);
            if pct {
                false
            } else {
                assert(rest[end - 1 - start] == v@[end - 1]);
                (v[end - 1] as u32) >= 128
            }
        },
    }
}

proof fn lemma_find_non_progress_props(s: Seq<char>)
    ensures
        0 <= find_non_progress(s) <= s.len(),
        find_non_progress(s) < s.len() ==> !is_progress_char(s[find_non_progress(s)]),
    decreases s.len(),
{
    if s.len() > 0 && is_progress_char(s[0]) {
        lemma_find_non_progress_props(s.drop_first());
        if find_non_progress(s) < s.len() {
            assert(s[find_non_progress(s)] == s.drop_first()[find_non_progress(s.drop_first())]);
        }
    }
}

/// A line without a `[` shows no progress.
pub proof fn law_progress_needs_bar(s: Seq<char>)
    requires
        forall|i: int| 0 <= i < s.len() ==> s[i] != '[',
    ensures
        spec_parse_progress_line(s) is None,
{
    lemma_find_is(s, '[', s.len() as int);
}

/// Reads the percentage of a progress line of a flatpak job.
#[verifier::spinoff_prover]
pub fn parse_progress_line(line: &str) -> (r: Option<u16>)
    ensures
        r == spec_parse_progress_line(line@),
{
    if progress_line_cuts_char(line) {
        return None;
    }
    let v = chars_of(line);
    let (start, end, _pct) = match progress_bounds(&v) {
        None => {
            return None;
        },
        Some(se) => se,
    };
    let ghost rest = v@.skip(start as int);
    let mut value: u32 = 0;
    let mut count: usize = 0;
    let mut i = start;
    assert(v@.subrange(start as int, start as int) =~= Seq::<char>::empty());
    while i < end
        invariant
            start <= i <= end <= v.len(),
            count <= i - start,
            count == keep_digits(v@.subrange(start as int, i as int)).len(),
            value == (if digits_value(keep_digits(v@.subrange(start as int, i as int))) <= 65536 {
                digits_value(keep_digits(v@.subrange(start as int, i as int)))
            } else {
                65536
            }),
        decreases end - i,
    {
        let ghost before = keep_digits(v@.subrange(start as int, i as int));
        assert(v@.subrange(start as int, i + 1).drop_last() == v@.subrange(start as int, i as int));
        let c = v[i];
        if '0' <= c && c <= '9' {
            assert(keep_digits(v@.subrange(start as int, i + 1)) == before.push(c));
            assert(before.push(c).drop_last() == before);
            let d = (c as u32) - 48;
            if value >= 65536 {
                value = 65536;
            } else {
                let w = value * 10 + d;
                value = if w >= 65536 { 65536 } else { w };
            }
            count = count + 1;
        }
        i = i + 1;
    }
    assert(v@.subrange(start as int, end as int) == rest.take(end - start));
    if count == 0 || value > 65535 {
        None
    } else {
        Some(value as u16)
    }
}


// ---------------------------------------------------------------- remotes

/// `c` with ASCII capitals made small, as `char::to_ascii_lowercase` does.
pub open spec fn ascii_lower(c: char) -> char {
    if 'A' <= c <= 'Z' {
        ((c as u32) + 32) as char
    } else {
        c
    }
}

/// Whether `s` reads `true` in any mix of ASCII capitals and small letters.
pub open spec fn says_true(s: Seq<char>) -> bool {
    s.map_values(|c: char| ascii_lower(c)) == seq!['t', 'r', 'u', 'e']
}

fn is_true_text(s: &str) -> (r: bool)
    ensures
        r == says_true(s@),
{
    let v = chars_of(s);
    if v.len() != 4 {
        assert(s@.map_values(|c: char| ascii_lower(c)).len() != 4);
        return false;
    }
    let word = ['t', 'r', 'u', 'e'];
    let mut i: usize = 0;
    while i < 4
        invariant
            v@ == s@,
            v.len() == 4,
            word@ == seq!['t', 'r', 'u', 'e'],
            forall|j: int| 0 <= j < i ==> ascii_lower(v@[j]) == word@[j],
        decreases 4 - i,
    {
        let c = v[i];
        let low = if 'A' <= c && c <= 'Z' { ((c as u32) + 32) as u8 as char } else { c };
        assert(low == ascii_lower(c)) by {
            if 'A' <= c && c <= 'Z' {
                assert(((c as u32) + 32) < 256);
            }
        }
        if low != word[i] {
            assert(s@.map_values(|c: char| ascii_lower(c))[i as int] != seq!['t', 'r', 'u', 'e'][i as int]);
            return false;
        }
        i = i + 1;
    }
    assert(s@.map_values(|c: char| ascii_lower(c)) =~= seq!['t', 'r', 'u', 'e']);
    true
}

/// `s` without a leading sign.
pub open spec fn unsigned_part(s: Seq<char>) -> Seq<char> {
    if s.len() > 0 && (s[0] == '-' || s[0] == '+') {
        s.drop_first()
    } else {
        s
    }
}

/// Whether every character of `s` is an ASCII digit.
pub open spec fn all_digits(s: Seq<char>) -> bool {
    forall|i: int| 0 <= i < s.len() ==> is_digit(#[trigger] s[i])
}

/// The number a text spells as `i32::from_str` reads it: an optional `+` or
/// `-`, then one or more ASCII digits, within the range of `i32`.
pub open spec fn spec_parse_i32(s: Seq<char>) -> Option<i32> {
    let neg = s.len() > 0 && s[0] == '-';
    let digits = unsigned_part(s);
    if digits.len() == 0 || !all_digits(digits) {
        None
    } else {
        let v = if neg {
            -digits_value(digits)
        } else {
            digits_value(digits)
        };
        if i32::MIN <= v <= i32::MAX {
            Some(v as i32)
        } else {
            None
        }
    }
}

/// Reads a number as `i32::from_str` does.
#[verifier::spinoff_prover]
pub fn parse_i32(s: &str) -> (r: Option<i32>)
    ensures
        r == spec_parse_i32(s@),
{
    let v = chars_of(s);
    let n = v.len();
    let neg = n > 0 && v[0] == '-';
    let start: usize = if n > 0 && (v[0] == '-' || v[0] == '+') { 1 } else { 0 };
    let ghost digits = unsigned_part(s@);
    assert(digits == v@.skip(start as int));
    if start == n {
        return None;
    }
    let cap: i64 = 2147483649;
    let mut acc: i64 = 0;
    let mut i = start;
    assert(v@.subrange(start as int, start as int) =~= Seq::<char>::empty());
    while i < n
        invariant
            start <= i <= n == v.len(),
            v@ == s@,
            digits == v@.skip(start as int),
            digits == unsigned_part(s@),
            cap == 2147483649,
            0 <= acc <= cap,
            forall|j: int| start <= j < i ==> is_digit(v@[j]),
            acc == (if digits_value(v@.subrange(start as int, i as int)) < cap {
                digits_value(v@.subrange(start as int, i as int))
            } else {
                cap as int
            }),
        decreases n - i,
    {
        let c = v[i];
        if !('0' <= c && c <= '9') {
            assert(digits[i - start] == v@[i as int]);
            assert(0 <= i - start < digits.len() && !is_digit(digits[i - start]));
            return None;
        }
        assert(v@.subrange(start as int, i + 1).drop_last() == v@.subrange(start as int, i as int));
        proof {
            let pre = v@.subrange(start as int, i as int);
            assert forall|j: int| 0 <= j < pre.len() implies is_digit(#[trigger] pre[j]) by {
                assert(pre[j] == v@[start + j]);
            }
            lemma_digits_value_bound(pre);
        }
        let d = (c as u32 - 48) as i64;
        if acc >= cap {
            acc = cap;
        } else {
            let w = acc * 10 + d;
            acc = if w >= cap { cap } else { w };
        }
        i = i + 1;
    }
    assert(v@.subrange(start as int, n as int) == digits);
    assert(forall|j: int| 0 <= j < digits.len() ==> is_digit(#[trigger] digits[j])) by {
        assert forall|j: int| 0 <= j < digits.len() implies is_digit(#[trigger] digits[j]) by {
            assert(digits[j] == v@[start + j]);
        }
    }
    if neg {
        if acc > 2147483648 {
            None
        } else {
            Some((-acc) as i32)
        }
    } else {
        if acc > 2147483647 {
            None
        } else {
            Some(acc as i32)
        }
    }
}


/// `acc` put before the values of `r`, or the error of `r`.
pub open spec fn prepended<T>(acc: Seq<T>, r: core::result::Result<Seq<T>, ErrorView>) -> core::result::Result<
    Seq<T>,
    ErrorView,
> {
    match r {
        Ok(v) => Ok(acc + v),
        Err(e) => Err(e),
    }
}

/// The meaning of one non-empty line of `flatpak remotes --columns=...`: at
/// least six tab-separated columns (name, title, url, installation, disabled,
/// priority); `disabled` is `true` in any case; the priority is read before
/// the installation.
pub open spec fn spec_parse_remote_line(line: Seq<char>) -> core::result::Result<RemoteView, ErrorView> {
    let cols = split_on(line, '\t');
    if cols.len() < 6 {
        Err(ErrorView::Parse { line, msg: "expected 6 columns, got "@ + dec(cols.len()) })
    } else {
        match spec_parse_i32(cols[5]) {
            None => Err(ErrorView::Parse { line, msg: "cannot parse priority"@ }),
            Some(priority) => match spec_parse_installation(cols[3]) {
                Err(e) => Err(e),
                Ok(installation) => Ok(
                    RemoteView {
                        name: cols[0],
                        title: cols[1],
                        url: cols[2],
                        installation,
                        disabled: says_true(cols[4]),
                        priority,
                    },
                ),
            },
        }
    }
}

/// A remote read from a `flatpak remotes` line takes its name, title and URL
/// from columns 0, 1 and 2 of the line, its installation from the one whose
/// name column 3 spells, whether it is disabled from column 4 and its
/// priority from column 5. A line with fewer than six columns does not read.
pub proof fn law_remote_line_columns(line: Seq<char>)
    ensures
        ({
            let c = split_on(line, '\t');
            &&& (c.len() < 6 ==> spec_parse_remote_line(line) is Err)
            &&& (c.len() >= 6 ==> (spec_parse_remote_line(line) is Ok <==> (spec_parse_i32(c[5]) is Some
                && spec_parse_installation(c[3]) is Ok)))
            &&& (spec_parse_remote_line(line) matches Ok(r) ==> {
                &&& r.name == c[0]
                &&& r.title == c[1]
                &&& r.url == c[2]
                &&& installation_name(r.installation) == c[3]
                &&& r.disabled == says_true(c[4])
                &&& Some(r.priority) == spec_parse_i32(c[5])
            })
        }),
{
}

/// The remotes a run of lines describes, skipping empty lines; the first bad line decides the error.
pub open spec fn spec_parse_remote_lines(lines: Seq<Seq<char>>) -> core::result::Result<
    Seq<RemoteView>,
    ErrorView,
>
    decreases lines.len(),
{
    if lines.len() == 0 {
        Ok(seq![])
    } else if lines[0].len() == 0 {
        spec_parse_remote_lines(lines.drop_first())
    } else {
        match spec_parse_remote_line(lines[0]) {
            Err(e) => Err(e),
            Ok(r) => prepended(seq![r], spec_parse_remote_lines(lines.drop_first())),
        }
    }
}

/// The meaning of the whole output of `flatpak remotes --columns=...`.
pub open spec fn spec_parse_remotes(input: Seq<char>) -> core::result::Result<Seq<RemoteView>, ErrorView> {
    spec_parse_remote_lines(lines_of(input))
}

/// Reads one non-empty line of `flatpak remotes` output.
#[verifier::spinoff_prover]
pub fn parse_remote_line(line: &str) -> (r: crate::flatpak_service::Result<Remote>)
    ensures
        match r {
            Ok(x) => spec_parse_remote_line(line@) == Ok::<RemoteView, ErrorView>(x@),
            Err(e) => spec_parse_remote_line(line@) == Err::<RemoteView, ErrorView>(e@),
        },
{
    let cols = split_by(line, '\t');
    let ghost sc = split_on(line@, '\t');
    if cols.len() < 6 {
        let mut msg = String::from_str("expected 6 columns, got ");
        push_decimal(&mut msg, cols.len() as u64);
        return Err(FlatpakError::Parse { line: line.to_owned(), msg });
    }
    let disabled = is_true_text(cols[4]);
    let priority = match parse_i32(cols[5]) {
        Some(p) => p,
        None => {
            return Err(
                FlatpakError::Parse {
                    line: line.to_owned(),
                    msg: String::from_str("cannot parse priority"),
                },
            );
        },
    };
    let installation = parse_installation(cols[3])?;
    assert(cols@[0]@ == sc[0] && cols@[1]@ == sc[1] && cols@[2]@ == sc[2] && cols@[4]@ == sc[4]);
    Ok(
        Remote {
            name: cols[0].to_owned(),
            title: cols[1].to_owned(),
            url: cols[2].to_owned(),
            installation,
            disabled,
            priority,
        },
    )
}

proof fn lemma_remote_lines_step(lines: Seq<Seq<char>>, i: int)
    requires
        0 <= i < lines.len(),
    ensures
        spec_parse_remote_lines(lines.skip(i)) == (if lines[i].len() == 0 {
            spec_parse_remote_lines(lines.skip(i + 1))
        } else {
            match spec_parse_remote_line(lines[i]) {
                Err(e) => Err(e),
                Ok(r) => prepended(seq![r], spec_parse_remote_lines(lines.skip(i + 1))),
            }
        }),
{
    assert(lines.skip(i).drop_first() == lines.skip(i + 1));
    assert(lines.skip(i)[0] == lines[i]);
}

proof fn lemma_prepended_push<T>(acc: Seq<T>, x: T, r: core::result::Result<Seq<T>, ErrorView>)
    ensures
        prepended(acc, prepended(seq![x], r)) == prepended(acc.push(x), r),
{
    match r {
        Ok(v) => {
            assert(acc + (seq![x] + v) == acc.push(x) + v);
        },
        Err(e) => {},
    }
}

/// Reads the output of `flatpak remotes --columns=...`.
#[verifier::spinoff_prover]
pub fn parse_remotes(input: &str) -> (r: crate::flatpak_service::Result<Vec<Remote>>)
    ensures
        match r {
            Ok(v) => spec_parse_remotes(input@) == Ok::<Seq<RemoteView>, ErrorView>(
                v@.map_values(|x: Remote| x@),
            ),
            Err(e) => spec_parse_remotes(input@) == Err::<Seq<RemoteView>, ErrorView>(e@),
        },
{
    let lines = text_lines(input);
    let ghost ls = lines_of(input@);
    let mut out: Vec<Remote> = Vec::new();
    let mut i: usize = 0;
    assert(ls.skip(0) == ls);
    assert(out@.map_values(|x: Remote| x@) =~= Seq::<RemoteView>::empty());
    while i < lines.len()
        invariant
            i <= lines@.len() == ls.len(),
            forall|k: int| 0 <= k < lines@.len() ==> #[trigger] lines@[k]@ == ls[k],
            spec_parse_remotes(input@) == prepended(
                out@.map_values(|x: Remote| x@),
                spec_parse_remote_lines(ls.skip(i as int)),
            ),
        decreases lines.len() - i,
    {
        let line = lines[i];
        proof {
            lemma_remote_lines_step(ls, i as int);
        }
        if !line.is_empty() {
            let ghost before = out@.map_values(|x: Remote| x@);
            let x = parse_remote_line(line)?;
            out.push(x);
            proof {
                assert(out@.map_values(|x: Remote| x@) =~= before.push(x@));
                lemma_prepended_push(before, x@, spec_parse_remote_lines(ls.skip(i + 1)));
            }
        } else {
            assert(line@.len() == 0);
        }
        i = i + 1;
    }
    assert(ls.skip(i as int).len() == 0);
    assert(out@.map_values(|x: Remote| x@) + Seq::<RemoteView>::empty() == out@.map_values(
        |x: Remote| x@,
    ));
    Ok(out)
}

// ---------------------------------------------------------------- history

/// The time format of `flatpak history`.
pub open spec fn history_time_format() -> Seq<char> {
    "%Y-%m-%d %H:%M:%S %z"@
}

/// The meaning of one non-empty line of `flatpak history --columns=...`: at
/// least four tab-separated columns (time, ref, operation, user); the time
/// is read by chrono, and its error, if any, names the time column.
pub open spec fn spec_parse_history_line(line: Seq<char>) -> core::result::Result<
    HistoryEntryView,
    ErrorView,
> {
    let cols = split_on(line, '\t');
    if cols.len() < 4 {
        Err(ErrorView::Parse { line, msg: "expected 4 columns, got "@ + dec(cols.len()) })
    } else {
        match parsed_time(cols[0], history_time_format()) {
            Err(m) => Err(ErrorView::Parse { line: cols[0], msg: m }),
            Ok(time) => Ok(
                HistoryEntryView { time, ref_: cols[1], operation: cols[2], user: cols[3] },
            ),
        }
    }
}

/// An entry read from a `flatpak history` line takes its time from column 0
/// (as chrono reads it in the history format), its ref from column 1, its
/// operation from column 2 and its user from column 3. A line with fewer
/// than four columns, or whose time does not read, does not read.
pub proof fn law_history_line_columns(line: Seq<char>)
    ensures
        ({
            let c = split_on(line, '\t');
            &&& (c.len() < 4 ==> spec_parse_history_line(line) is Err)
            &&& (c.len() >= 4 ==> (spec_parse_history_line(line) is Ok <==> parsed_time(
                c[0],
                history_time_format(),
            ) is Ok))
            &&& (spec_parse_history_line(line) matches Ok(h) ==> {
                &&& parsed_time(c[0], history_time_format()) == Ok::<i64, Seq<char>>(h.time)
                &&& h.ref_ == c[1]
                &&& h.operation == c[2]
                &&& h.user == c[3]
            })
        }),
{
}

/// The entries a run of lines describes, skipping empty lines; the first bad line decides the error.
pub open spec fn spec_parse_history_lines(lines: Seq<Seq<char>>) -> core::result::Result<
    Seq<HistoryEntryView>,
    ErrorView,
>
    decreases lines.len(),
{
    if lines.len() == 0 {
        Ok(seq![])
    } else if lines[0].len() == 0 {
        spec_parse_history_lines(lines.drop_first())
    } else {
        match spec_parse_history_line(lines[0]) {
            Err(e) => Err(e),
            Ok(h) => prepended(seq![h], spec_parse_history_lines(lines.drop_first())),
        }
    }
}

/// The meaning of the whole output of `flatpak history --columns=...`.
pub open spec fn spec_parse_history(input: Seq<char>) -> core::result::Result<
    Seq<HistoryEntryView>,
    ErrorView,
> {
    spec_parse_history_lines(lines_of(input))
}

/// Reads one non-empty line of `flatpak history` output.
#[verifier::spinoff_prover]
pub fn parse_history_line(line: &str) -> (r: crate::flatpak_service::Result<HistoryEntry>)
    ensures
        match r {
            Ok(x) => spec_parse_history_line(line@) == Ok::<HistoryEntryView, ErrorView>(x@),
            Err(e) => spec_parse_history_line(line@) == Err::<HistoryEntryView, ErrorView>(e@),
        },
{
    let cols = split_by(line, '\t');
    let ghost sc = split_on(line@, '\t');
    if cols.len() < 4 {
        let mut msg = String::from_str("expected 4 columns, got ");
        push_decimal(&mut msg, cols.len() as u64);
        return Err(FlatpakError::Parse { line: line.to_owned(), msg });
    }
    let time = match parse_time(cols[0], "%Y-%m-%d %H:%M:%S %z") {
        Ok(t) => t,
        Err(m) => {
            return Err(FlatpakError::Parse { line: cols[0].to_owned(), msg: m });
        },
    };
    assert(cols@[0]@ == sc[0] && cols@[1]@ == sc[1] && cols@[2]@ == sc[2] && cols@[3]@ == sc[3]);
    Ok(
        HistoryEntry {
            time,
            ref_: cols[1].to_owned(),
            operation: cols[2].to_owned(),
            user: cols[3].to_owned(),
        },
    )
}

proof fn lemma_history_lines_step(lines: Seq<Seq<char>>, i: int)
    requires
        0 <= i < lines.len(),
    ensures
        spec_parse_history_lines(lines.skip(i)) == (if lines[i].len() == 0 {
            spec_parse_history_lines(lines.skip(i + 1))
        } else {
            match spec_parse_history_line(lines[i]) {
                Err(e) => Err(e),
                Ok(h) => prepended(seq![h], spec_parse_history_lines(lines.skip(i + 1))),
            }
        }),
{
    assert(lines.skip(i).drop_first() == lines.skip(i + 1));
    assert(lines.skip(i)[0] == lines[i]);
}

/// Reads the output of `flatpak history --columns=...`.
#[verifier::spinoff_prover]
pub fn parse_history(input: &str) -> (r: crate::flatpak_service::Result<Vec<HistoryEntry>>)
    ensures
        match r {
            Ok(v) => spec_parse_history(input@) == Ok::<Seq<HistoryEntryView>, ErrorView>(
                v@.map_values(|x: HistoryEntry| x@),
            ),
            Err(e) => spec_parse_history(input@) == Err::<Seq<HistoryEntryView>, ErrorView>(e@),
        },
{
    let lines = text_lines(input);
    let ghost ls = lines_of(input@);
    let mut out: Vec<HistoryEntry> = Vec::new();
    let mut i: usize = 0;
    assert(ls.skip(0) == ls);
    assert(out@.map_values(|x: HistoryEntry| x@) =~= Seq::<HistoryEntryView>::empty());
    while i < lines.len()
        invariant
            i <= lines@.len() == ls.len(),
            forall|k: int| 0 <= k < lines@.len() ==> #[trigger] lines@[k]@ == ls[k],
            spec_parse_history(input@) == prepended(
                out@.map_values(|x: HistoryEntry| x@),
                spec_parse_history_lines(ls.skip(i as int)),
            ),
        decreases lines.len() - i,
    {
        let line = lines[i];
        proof {
            lemma_history_lines_step(ls, i as int);
        }
        if !line.is_empty() {
            let ghost before = out@.map_values(|x: HistoryEntry| x@);
            let x = parse_history_line(line)?;
            out.push(x);
            proof {
                assert(out@.map_values(|x: HistoryEntry| x@) =~= before.push(x@));
                lemma_prepended_push(before, x@, spec_parse_history_lines(ls.skip(i + 1)));
            }
        } else {
            assert(line@.len() == 0);
        }
        i = i + 1;
    }
    assert(ls.skip(i as int).len() == 0);
    assert(out@.map_values(|x: HistoryEntry| x@) + Seq::<HistoryEntryView>::empty() == out@.map_values(
        |x: HistoryEntry| x@,
    ));
    Ok(out)
}


// ---------------------------------------------------------------- info

/// The fields `flatpak info` fills in, as character sequences.
pub struct InfoFields {
    pub runtime: Option<Seq<char>>,
    pub sdk: Option<Seq<char>>,
    pub license: Option<Seq<char>>,
    pub installed_size: u64,
    pub commit: Seq<char>,
    pub subject: Seq<char>,
    pub date: Option<i64>,
}

/// The fields before any line is read: unknown, zero or empty.
pub open spec fn info_start() -> InfoFields {
    InfoFields {
        runtime: None,
        sdk: None,
        license: None,
        installed_size: 0,
        commit: seq![],
        subject: seq![],
        date: None,
    }
}

/// What one line of `flatpak info` sets: a `Key: value` line (split at its
/// first colon, both sides trimmed) sets the field its key names; the
/// installed size reads as 0 when it cannot be read, the date as unknown.
/// Other lines change nothing.
pub open spec fn info_step(f: InfoFields, raw: Seq<char>) -> InfoFields {
    let line = trim_end(raw);
    let c = find(line, ':');
    if c >= line.len() {
        f
    } else {
        let key = trim(line.take(c));
        let value = trim(line.skip(c + 1));
        if key == "Runtime"@ {
            InfoFields { runtime: Some(value), ..f }
        } else if key == "Sdk"@ {
            InfoFields { sdk: Some(value), ..f }
        } else if key == "License"@ {
            InfoFields { license: Some(value), ..f }
        } else if key == "Installed"@ {
            InfoFields {
                installed_size: match spec_parse_size(value) {
                    Ok(n) => n,
                    Err(_) => 0,
                },
                ..f
            }
        } else if key == "Commit"@ {
            InfoFields { commit: value, ..f }
        } else if key == "Subject"@ {
            InfoFields { subject: value, ..f }
        } else if key == "Date"@ {
            InfoFields {
                date: match parsed_time(value, history_time_format()) {
                    Ok(t) => Some(t),
                    Err(_) => None,
                },
                ..f
            }
        } else {
            f
        }
    }
}

/// The fields after reading the lines in order; a later line overrides an earlier one.
pub open spec fn info_fields(lines: Seq<Seq<char>>) -> InfoFields
    decreases lines.len(),
{
    if lines.len() == 0 {
        info_start()
    } else {
        info_step(info_fields(lines.drop_last()), lines.last())
    }
}

/// The view of an optional string.
pub open spec fn opt_text(o: Option<String>) -> Option<Seq<char>> {
    match o {
        Some(s) => Some(s@),
        None => None,
    }
}

/// The fields of `flatpak info` that a detail holds.
pub open spec fn detail_fields(d: AppDetail) -> InfoFields {
    InfoFields {
        runtime: opt_text(d.runtime),
        sdk: opt_text(d.sdk),
        license: opt_text(d.license),
        installed_size: d.installed_size,
        commit: d.commit@,
        subject: d.subject@,
        date: d.date,
    }
}

fn info_apply(d: &mut AppDetail, raw: &str)
    ensures
        detail_fields(*final(d)) == info_step(detail_fields(*old(d)), raw@),
        final(d).basic == old(d).basic,
        final(d).permissions == old(d).permissions,
{
    let line = trimmed_end(raw);
    let v = chars_of(line);
    let c = find_from(&v, 0, ':');
    assert(v@.skip(0) == v@);
    if c == v.len() {
        return;
    }
    let key = trimmed(line.substring_char(0, c));
    let value_str = trimmed(line.substring_char(c + 1, v.len()));
    assert(line@.take(c as int) == line@.subrange(0, c as int));
    assert(line@.skip(c + 1) == line@.subrange(c + 1, v.len() as int));
    let value = value_str.to_owned();
    proof {
        reveal_strlit("Runtime");
        reveal_strlit("Sdk");
        reveal_strlit("License");
        reveal_strlit("Installed");
        reveal_strlit("Commit");
        reveal_strlit("Subject");
        reveal_strlit("Date");
    }
    if str_eq(key, "Runtime") {
        d.runtime = Some(value);
    } else if str_eq(key, "Sdk") {
        d.sdk = Some(value);
    } else if str_eq(key, "License") {
        d.license = Some(value);
    } else if str_eq(key, "Installed") {
        d.installed_size = match parse_size(value_str) {
            Ok(n) => n,
            Err(_) => 0,
        };
    } else if str_eq(key, "Commit") {
        d.commit = value;
    } else if str_eq(key, "Subject") {
        d.subject = value;
    } else if str_eq(key, "Date") {
        d.date = match parse_time(value_str, "%Y-%m-%d %H:%M:%S %z") {
            Ok(t) => Some(t),
            Err(_) => None,
        };
    }
}

/// Reads the output of `flatpak info <ref>` into the details of `basic`; the
/// permissions are read separately.
#[verifier::spinoff_prover]
pub fn parse_info(text: &str, basic: AppRef) -> (r: crate::flatpak_service::Result<AppDetail>)
    ensures
        r matches Ok(d) && d.basic == basic && detail_fields(d) == info_fields(lines_of(text@))
            && d.permissions@.len() == 0,
{
    let lines = text_lines(text);
    let ghost ls = lines_of(text@);
    let mut d = AppDetail {
        basic,
        runtime: None,
        sdk: None,
        license: None,
        installed_size: 0,
        commit: String::new(),
        subject: String::new(),
        date: None,
        permissions: Vec::new(),
    };
    let mut i: usize = 0;
    assert(detail_fields(d) == info_start());
    assert(ls.take(0) =~= Seq::<Seq<char>>::empty());
    while i < lines.len()
        invariant
            i <= lines@.len() == ls.len(),
            forall|k: int| 0 <= k < lines@.len() ==> #[trigger] lines@[k]@ == ls[k],
            d.basic == basic,
            d.permissions@.len() == 0,
            detail_fields(d) == info_fields(ls.take(i as int)),
        decreases lines.len() - i,
    {
        info_apply(&mut d, lines[i]);
        assert(ls.take(i + 1).drop_last() == ls.take(i as int));
        assert(ls.take(i + 1).last() == lines@[i as int]@);
        i = i + 1;
    }
    assert(ls.take(ls.len() as int) == ls);
    Ok(d)
}

// ---------------------------------------------------------------- permissions

/// The permission table a line of `flatpak permissions` describes: the
/// trimmed line's text before its first tab names the table, the words after
/// it are the entries; blank lines and lines without a tab describe none.
pub open spec fn permission_of_line(raw: Seq<char>) -> Option<PermissionView> {
    let line = trim(raw);
    let t = find(line, '\t');
    if line.len() == 0 || t >= line.len() {
        None
    } else {
        Some(PermissionView { table: line.take(t), entries: words(line.skip(t + 1)) })
    }
}

/// The permission tables of a run of lines, in order.
pub open spec fn permissions_of_lines(lines: Seq<Seq<char>>) -> Seq<PermissionView>
    decreases lines.len(),
{
    if lines.len() == 0 {
        seq![]
    } else {
        match permission_of_line(lines.last()) {
            Some(p) => permissions_of_lines(lines.drop_last()).push(p),
            None => permissions_of_lines(lines.drop_last()),
        }
    }
}

/// Reads the output of `flatpak permissions`.
#[verifier::spinoff_prover]
pub fn parse_permissions(text: &str) -> (r: Vec<Permission>)
    ensures
        r@.map_values(|p: Permission| p@) == permissions_of_lines(lines_of(text@)),
{
    let lines = text_lines(text);
    let ghost ls = lines_of(text@);
    let mut out: Vec<Permission> = Vec::new();
    let mut i: usize = 0;
    assert(ls.take(0) =~= Seq::<Seq<char>>::empty());
    assert(out@.map_values(|p: Permission| p@) =~= Seq::<PermissionView>::empty());
    while i < lines.len()
        invariant
            i <= lines@.len() == ls.len(),
            forall|k: int| 0 <= k < lines@.len() ==> #[trigger] lines@[k]@ == ls[k],
            out@.map_values(|p: Permission| p@) == permissions_of_lines(ls.take(i as int)),
        decreases lines.len() - i,
    {
        let line = trimmed(lines[i]);
        assert(ls.take(i + 1).drop_last() == ls.take(i as int));
        assert(ls.take(i + 1).last() == lines@[i as int]@);
        let v = chars_of(line);
        let t = find_from(&v, 0, '\t');
        assert(v@.skip(0) == v@);
        if v.len() > 0 && t < v.len() {
            let table = line.substring_char(0, t).to_owned();
            let entries = split_whitespace(line.substring_char(t + 1, v.len()));
            assert(line@.take(t as int) == line@.subrange(0, t as int));
            assert(line@.skip(t + 1) == line@.subrange(t + 1, v.len() as int));
            let ghost before = out@.map_values(|p: Permission| p@);
            let p = Permission { table, entries };
            out.push(p);
            assert(out@.map_values(|p: Permission| p@) =~= before.push(p@));
        }
        i = i + 1;
    }
    assert(ls.take(ls.len() as int) == ls);
    out
}

// ---------------------------------------------------------------- search

/// The hit one line of `flatpak search
/// --columns=name,description,application,version,branch,remotes` describes:
/// none for an empty line or one with fewer than six columns; the remotes
/// column names the remotes separated by commas.
pub open spec fn search_hit_of_line(line: Seq<char>) -> Option<SearchHitView> {
    let c = split_on(line, '\t');
    if line.len() == 0 || c.len() < 6 {
        None
    } else {
        Some(
            SearchHitView {
                name: c[0],
                id: c[2],
                description: c[1],
                version: c[3],
                branch: c[4],
                remotes: split_on(c[5], ','),
            },
        )
    }
}

/// A hit read from a `flatpak search` line takes name, description, id,
/// version and branch from columns 0 to 4 and its remotes from the pieces of
/// column 5 between commas; empty lines and lines with fewer than six columns
/// give no hit.
pub proof fn law_search_line_columns(line: Seq<char>)
    ensures
        ({
            let c = split_on(line, '\t');
            &&& (search_hit_of_line(line) is Some <==> (line.len() > 0 && c.len() >= 6))
            &&& (search_hit_of_line(line) matches Some(h) ==> {
                &&& h.name == c[0]
                &&& h.description == c[1]
                &&& h.id == c[2]
                &&& h.version == c[3]
                &&& h.branch == c[4]
                &&& h.remotes == split_on(c[5], ',')
            })
        }),
{
}

/// The hits of a run of lines, in order.
pub open spec fn search_hits_of_lines(lines: Seq<Seq<char>>) -> Seq<SearchHitView>
    decreases lines.len(),
{
    if lines.len() == 0 {
        seq![]
    } else {
        match search_hit_of_line(lines.last()) {
            Some(h) => search_hits_of_lines(lines.drop_last()).push(h),
            None => search_hits_of_lines(lines.drop_last()),
        }
    }
}

fn owned_pieces(pieces: &Vec<&str>) -> (r: Vec<String>)
    ensures
        r@.map_values(|x: String| x@) == pieces@.map_values(|x: &str| x@),
{
    let mut out: Vec<String> = Vec::new();
    let mut k: usize = 0;
    while k < pieces.len()
        invariant
            k <= pieces.len(),
            out@.len() == k,
            forall|j: int| 0 <= j < k ==> #[trigger] out@[j]@ == pieces@[j]@,
        decreases pieces.len() - k,
    {
        out.push(pieces[k].to_owned());
        k = k + 1;
    }
    assert(out@.map_values(|x: String| x@) =~= pieces@.map_values(|x: &str| x@));
    out
}

/// Reads the output of `flatpak search` into its hits, skipping the lines
/// that do not describe one.
#[verifier::spinoff_prover]
pub fn parse_search(text: &str) -> (r: Vec<SearchHit>)
    ensures
        r@.map_values(|h: SearchHit| h@) == search_hits_of_lines(lines_of(text@)),
{
    let lines = text_lines(text);
    let ghost ls = lines_of(text@);
    let mut out: Vec<SearchHit> = Vec::new();
    let mut i: usize = 0;
    assert(ls.take(0) =~= Seq::<Seq<char>>::empty());
    assert(out@.map_values(|h: SearchHit| h@) =~= Seq::<SearchHitView>::empty());
    while i < lines.len()
        invariant
            i <= lines@.len() == ls.len(),
            forall|k: int| 0 <= k < lines@.len() ==> #[trigger] lines@[k]@ == ls[k],
            out@.map_values(|h: SearchHit| h@) == search_hits_of_lines(ls.take(i as int)),
        decreases lines.len() - i,
    {
        let line = lines[i];
        assert(ls.take(i + 1).drop_last() == ls.take(i as int));
        assert(ls.take(i + 1).last() == lines@[i as int]@);
        let cols = split_by(line, '\t');
        if !line.is_empty() && cols.len() >= 6 {
            let ghost c = split_on(line@, '\t');
            let rs = split_by(cols[5], ',');
            let remotes = owned_pieces(&rs);
            assert(rs@.map_values(|x: &str| x@) =~= split_on(c[5], ','));
            let hit = SearchHit {
                name: cols[0].to_owned(),
                id: cols[2].to_owned(),
                description: cols[1].to_owned(),
                version: cols[3].to_owned(),
                branch: cols[4].to_owned(),
                remotes,
            };
            assert(cols@[0]@ == c[0] && cols@[1]@ == c[1] && cols@[2]@ == c[2]);
            assert(cols@[3]@ == c[3] && cols@[4]@ == c[4] && cols@[5]@ == c[5]);
            let ghost before = out@.map_values(|h: SearchHit| h@);
            out.push(hit);
            assert(out@.map_values(|h: SearchHit| h@) =~= before.push(hit@));
        }
        i = i + 1;
    }
    assert(ls.take(ls.len() as int) == ls);
    out
}

} // verus!
