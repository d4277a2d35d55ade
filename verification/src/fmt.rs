//! Text forms of numbers and booleans as the firmware writes and reads them:
//! decimal integers, two-digit lowercase hex bytes, `true`/`false`, and the
//! lenient integer parsing applied to attribute values.

use vstd::prelude::*;

verus! {

/// The ASCII digit for `d < 16`, lowercase for `a`–`f`.
pub open spec fn hex_char(d: nat) -> char {
    if d < 10 {
        (48 + d) as char
    } else {
        (87 + d) as char
    }
}

/// The decimal digits of `n`, most significant first, with no leading zeros.
pub open spec fn dec(n: nat) -> Seq<char>
    decreases n,
{
    if n < 10 {
        seq![hex_char(n)]
    } else {
        dec(n / 10) + seq![hex_char(n % 10)]
    }
}

/// The decimal text of a signed number.
pub open spec fn dec_signed(n: int) -> Seq<char> {
    if n < 0 {
        seq!['-'] + dec((-n) as nat)
    } else {
        dec(n as nat)
    }
}

/// A byte as two lowercase hex digits.
pub open spec fn hex2(b: u8) -> Seq<char> {
    seq![hex_char((b / 16) as nat), hex_char((b % 16) as nat)]
}

/// The one-character string for digit `d`.
fn digit_str(d: u8) -> (s: &'static str)
    requires
        d < 16,
    ensures
        s@ == seq![hex_char(d as nat)],
{
    match d {
        0 => { proof { reveal_strlit("0"); } "0" },
        1 => { proof { reveal_strlit("1"); } "1" },
        2 => { proof { reveal_strlit("2"); } "2" },
        3 => { proof { reveal_strlit("3"); } "3" },
        4 => { proof { reveal_strlit("4"); } "4" },
        5 => { proof { reveal_strlit("5"); } "5" },
        6 => { proof { reveal_strlit("6"); } "6" },
        7 => { proof { reveal_strlit("7"); } "7" },
        8 => { proof { reveal_strlit("8"); } "8" },
        9 => { proof { reveal_strlit("9"); } "9" },
        10 => { proof { reveal_strlit("a"); } "a" },
        11 => { proof { reveal_strlit("b"); } "b" },
        12 => { proof { reveal_strlit("c"); } "c" },
        13 => { proof { reveal_strlit("d"); } "d" },
        14 => { proof { reveal_strlit("e"); } "e" },
        _ => { proof { reveal_strlit("f"); } "f" },
    }
}

/// Append the decimal text of `n`.
pub fn push_dec(out: &mut String, n: u64)
    ensures
        final(out)@ == old(out)@ + dec(n as nat),
    decreases n,
{
    if n < 10 {
        out.append(digit_str(n as u8));
    } else {
        push_dec(out, n / 10);
        out.append(digit_str((n % 10) as u8));
        assert(out@ == old(out)@ + dec(n as nat));
    }
}

/// The decimal text of `n`.
pub fn u64_to_string(n: u64) -> (s: String)
    ensures
        s@ == dec(n as nat),
{
    let mut s = String::new();
    push_dec(&mut s, n);
    s
}

/// The decimal text of a signed `n`, with a leading `-` when negative.
pub fn i64_to_string(n: i64) -> (s: String)
    ensures
        s@ == dec_signed(n as int),
{
    let mut s = String::new();
    if n < 0 {
        proof { reveal_strlit("-"); }
        s.append("-");
        let mag: u64 = if n == i64::MIN { 0x8000_0000_0000_0000u64 } else { (-n) as u64 };
        push_dec(&mut s, mag);
    } else {
        push_dec(&mut s, n as u64);
    }
    s
}

/// Append `b` as two lowercase hex digits.
pub fn push_hex2(out: &mut String, b: u8)
    ensures
        final(out)@ == old(out)@ + hex2(b),
{
    out.append(digit_str(b / 16));
    out.append(digit_str(b % 16));
}

/// The lowercase boolean string the firmware expects in attributes.
pub fn bool_str(b: bool) -> (s: &'static str)
    ensures
        s@ == bool_text(b),
{
    if b {
        proof { reveal_strlit("true"); }
        "true"
    } else {
        proof { reveal_strlit("false"); }
        "false"
    }
}

/// `"true"` or `"false"`.
pub open spec fn bool_text(b: bool) -> Seq<char> {
    if b {
        seq!['t', 'r', 'u', 'e']
    } else {
        seq!['f', 'a', 'l', 's', 'e']
    }
}

/// `c` is an ASCII decimal digit.
pub open spec fn is_digit(c: char) -> bool {
    '0' <= c && c <= '9'
}

/// Every character of `s` is a decimal digit.
pub open spec fn all_digits(s: Seq<char>) -> bool {
    forall|i: int| 0 <= i < s.len() ==> #[trigger] is_digit(s[i])
}

/// The value of a run of decimal digits.
pub open spec fn digits_val(s: Seq<char>) -> nat
    decreases s.len(),
{
    if s.len() == 0 {
        0
    } else {
        digits_val(s.drop_last()) * 10 + ((s.last() as int - 48) as nat)
    }
}

/// Unsigned integer parsing: an optional `+`, then one or more ASCII digits
/// whose value is at most `max`; anything else is rejected.
pub open spec fn parse_uint_spec(s: Seq<char>, max: int) -> Option<nat> {
    let body = if s.len() > 0 && s[0] == '+' { s.drop_first() } else { s };
    if body.len() > 0 && all_digits(body) && digits_val(body) <= max {
        Some(digits_val(body))
    } else {
        None
    }
}

/// Signed integer parsing: an optional `+` or `-`, then one or more ASCII
/// digits, with the value inside `min..=max`.
pub open spec fn parse_int_spec(s: Seq<char>, min: int, max: int) -> Option<int> {
    if s.len() > 0 && s[0] == '-' {
        let body = s.drop_first();
        if body.len() > 0 && all_digits(body) && -(digits_val(body) as int) >= min {
            Some(-(digits_val(body) as int))
        } else {
            None
        }
    } else {
        match parse_uint_spec(s, max) {
            Some(v) => Some(v as int),
            None => None,
        }
    }
}

/// Unicode `White_Space`, the set `str::trim` strips.
pub open spec fn is_ws(c: char) -> bool {
    ('\u{9}' <= c && c <= '\u{d}') || c == ' ' || c == '\u{85}' || c == '\u{a0}' || c == '\u{1680}'
        || ('\u{2000}' <= c && c <= '\u{200a}') || c == '\u{2028}' || c == '\u{2029}' || c
        == '\u{202f}' || c == '\u{205f}' || c == '\u{3000}'
}

/// `s` without its leading whitespace.
pub open spec fn trim_start(s: Seq<char>) -> Seq<char>
    decreases s.len(),
{
    if s.len() > 0 && is_ws(s[0]) {
        trim_start(s.drop_first())
    } else {
        s
    }
}

/// `s` without its trailing whitespace.
pub open spec fn trim_end(s: Seq<char>) -> Seq<char>
    decreases s.len(),
{
    if s.len() > 0 && is_ws(s.last()) {
        trim_end(s.drop_last())
    } else {
        s
    }
}

/// `s` without leading or trailing whitespace.
pub open spec fn trim(s: Seq<char>) -> Seq<char> {
    trim_end(trim_start(s))
}

fn is_ws_char(c: char) -> (b: bool)
    ensures
        b == is_ws(c),
{
    ('\u{9}' <= c && c <= '\u{d}') || c == ' ' || c == '\u{85}' || c == '\u{a0}' || c == '\u{1680}'
        || ('\u{2000}' <= c && c <= '\u{200a}') || c == '\u{2028}' || c == '\u{2029}' || c
        == '\u{202f}' || c == '\u{205f}' || c == '\u{3000}'
}

proof fn lemma_trim_start_skip(s: Seq<char>, i: int)
    requires
        0 <= i <= s.len(),
        forall|k: int| 0 <= k < i ==> #[trigger] is_ws(s[k]),
    ensures
        trim_start(s) == trim_start(s.subrange(i, s.len() as int)),
    decreases i,
{
    if i > 0 {
        assert(s.drop_first().subrange(i - 1, s.drop_first().len() as int) =~= s.subrange(
            i,
            s.len() as int,
        ));
        lemma_trim_start_skip(s.drop_first(), i - 1);
    } else {
        assert(s.subrange(0, s.len() as int) =~= s);
    }
}

proof fn lemma_trim_end_skip(s: Seq<char>, j: int)
    requires
        0 <= j <= s.len(),
        forall|k: int| j <= k < s.len() ==> #[trigger] is_ws(s[k]),
    ensures
        trim_end(s) == trim_end(s.subrange(0, j)),
    decreases s.len() - j,
{
    if j < s.len() {
        assert(s.drop_last().subrange(0, j) =~= s.subrange(0, j));
        lemma_trim_end_skip(s.drop_last(), j);
    } else {
        assert(s.subrange(0, j) =~= s);
    }
}

/// `s` with leading and trailing Unicode whitespace removed.
pub fn trim_str(s: &str) -> (t: &str)
    ensures
        t@ == trim(s@),
{
    let n = s.unicode_len();
    let mut i: usize = 0;
    while i < n && is_ws_char(s.get_char(i))
        invariant
            n == s@.len(),
            i <= n,
            forall|k: int| 0 <= k < i ==> #[trigger] is_ws(s@[k]),
        decreases n - i,
    {
        i = i + 1;
    }
    proof {
        lemma_trim_start_skip(s@, i as int);
    }
    let ghost rest = s@.subrange(i as int, n as int);
    assert(trim_start(rest) == rest);
    let mut j: usize = n;
    while j > i && is_ws_char(s.get_char(j - 1))
        invariant
            n == s@.len(),
            i <= j <= n,
            forall|k: int| j <= k < n ==> #[trigger] is_ws(s@[k]),
        decreases j,
    {
        j = j - 1;
    }
    proof {
        assert forall|k: int| j - i <= k < rest.len() implies #[trigger] is_ws(rest[k]) by {
            assert(rest[k] == s@[k + i]);
        }
        lemma_trim_end_skip(rest, j - i);
        assert(rest.subrange(0, j - i) =~= s@.subrange(i as int, j as int));
        let r = s@.subrange(i as int, j as int);
        assert(r.len() == 0 || !is_ws(r.last()));
    }
    s.substring_char(i, j)
}

/// ASCII lowercase of `c`; other characters unchanged.
pub open spec fn ascii_lower(c: char) -> char {
    if 'A' <= c && c <= 'Z' {
        ((c as int) + 32) as char
    } else {
        c
    }
}

/// Whether `s` reads as `true`, ignoring ASCII case.
pub open spec fn is_true_text(s: Seq<char>) -> bool {
    s.len() == 4 && ascii_lower(s[0]) == 't' && ascii_lower(s[1]) == 'r' && ascii_lower(s[2])
        == 'u' && ascii_lower(s[3]) == 'e'
}

fn lower_char(c: char) -> (r: char)
    ensures
        r == ascii_lower(c),
{
    if 'A' <= c && c <= 'Z' {
        ((c as u32 + 32) as u8) as char
    } else {
        c
    }
}

/// Parse an SDK boolean the lenient way the firmware writes them:
/// `true` in any ASCII case is true, everything else false.
pub fn parse_bool(s: &str) -> (b: bool)
    ensures
        b == is_true_text(s@),
{
    if s.unicode_len() != 4 {
        return false;
    }
    lower_char(s.get_char(0)) == 't' && lower_char(s.get_char(1)) == 'r' && lower_char(
        s.get_char(2),
    ) == 'u' && lower_char(s.get_char(3)) == 'e'
}

/// `a` and `b` are equal ignoring ASCII case.
pub open spec fn eq_ignore_ascii_case_spec(a: Seq<char>, b: Seq<char>) -> bool {
    a.len() == b.len() && forall|i: int| 0 <= i < a.len() ==> ascii_lower(#[trigger] a[i]) == ascii_lower(b[i])
}

/// Whether `a` and `b` are equal ignoring ASCII case.
pub fn eq_ignore_ascii_case(a: &str, b: &str) -> (r: bool)
    ensures
        r == eq_ignore_ascii_case_spec(a@, b@),
{
    let n = a.unicode_len();
    if n != b.unicode_len() {
        return false;
    }
    let mut i: usize = 0;
    while i < n
        invariant
            n == a@.len(),
            n == b@.len(),
            i <= n,
            forall|j: int| 0 <= j < i ==> ascii_lower(#[trigger] a@[j]) == ascii_lower(b@[j]),
        decreases n - i,
    {
        if lower_char(a.get_char(i)) != lower_char(b.get_char(i)) {
            return false;
        }
        i = i + 1;
    }
    true
}

proof fn lemma_digits_monotone(s: Seq<char>, i: int)
    requires
        0 <= i <= s.len(),
        all_digits(s),
    ensures
        digits_val(s.subrange(0, i)) <= digits_val(s),
    decreases s.len() - i,
{
    if i < s.len() {
        lemma_digits_monotone(s, i + 1);
        let p = s.subrange(0, i + 1);
        assert(p.drop_last() =~= s.subrange(0, i));
        assert(is_digit(p.last())) by {
            assert(p.last() == s[i]);
        }
    } else {
        assert(s.subrange(0, i) =~= s);
    }
}

/// Parse `body` as digits only, accepting values up to `max`.
fn parse_digits(s: &str, from: usize, n: usize, max: u64) -> (r: Option<u64>)
    requires
        n == s@.len(),
        from <= n,
    ensures
        ({
            let body = s@.subrange(from as int, n as int);
            r == (if body.len() > 0 && all_digits(body) && digits_val(body) <= max {
                Some(digits_val(body) as u64)
            } else {
                None::<u64>
            })
        }),
{
    let ghost body = s@.subrange(from as int, n as int);
    if from == n {
        return None;
    }
    let mut acc: u64 = 0;
    let mut i: usize = from;
    while i < n
        invariant
            n == s@.len(),
            from <= i <= n,
            body == s@.subrange(from as int, n as int),
            all_digits(s@.subrange(from as int, i as int)),
            acc == digits_val(s@.subrange(from as int, i as int)),
            acc <= max,
        decreases n - i,
    {
        let c = s.get_char(i);
        if !('0' <= c && c <= '9') {
            proof {
                assert(!is_digit(body[i - from]));
            }
            return None;
        }
        let d = (c as u32 - 48) as u64;
        let ghost pre = s@.subrange(from as int, i as int);
        let ghost next = s@.subrange(from as int, i + 1);
        proof {
            assert(next.drop_last() =~= pre);
            assert forall|k: int| 0 <= k < next.len() implies #[trigger] is_digit(next[k]) by {
                if k < pre.len() {
                    assert(next[k] == pre[k]);
                }
            }
        }
        if d > max || acc > (max - d) / 10 {
            proof {
                if d <= max {
                    assert(acc * 10 + d > max) by (nonlinear_arith)
                        requires acc > (max - d) / 10, d <= max;
                }
                if all_digits(body) {
                    assert(next =~= body.subrange(0, i + 1 - from));
                    lemma_digits_monotone(body, i + 1 - from);
                }
            }
            return None;
        }
        proof {
            assert(acc * 10 + d <= max) by (nonlinear_arith)
                requires acc <= (max - d) / 10, d <= max;
        }
        acc = acc * 10 + d;
        i = i + 1;
    }
    assert(s@.subrange(from as int, n as int) =~= body);
    Some(acc)
}
/// Parse an unsigned integer: optional `+`, digits, value at most `max`.
pub fn parse_uint(s: &str, max: u64) -> (r: Option<u64>)
    ensures
        r == (match parse_uint_spec(s@, max as int) {
            Some(v) => Some(v as u64),
            None => None::<u64>,
        }),
{
    let n = s.unicode_len();
    let from: usize = if n > 0 && s.get_char(0) == '+' { 1 } else { 0 };
    proof {
        if from == 1 {
            assert(s@.subrange(1, n as int) =~= s@.drop_first());
        } else {
            assert(s@.subrange(0, n as int) =~= s@);
        }
    }
    parse_digits(s, from, n, max)
}

/// Parse `s` (surrounding whitespace ignored) as an unsigned integer no
/// larger than `max`, keeping `default` when it does not parse, so that a
/// malformed attribute never fails a whole reply.
pub fn parse_int_or(s: &str, default: u64, max: u64) -> (r: u64)
    ensures
        r == (match parse_uint_spec(trim(s@), max as int) {
            Some(v) => v as u64,
            None => default,
        }),
{
    match parse_uint(trim_str(s), max) {
        Some(v) => v,
        None => default,
    }
}

/// Parse `s` (surrounding whitespace ignored) as an `i64`, keeping `default`
/// when it does not parse.
pub fn parse_i64_or(s: &str, default: i64) -> (r: i64)
    ensures
        r == (match parse_int_spec(trim(s@), i64::MIN as int, i64::MAX as int) {
            Some(v) => v as i64,
            None => default,
        }),
{
    let t = trim_str(s);
    let n = t.unicode_len();
    if n > 0 && t.get_char(0) == '-' {
        assert(t@.subrange(1, n as int) =~= t@.drop_first());
        match parse_digits(t, 1, n, 0x8000_0000_0000_0000u64) {
            Some(m) => {
                if m == 0x8000_0000_0000_0000u64 {
                    i64::MIN
                } else {
                    -(m as i64)
                }
            },
            None => default,
        }
    } else {
        match parse_uint(t, 0x7fff_ffff_ffff_ffffu64) {
            Some(v) => v as i64,
            None => default,
        }
    }
}

proof fn lemma_dec_digits(n: nat)
    ensures
        dec(n).len() > 0,
        all_digits(dec(n)),
        digits_val(dec(n)) == n,
        !is_ws(dec(n)[0]),
        !is_ws(dec(n).last()),
        dec(n)[0] != '+',
        dec(n)[0] != '-',
    decreases n,
{
    if n >= 10 {
        lemma_dec_digits(n / 10);
        let d = dec(n);
        assert(d.drop_last() =~= dec(n / 10));
        assert forall|i: int| 0 <= i < d.len() implies #[trigger] is_digit(d[i]) by {
            if i < d.len() - 1 {
                assert(d[i] == dec(n / 10)[i]);
            }
        }
        assert(d[0] == dec(n / 10)[0]);
        assert(d.last() == hex_char(n % 10));
        assert(hex_char(n % 10) as int == 48 + n % 10);
        assert(n == (n / 10) * 10 + n % 10);
        assert(digits_val(d.drop_last()) == n / 10);
        assert(((d.last() as int - 48) as nat) == n % 10);
        assert(digits_val(d) == digits_val(d.drop_last()) * 10 + ((d.last() as int - 48) as nat));
    } else {
        assert(hex_char(n) as int == 48 + n);
        assert(dec(n).drop_last() =~= Seq::<char>::empty());
        assert(digits_val(dec(n).drop_last()) == 0);
        assert(dec(n).last() == hex_char(n));
    }
}

/// The decimal text of `n` is its base-10 numeral, most significant digit
/// first, with no leading zero.
pub proof fn lemma_dec_numeral(n: nat)
    ensures
        all_digits(dec(n)),
        digits_val(dec(n)) == n,
        dec(n).len() > 1 ==> dec(n)[0] != '0',
    decreases n,
{
    lemma_dec_digits(n);
    if n >= 10 {
        let m = n / 10;
        lemma_dec_numeral(m);
        assert(dec(n) == dec(m) + seq![hex_char(n % 10)]);
        assert(dec(n)[0] == dec(m)[0]);
        if m < 10 {
            assert(dec(m) == seq![hex_char(m)]);
            assert(hex_char(m) as int == 48 + m);
        } else {
            lemma_dec_digits(m / 10);
            assert(dec(m) == dec(m / 10) + seq![hex_char(m % 10)]);
        }
    }
}

/// A byte's two hex digits are lowercase hex digits, high nibble first:
/// their base-16 value is the byte.
pub proof fn lemma_hex2_value(b: u8)
    ensures
        hex2(b).len() == 2,
        forall|i: int| 0 <= i < 2 ==> ('0' <= #[trigger] hex2(b)[i] <= '9' || 'a' <= hex2(b)[i] <= 'f'),
        hex_digit_value(hex2(b)[0]) * 16 + hex_digit_value(hex2(b)[1]) == b,
{
    let hi = (b / 16) as nat;
    let lo = (b % 16) as nat;
    assert(hex_char(hi) as int == if hi < 10 { 48 + hi } else { 87 + hi });
    assert(hex_char(lo) as int == if lo < 10 { 48 + lo } else { 87 + lo });
}

/// The value of a lowercase hex digit.
pub open spec fn hex_digit_value(c: char) -> int {
    if '0' <= c && c <= '9' {
        c as int - 48
    } else {
        c as int - 87
    }
}

/// Reading back the decimal text of `n` gives `n`, whenever `n` fits.
pub proof fn lemma_parse_dec(n: nat, max: int)
    requires
        n <= max,
    ensures
        parse_uint_spec(trim(dec(n)), max) == Some(n),
{
    lemma_dec_digits(n);
    assert(trim_start(dec(n)) == dec(n));
    assert(trim_end(dec(n)) == dec(n));
}

/// Reading back the decimal text of a signed `n` gives `n`, whenever it fits.
pub proof fn lemma_parse_dec_signed(n: int, min: int, max: int)
    requires
        min <= n <= max,
    ensures
        parse_int_spec(trim(dec_signed(n)), min, max) == Some(n),
{
    if n < 0 {
        let m = (-n) as nat;
        lemma_dec_digits(m);
        let t = dec_signed(n);
        assert(t.drop_first() =~= dec(m));
        assert(!is_ws(t[0]));
        assert(t.last() == dec(m).last());
        assert(trim_start(t) == t);
        assert(trim_end(t) == t);
    } else {
        lemma_parse_dec(n as nat, max);
        lemma_dec_digits(n as nat);
    }
}
/// Whether two strings hold the same characters.
pub fn str_eq(a: &str, b: &str) -> (r: bool)
    ensures
        r == (a@ == b@),
{
    let n = a.unicode_len();
    if n != b.unicode_len() {
        return false;
    }
    let mut i: usize = 0;
    while i < n
        invariant
            n == a@.len(),
            n == b@.len(),
            i <= n,
            forall|k: int| 0 <= k < i ==> a@[k] == b@[k],
        decreases n - i,
    {
        if a.get_char(i) != b.get_char(i) {
            return false;
        }
        i = i + 1;
    }
    assert(a@ =~= b@);
    true
}

} // verus!
