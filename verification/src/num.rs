use vstd::prelude::*;
use vstd::string::*;

verus! {

/// `c` is an ASCII decimal digit.
pub open spec fn is_digit(c: char) -> bool {
    '0' <= c && c <= '9'
}

/// The value of the decimal digit `c`.
pub open spec fn digit_value(c: char) -> int {
    (c as int) - ('0' as int)
}

/// The decimal digit for `d`, for `0 <= d < 10`.
pub open spec fn digit_char(d: int) -> char {
    (('0' as int) + d) as char
}

/// Every character of `s` is a decimal digit.
pub open spec fn all_digits(s: Seq<char>) -> bool {
    forall|i: int| 0 <= i < s.len() ==> is_digit(#[trigger] s[i])
}

/// The number that the decimal digits `s` spell, most significant first.
pub open spec fn digits_value(s: Seq<char>) -> int
    decreases s.len(),
{
    if s.len() == 0 {
        0
    } else {
        digits_value(s.drop_last()) * 10 + digit_value(s.last())
    }
}

/// What `str::parse::<i64>` gives for the text `s`: an optional sign, then
/// one or more decimal digits, whose value must fit an `i64`.
pub open spec fn spec_parse_i64(s: Seq<char>) -> Option<i64> {
    let signed = s.len() > 0 && (s[0] == '-' || s[0] == '+');
    let body = if signed {
        s.drop_first()
    } else {
        s
    };
    if body.len() == 0 || !all_digits(body) {
        None
    } else {
        let v = if s.len() > 0 && s[0] == '-' {
            -digits_value(body)
        } else {
            digits_value(body)
        };
        if i64::MIN <= v <= i64::MAX {
            Some(v as i64)
        } else {
            None
        }
    }
}

/// The decimal digits of `n`, most significant first, without leading zeros.
pub open spec fn nat_digits(n: nat) -> Seq<char>
    decreases n,
{
    if n < 10 {
        seq![digit_char(n as int)]
    } else {
        nat_digits(n / 10) + seq![digit_char((n % 10) as int)]
    }
}

/// How an `i64` is written in decimal (as `Display` writes it).
pub open spec fn spec_format_i64(n: i64) -> Seq<char> {
    if n < 0 {
        seq!['-'] + nat_digits((-n) as nat)
    } else {
        nat_digits(n as nat)
    }
}

/// Calls `String::push`, which appends the character `c` to `s`; the
/// contract says just that.
#[verifier::external_body]
pub(crate) fn push_char(s: &mut String, c: char)
    ensures
        final(s)@ == old(s)@.push(c),
{
    s.push(c)
}

proof fn lemma_digits_value_nonneg(s: Seq<char>)
    requires
        all_digits(s),
    ensures
        digits_value(s) >= 0,
    decreases s.len(),
{
    if s.len() > 0 {
        lemma_digits_value_nonneg(s.drop_last());
        assert(is_digit(s[s.len() - 1]));
    }
}

/// A prefix of a digit string never spells a larger number than the whole.
proof fn lemma_digits_value_prefix(s: Seq<char>, k: int)
    requires
        all_digits(s),
        0 <= k <= s.len(),
    ensures
        digits_value(s.take(k)) <= digits_value(s),
    decreases s.len(),
{
    if k < s.len() {
        let t = s.drop_last();
        lemma_digits_value_prefix(t, k);
        assert(t.take(k) =~= s.take(k));
        lemma_digits_value_nonneg(t);
        assert(is_digit(s[s.len() - 1]));
    } else {
        assert(s.take(k) =~= s);
    }
}

/// Reads an `i64` written in decimal, as `str::parse::<i64>` does.
pub fn parse_i64(s: &str) -> (r: Option<i64>)
    ensures
        r == spec_parse_i64(s@),
{
    let len: usize = s.unicode_len();
    let mut start: usize = 0;
    let mut neg = false;
    if len > 0 {
        let c0 = s.get_char(0);
        if c0 == '-' {
            start = 1;
            neg = true;
        } else if c0 == '+' {
            start = 1;
        }
    }
    let ghost body = s@.subrange(start as int, len as int);
    proof {
        if start == 1 {
            assert(body =~= s@.drop_first());
        } else {
            assert(body =~= s@);
        }
    }
    if start == len {
        return None;
    }
    let mut acc: i128 = 0;
    let mut i: usize = start;
    while i < len
        invariant
            len == s@.len(),
            start <= i <= len,
            body == s@.subrange(start as int, len as int),
            body == (if s@.len() > 0 && (s@[0] == '-' || s@[0] == '+') {
                s@.drop_first()
            } else {
                s@
            }),
            body.len() > 0,
            neg == (s@.len() > 0 && s@[0] == '-'),
            all_digits(s@.subrange(start as int, i as int)),
            acc == digits_value(s@.subrange(start as int, i as int)),
            0 <= acc <= 9223372036854775808,
        decreases len - i,
    {
        let c = s.get_char(i);
        if !('0' <= c && c <= '9') {
            proof {
                assert(body[i - start] == c);
            }
            return None;
        }
        let d: u32 = (c as u32) - ('0' as u32);
        acc = acc * 10 + (d as i128);
        let ghost pre = s@.subrange(start as int, i as int);
        i = i + 1;
        proof {
            let cur = s@.subrange(start as int, i as int);
            assert(cur.drop_last() =~= pre);
            assert forall|j: int| 0 <= j < cur.len() implies is_digit(#[trigger] cur[j]) by {
                if j < pre.len() {
                    assert(cur[j] == pre[j]);
                }
            }
        }
        if acc > 9223372036854775808 {
            proof {
                let cur = s@.subrange(start as int, i as int);
                if all_digits(body) {
                    lemma_digits_value_prefix(body, cur.len() as int);
                    assert(body.take(cur.len() as int) =~= cur);
                }
            }
            return None;
        }
    }
    proof {
        assert(s@.subrange(start as int, i as int) =~= body);
    }
    let v: i128 = if neg {
        -acc
    } else {
        acc
    };
    if v < -9223372036854775808 || v > 9223372036854775807 {
        None
    } else {
        Some(v as i64)
    }
}

/// Writes an `i64` in decimal, as its `Display` impl does.
pub fn format_i64(n: i64) -> (r: String)
    ensures
        r@ == spec_format_i64(n),
{
    let big: u64 = if n < 0 {
        (-(n as i128)) as u64
    } else {
        n as u64
    };
    let ghost total = big as nat;
    let mut m: u64 = big;
    let mut rev: Vec<char> = Vec::new();
    loop
        invariant_except_break
            rev@.len() == 0 ==> m == total,
            rev@.len() > 0 ==> m > 0,
            nat_digits(total) == nat_digits(m as nat) + rev@.reverse(),
        invariant
            m <= total,
            total == big,
        ensures
            nat_digits(total) == rev@.reverse(),
        decreases m,
    {
        let d: u64 = m % 10;
        let c = ((48u8 + (d as u8)) as char);
        let ghost old_rev = rev@;
        rev.push(c);
        proof {
            assert(c == digit_char(d as int));
            assert(rev@.reverse() =~= seq![c] + old_rev.reverse());
            if m >= 10 {
                assert(nat_digits(m as nat) == nat_digits((m / 10) as nat) + seq![c]);
                assert(nat_digits((m / 10) as nat) + seq![c] + old_rev.reverse() =~= nat_digits(
                    (m / 10) as nat,
                ) + rev@.reverse());
            } else {
                assert(nat_digits(m as nat) == seq![c]);
            }
        }
        m = m / 10;
        if m == 0 {
            break;
        }
    }
    let mut out = String::new();
    if n < 0 {
        push_char(&mut out, '-');
    }
    let ghost prefix = out@;
    let mut j: usize = rev.len();
    while j > 0
        invariant
            j <= rev@.len(),
            out@ == prefix + rev@.reverse().take(rev@.len() - j),
        decreases j,
    {
        j = j - 1;
        let ghost before = out@;
        push_char(&mut out, rev[j]);
        assert(rev@.reverse().take(rev@.len() - j) =~= rev@.reverse().take(rev@.len() - j - 1).push(
            rev@[j as int],
        ));
    }
    assert(rev@.reverse().take(rev@.len() as int) =~= rev@.reverse());
    proof {
        if n < 0 {
            assert(prefix =~= seq!['-']);
        } else {
            assert(prefix =~= Seq::<char>::empty());
        }
    }
    out
}

proof fn lemma_nat_digits(k: nat)
    ensures
        nat_digits(k).len() > 0,
        all_digits(nat_digits(k)),
        digits_value(nat_digits(k)) == k,
    decreases k,
{
    assert(digit_value(digit_char((k % 10) as int)) == k % 10);
    if k < 10 {
        assert(nat_digits(k).drop_last() =~= Seq::<char>::empty());
        assert(nat_digits(k).last() == digit_char(k as int));
        assert(digits_value(nat_digits(k)) == digits_value(nat_digits(k).drop_last()) * 10
            + digit_value(nat_digits(k).last()));
    } else {
        lemma_nat_digits(k / 10);
        let a = nat_digits(k / 10);
        let s = nat_digits(k);
        assert(s.drop_last() =~= a);
        assert(s.last() == digit_char((k % 10) as int));
        assert(digits_value(s) == digits_value(a) * 10 + digit_value(s.last()));
        assert forall|i: int| 0 <= i < s.len() implies is_digit(#[trigger] s[i]) by {
            if i < a.len() {
                assert(s[i] == a[i]);
            }
        }
    }
}

/// Reading back what `format_i64` writes gives the same number.
pub proof fn law_parse_format_i64(n: i64)
    ensures
        spec_parse_i64(spec_format_i64(n)) == Some(n),
{
    let s = spec_format_i64(n);
    if n < 0 {
        lemma_nat_digits((-n) as nat);
        assert(s.drop_first() =~= nat_digits((-n) as nat));
    } else {
        lemma_nat_digits(n as nat);
        assert(is_digit(s[0]));
    }
}

/// `d` is the decimal numeral of `v`: one or more digits that spell `v`,
/// with no leading zero unless `v` is zero.
pub open spec fn is_numeral_of(d: Seq<char>, v: int) -> bool {
    &&& d.len() > 0
    &&& all_digits(d)
    &&& digits_value(d) == v
    &&& (d.len() == 1 || d[0] != '0')
}

proof fn lemma_nat_digits_lead(k: nat)
    ensures
        k > 0 ==> nat_digits(k)[0] != '0',
        k == 0 ==> nat_digits(k).len() == 1,
    decreases k,
{
    if k >= 10 {
        lemma_nat_digits_lead(k / 10);
        lemma_nat_digits(k / 10);
        assert(nat_digits(k)[0] == nat_digits(k / 10)[0]);
    } else {
        assert((digit_char(k as int) as int) == ('0' as int) + k);
    }
}

/// An `i64` is written as `Display` writes it: a `-` for a negative number,
/// then the decimal numeral of its magnitude, with no `+` and no leading zero.
pub proof fn law_format_i64_decimal(n: i64)
    ensures
        n >= 0 ==> is_numeral_of(spec_format_i64(n), n as int),
        n < 0 ==> spec_format_i64(n)[0] == '-' && is_numeral_of(spec_format_i64(n).drop_first(), -n),
{
    if n < 0 {
        let k = (-n) as nat;
        lemma_nat_digits(k);
        lemma_nat_digits_lead(k);
        assert(spec_format_i64(n).drop_first() =~= nat_digits(k));
    } else {
        lemma_nat_digits(n as nat);
        lemma_nat_digits_lead(n as nat);
    }
}

/// `str::parse::<i64>` reads an optional sign and one or more decimal digits
/// (leading zeros allowed), and gives the number they spell where it fits an
/// `i64`; it reads nothing else: no empty text, no lone sign, no other
/// character.
pub proof fn law_parse_i64_decimal(sign: Seq<char>, d: Seq<char>, s: Seq<char>)
    requires
        sign == Seq::<char>::empty() || sign == seq!['+'] || sign == seq!['-'],
        all_digits(d),
        d.len() > 0,
    ensures
        ({
            let v = if sign == seq!['-'] {
                -digits_value(d)
            } else {
                digits_value(d)
            };
            spec_parse_i64(sign + d) == if i64::MIN <= v <= i64::MAX {
                Some(v as i64)
            } else {
                None::<i64>
            }
        }),
        spec_parse_i64(s) is Some ==> s.len() > 0 && (s.len() > 1 || is_digit(s[0])) && forall|i: int|
            0 <= i < s.len() ==> is_digit(#[trigger] s[i]) || (i == 0 && (s[0] == '+' || s[0] == '-')),
{
    let t = sign + d;
    assert(is_digit(d[0]));
    if sign.len() == 0 {
        assert(t =~= d);
    } else {
        assert(t.drop_first() =~= d);
        assert(t[0] == sign[0]);
    }
    if spec_parse_i64(s) is Some {
        assert forall|i: int| 0 <= i < s.len() implies is_digit(#[trigger] s[i]) || (i == 0 && (s[0]
            == '+' || s[0] == '-')) by {
            if s[0] == '+' || s[0] == '-' {
                if i > 0 {
                    assert(s.drop_first()[i - 1] == s[i]);
                }
            }
        }
    }
}

/// The ASCII lower-case form of `c`.
pub open spec fn ascii_lower(c: char) -> char {
    if 'A' <= c && c <= 'Z' {
        ((c as int) + 32) as char
    } else {
        c
    }
}

/// `s` equals the lower-case `word`, ignoring ASCII case.
pub open spec fn eq_ignore_case(s: Seq<char>, word: Seq<char>) -> bool {
    s.len() == word.len() && forall|i: int| 0 <= i < s.len() ==> ascii_lower(#[trigger] s[i]) == word[i]
}

/// Where the run of decimal digits in `s` that starts at `i` ends.
pub open spec fn digit_run(s: Seq<char>, i: int) -> int
    decreases s.len() - i,
{
    if 0 <= i < s.len() && is_digit(s[i]) {
        digit_run(s, i + 1)
    } else {
        i
    }
}

/// `s` from `i` on is empty or an exponent: `e` or `E`, an optional sign,
/// then one or more digits.
pub open spec fn exponent_from(s: Seq<char>, i: int) -> bool {
    i == s.len() || (0 <= i < s.len() && (s[i] == 'e' || s[i] == 'E') && {
        let j = if i + 1 < s.len() && (s[i + 1] == '+' || s[i + 1] == '-') {
            i + 2
        } else {
            i + 1
        };
        j < s.len() && digit_run(s, j) == s.len()
    })
}

/// `s` is a decimal number: digits with an optional point (at least one digit
/// in all), then an optional exponent.
pub open spec fn is_decimal_number(s: Seq<char>) -> bool {
    let a = digit_run(s, 0);
    if a < s.len() && s[a] == '.' {
        let b = digit_run(s, a + 1);
        (a > 0 || b > a + 1) && exponent_from(s, b)
    } else {
        a > 0 && exponent_from(s, a)
    }
}

/// The texts that `str::parse::<f64>` accepts, by the grammar its
/// documentation gives: an optional sign, then `inf`, `infinity` or `nan` in
/// any case, or a decimal number.
pub open spec fn spec_is_float_text(s: Seq<char>) -> bool {
    let body = if s.len() > 0 && (s[0] == '+' || s[0] == '-') {
        s.drop_first()
    } else {
        s
    };
    eq_ignore_case(body, "inf"@) || eq_ignore_case(body, "infinity"@) || eq_ignore_case(body, "nan"@)
        || is_decimal_number(body)
}

/// The digit run that starts at `i` ends at `j` when `s` holds digits from
/// `i` up to `j` and no digit at `j`.
proof fn lemma_digit_run_ends(s: Seq<char>, i: int, j: int)
    requires
        0 <= i <= j <= s.len(),
        forall|k: int| i <= k < j ==> is_digit(#[trigger] s[k]),
        j == s.len() || !is_digit(s[j]),
    ensures
        digit_run(s, i) == j,
    decreases j - i,
{
    if i < j {
        lemma_digit_run_ends(s, i + 1, j);
    }
}

/// An optional sign: nothing, `+` or `-`.
pub open spec fn is_sign(s: Seq<char>) -> bool {
    s == Seq::<char>::empty() || s == seq!['+'] || s == seq!['-']
}

/// An exponent written after `pre` is one.
proof fn lemma_exponent_tail(pre: Seq<char>, e: char, esign: Seq<char>, d: Seq<char>)
    requires
        e == 'e' || e == 'E',
        is_sign(esign),
        all_digits(d),
        d.len() > 0,
    ensures
        exponent_from(pre + (seq![e] + esign + d), pre.len() as int),
{
    let s = pre + (seq![e] + esign + d);
    let i = pre.len() as int;
    assert(s[i] == e);
    let j: int = i + 1 + esign.len();
    assert forall|k: int| j <= k < s.len() implies is_digit(#[trigger] s[k]) by {
        assert(s[k] == d[k - j]);
    }
    assert(s[j] == d[0]);
    if esign.len() > 0 {
        assert(s[i + 1] == esign[0]);
    }
    lemma_digit_run_ends(s, j, s.len() as int);
}

/// Digits `a`, a point and digits `b` (at least one digit in all), then a
/// tail that starts with no digit and is an exponent or nothing, make a
/// decimal number.
proof fn lemma_point_number(a: Seq<char>, b: Seq<char>, tail: Seq<char>)
    requires
        all_digits(a),
        all_digits(b),
        a.len() + b.len() > 0,
        tail.len() == 0 || !is_digit(tail[0]),
        exponent_from(a + seq!['.'] + b + tail, a.len() + 1int + b.len()),
    ensures
        is_decimal_number(a + seq!['.'] + b + tail),
{
    let s = a + seq!['.'] + b + tail;
    let n: int = a.len() as int;
    assert(s[n] == '.');
    assert forall|k: int| 0 <= k < n implies is_digit(#[trigger] s[k]) by {
        assert(s[k] == a[k]);
    }
    assert forall|k: int| n + 1 <= k < n + 1 + b.len() implies is_digit(#[trigger] s[k]) by {
        assert(s[k] == b[k - n - 1]);
    }
    if tail.len() > 0 {
        assert(s[n + 1 + b.len()] == tail[0]);
    }
    lemma_digit_run_ends(s, 0, n);
    lemma_digit_run_ends(s, n + 1, n + 1 + b.len());
}

/// Digits `a` (at least one), then a tail that starts with neither a digit
/// nor a point and is an exponent or nothing, make a decimal number.
proof fn lemma_int_number(a: Seq<char>, tail: Seq<char>)
    requires
        all_digits(a),
        a.len() > 0,
        tail.len() == 0 || (!is_digit(tail[0]) && tail[0] != '.'),
        exponent_from(a + tail, a.len() as int),
    ensures
        is_decimal_number(a + tail),
{
    let s = a + tail;
    let n: int = a.len() as int;
    assert forall|k: int| 0 <= k < n implies is_digit(#[trigger] s[k]) by {
        assert(s[k] == a[k]);
    }
    if tail.len() > 0 {
        assert(s[n] == tail[0]);
    }
    lemma_digit_run_ends(s, 0, n);
}

/// A decimal number that starts with a digit or a point, after an optional
/// sign, is a number.
proof fn lemma_signed(sign: Seq<char>, body: Seq<char>)
    requires
        is_sign(sign),
        body.len() > 0,
        is_digit(body[0]) || body[0] == '.',
        is_decimal_number(body),
    ensures
        spec_is_float_text(sign + body),
{
    if sign.len() == 0 {
        assert(sign + body =~= body);
    } else {
        assert((sign + body).drop_first() =~= body);
    }
}

/// Digits, a point and digits, with an optional exponent, are a number.
proof fn lemma_point_text(sign: Seq<char>, a: Seq<char>, b: Seq<char>, exp: Seq<char>)
    requires
        is_sign(sign),
        all_digits(a),
        all_digits(b),
        a.len() + b.len() > 0,
        exp.len() == 0 || !is_digit(exp[0]),
        exponent_from(a + seq!['.'] + b + exp, a.len() + 1int + b.len()),
    ensures
        spec_is_float_text(sign + (a + seq!['.'] + b + exp)),
{
    let p = a + seq!['.'] + b + exp;
    lemma_point_number(a, b, exp);
    if a.len() > 0 {
        assert(is_digit(a[0]));
        assert(p[0] == a[0]);
    } else {
        assert(p[0] == '.');
    }
    lemma_signed(sign, p);
}

/// Digits with an optional exponent are a number.
proof fn lemma_int_text(sign: Seq<char>, a: Seq<char>, exp: Seq<char>)
    requires
        is_sign(sign),
        all_digits(a),
        a.len() > 0,
        exp.len() == 0 || (!is_digit(exp[0]) && exp[0] != '.'),
        exponent_from(a + exp, a.len() as int),
    ensures
        spec_is_float_text(sign + (a + exp)),
{
    lemma_int_number(a, exp);
    assert(is_digit(a[0]));
    assert((a + exp)[0] == a[0]);
    lemma_signed(sign, a + exp);
}

/// Digits, a point and digits are a number.
proof fn lemma_point_plain(sign: Seq<char>, a: Seq<char>, b: Seq<char>)
    requires
        is_sign(sign),
        all_digits(a),
        all_digits(b),
        a.len() + b.len() > 0,
    ensures
        spec_is_float_text(sign + a + seq!['.'] + b),
{
    let empty = Seq::<char>::empty();
    let p = a + seq!['.'] + b;
    assert(p + empty =~= p);
    lemma_point_text(sign, a, b, empty);
    assert(sign + a + seq!['.'] + b =~= sign + (p + empty));
}

/// Digits, a point and digits, then an exponent, are a number.
proof fn lemma_point_exp(sign: Seq<char>, a: Seq<char>, b: Seq<char>, e: char, esign: Seq<char>, d: Seq<char>)
    requires
        is_sign(sign),
        all_digits(a),
        all_digits(b),
        a.len() + b.len() > 0,
        e == 'e' || e == 'E',
        is_sign(esign),
        all_digits(d),
        d.len() > 0,
    ensures
        spec_is_float_text(sign + a + seq!['.'] + b + seq![e] + esign + d),
{
    let p = a + seq!['.'] + b;
    let exp = seq![e] + esign + d;
    lemma_exponent_tail(p, e, esign, d);
    lemma_point_text(sign, a, b, exp);
    assert(sign + a + seq!['.'] + b + seq![e] + esign + d =~= sign + (p + exp));
}

/// Digits alone are a number.
proof fn lemma_int_plain(sign: Seq<char>, a: Seq<char>)
    requires
        is_sign(sign),
        all_digits(a),
        a.len() > 0,
    ensures
        spec_is_float_text(sign + a),
{
    let empty = Seq::<char>::empty();
    assert(a + empty =~= a);
    lemma_int_text(sign, a, empty);
}

/// Digits, then an exponent, are a number.
proof fn lemma_int_exp(sign: Seq<char>, a: Seq<char>, e: char, esign: Seq<char>, d: Seq<char>)
    requires
        is_sign(sign),
        all_digits(a),
        a.len() > 0,
        e == 'e' || e == 'E',
        is_sign(esign),
        all_digits(d),
        d.len() > 0,
    ensures
        spec_is_float_text(sign + a + seq![e] + esign + d),
{
    let exp = seq![e] + esign + d;
    lemma_exponent_tail(a, e, esign, d);
    lemma_int_text(sign, a, exp);
    assert(sign + a + seq![e] + esign + d =~= sign + (a + exp));
}

/// The decimal texts of `str::parse::<f64>` are accepted: an optional sign,
/// digits `a`, a point and digits `b` (at least one digit in all, the point
/// optional where `b` is empty and `a` is not), then optionally an exponent:
/// `e` or `E`, an optional sign, and one or more digits `d`. So `1.5`, `.5`,
/// `5.`, `-12`, `1.234560e+03`, `1E-7` and `+3e5` are all numbers.
pub proof fn law_decimal_texts_accepted(
    sign: Seq<char>,
    a: Seq<char>,
    b: Seq<char>,
    e: char,
    esign: Seq<char>,
    d: Seq<char>,
)
    requires
        is_sign(sign),
        all_digits(a),
        all_digits(b),
        a.len() + b.len() > 0,
        e == 'e' || e == 'E',
        is_sign(esign),
        all_digits(d),
        d.len() > 0,
    ensures
        spec_is_float_text(sign + a + seq!['.'] + b),
        spec_is_float_text(sign + a + seq!['.'] + b + seq![e] + esign + d),
        a.len() > 0 ==> spec_is_float_text(sign + a),
        a.len() > 0 ==> spec_is_float_text(sign + a + seq![e] + esign + d),
{
    lemma_point_plain(sign, a, b);
    lemma_point_exp(sign, a, b, e, esign, d);
    if a.len() > 0 {
        lemma_int_plain(sign, a);
        lemma_int_exp(sign, a, e, esign, d);
    }
}

/// The run of digits that starts at `i` holds digits only and stops at the
/// end of `s` or at a character that is not a digit.
proof fn lemma_digit_run_shape(s: Seq<char>, i: int)
    requires
        0 <= i <= s.len(),
    ensures
        i <= digit_run(s, i) <= s.len(),
        forall|k: int| i <= k < digit_run(s, i) ==> is_digit(#[trigger] s[k]),
        digit_run(s, i) == s.len() || !is_digit(s[digit_run(s, i)]),
    decreases s.len() - i,
{
    if i < s.len() && is_digit(s[i]) {
        lemma_digit_run_shape(s, i + 1);
    }
}

/// `s` is written as a decimal number of `str::parse::<f64>`: a sign, digits
/// `a`, a point (or none, where `b` is empty), digits `b`, at least one digit
/// in `a` and `b`, then either nothing or an exponent: `e` or `E` in `emark`,
/// a sign and one or more digits `d`.
pub open spec fn decimal_parts(
    s: Seq<char>,
    sign: Seq<char>,
    a: Seq<char>,
    point: Seq<char>,
    b: Seq<char>,
    emark: Seq<char>,
    esign: Seq<char>,
    d: Seq<char>,
) -> bool {
    &&& s == sign + a + point + b + emark + esign + d
    &&& is_sign(sign)
    &&& all_digits(a)
    &&& all_digits(b)
    &&& (point == seq!['.'] || (point.len() == 0 && b.len() == 0))
    &&& a.len() + b.len() > 0
    &&& (emark.len() == 0 && esign.len() == 0 && d.len() == 0) || ((emark == seq!['e'] || emark
        == seq!['E']) && is_sign(esign) && all_digits(d) && d.len() > 0)
}

/// `s` is one of the words of `str::parse::<f64>`, `inf`, `infinity` or
/// `nan` in any case, after a sign.
pub open spec fn word_parts(s: Seq<char>, sign: Seq<char>, w: Seq<char>) -> bool {
    &&& s == sign + w
    &&& is_sign(sign)
    &&& (eq_ignore_case(w, "inf"@) || eq_ignore_case(w, "infinity"@) || eq_ignore_case(w, "nan"@))
}

/// Decimal parts make a number.
proof fn lemma_parts_accepted(
    s: Seq<char>,
    sign: Seq<char>,
    a: Seq<char>,
    point: Seq<char>,
    b: Seq<char>,
    emark: Seq<char>,
    esign: Seq<char>,
    d: Seq<char>,
)
    requires
        decimal_parts(s, sign, a, point, b, emark, esign, d),
    ensures
        spec_is_float_text(s),
{
    let empty = Seq::<char>::empty();
    if point.len() == 0 {
        assert(b =~= empty);
        if emark.len() == 0 {
            assert(s =~= sign + a);
            lemma_int_plain(sign, a);
        } else {
            assert(s =~= sign + a + seq![emark[0]] + esign + d);
            lemma_int_exp(sign, a, emark[0], esign, d);
        }
    } else {
        if emark.len() == 0 {
            assert(s =~= sign + a + seq!['.'] + b);
            lemma_point_plain(sign, a, b);
        } else {
            assert(s =~= sign + a + seq!['.'] + b + seq![emark[0]] + esign + d);
            lemma_point_exp(sign, a, b, emark[0], esign, d);
        }
    }
}

/// A text whose exponent starts at `k`, after the digits and point of a
/// decimal number, splits into decimal parts.
proof fn lemma_exponent_parts(body: Seq<char>, k: int) -> (r: (Seq<char>, Seq<char>, Seq<char>))
    requires
        0 <= k <= body.len(),
        exponent_from(body, k),
    ensures
        body.skip(k) == r.0 + r.1 + r.2,
        (r.0.len() == 0 && r.1.len() == 0 && r.2.len() == 0) || ((r.0 == seq!['e'] || r.0 == seq!['E'])
            && is_sign(r.1) && all_digits(r.2) && r.2.len() > 0),
{
    let empty = Seq::<char>::empty();
    if k == body.len() {
        assert(body.skip(k) =~= empty + empty + empty);
        (empty, empty, empty)
    } else {
        let j = if k + 1 < body.len() && (body[k + 1] == '+' || body[k + 1] == '-') {
            k + 2
        } else {
            k + 1
        };
        lemma_digit_run_shape(body, j);
        let emark = seq![body[k]];
        let esign = body.subrange(k + 1, j);
        let d = body.skip(j);
        assert forall|i: int| 0 <= i < d.len() implies is_digit(#[trigger] d[i]) by {
            assert(d[i] == body[j + i]);
        }
        if j == k + 2 {
            assert(esign =~= seq![body[k + 1]]);
        } else {
            assert(esign =~= empty);
        }
        assert(body.skip(k) =~= emark + esign + d);
        (emark, esign, d)
    }
}

/// Digits, a point, digits and an exponent after a sign split into decimal parts.
proof fn lemma_point_split(s: Seq<char>, sign: Seq<char>, body: Seq<char>, ra: int, rb: int) -> (r: (
    Seq<char>,
    Seq<char>,
    Seq<char>,
))
    requires
        s == sign + body,
        is_sign(sign),
        0 <= ra < rb <= body.len(),
        body[ra] == '.',
        forall|k: int| 0 <= k < ra ==> is_digit(#[trigger] body[k]),
        forall|k: int| ra < k < rb ==> is_digit(#[trigger] body[k]),
        ra + (rb - ra - 1) > 0,
        exponent_from(body, rb),
    ensures
        decimal_parts(s, sign, body.take(ra), seq!['.'], body.subrange(ra + 1, rb), r.0, r.1, r.2),
{
    let a = body.take(ra);
    let b = body.subrange(ra + 1, rb);
    assert forall|i: int| 0 <= i < a.len() implies is_digit(#[trigger] a[i]) by {
        assert(a[i] == body[i]);
    }
    assert forall|i: int| 0 <= i < b.len() implies is_digit(#[trigger] b[i]) by {
        assert(b[i] == body[ra + 1 + i]);
    }
    let (emark, esign, d) = lemma_exponent_parts(body, rb);
    assert(body =~= a + seq!['.'] + b + body.skip(rb));
    assert(s =~= sign + a + seq!['.'] + b + emark + esign + d);
    (emark, esign, d)
}

/// Digits and an exponent after a sign split into decimal parts.
proof fn lemma_int_split(s: Seq<char>, sign: Seq<char>, body: Seq<char>, ra: int) -> (r: (
    Seq<char>,
    Seq<char>,
    Seq<char>,
))
    requires
        s == sign + body,
        is_sign(sign),
        0 < ra <= body.len(),
        forall|k: int| 0 <= k < ra ==> is_digit(#[trigger] body[k]),
        exponent_from(body, ra),
    ensures
        decimal_parts(s, sign, body.take(ra), Seq::empty(), Seq::empty(), r.0, r.1, r.2),
{
    let empty = Seq::<char>::empty();
    let a = body.take(ra);
    assert forall|i: int| 0 <= i < a.len() implies is_digit(#[trigger] a[i]) by {
        assert(a[i] == body[i]);
    }
    let (emark, esign, d) = lemma_exponent_parts(body, ra);
    assert(body =~= a + empty + empty + body.skip(ra));
    assert(s =~= sign + a + empty + empty + emark + esign + d);
    (emark, esign, d)
}

/// A decimal number after a sign splits into decimal parts.
proof fn lemma_decimal_split(s: Seq<char>, sign: Seq<char>, body: Seq<char>)
    requires
        s == sign + body,
        is_sign(sign),
        is_decimal_number(body),
    ensures
        exists|
            sign: Seq<char>,
            a: Seq<char>,
            point: Seq<char>,
            b: Seq<char>,
            emark: Seq<char>,
            esign: Seq<char>,
            d: Seq<char>,
        | #[trigger] decimal_parts(s, sign, a, point, b, emark, esign, d),
{
    let ra = digit_run(body, 0);
    lemma_digit_run_shape(body, 0);
    if ra < body.len() && body[ra] == '.' {
        let rb = digit_run(body, ra + 1);
        lemma_digit_run_shape(body, ra + 1);
        let r = lemma_point_split(s, sign, body, ra, rb);
        assert(decimal_parts(s, sign, body.take(ra), seq!['.'], body.subrange(ra + 1, rb), r.0, r.1, r.2));
    } else {
        let r = lemma_int_split(s, sign, body, ra);
        assert(decimal_parts(s, sign, body.take(ra), Seq::empty(), Seq::empty(), r.0, r.1, r.2));
    }
}

/// An accepted text is a word or splits into decimal parts.
proof fn lemma_accepted_split(s: Seq<char>)
    requires
        spec_is_float_text(s),
    ensures
        (exists|sign: Seq<char>, w: Seq<char>| #[trigger] word_parts(s, sign, w)) || (exists|
            sign: Seq<char>,
            a: Seq<char>,
            point: Seq<char>,
            b: Seq<char>,
            emark: Seq<char>,
            esign: Seq<char>,
            d: Seq<char>,
        | #[trigger] decimal_parts(s, sign, a, point, b, emark, esign, d)),
{
    let empty = Seq::<char>::empty();
    let signed = s.len() > 0 && (s[0] == '+' || s[0] == '-');
    let sign = if signed {
        seq![s[0]]
    } else {
        empty
    };
    let body = if signed {
        s.drop_first()
    } else {
        s
    };
    assert(s =~= sign + body);
    if eq_ignore_case(body, "inf"@) || eq_ignore_case(body, "infinity"@) || eq_ignore_case(body, "nan"@) {
        assert(word_parts(s, sign, body));
    } else {
        lemma_decimal_split(s, sign, body);
    }
}

/// A word after a sign is accepted.
proof fn lemma_word_accepted(s: Seq<char>, sign: Seq<char>, w: Seq<char>)
    requires
        word_parts(s, sign, w),
    ensures
        spec_is_float_text(s),
{
    reveal_strlit("inf");
    reveal_strlit("infinity");
    reveal_strlit("nan");
    assert(w.len() > 0);
    assert(ascii_lower(w[0]) == 'i' || ascii_lower(w[0]) == 'n');
    assert(w[0] != '+' && w[0] != '-');
    if sign.len() == 0 {
        assert(s =~= w);
    } else {
        assert(s.drop_first() =~= w);
    }
}

/// The words `inf` and `nan` are read in any mix of upper and lower case,
/// after an optional sign.
pub proof fn law_float_words_any_case(sign: Seq<char>, w: Seq<char>)
    requires
        is_sign(sign),
        w.len() == 3,
        (w[0] == 'i' || w[0] == 'I') && (w[1] == 'n' || w[1] == 'N') && (w[2] == 'f' || w[2] == 'F')
            || (w[0] == 'n' || w[0] == 'N') && (w[1] == 'a' || w[1] == 'A') && (w[2] == 'n' || w[2]
            == 'N'),
    ensures
        spec_is_float_text(sign + w),
{
    reveal_strlit("inf");
    reveal_strlit("nan");
    assert(ascii_lower('I') == 'i' && ascii_lower('N') == 'n' && ascii_lower('F') == 'f' && ascii_lower('A') == 'a');
    if w[0] == 'i' || w[0] == 'I' {
        assert(eq_ignore_case(w, "inf"@));
        assert(word_parts(sign + w, sign, w));
    } else {
        assert(eq_ignore_case(w, "nan"@));
        assert(word_parts(sign + w, sign, w));
    }
    lemma_word_accepted(sign + w, sign, w);
}

/// The texts that `str::parse::<f64>` accepts are exactly its words, `inf`,
/// `infinity` and `nan` in any case after an optional sign, and its decimal
/// numbers, split as `decimal_parts` gives.
pub proof fn law_float_texts_exactly(s: Seq<char>)
    ensures
        spec_is_float_text(s) <==> (exists|sign: Seq<char>, w: Seq<char>| #[trigger] word_parts(s, sign, w))
            || (exists|
            sign: Seq<char>,
            a: Seq<char>,
            point: Seq<char>,
            b: Seq<char>,
            emark: Seq<char>,
            esign: Seq<char>,
            d: Seq<char>,
        | #[trigger] decimal_parts(s, sign, a, point, b, emark, esign, d)),
{
    if spec_is_float_text(s) {
        lemma_accepted_split(s);
    }
    if exists|sign: Seq<char>, w: Seq<char>| #[trigger] word_parts(s, sign, w) {
        let (sg, w) = choose|sign: Seq<char>, w: Seq<char>| #[trigger] word_parts(s, sign, w);
        lemma_word_accepted(s, sg, w);
    }
    if exists|
        sign: Seq<char>,
        a: Seq<char>,
        point: Seq<char>,
        b: Seq<char>,
        emark: Seq<char>,
        esign: Seq<char>,
        d: Seq<char>,
    | #[trigger] decimal_parts(s, sign, a, point, b, emark, esign, d) {
        let (sg, a, point, b, emark, esign, d) = choose|
            sign: Seq<char>,
            a: Seq<char>,
            point: Seq<char>,
            b: Seq<char>,
            emark: Seq<char>,
            esign: Seq<char>,
            d: Seq<char>,
        | #[trigger] decimal_parts(s, sign, a, point, b, emark, esign, d);
        lemma_parts_accepted(s, sg, a, point, b, emark, esign, d);
    }
}

/// The characters of `s` from `start` on.
fn chars_from(s: &str, start: usize) -> (r: Vec<char>)
    requires
        start <= s@.len(),
    ensures
        r@ == s@.subrange(start as int, s@.len() as int),
{
    let len: usize = s.unicode_len();
    let mut r: Vec<char> = Vec::new();
    let mut i: usize = start;
    while i < len
        invariant
            len == s@.len(),
            start <= i <= len,
            r@ == s@.subrange(start as int, i as int),
        decreases len - i,
    {
        r.push(s.get_char(i));
        i = i + 1;
        assert(r@ =~= s@.subrange(start as int, i as int));
    }
    r
}

/// Where the run of digits in `cs` that starts at `i` ends.
fn run_end(cs: &Vec<char>, i: usize) -> (r: usize)
    requires
        i <= cs@.len(),
    ensures
        r == digit_run(cs@, i as int),
        i <= r <= cs@.len(),
{
    let mut j: usize = i;
    while j < cs.len() && '0' <= cs[j] && cs[j] <= '9'
        invariant
            i <= j <= cs@.len(),
            digit_run(cs@, i as int) == digit_run(cs@, j as int),
        decreases cs.len() - j,
    {
        j = j + 1;
    }
    j
}

/// Whether `cs` from `i` on is empty or an exponent.
fn exponent_ok(cs: &Vec<char>, i: usize) -> (r: bool)
    requires
        i <= cs@.len(),
    ensures
        r == exponent_from(cs@, i as int),
{
    let n: usize = cs.len();
    if i == n {
        return true;
    }
    if !(cs[i] == 'e' || cs[i] == 'E') {
        return false;
    }
    let j: usize = if i + 1 < n && (cs[i + 1] == '+' || cs[i + 1] == '-') {
        i + 2
    } else {
        i + 1
    };
    if j >= n {
        return false;
    }
    run_end(cs, j) == n
}

/// Whether `cs` equals the lower-case `word`, ignoring ASCII case.
fn eq_word(cs: &Vec<char>, word: &str) -> (r: bool)
    ensures
        r == eq_ignore_case(cs@, word@),
{
    let n: usize = word.unicode_len();
    if cs.len() != n {
        return false;
    }
    let mut i: usize = 0;
    while i < n
        invariant
            n == word@.len(),
            n == cs@.len(),
            i <= n,
            forall|k: int| 0 <= k < i ==> ascii_lower(#[trigger] cs@[k]) == word@[k],
        decreases n - i,
    {
        let c = cs[i];
        let w = word.get_char(i);
        let upper = 'A' <= c && c <= 'Z';
        let same = if upper {
            (c as u32) + 32 == (w as u32)
        } else {
            c == w
        };
        proof {
            if upper {
                assert((ascii_lower(c) as int) == (c as int) + 32);
                assert(same == ((ascii_lower(c) as int) == (w as int)));
            }
        }
        if !same {
            return false;
        }
        i = i + 1;
    }
    true
}

/// Whether `str::parse::<f64>` accepts `s`.
pub fn is_float_text(s: &str) -> (r: bool)
    ensures
        r == spec_is_float_text(s@),
{
    let len: usize = s.unicode_len();
    let start: usize = if len > 0 && (s.get_char(0) == '+' || s.get_char(0) == '-') {
        1
    } else {
        0
    };
    let cs = chars_from(s, start);
    proof {
        if start == 1 {
            assert(cs@ =~= s@.drop_first());
        } else {
            assert(cs@ =~= s@);
        }
    }
    if eq_word(&cs, "inf") || eq_word(&cs, "infinity") || eq_word(&cs, "nan") {
        return true;
    }
    let a = run_end(&cs, 0);
    if a < cs.len() && cs[a] == '.' {
        let b = run_end(&cs, a + 1);
        (a > 0 || b > a + 1) && exponent_ok(&cs, b)
    } else {
        a > 0 && exponent_ok(&cs, a)
    }
}

} // verus!
