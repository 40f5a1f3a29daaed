//! Text helpers: comparison, decimal numbers, trimming.
use vstd::prelude::*;
use vstd::std_specs::iter::IteratorSpec;
use vstd::string::*;
use vstd::utf8::*;

verus! {

/// The characters that bytes below 128 stand for, one for one.
pub open spec fn ascii_text(bytes: Seq<u8>) -> Seq<char> {
    bytes.map_values(|b: u8| b as char)
}

/// Every byte is below 128.
pub open spec fn is_ascii_bytes(bytes: Seq<u8>) -> bool {
    forall|i: int| 0 <= i < bytes.len() ==> bytes[i] < 128
}

/// What `String::from_utf8_lossy` makes of a byte sequence.
pub uninterp spec fn lossy_text(bytes: Seq<u8>) -> Seq<char>;

/// Calls `String::push`: the character is appended, the rest stays.
#[verifier::external_body]
pub(crate) fn push_char(s: &mut String, c: char)
    ensures
        final(s)@ == old(s)@.push(c),
{
    s.push(c);
}

/// Calls `String::from_utf8_lossy`. Its result depends on the bytes alone;
/// bytes that are UTF-8 give the text that they encode, with nothing
/// replaced.
#[verifier::external_body]
pub(crate) fn decode_lossy(bytes: &[u8]) -> (s: String)
    ensures
        s@ == lossy_text(bytes@),
        valid_utf8(bytes@) ==> s@ == decode_utf8(bytes@),
{
    String::from_utf8_lossy(bytes).into_owned()
}

/// Calls `String::from_utf8`, which gives the text that the bytes encode
/// where they are UTF-8, and nothing where they are not.
#[verifier::external_body]
pub(crate) fn decode_strict(bytes: Vec<u8>) -> (r: Option<String>)
    ensures
        r is Some <==> valid_utf8(bytes@),
        r matches Some(s) ==> s@ == decode_utf8(bytes@),
{
    String::from_utf8(bytes).ok()
}

/// Whether two strings hold the same characters.
pub fn str_eq(a: &str, b: &str) -> (r: bool)
    ensures
        r == (a@ == b@),
{
    broadcast use encode_utf8_decode_utf8;

    let x = a.as_bytes();
    let y = b.as_bytes();
    if x.len() != y.len() {
        return false;
    }
    let mut i: usize = 0;
    while i < x.len()
        invariant
            x@.len() == y@.len(),
            i <= x@.len(),
            x@ == encode_utf8(a@),
            y@ == encode_utf8(b@),
            forall|k: int| 0 <= k < i ==> x@[k] == y@[k],
        decreases x@.len() - i,
    {
        if x[i] != y[i] {
            return false;
        }
        i += 1;
    }
    assert(x@ =~= y@);
    assert(decode_utf8(encode_utf8(a@)) == a@);
    assert(decode_utf8(encode_utf8(b@)) == b@);
    true
}

/// The characters of a string, in order.
pub fn chars_of(s: &str) -> (v: Vec<char>)
    ensures
        v@ == s@,
{
    let mut v: Vec<char> = Vec::new();
    let mut it = s.chars();
    loop
        invariant
            it.obeys_prophetic_iter_laws(),
            it.decrease() is Some,
            v@ + it.remaining() == s@,
        decreases it.decrease()->0,
    {
        broadcast use vstd::string::next_postcondition;

        let ghost before = it;
        match it.next() {
            Some(c) => {
                assert(v@.push(c) + it.remaining() =~= v@ + before.remaining());
                v.push(c);
            },
            None => {
                assert(v@ + it.remaining() =~= v@);
                return v;
            },
        }
    }
}

/// The string made of `v[from..to]`.
pub fn string_of(v: &Vec<char>, from: usize, to: usize) -> (s: String)
    requires
        from <= to <= v@.len(),
    ensures
        s@ == v@.subrange(from as int, to as int),
{
    let mut s = String::new();
    let mut i: usize = from;
    while i < to
        invariant
            from <= i <= to <= v@.len(),
            s@ == v@.subrange(from as int, i as int),
        decreases to - i,
    {
        push_char(&mut s, v[i]);
        assert(v@.subrange(from as int, i as int).push(v@[i as int]) =~= v@.subrange(
            from as int,
            i + 1,
        ));
        i += 1;
    }
    s
}

/// The string that the ASCII bytes `bytes[from..to]` spell.
pub fn ascii_string(bytes: &[u8], from: usize, to: usize) -> (s: String)
    requires
        from <= to <= bytes@.len(),
        is_ascii_bytes(bytes@.subrange(from as int, to as int)),
    ensures
        s@ == ascii_text(bytes@.subrange(from as int, to as int)),
{
    let mut s = String::new();
    let mut i: usize = from;
    while i < to
        invariant
            from <= i <= to <= bytes@.len(),
            s@ == ascii_text(bytes@.subrange(from as int, i as int)),
        decreases to - i,
    {
        push_char(&mut s, bytes[i] as char);
        assert(ascii_text(bytes@.subrange(from as int, i as int)).push(bytes@[i as int] as char)
            =~= ascii_text(bytes@.subrange(from as int, i + 1)));
        i += 1;
    }
    s
}

/// The character of the decimal digit `d`.
pub open spec fn digit_char(d: nat) -> char {
    ((48 + d) as u8) as char
}

/// The decimal digits of `n`, without leading zeros.
pub open spec fn decimal(n: nat) -> Seq<char>
    decreases n,
{
    if n < 10 {
        seq![digit_char(n)]
    } else {
        decimal(n / 10).push(digit_char(n % 10))
    }
}

/// The decimal form of an integer: a minus sign where it is negative.
pub open spec fn signed_decimal(i: int) -> Seq<char> {
    if i < 0 {
        seq!['-'] + decimal((-i) as nat)
    } else {
        decimal(i as nat)
    }
}

/// The digits after the decimal point for `frac` hundredths: none for zero, one
/// where the second would be a zero.
pub open spec fn centi_fraction(frac: nat) -> Seq<char> {
    if frac == 0 {
        Seq::<char>::empty()
    } else if frac % 10 == 0 {
        seq!['.', digit_char(frac / 10)]
    } else {
        seq!['.', digit_char(frac / 10), digit_char(frac % 10)]
    }
}

/// The decimal form of `v` hundredths: `1976` reads `19.76`, `510` reads `5.1`,
/// `-97` reads `-0.97` and `0` reads `0`.
pub open spec fn centi(v: int) -> Seq<char> {
    let a: nat = if v < 0 {
        (-v) as nat
    } else {
        v as nat
    };
    let sign = if v < 0 {
        seq!['-']
    } else {
        Seq::<char>::empty()
    };
    sign + decimal(a / 100) + centi_fraction(a % 100)
}

/// Appends the decimal digits of `n`.
pub fn push_decimal(s: &mut String, n: u64)
    ensures
        final(s)@ == old(s)@ + decimal(n as nat),
    decreases n,
{
    if n >= 10 {
        push_decimal(s, n / 10);
    }
    let d: u8 = (n % 10) as u8;
    let ghost before = s@;
    push_char(s, (48 + d) as char);
    proof {
        if n >= 10 {
            assert(old(s)@ + decimal(n as nat) =~= before.push(digit_char((n % 10) as nat)));
        } else {
            assert(old(s)@ + decimal(n as nat) =~= before.push(digit_char(n as nat)));
        }
    }
}

/// The decimal digits of `n`.
pub fn decimal_text(n: u64) -> (s: String)
    ensures
        s@ == decimal(n as nat),
{
    let mut s = String::new();
    push_decimal(&mut s, n);
    assert(Seq::<char>::empty() + decimal(n as nat) =~= decimal(n as nat));
    s
}

/// The decimal form of a signed integer.
pub fn signed_text(i: i64) -> (s: String)
    ensures
        s@ == signed_decimal(i as int),
{
    let mut s = String::new();
    if i < 0 {
        push_char(&mut s, '-');
        let a: u64 = if i == i64::MIN {
            9223372036854775808u64
        } else {
            (-i) as u64
        };
        push_decimal(&mut s, a);
        assert(s@ =~= seq!['-'] + decimal((-i) as nat));
    } else {
        push_decimal(&mut s, i as u64);
        assert(s@ =~= decimal(i as nat));
    }
    s
}

/// The decimal form of a value given in hundredths.
pub fn centi_text(v: i32) -> (s: String)
    ensures
        s@ == centi(v as int),
{
    centi_string(v as i64)
}

/// The decimal form of a value given in hundredths.
pub fn centi_string(wide: i64) -> (s: String)
    ensures
        s@ == centi(wide as int),
{
    let mut s = String::new();
    let a: u64 = if wide == i64::MIN {
        9223372036854775808u64
    } else if wide < 0 {
        (-wide) as u64
    } else {
        wide as u64
    };
    if wide < 0 {
        push_char(&mut s, '-');
    }
    let ghost sign = s@;
    push_decimal(&mut s, a / 100);
    let frac: u8 = (a % 100) as u8;
    if frac != 0 {
        push_char(&mut s, '.');
        push_char(&mut s, (48 + frac / 10) as char);
        if frac % 10 != 0 {
            push_char(&mut s, (48 + frac % 10) as char);
        }
    }
    assert(s@ =~= sign + decimal((a / 100) as nat) + centi_fraction((a % 100) as nat));
    s
}


/// Unicode white space, as `char::is_whitespace` has it.
pub open spec fn is_space(c: char) -> bool {
    let u = c as u32;
    (9 <= u <= 13) || u == 32 || u == 0x85 || u == 0xA0 || u == 0x1680 || (0x2000 <= u <= 0x200A)
        || u == 0x2028 || u == 0x2029 || u == 0x202F || u == 0x205F || u == 0x3000
}

/// Whether a character is Unicode white space.
pub fn char_is_space(c: char) -> (r: bool)
    ensures
        r == is_space(c),
{
    let u = c as u32;
    (9 <= u && u <= 13) || u == 32 || u == 0x85 || u == 0xA0 || u == 0x1680 || (0x2000 <= u && u
        <= 0x200A) || u == 0x2028 || u == 0x2029 || u == 0x202F || u == 0x205F || u == 0x3000
}

/// The number of leading white-space characters.
pub open spec fn leading_spaces(s: Seq<char>) -> nat
    decreases s.len(),
{
    if s.len() > 0 && is_space(s[0]) {
        1 + leading_spaces(s.drop_first())
    } else {
        0
    }
}

/// The number of trailing white-space characters.
pub open spec fn trailing_spaces(s: Seq<char>) -> nat
    decreases s.len(),
{
    if s.len() > 0 && is_space(s.last()) {
        1 + trailing_spaces(s.drop_last())
    } else {
        0
    }
}

/// The text without the white space at its two ends.
pub open spec fn trimmed(s: Seq<char>) -> Seq<char> {
    let rest = s.skip(leading_spaces(s) as int);
    rest.take(rest.len() - trailing_spaces(rest))
}

/// A run of white space followed by something else counts as leading.
proof fn lemma_leading_spaces_is(s: Seq<char>, n: int)
    requires
        0 <= n <= s.len(),
        forall|k: int| 0 <= k < n ==> is_space(s[k]),
        n == s.len() || !is_space(s[n]),
    ensures
        leading_spaces(s) == n,
    decreases n,
{
    if n > 0 {
        let t = s.drop_first();
        assert forall|k: int| 0 <= k < n - 1 implies is_space(t[k]) by {
            assert(t[k] == s[k + 1]);
        }
        lemma_leading_spaces_is(t, n - 1);
    }
}

proof fn lemma_trailing_spaces_is(s: Seq<char>, n: int)
    requires
        0 <= n <= s.len(),
        forall|k: int| s.len() - n <= k < s.len() ==> is_space(s[k]),
        n == s.len() || !is_space(s[s.len() - n - 1]),
    ensures
        trailing_spaces(s) == n,
    decreases n,
{
    if n > 0 {
        let t = s.drop_last();
        assert forall|k: int| t.len() - (n - 1) <= k < t.len() implies is_space(t[k]) by {
            assert(t[k] == s[k]);
        }
        lemma_trailing_spaces_is(t, n - 1);
    }
}

/// The text without the white space at its two ends.
pub fn trim(s: &str) -> (r: String)
    ensures
        r@ == trimmed(s@),
{
    let v = chars_of(s);
    let mut from: usize = 0;
    while from < v.len() && char_is_space(v[from])
        invariant
            from <= v@.len(),
            forall|k: int| 0 <= k < from ==> is_space(v@[k]),
        decreases v@.len() - from,
    {
        from += 1;
    }
    let mut to: usize = v.len();
    while to > from && char_is_space(v[to - 1])
        invariant
            from <= to <= v@.len(),
            forall|k: int| to <= k < v@.len() ==> is_space(v@[k]),
        decreases to,
    {
        to -= 1;
    }
    proof {
        lemma_leading_spaces_is(v@, from as int);
        let rest = v@.skip(from as int);
        assert forall|k: int| rest.len() - (v@.len() - to) <= k < rest.len() implies is_space(
            rest[k],
        ) by {
            assert(rest[k] == v@[k + from]);
        }
        lemma_trailing_spaces_is(rest, v@.len() - to);
        assert(rest.take(rest.len() - (v@.len() - to)) =~= v@.subrange(from as int, to as int));
    }
    string_of(&v, from, to)
}

/// Whether `s` begins with `prefix`.
pub open spec fn has_prefix(s: Seq<char>, prefix: Seq<char>) -> bool {
    prefix.len() <= s.len() && s.take(prefix.len() as int) == prefix
}

/// Whether the characters `v` begin with those of `prefix`.
pub fn starts_with(v: &Vec<char>, prefix: &Vec<char>) -> (r: bool)
    ensures
        r == has_prefix(v@, prefix@),
{
    if prefix.len() > v.len() {
        return false;
    }
    let mut i: usize = 0;
    while i < prefix.len()
        invariant
            i <= prefix@.len() <= v@.len(),
            forall|k: int| 0 <= k < i ==> v@[k] == prefix@[k],
        decreases prefix@.len() - i,
    {
        if v[i] != prefix[i] {
            assert(v@.take(prefix@.len() as int)[i as int] != prefix@[i as int]);
            return false;
        }
        i += 1;
    }
    assert(v@.take(prefix@.len() as int) =~= prefix@);
    true
}


/// A decimal digit.
pub open spec fn is_digit(c: char) -> bool {
    '0' <= c <= '9'
}

/// Every character is a decimal digit.
pub open spec fn all_digits(s: Seq<char>) -> bool {
    forall|i: int| 0 <= i < s.len() ==> is_digit(#[trigger] s[i])
}

/// The number that a run of decimal digits spells (0 for none).
pub open spec fn digits_value(s: Seq<char>) -> nat
    decreases s.len(),
{
    if s.len() == 0 {
        0
    } else {
        (digits_value(s.drop_last()) * 10 + (s.last() as nat - 48)) as nat
    }
}

/// The number that `s` spells, if it is one or more decimal digits, with or
/// without a plus sign in front, and the number is at most `max`.
pub open spec fn unsigned_of(s: Seq<char>, max: nat) -> Option<nat> {
    let d = if s.len() > 0 && s[0] == '+' {
        s.skip(1)
    } else {
        s
    };
    if d.len() > 0 && all_digits(d) && digits_value(d) <= max {
        Some(digits_value(d))
    } else {
        None
    }
}

/// A longer run of digits spells no smaller number.
pub proof fn lemma_digits_value_grows(s: Seq<char>, k: int)
    requires
        all_digits(s),
        0 <= k <= s.len(),
    ensures
        digits_value(s.take(k)) <= digits_value(s),
    decreases s.len(),
{
    if k < s.len() {
        assert(all_digits(s.drop_last())) by {
            assert forall|i: int| 0 <= i < s.drop_last().len() implies is_digit(
                #[trigger] s.drop_last()[i],
            ) by {
                assert(s.drop_last()[i] == s[i]);
            }
        }
        lemma_digits_value_grows(s.drop_last(), k);
        assert(s.drop_last().take(k) =~= s.take(k));
        assert(is_digit(s[s.len() - 1]));
    } else {
        assert(s.take(k) =~= s);
    }
}

/// Reads the digits `v[from..to]` as a number of at most `max`.
pub fn read_digits(v: &Vec<char>, from: usize, to: usize, max: u64) -> (r: Option<u64>)
    requires
        from <= to <= v@.len(),
        max < 1_000_000_000_000_000_000,
    ensures
        r matches Some(n) ==> all_digits(v@.subrange(from as int, to as int)) && n
            == digits_value(v@.subrange(from as int, to as int)) && n <= max,
        r is None ==> !all_digits(v@.subrange(from as int, to as int)) || digits_value(
            v@.subrange(from as int, to as int),
        ) > max,
{
    let ghost span = v@.subrange(from as int, to as int);
    let mut acc: u64 = 0;
    let mut i: usize = from;
    while i < to
        invariant
            from <= i <= to <= v@.len(),
            span == v@.subrange(from as int, to as int),
            all_digits(span.take(i - from)),
            acc == digits_value(span.take(i - from)),
            acc <= max,
            max < 1_000_000_000_000_000_000,
        decreases to - i,
    {
        let c = v[i];
        let ghost next = span.take(i - from + 1);
        proof {
            assert(next.drop_last() =~= span.take(i - from));
            assert(next.last() == c);
        }
        if !('0' <= c && c <= '9') {
            assert(!is_digit(span[i - from]));
            return None;
        }
        let d: u64 = (c as u32 - 48) as u64;
        acc = acc * 10 + d;
        assert(all_digits(next)) by {
            assert forall|k: int| 0 <= k < next.len() implies is_digit(#[trigger] next[k]) by {
                if k < next.len() - 1 {
                    assert(next[k] == span.take(i - from)[k]);
                }
            }
        }
        if acc > max {
            proof {
                if all_digits(span) {
                    lemma_digits_value_grows(span, i - from + 1);
                }
            }
            return None;
        }
        i += 1;
    }
    assert(span.take(to - from) =~= span);
    Some(acc)
}

/// Reads an unsigned decimal number of at most `max`.
pub fn parse_unsigned(s: &str, max: u64) -> (r: Option<u64>)
    requires
        max < 1_000_000_000_000_000_000,
    ensures
        match unsigned_of(s@, max as nat) {
            Some(n) => r == Some(n as u64),
            None => r is None,
        },
{
    let v = chars_of(s);
    let from: usize = if v.len() > 0 && v[0] == '+' {
        1
    } else {
        0
    };
    assert(v@.subrange(from as int, v@.len() as int) =~= v@.skip(from as int));
    assert(v@.skip(0) =~= v@);
    if from == v.len() {
        return None;
    }
    read_digits(&v, from, v.len(), max)
}

/// What follows the last `_` of a text: the whole text where there is none.
pub open spec fn last_segment(s: Seq<char>) -> Seq<char>
    decreases s.len(),
{
    if s.len() == 0 || s.last() == '_' {
        Seq::<char>::empty()
    } else {
        last_segment(s.drop_last()).push(s.last())
    }
}

proof fn lemma_last_segment_is(s: Seq<char>, k: int)
    requires
        0 <= k <= s.len(),
        forall|i: int| k <= i < s.len() ==> s[i] != '_',
        k == 0 || s[k - 1] == '_',
    ensures
        last_segment(s) == s.skip(k),
    decreases s.len() - k,
{
    if k == s.len() {
        assert(s.skip(k) =~= Seq::<char>::empty());
    } else {
        let t = s.drop_last();
        assert forall|i: int| k <= i < t.len() implies t[i] != '_' by {
            assert(t[i] == s[i]);
        }
        lemma_last_segment_is(t, k);
        assert(t.skip(k).push(s.last()) =~= s.skip(k));
    }
}

/// The index at which the last segment of `v` begins.
pub fn last_segment_start(v: &Vec<char>) -> (k: usize)
    ensures
        k <= v@.len(),
        last_segment(v@) == v@.skip(k as int),
{
    let mut k: usize = v.len();
    while k > 0 && v[k - 1] != '_'
        invariant
            k <= v@.len(),
            forall|i: int| k <= i < v@.len() ==> v@[i] != '_',
        decreases k,
    {
        k -= 1;
    }
    proof {
        lemma_last_segment_is(v@, k as int);
    }
    k
}


/// The number of characters before the first decimal point: all of them where
/// there is none.
pub open spec fn before_point(s: Seq<char>) -> nat
    decreases s.len(),
{
    if s.len() == 0 || s[0] == '.' {
        0
    } else {
        1 + before_point(s.drop_first())
    }
}

proof fn lemma_before_point_is(s: Seq<char>, k: int)
    requires
        0 <= k <= s.len(),
        forall|i: int| 0 <= i < k ==> s[i] != '.',
        k == s.len() || s[k] == '.',
    ensures
        before_point(s) == k,
    decreases k,
{
    if k > 0 {
        let t = s.drop_first();
        assert forall|i: int| 0 <= i < k - 1 implies t[i] != '.' by {
            assert(t[i] == s[i + 1]);
        }
        lemma_before_point_is(t, k - 1);
    }
}

/// The hundredths that the digits after a decimal point stand for: the first
/// two digits count, the others are cut off.
pub open spec fn hundredths(frac: Seq<char>) -> nat {
    let tens: nat = if frac.len() > 0 {
        ((frac[0] as nat - 48) * 10) as nat
    } else {
        0
    };
    let ones: nat = if frac.len() > 1 {
        (frac[1] as nat - 48) as nat
    } else {
        0
    };
    tens + ones
}

/// What stands behind the sign of a decimal number.
pub open spec fn unsigned_part(s: Seq<char>) -> Seq<char> {
    if s.len() > 0 && (s[0] == '-' || s[0] == '+') {
        s.skip(1)
    } else {
        s
    }
}

/// The digits before the decimal point.
pub open spec fn whole_part(s: Seq<char>) -> Seq<char> {
    unsigned_part(s).take(before_point(unsigned_part(s)) as int)
}

/// The digits behind the decimal point: none where there is no point.
pub open spec fn fraction_part(s: Seq<char>) -> Seq<char> {
    let body = unsigned_part(s);
    if before_point(body) < body.len() {
        body.skip(before_point(body) as int + 1)
    } else {
        Seq::<char>::empty()
    }
}

/// Whether a text begins with a minus sign.
pub open spec fn has_minus(s: Seq<char>) -> bool {
    s.len() > 0 && s[0] == '-'
}

/// Whether a digit other than `0` stands behind the second decimal place:
/// whether the value in hundredths leaves something out.
pub open spec fn cut_off(s: Seq<char>) -> bool {
    exists|k: int| 2 <= k < fraction_part(s).len() && #[trigger] fraction_part(s)[k] != '0'
}

/// The value in hundredths of a decimal number: an optional sign, digits, and
/// optionally a point and more digits, with a digit on at least one side of
/// the point. Digits after the second decimal place are cut off; `cut_off`
/// says whether they counted. `None` for any other text and for a value
/// beyond 2147483647 hundredths. A number with an exponent, such as `1e1`,
/// and a word such as `inf` are no decimal numbers here.
pub open spec fn centi_of(s: Seq<char>) -> Option<int> {
    let whole = whole_part(s);
    let frac = fraction_part(s);
    let v = digits_value(whole) * 100 + hundredths(frac);
    if all_digits(whole) && all_digits(frac) && whole.len() + frac.len() > 0 && v <= 2147483647 {
        if has_minus(s) {
            Some(-v)
        } else {
            Some(v as int)
        }
    } else {
        None
    }
}

/// A decimal number as it was read: its value in hundredths, cut towards
/// zero, whether it bears a minus sign, and whether the cut left a digit
/// other than `0` out.
#[derive(Debug, Clone, Copy, PartialEq, Eq, Structural)]
pub struct Decimal {
    pub centi: i32,
    pub minus: bool,
    pub cut: bool,
}

impl Decimal {
    /// Whether the number, all of its digits counted, lies between 0 and
    /// `max` hundredths, both included. A number with a minus sign does so
    /// only if it is zero; a number whose cut value is `max` does so only
    /// if nothing was cut.
    pub open spec fn within(self, max: int) -> bool {
        if self.minus {
            self.centi == 0 && !self.cut
        } else {
            self.centi < max || (self.centi == max && !self.cut)
        }
    }

    /// Whether the number, all of its digits counted, lies between 0 and
    /// `max` hundredths.
    pub fn is_within(&self, max: i32) -> (r: bool)
        ensures
            r == self.within(max as int),
    {
        if self.minus {
            self.centi == 0 && !self.cut
        } else {
            self.centi < max || (self.centi == max && !self.cut)
        }
    }
}

/// The decimal number that a text spells, if it spells one.
pub open spec fn decimal_of(s: Seq<char>) -> Option<Decimal> {
    match centi_of(s) {
        Some(v) => Some(Decimal { centi: v as i32, minus: has_minus(s), cut: cut_off(s) }),
        None => None,
    }
}

/// Whether every character of `v[from..to]` is a decimal digit.
pub fn digits_only(v: &Vec<char>, from: usize, to: usize) -> (r: bool)
    requires
        from <= to <= v@.len(),
    ensures
        r == all_digits(v@.subrange(from as int, to as int)),
{
    let mut i: usize = from;
    while i < to
        invariant
            from <= i <= to <= v@.len(),
            forall|k: int| from <= k < i ==> is_digit(v@[k]),
        decreases to - i,
    {
        if !('0' <= v[i] && v[i] <= '9') {
            assert(!is_digit(v@.subrange(from as int, to as int)[i - from]));
            return false;
        }
        i += 1;
    }
    true
}

/// The index of the first decimal point at or after `from`: the length where
/// there is none.
pub fn find_point(v: &Vec<char>, from: usize) -> (p: usize)
    requires
        from <= v@.len(),
    ensures
        from <= p <= v@.len(),
        p - from == before_point(v@.skip(from as int)),
{
    let mut p: usize = from;
    while p < v.len() && v[p] != '.'
        invariant
            from <= p <= v@.len(),
            forall|i: int| from <= i < p ==> v@[i] != '.',
        decreases v@.len() - p,
    {
        p += 1;
    }
    proof {
        let body = v@.skip(from as int);
        assert forall|i: int| 0 <= i < p - from implies body[i] != '.' by {
            assert(body[i] == v@[i + from]);
        }
        lemma_before_point_is(body, p - from);
    }
    p
}

/// The hundredths that the digits `v[from..]` stand for.
pub fn read_hundredths(v: &Vec<char>, from: usize) -> (r: u64)
    requires
        from <= v@.len(),
        all_digits(v@.subrange(from as int, v@.len() as int)),
    ensures
        r == hundredths(v@.subrange(from as int, v@.len() as int)),
        r <= 99,
{
    let ghost frac = v@.subrange(from as int, v@.len() as int);
    let tens: u64 = if v.len() - from > 0 {
        assert(is_digit(frac[0]));
        ((v[from] as u32 - 48) * 10) as u64
    } else {
        0
    };
    let ones: u64 = if v.len() - from > 1 {
        assert(is_digit(frac[1]));
        (v[from + 1] as u32 - 48) as u64
    } else {
        0
    };
    tens + ones
}

/// Whether a digit other than `0` stands in `v[from..]` behind the second
/// place.
pub fn read_cut(v: &Vec<char>, from: usize) -> (r: bool)
    requires
        from <= v@.len(),
    ensures
        r == (exists|k: int|
            2 <= k < v@.len() - from && #[trigger] v@.subrange(from as int, v@.len() as int)[k]
                != '0'),
{
    let ghost frac = v@.subrange(from as int, v@.len() as int);
    if v.len() - from <= 2 {
        return false;
    }
    let mut i: usize = from + 2;
    while i < v.len()
        invariant
            from + 2 <= i <= v@.len(),
            frac == v@.subrange(from as int, v@.len() as int),
            forall|k: int| 2 <= k < i - from ==> #[trigger] frac[k] == '0',
        decreases v@.len() - i,
    {
        if v[i] != '0' {
            assert(frac[i - from] != '0');
            return true;
        }
        i += 1;
    }
    false
}

/// Reads a decimal number.
pub fn parse_decimal(s: &str) -> (r: Option<Decimal>)
    ensures
        r == decimal_of(s@),
{
    let v = chars_of(s);
    let from: usize = if v.len() > 0 && (v[0] == '-' || v[0] == '+') {
        1
    } else {
        0
    };
    let ghost body = v@.skip(from as int);
    assert(v@.skip(0) =~= v@);
    assert(body == unsigned_part(s@));
    let p = find_point(&v, from);
    let frac_from: usize = if p < v.len() {
        p + 1
    } else {
        p
    };
    let ghost k = p - from;
    assert(whole_part(s@) =~= v@.subrange(from as int, p as int));
    assert(fraction_part(s@) =~= v@.subrange(frac_from as int, v@.len() as int));
    if (p - from) + (v.len() - frac_from) == 0 {
        return None;
    }
    if !digits_only(&v, frac_from, v.len()) {
        return None;
    }
    let whole = match read_digits(&v, from, p, 21474836) {
        Some(n) => n,
        None => {
            return None;
        },
    };
    let total: u64 = whole * 100 + read_hundredths(&v, frac_from);
    if total > 2147483647 {
        return None;
    }
    let minus = v[0] == '-';
    let cut = read_cut(&v, frac_from);
    let centi: i32 = if minus {
        -(total as i64) as i32
    } else {
        total as i32
    };
    Some(Decimal { centi, minus, cut })
}

/// Reads a decimal number as hundredths.
pub fn parse_centi(s: &str) -> (r: Option<i32>)
    ensures
        match centi_of(s@) {
            Some(v) => r == Some(v as i32),
            None => r is None,
        },
{
    match parse_decimal(s) {
        Some(d) => Some(d.centi),
        None => None,
    }
}

/// The digits of a number are digits, and they spell the number.
pub proof fn lemma_decimal_digits(n: nat)
    ensures
        decimal(n).len() > 0,
        all_digits(decimal(n)),
        digits_value(decimal(n)) == n,
    decreases n,
{
    if n < 10 {
        let s = decimal(n);
        assert(s.drop_last() =~= Seq::<char>::empty());
        assert(digits_value(s.drop_last()) == 0);
        assert(s.last() == digit_char(n));
    } else {
        lemma_decimal_digits(n / 10);
        let s = decimal(n);
        let head = decimal(n / 10);
        assert(s.drop_last() =~= head);
        assert(s.last() == digit_char(n % 10));
        assert forall|i: int| 0 <= i < s.len() implies is_digit(#[trigger] s[i]) by {
            if i < head.len() {
                assert(s[i] == head[i]);
            }
        }
    }
}

/// After a text, an underscore and a run of digits, the last segment is the
/// run of digits.
pub proof fn lemma_last_segment_digits(prefix: Seq<char>, digits: Seq<char>)
    requires
        all_digits(digits),
    ensures
        last_segment(prefix + "_"@ + digits) == digits,
    decreases digits.len(),
{
    reveal_strlit("_");
    let s = prefix + "_"@ + digits;
    if digits.len() == 0 {
        assert(s.last() == '_');
        assert(digits =~= Seq::<char>::empty());
    } else {
        let d = digits.drop_last();
        assert(all_digits(d)) by {
            assert forall|i: int| 0 <= i < d.len() implies is_digit(#[trigger] d[i]) by {
                assert(d[i] == digits[i]);
            }
        }
        lemma_last_segment_digits(prefix, d);
        assert(s.drop_last() =~= prefix + "_"@ + d);
        assert(s.last() == digits.last());
        assert(is_digit(digits[digits.len() - 1]));
        assert(d.push(digits.last()) =~= digits);
    }
}


/// A run of `n` blanks.
pub open spec fn blanks(n: nat) -> Seq<char> {
    Seq::new(n, |i: int| ' ')
}

/// A text filled up with blanks at its end to at least `width` characters.
pub open spec fn padded(s: Seq<char>, width: nat) -> Seq<char> {
    if s.len() >= width {
        s
    } else {
        s + blanks((width - s.len()) as nat)
    }
}

/// Appends a text, filled up with blanks to at least `width` characters.
pub fn push_padded(out: &mut String, s: &str, width: usize)
    ensures
        final(out)@ == old(out)@ + padded(s@, width as nat),
{
    out.append(s);
    let n = s.unicode_len();
    let mut k: usize = n;
    assert(old(out)@ + s@ + blanks(0) =~= old(out)@ + s@);
    while k < width
        invariant
            n == s@.len(),
            n <= k,
            k <= width || n >= width,
            n >= width ==> k == n,
            out@ == old(out)@ + s@ + blanks((k - n) as nat),
        decreases width - k,
    {
        push_char(out, ' ');
        assert(blanks((k - n) as nat).push(' ') =~= blanks((k + 1 - n) as nat));
        assert(out@ =~= old(out)@ + s@ + blanks((k + 1 - n) as nat));
        k += 1;
    }
    assert(s@ + blanks(0) =~= s@);
    assert(out@ =~= old(out)@ + padded(s@, width as nat));
}

} // verus!
