//! Scanning steps over the bytes of a controller's output.
//!
//! The input may end anywhere. A step that would need to see more bytes
//! before it can decide says so; it never guesses.
use crate::text::{ascii_text, digits_value, is_ascii_bytes};
use vstd::prelude::*;
use vstd::string::*;

verus! {

/// Where scanning stands after a step: at a position of the input, short of
/// input, or failed at a position.
pub enum Step {
    At(int),
    Incomplete,
    Fail(int),
}

impl Step {
    /// The position after a step that succeeded.
    pub open spec fn at(self) -> int {
        match self {
            Step::At(p) => p,
            _ => 0,
        }
    }
}

/// Where scanning stands after a step, as the executable functions return it.
#[derive(Debug, Clone, Copy, PartialEq, Eq, Structural)]
pub enum Scan {
    At(usize),
    Incomplete,
    Fail(usize),
}

impl View for Scan {
    type V = Step;

    open spec fn view(&self) -> Step {
        match self {
            Scan::At(p) => Step::At(*p as int),
            Scan::Incomplete => Step::Incomplete,
            Scan::Fail(p) => Step::Fail(*p as int),
        }
    }
}

/// A class of bytes.
#[derive(Debug, Clone, Copy, PartialEq, Eq, Structural)]
pub enum Class {
    /// `0` to `9`.
    Digit,
    /// ASCII letters and digits.
    Alnum,
    /// ASCII letters, digits and `_`.
    Ident,
    /// Digits and `:`.
    Time,
    /// Digits and `.`.
    Date,
    /// Everything but carriage return and line feed.
    Text,
}

/// An ASCII digit.
pub open spec fn is_digit_byte(b: u8) -> bool {
    48 <= b <= 57
}

/// An ASCII letter or digit.
pub open spec fn is_alnum_byte(b: u8) -> bool {
    is_digit_byte(b) || (65 <= b <= 90) || (97 <= b <= 122)
}

impl Class {
    /// Whether a byte belongs to the class.
    pub open spec fn has(self, b: u8) -> bool {
        match self {
            Class::Digit => is_digit_byte(b),
            Class::Alnum => is_alnum_byte(b),
            Class::Ident => is_alnum_byte(b) || b == 95,
            Class::Time => is_digit_byte(b) || b == 58,
            Class::Date => is_digit_byte(b) || b == 46,
            Class::Text => b != 13 && b != 10,
        }
    }

    /// Whether a byte belongs to the class.
    pub fn holds(&self, b: u8) -> (r: bool)
        ensures
            r == self.has(b),
    {
        let digit = 48 <= b && b <= 57;
        let alnum = digit || (65 <= b && b <= 90) || (97 <= b && b <= 122);
        match self {
            Class::Digit => digit,
            Class::Alnum => alnum,
            Class::Ident => alnum || b == 95,
            Class::Time => digit || b == 58,
            Class::Date => digit || b == 46,
            Class::Text => b != 13 && b != 10,
        }
    }
}

/// The end of the longest run of bytes of a class that begins at `p`.
pub open spec fn span_end(s: Seq<u8>, p: int, class: Class) -> int
    decreases s.len() - p,
{
    if 0 <= p < s.len() && class.has(s[p]) {
        span_end(s, p + 1, class)
    } else {
        p
    }
}

/// The end of a run lies between its start and the end of the input; the
/// bytes up to it belong to the class, the byte at it does not.
pub proof fn lemma_span_end(s: Seq<u8>, p: int, class: Class)
    requires
        0 <= p <= s.len(),
    ensures
        p <= span_end(s, p, class) <= s.len(),
        forall|k: int| p <= k < span_end(s, p, class) ==> class.has(#[trigger] s[k]),
        span_end(s, p, class) < s.len() ==> !class.has(s[span_end(s, p, class)]),
    decreases s.len() - p,
{
    if p < s.len() && class.has(s[p]) {
        lemma_span_end(s, p + 1, class);
    }
}

/// A run that is known by its bytes ends where they say.
pub proof fn lemma_span_end_is(s: Seq<u8>, p: int, e: int, class: Class)
    requires
        0 <= p <= e <= s.len(),
        forall|k: int| p <= k < e ==> class.has(#[trigger] s[k]),
        e == s.len() || !class.has(s[e]),
    ensures
        span_end(s, p, class) == e,
    decreases e - p,
{
    if p < e {
        assert(class.has(s[p]));
        lemma_span_end_is(s, p + 1, e, class);
    }
}

/// One or more bytes of a class, up to the first byte that is not of it.
/// Short of input where the run reaches the end of the input: more of it
/// could follow.
pub open spec fn run(s: Seq<u8>, from: Step, class: Class) -> Step {
    match from {
        Step::At(p) => {
            let e = span_end(s, p, class);
            if e >= s.len() {
                Step::Incomplete
            } else if e == p {
                Step::Fail(p)
            } else {
                Step::At(e)
            }
        },
        other => other,
    }
}

/// Whether the first `n` bytes at `p` are the first `n` characters of `key`.
pub open spec fn agrees(s: Seq<u8>, p: int, key: Seq<char>, n: int) -> bool {
    forall|k: int| 0 <= k < n ==> s[p + k] as char == #[trigger] key[k]
}

/// The smaller of two numbers.
pub open spec fn least(a: int, b: int) -> int {
    if a <= b {
        a
    } else {
        b
    }
}

/// The characters of `key`. Fails on the first byte that differs; short of
/// input where the input ends within the key and agrees with it so far.
pub open spec fn tag(s: Seq<u8>, from: Step, key: Seq<char>) -> Step {
    match from {
        Step::At(p) => if !agrees(s, p, key, least(key.len() as int, s.len() - p)) {
            Step::Fail(p)
        } else if s.len() - p < key.len() {
            Step::Incomplete
        } else {
            Step::At(p + key.len())
        },
        other => other,
    }
}

/// The byte `b`.
pub open spec fn byte(s: Seq<u8>, from: Step, b: u8) -> Step {
    match from {
        Step::At(p) => if p >= s.len() {
            Step::Incomplete
        } else if s[p] == b {
            Step::At(p + 1)
        } else {
            Step::Fail(p)
        },
        other => other,
    }
}

/// A flag: `0` or `1`.
pub open spec fn flag(s: Seq<u8>, from: Step) -> Step {
    match from {
        Step::At(p) => if p >= s.len() {
            Step::Incomplete
        } else if s[p] == 48 || s[p] == 49 {
            Step::At(p + 1)
        } else {
            Step::Fail(p)
        },
        other => other,
    }
}

/// The end of a line: a line feed, or a carriage return and a line feed.
pub open spec fn line_end(s: Seq<u8>, from: Step) -> Step {
    match from {
        Step::At(p) => if p >= s.len() {
            Step::Incomplete
        } else if s[p] == 10 {
            Step::At(p + 1)
        } else if s[p] != 13 {
            Step::Fail(p)
        } else if p + 1 >= s.len() {
            Step::Incomplete
        } else if s[p + 1] == 10 {
            Step::At(p + 2)
        } else {
            Step::Fail(p)
        },
        other => other,
    }
}

/// The rest of a line, which may be empty: everything before the end of the
/// line. Fails where a carriage return stands without a line feed.
pub open spec fn rest_of_line(s: Seq<u8>, from: Step) -> Step {
    match from {
        Step::At(p) => {
            let e = span_end(s, p, Class::Text);
            if e >= s.len() {
                Step::Incomplete
            } else if s[e] == 10 {
                Step::At(e)
            } else if e + 1 >= s.len() {
                Step::Incomplete
            } else if s[e + 1] == 10 {
                Step::At(e)
            } else {
                Step::Fail(p)
            }
        },
        other => other,
    }
}

/// The number that the digits `s[a..b]` spell.
pub open spec fn number(s: Seq<u8>, a: int, b: int) -> nat {
    digits_value(ascii_text(s.subrange(a, b)))
}

/// The text that the ASCII bytes `s[a..b]` spell.
pub open spec fn word(s: Seq<u8>, a: int, b: int) -> Seq<char> {
    ascii_text(s.subrange(a, b))
}

/// A check on what was scanned: where scanning succeeded and `ok` does not
/// hold, it fails at `offset` after all.
pub open spec fn check(step: Step, ok: bool, offset: int) -> Step {
    match step {
        Step::At(p) => if ok {
            step
        } else {
            Step::Fail(offset)
        },
        other => other,
    }
}

/// A controller number: digits that spell at most 255, and an underscore.
pub open spec fn contno(s: Seq<u8>, from: Step) -> Step {
    let d = run(s, from, Class::Digit);
    check(byte(s, d, 95), number(s, from.at(), d.at()) <= 255, from.at())
}

/// The controller number that stands at `p`.
pub open spec fn contno_at(s: Seq<u8>, p: int) -> u8 {
    number(s, p, span_end(s, p, Class::Digit)) as u8
}

/// The head of a line: controller number, key and a bar.
pub open spec fn header(s: Seq<u8>, from: Step, key: Seq<char>) -> Step {
    byte(s, tag(s, contno(s, from), key), 124)
}

/// A step that stands at a position stands within the input.
pub open spec fn within(s: Seq<u8>, step: Step) -> bool {
    step matches Step::At(p) ==> 0 <= p <= s.len()
}

/// A step that succeeded came from a step that succeeded, and did not go
/// back.
pub open spec fn onward(from: Step, to: Step) -> bool {
    to matches Step::At(e) ==> from is At && from.at() <= e
}

/// Scanning never leaves the input and never goes back: every step that
/// succeeds stands within the input, at or behind the step it came from. A
/// run takes at least one byte and stops before the end of the input; the end
/// of a line stands behind a line feed.
pub proof fn lemma_steps(s: Seq<u8>)
    ensures
        forall|from: Step, class: Class|
            within(s, from) ==> within(s, #[trigger] run(s, from, class)) && onward(
                from,
                run(s, from, class),
            ) && (run(s, from, class) is At ==> from.at() < run(s, from, class).at() < s.len()
                && run(s, from, class).at() == span_end(s, from.at(), class)),
        forall|from: Step, key: Seq<char>|
            within(s, from) ==> within(s, #[trigger] tag(s, from, key)) && onward(
                from,
                tag(s, from, key),
            ),
        forall|from: Step, b: u8|
            within(s, from) ==> within(s, #[trigger] byte(s, from, b)) && onward(
                from,
                byte(s, from, b),
            ),
        forall|from: Step|
            within(s, from) ==> within(s, #[trigger] flag(s, from)) && onward(from, flag(s, from)),
        forall|from: Step|
            within(s, from) ==> within(s, #[trigger] line_end(s, from)) && onward(
                from,
                line_end(s, from),
            ) && (line_end(s, from) is At ==> from.at() < line_end(s, from).at() && s[line_end(
                s,
                from,
            ).at() - 1] == 10),
        forall|from: Step|
            within(s, from) ==> within(s, #[trigger] rest_of_line(s, from)) && onward(
                from,
                rest_of_line(s, from),
            ),
        forall|from: Step|
            within(s, from) ==> within(s, #[trigger] contno(s, from)) && onward(
                from,
                contno(s, from),
            ),
        forall|from: Step, key: Seq<char>|
            within(s, from) ==> within(s, #[trigger] header(s, from, key)) && onward(
                from,
                header(s, from, key),
            ),
{
    assert forall|from: Step, class: Class| within(s, from) implies within(
        s,
        #[trigger] run(s, from, class),
    ) && onward(from, run(s, from, class)) && (run(s, from, class) is At ==> from.at() < run(
        s,
        from,
        class,
    ).at() < s.len() && run(s, from, class).at() == span_end(s, from.at(), class)) by {
        if from is At {
            lemma_span_end(s, from.at(), class);
        }
    }
    assert forall|from: Step| within(s, from) implies within(s, #[trigger] rest_of_line(s, from))
        && onward(from, rest_of_line(s, from)) by {
        if from is At {
            lemma_span_end(s, from.at(), Class::Text);
        }
    }
    assert forall|from: Step| within(s, from) implies within(s, #[trigger] contno(s, from))
        && onward(from, contno(s, from)) by {
        assert(within(s, run(s, from, Class::Digit)));
    }
    assert forall|from: Step, key: Seq<char>| within(s, from) implies within(
        s,
        #[trigger] header(s, from, key),
    ) && onward(from, header(s, from, key)) by {
        assert(within(s, contno(s, from)));
        assert(within(s, tag(s, contno(s, from), key)));
    }
}

/// `t` begins with `s`.
pub open spec fn extends(t: Seq<u8>, s: Seq<u8>) -> bool {
    s.len() <= t.len() && t.take(s.len() as int) == s
}

/// A step on the longer input that is the step on the shorter one, unless
/// that was short of input.
pub open spec fn stays(short: Step, long: Step) -> bool {
    short is Incomplete || long == short
}

/// A run that ends within the shorter input ends there in the longer one.
pub proof fn lemma_span_end_stays(s: Seq<u8>, t: Seq<u8>, p: int, class: Class)
    requires
        extends(t, s),
        0 <= p <= s.len(),
        span_end(s, p, class) < s.len(),
    ensures
        span_end(t, p, class) == span_end(s, p, class),
    decreases s.len() - p,
{
    assert(forall|k: int| 0 <= k < s.len() ==> t[k] == t.take(s.len() as int)[k]);
    if p < s.len() && class.has(s[p]) {
        lemma_span_end_stays(s, t, p + 1, class);
    }
}

/// More input changes no step that did not ask for more: on an input that
/// begins with `s`, every step that succeeded or failed on `s` does the same
/// at the same place, and reads the same numbers and texts.
pub proof fn lemma_steps_stay(s: Seq<u8>, t: Seq<u8>)
    requires
        extends(t, s),
    ensures
        forall|k: int| 0 <= k < s.len() ==> t[k] == s[k],
        forall|from: Step, class: Class|
            within(s, from) ==> stays(#[trigger] run(s, from, class), run(t, from, class)),
        forall|from: Step, key: Seq<char>|
            within(s, from) ==> stays(#[trigger] tag(s, from, key), tag(t, from, key)),
        forall|from: Step, b: u8|
            within(s, from) ==> stays(#[trigger] byte(s, from, b), byte(t, from, b)),
        forall|from: Step| within(s, from) ==> stays(#[trigger] flag(s, from), flag(t, from)),
        forall|from: Step|
            within(s, from) ==> stays(#[trigger] line_end(s, from), line_end(t, from)),
        forall|from: Step|
            within(s, from) ==> stays(#[trigger] rest_of_line(s, from), rest_of_line(t, from)),
        forall|a: int, b: int|
            0 <= a <= b <= s.len() ==> #[trigger] t.subrange(a, b) == s.subrange(a, b),
        forall|p: int|
            0 <= p <= s.len() && span_end(s, p, Class::Digit) < s.len() ==> #[trigger] contno_at(
                t,
                p,
            ) == contno_at(s, p),
{
    assert forall|k: int| 0 <= k < s.len() implies t[k] == s[k] by {
        assert(t[k] == t.take(s.len() as int)[k]);
    }
    assert forall|a: int, b: int| 0 <= a <= b <= s.len() implies #[trigger] t.subrange(a, b)
        == s.subrange(a, b) by {
        assert(t.subrange(a, b) =~= s.subrange(a, b));
    }
    assert forall|from: Step, class: Class| within(s, from) implies stays(
        #[trigger] run(s, from, class),
        run(t, from, class),
    ) by {
        if from is At {
            lemma_span_end(s, from.at(), class);
            if span_end(s, from.at(), class) < s.len() {
                lemma_span_end_stays(s, t, from.at(), class);
            }
        }
    }
    assert forall|from: Step, key: Seq<char>| within(s, from) implies stays(
        #[trigger] tag(s, from, key),
        tag(t, from, key),
    ) by {
        if from is At {
            let p = from.at();
            let n = least(key.len() as int, s.len() - p);
            let m = least(key.len() as int, t.len() - p);
            if !agrees(s, p, key, n) {
                let k = choose|k: int| 0 <= k < n && s[p + k] as char != #[trigger] key[k];
                assert(t[p + k] == s[p + k]);
                assert(!agrees(t, p, key, m));
            } else if s.len() - p >= key.len() {
                assert(agrees(t, p, key, m)) by {
                    assert forall|k: int| 0 <= k < m implies t[p + k] as char
                        == #[trigger] key[k] by {
                        assert(t[p + k] == s[p + k]);
                    }
                }
            }
        }
    }
    assert forall|from: Step| within(s, from) implies stays(
        #[trigger] rest_of_line(s, from),
        rest_of_line(t, from),
    ) by {
        if from is At {
            lemma_span_end(s, from.at(), Class::Text);
            if span_end(s, from.at(), Class::Text) < s.len() {
                lemma_span_end_stays(s, t, from.at(), Class::Text);
            }
        }
    }
    assert forall|p: int| 0 <= p <= s.len() && span_end(s, p, Class::Digit) < s.len() implies
        #[trigger] contno_at(t, p) == contno_at(s, p) by {
        lemma_span_end(s, p, Class::Digit);
        lemma_span_end_stays(s, t, p, Class::Digit);
        assert(t.subrange(p, span_end(s, p, Class::Digit)) == s.subrange(
            p,
            span_end(s, p, Class::Digit),
        ));
    }
}

/// More input changes no controller number and no head of a line that did
/// not ask for more.
pub proof fn lemma_heads_stay(s: Seq<u8>, t: Seq<u8>)
    requires
        extends(t, s),
    ensures
        forall|from: Step|
            within(s, from) ==> stays(#[trigger] contno(s, from), contno(t, from)),
        forall|from: Step, key: Seq<char>|
            within(s, from) ==> stays(#[trigger] header(s, from, key), header(t, from, key)),
{
    lemma_steps(s);
    lemma_steps_stay(s, t);
    assert forall|from: Step| within(s, from) implies stays(
        #[trigger] contno(s, from),
        contno(t, from),
    ) by {
        let d = run(s, from, Class::Digit);
        assert(stays(d, run(t, from, Class::Digit)));
        assert(within(s, d));
        assert(stays(byte(s, d, 95), byte(t, d, 95)));
        if d is At {
            assert(t.subrange(from.at(), d.at()) == s.subrange(from.at(), d.at()));
        }
    }
    assert forall|from: Step, key: Seq<char>| within(s, from) implies stays(
        #[trigger] header(s, from, key),
        header(t, from, key),
    ) by {
        let c = contno(s, from);
        assert(stays(c, contno(t, from)));
        assert(within(s, c));
        let g = tag(s, c, key);
        assert(stays(g, tag(t, c, key)));
        assert(within(s, g));
        assert(stays(byte(s, g, 124), byte(t, g, 124)));
    }
}

/// Scans a run of bytes of a class.
pub fn scan_run(i: &[u8], from: Scan, class: Class) -> (r: Scan)
    requires
        from matches Scan::At(p) ==> p <= i@.len(),
    ensures
        r@ == run(i@, from@, class),
        r matches Scan::At(e) ==> e < i@.len() && from is At && from->At_0 < e && e == span_end(
            i@,
            from@.at(),
            class,
        ),
{
    match from {
        Scan::At(p) => {
            let mut e: usize = p;
            while e < i.len() && class.holds(i[e])
                invariant
                    p <= e <= i@.len(),
                    forall|k: int| p <= k < e ==> class.has(#[trigger] i@[k]),
                decreases i@.len() - e,
            {
                e += 1;
            }
            proof {
                lemma_span_end_is(i@, p as int, e as int, class);
            }
            if e >= i.len() {
                Scan::Incomplete
            } else if e == p {
                Scan::Fail(p)
            } else {
                Scan::At(e)
            }
        },
        other => other,
    }
}

/// Scans the characters of an ASCII key.
pub fn scan_tag(i: &[u8], from: Scan, key: &str) -> (r: Scan)
    requires
        from matches Scan::At(p) ==> p <= i@.len(),
        is_ascii(key),
    ensures
        r@ == tag(i@, from@, key@),
        r matches Scan::At(e) ==> e <= i@.len() && from is At && from->At_0 <= e,
{
    broadcast use is_ascii_spec_bytes;

    match from {
        Scan::At(p) => {
            let kb = key.as_bytes();
            assert forall|j: int| 0 <= j < kb@.len() implies kb@[j] as char == #[trigger] key@[j] by {
                assert(kb@[j] == key@[j] as u8);
                assert((key@[j] as u32) < 128);
            }
            let n: usize = if kb.len() <= i.len() - p {
                kb.len()
            } else {
                i.len() - p
            };
            let mut k: usize = 0;
            while k < n
                invariant
                    k <= n,
                    n == least(key@.len() as int, i@.len() - p),
                    p + n <= i@.len() <= usize::MAX,
                    n <= kb@.len(),
                    from == Scan::At(p),
                    kb@.len() == key@.len(),
                    forall|j: int| 0 <= j < kb@.len() ==> kb@[j] as char == #[trigger] key@[j],
                    agrees(i@, p as int, key@, k as int),
                decreases n - k,
            {
                if i[p + k] != kb[k] {
                    assert(i@[p + k] as char != key@[k as int]);
                    assert(!agrees(i@, p as int, key@, n as int));
                    return Scan::Fail(p);
                }
                k += 1;
            }
            if n < kb.len() {
                Scan::Incomplete
            } else {
                Scan::At(p + n)
            }
        },
        other => other,
    }
}

/// Scans one byte.
pub fn scan_byte(i: &[u8], from: Scan, b: u8) -> (r: Scan)
    requires
        from matches Scan::At(p) ==> p <= i@.len(),
    ensures
        r@ == byte(i@, from@, b),
        r matches Scan::At(e) ==> e <= i@.len() && from is At && e == from->At_0 + 1,
{
    match from {
        Scan::At(p) => if p >= i.len() {
            Scan::Incomplete
        } else if i[p] == b {
            Scan::At(p + 1)
        } else {
            Scan::Fail(p)
        },
        other => other,
    }
}

/// Scans a flag.
pub fn scan_flag(i: &[u8], from: Scan) -> (r: Scan)
    requires
        from matches Scan::At(p) ==> p <= i@.len(),
    ensures
        r@ == flag(i@, from@),
        r matches Scan::At(e) ==> e <= i@.len() && from is At && e == from->At_0 + 1,
{
    match from {
        Scan::At(p) => if p >= i.len() {
            Scan::Incomplete
        } else if i[p] == 48 || i[p] == 49 {
            Scan::At(p + 1)
        } else {
            Scan::Fail(p)
        },
        other => other,
    }
}

/// Scans the end of a line.
pub fn scan_line_end(i: &[u8], from: Scan) -> (r: Scan)
    requires
        from matches Scan::At(p) ==> p <= i@.len(),
    ensures
        r@ == line_end(i@, from@),
        r matches Scan::At(e) ==> 0 < e <= i@.len() && i@[e - 1] == 10 && from is At
            && from->At_0 < e,
{
    match from {
        Scan::At(p) => if p >= i.len() {
            Scan::Incomplete
        } else if i[p] == 10 {
            Scan::At(p + 1)
        } else if i[p] != 13 {
            Scan::Fail(p)
        } else if i.len() - p <= 1 {
            Scan::Incomplete
        } else if i[p + 1] == 10 {
            Scan::At(p + 2)
        } else {
            Scan::Fail(p)
        },
        other => other,
    }
}

/// Scans the rest of a line.
pub fn scan_rest_of_line(i: &[u8], from: Scan) -> (r: Scan)
    requires
        from matches Scan::At(p) ==> p <= i@.len(),
    ensures
        r@ == rest_of_line(i@, from@),
        r matches Scan::At(e) ==> e < i@.len() && from is At && from->At_0 <= e,
{
    match from {
        Scan::At(p) => {
            let mut e: usize = p;
            while e < i.len() && i[e] != 13 && i[e] != 10
                invariant
                    p <= e <= i@.len(),
                    forall|k: int| p <= k < e ==> Class::Text.has(#[trigger] i@[k]),
                decreases i@.len() - e,
            {
                e += 1;
            }
            proof {
                lemma_span_end_is(i@, p as int, e as int, Class::Text);
            }
            if e >= i.len() {
                Scan::Incomplete
            } else if i[e] == 10 {
                Scan::At(e)
            } else if i.len() - e <= 1 {
                Scan::Incomplete
            } else if i[e + 1] == 10 {
                Scan::At(e)
            } else {
                Scan::Fail(p)
            }
        },
        other => other,
    }
}

/// A run of bytes of a class that holds only ASCII spells a text; a run of
/// digits spells digits.
pub proof fn lemma_run_ascii(s: Seq<u8>, p: int, class: Class)
    requires
        0 <= p <= s.len(),
        class != Class::Text,
    ensures
        is_ascii_bytes(s.subrange(p, span_end(s, p, class))),
        class == Class::Digit ==> crate::text::all_digits(word(s, p, span_end(s, p, class))),
{
    lemma_span_end(s, p, class);
    let e = span_end(s, p, class);
    let sub = s.subrange(p, e);
    assert forall|k: int| 0 <= k < sub.len() implies sub[k] < 128 by {
        assert(class.has(s[p + k]));
    }
    if class == Class::Digit {
        assert forall|k: int| 0 <= k < sub.len() implies crate::text::is_digit(
            #[trigger] word(s, p, e)[k],
        ) by {
            assert(class.has(s[p + k]));
            assert(word(s, p, e)[k] == sub[k] as char);
        }
    }
}

/// Reads the digits `i[a..b]` as a number, if it is at most `max`.
pub fn read_number(i: &[u8], a: usize, b: usize, max: u64) -> (r: Option<u64>)
    requires
        a <= b <= i@.len(),
        forall|k: int| a <= k < b ==> is_digit_byte(#[trigger] i@[k]),
        max < 1_000_000_000_000_000_000,
    ensures
        match r {
            Some(n) => n == number(i@, a as int, b as int) && n <= max,
            None => number(i@, a as int, b as int) > max,
        },
{
    let ghost text = word(i@, a as int, b as int);
    assert(crate::text::all_digits(text)) by {
        assert forall|k: int| 0 <= k < text.len() implies crate::text::is_digit(
            #[trigger] text[k],
        ) by {
            assert(is_digit_byte(i@[a + k]));
            assert(text[k] == i@.subrange(a as int, b as int)[k] as char);
        }
    }
    let mut acc: u64 = 0;
    let mut k: usize = a;
    assert(text.take(0) =~= Seq::<char>::empty());
    while k < b
        invariant
            a <= k <= b <= i@.len(),
            text == word(i@, a as int, b as int),
            crate::text::all_digits(text),
            acc == digits_value(text.take(k - a)),
            acc <= max,
            max < 1_000_000_000_000_000_000,
            forall|j: int| a <= j < b ==> is_digit_byte(#[trigger] i@[j]),
        decreases b - k,
    {
        let d: u64 = (i[k] - 48) as u64;
        proof {
            let next = text.take(k - a + 1);
            assert(next.drop_last() =~= text.take(k - a));
            assert(is_digit_byte(i@[k as int]));
            assert(next.last() == i@.subrange(a as int, b as int)[k - a] as char);
            assert(next.last() as nat - 48 == d);
        }
        acc = acc * 10 + d;
        if acc > max {
            proof {
                crate::text::lemma_digits_value_grows(text, k - a + 1);
            }
            return None;
        }
        k += 1;
    }
    assert(text.take(b - a) =~= text);
    Some(acc)
}

/// Scans a controller number.
pub fn scan_contno(i: &[u8], from: Scan) -> (r: (Scan, u8))
    requires
        from matches Scan::At(p) ==> p <= i@.len(),
    ensures
        r.0@ == contno(i@, from@),
        r.0 matches Scan::At(e) ==> e <= i@.len() && from is At && from->At_0 < e && r.1
            == contno_at(i@, from@.at()),
{
    let d = scan_run(i, from, Class::Digit);
    let u = scan_byte(i, d, 95);
    match (from, d, u) {
        (Scan::At(p), Scan::At(e), Scan::At(_)) => {
            proof {
                lemma_span_end(i@, p as int, Class::Digit);
            }
            match read_number(i, p, e, 255) {
                Some(n) => (u, n as u8),
                None => (Scan::Fail(p), 0),
            }
        },
        _ => (u, 0),
    }
}

/// Scans the head of a line with an ASCII key.
pub fn scan_header(i: &[u8], from: Scan, key: &str) -> (r: (Scan, u8))
    requires
        from matches Scan::At(p) ==> p <= i@.len(),
        is_ascii(key),
    ensures
        r.0@ == header(i@, from@, key@),
        r.0 matches Scan::At(e) ==> e <= i@.len() && from is At && from->At_0 < e && r.1
            == contno_at(i@, from@.at()),
{
    let (c, n) = scan_contno(i, from);
    let t = scan_tag(i, c, key);
    let b = scan_byte(i, t, 124);
    (b, n)
}

} // verus!
