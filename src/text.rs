use vstd::prelude::*;
use vstd::string::*;

verus! {

/// Unicode White_Space characters, the ones that trimming removes.
pub open spec fn is_white(c: char) -> bool {
    ('\u{9}' <= c <= '\u{d}') || c == ' ' || c == '\u{85}' || c == '\u{a0}' || c == '\u{1680}'
        || ('\u{2000}' <= c <= '\u{200a}') || c == '\u{2028}' || c == '\u{2029}' || c
        == '\u{202f}' || c == '\u{205f}' || c == '\u{3000}'
}

/// Whether `c` is white space.
pub fn white(c: char) -> (r: bool)
    ensures
        r == is_white(c),
{
    ('\u{9}' <= c && c <= '\u{d}') || c == ' ' || c == '\u{85}' || c == '\u{a0}' || c
        == '\u{1680}' || ('\u{2000}' <= c && c <= '\u{200a}') || c == '\u{2028}' || c
        == '\u{2029}' || c == '\u{202f}' || c == '\u{205f}' || c == '\u{3000}'
}

/// `s` without its leading and trailing white space.
pub open spec fn trimmed(s: Seq<char>) -> Seq<char> {
    let a = lead_len(s);
    s.subrange(a, a + body_len(s.skip(a)))
}

/// Number of white characters at the start of `s`.
pub open spec fn lead_len(s: Seq<char>) -> int
    decreases s.len(),
{
    if s.len() > 0 && is_white(s[0]) {
        1 + lead_len(s.skip(1))
    } else {
        0
    }
}

/// Length of `s` once its trailing white characters are dropped.
pub open spec fn body_len(s: Seq<char>) -> int
    decreases s.len(),
{
    if s.len() > 0 && is_white(s.last()) {
        body_len(s.drop_last())
    } else {
        s.len() as int
    }
}

proof fn lemma_lead_len(s: Seq<char>, a: int)
    requires
        0 <= a <= s.len(),
        forall|j: int| 0 <= j < a ==> is_white(s[j]),
        a == s.len() || !is_white(s[a]),
    ensures
        lead_len(s) == a,
    decreases a,
{
    if a > 0 {
        assert forall|j: int| 0 <= j < a - 1 implies is_white(s.skip(1)[j]) by {
            assert(s.skip(1)[j] == s[j + 1]);
        }
        lemma_lead_len(s.skip(1), a - 1);
    }
}

proof fn lemma_body_len(s: Seq<char>, b: int)
    requires
        0 <= b <= s.len(),
        forall|j: int| b <= j < s.len() ==> is_white(s[j]),
        b == 0 || !is_white(s[b - 1]),
    ensures
        body_len(s) == b,
    decreases s.len(),
{
    if s.len() > b {
        lemma_body_len(s.drop_last(), b);
    }
}

/// Returns `s` with leading and trailing white space removed.
pub fn trim(s: &str) -> (r: String)
    ensures
        r@ == trimmed(s@),
{
    let n = s.unicode_len();
    let mut a: usize = 0;
    while a < n && white(s.get_char(a))
        invariant
            n == s@.len(),
            a <= n,
            forall|j: int| 0 <= j < a ==> is_white(s@[j]),
        decreases n - a,
    {
        a = a + 1;
    }
    let mut b: usize = n;
    while b > a && white(s.get_char(b - 1))
        invariant
            n == s@.len(),
            a <= b <= n,
            forall|j: int| b <= j < n ==> is_white(s@[j]),
        decreases b,
    {
        b = b - 1;
    }
    proof {
        lemma_lead_len(s@, a as int);
        let t = s@.skip(a as int);
        assert forall|j: int| (b - a) <= j < t.len() implies is_white(t[j]) by {
            assert(t[j] == s@[j + a]);
        }
        if b > a {
            assert(t[b - a - 1] == s@[b - 1]);
        }
        lemma_body_len(t, b - a);
    }
    s.substring_char(a, b).to_owned()
}

/// A decimal digit.
pub open spec fn is_digit(c: char) -> bool {
    '0' <= c <= '9'
}

/// The numeric value of a decimal digit.
pub open spec fn digit_value(c: char) -> int {
    (c as u32) - ('0' as u32)
}

/// The number that a string of decimal digits denotes.
pub open spec fn digits_value(s: Seq<char>) -> int
    decreases s.len(),
{
    if s.len() == 0 {
        0
    } else {
        10 * digits_value(s.drop_last()) + digit_value(s.last())
    }
}

/// Every character of `s` is a decimal digit.
pub open spec fn all_digits(s: Seq<char>) -> bool {
    forall|j: int| 0 <= j < s.len() ==> is_digit(s[j])
}

/// `s` starts with `+` or `-`.
pub open spec fn has_sign(s: Seq<char>) -> bool {
    s.len() > 0 && (s[0] == '+' || s[0] == '-')
}

/// The digits of a number, after its optional sign.
pub open spec fn magnitude(s: Seq<char>) -> Seq<char> {
    if has_sign(s) {
        s.skip(1)
    } else {
        s
    }
}

/// The value that an optionally signed string of digits denotes.
pub open spec fn signed_value(s: Seq<char>) -> int {
    if s.len() > 0 && s[0] == '-' {
        -digits_value(magnitude(s))
    } else {
        digits_value(magnitude(s))
    }
}

/// The 32-bit integer that `s` spells, if any: an optional `+` or `-`, then at
/// least one decimal digit and nothing else, within the range of `i32`.
pub open spec fn parse_int(s: Seq<char>) -> Option<i32> {
    if magnitude(s).len() > 0 && all_digits(magnitude(s)) && i32::MIN <= signed_value(s)
        <= i32::MAX {
        Some(signed_value(s) as i32)
    } else {
        None
    }
}

/// The integer that `s` spells, or zero where it spells none.
pub open spec fn int_or_zero(s: Seq<char>) -> i32 {
    match parse_int(s) {
        Some(v) => v,
        None => 0,
    }
}

proof fn lemma_digits_nonneg(s: Seq<char>)
    requires
        all_digits(s),
    ensures
        digits_value(s) >= 0,
    decreases s.len(),
{
    if s.len() > 0 {
        lemma_digits_nonneg(s.drop_last());
    }
}

/// Reads a 32-bit integer written in decimal, with an optional sign.
pub fn parse_i32(s: &str) -> (r: Option<i32>)
    ensures
        r == parse_int(s@),
{
    let n = s.unicode_len();
    let mut start: usize = 0;
    let mut neg = false;
    if n > 0 {
        let c = s.get_char(0);
        if c == '+' {
            start = 1;
        } else if c == '-' {
            start = 1;
            neg = true;
        }
    }
    assert(magnitude(s@) == s@.subrange(start as int, n as int));
    if start == n {
        return None;
    }
    let mut acc: u64 = 0;
    let mut big = false;
    let mut i: usize = start;
    while i < n
        invariant
            n == s@.len(),
            start <= i <= n,
            magnitude(s@) == s@.subrange(start as int, n as int),
            forall|j: int| start <= j < i ==> is_digit(s@[j]),
            !big ==> acc == digits_value(s@.subrange(start as int, i as int)),
            !big ==> acc <= 2147483648,
            big ==> digits_value(s@.subrange(start as int, i as int)) > 2147483648,
        decreases n - i,
    {
        let c = s.get_char(i);
        if !('0' <= c && c <= '9') {
            proof {
                let m = magnitude(s@);
                assert(m[i - start] == c);
            }
            return None;
        }
        let ghost pre = s@.subrange(start as int, i as int);
        let ghost cur = s@.subrange(start as int, i + 1);
        assert(cur.drop_last() =~= pre);
        assert(cur.last() == c);
        if !big {
            acc = acc * 10 + ((c as u32) - ('0' as u32)) as u64;
            if acc > 2147483648 {
                big = true;
            }
        }
        i = i + 1;
    }
    proof {
        let m = magnitude(s@);
        assert(s@.subrange(start as int, i as int) =~= m);
        assert(all_digits(m)) by {
            assert forall|j: int| 0 <= j < m.len() implies is_digit(m[j]) by {
                assert(m[j] == s@[j + start]);
            }
        }
        lemma_digits_nonneg(m);
    }
    if big {
        None
    } else if neg {
        Some((0 - (acc as i64)) as i32)
    } else if acc <= 2147483647 {
        Some(acc as i32)
    } else {
        None
    }
}

/// Reads a 32-bit integer, giving zero where the text is no such number.
pub fn int_or_default(s: &str) -> (r: i32)
    ensures
        r == int_or_zero(s@),
{
    match parse_i32(s) {
        Some(v) => v,
        None => 0,
    }
}

/// The pieces of `s` between commas, as splitting on `,` gives them.
pub open spec fn fields(s: Seq<char>) -> Seq<Seq<char>>
    decreases s.len(),
{
    if s.len() == 0 {
        seq![Seq::empty()]
    } else {
        let f = fields(s.drop_last());
        if s.last() == ',' {
            f.push(Seq::empty())
        } else {
            f.update(f.len() - 1, f.last().push(s.last()))
        }
    }
}

proof fn lemma_fields_len(s: Seq<char>)
    ensures
        fields(s).len() >= 1,
    decreases s.len(),
{
    if s.len() > 0 {
        lemma_fields_len(s.drop_last());
    }
}

/// Where the first two commas of a text stand, and how many it has.
pub struct Commas {
    pub count: usize,
    pub first: usize,
    pub second: usize,
}

/// Finds the commas of `s`; with exactly two of them, the text falls into
/// the three fields that lie around them.
pub fn find_commas(s: &str) -> (r: Commas)
    ensures
        fields(s@).len() == r.count + 1,
        r.count == 2 ==> r.first < r.second < s@.len() && fields(s@) == seq![
            s@.subrange(0, r.first as int),
            s@.subrange(r.first + 1, r.second as int),
            s@.subrange(r.second + 1, s@.len() as int),
        ],
{
    let n = s.unicode_len();
    let mut count: usize = 0;
    let mut first: usize = 0;
    let mut second: usize = 0;
    let mut i: usize = 0;
    proof {
        assert(s@.take(0) =~= Seq::<char>::empty());
    }
    while i < n
        invariant
            n == s@.len(),
            i <= n,
            count <= i,
            fields(s@.take(i as int)).len() == count + 1,
            count == 0 ==> fields(s@.take(i as int)) == seq![s@.take(i as int)],
            count >= 1 ==> first < i,
            count >= 2 ==> first < second < i,
            count == 1 ==> fields(s@.take(i as int)) == seq![
                s@.subrange(0, first as int),
                s@.subrange(first + 1, i as int),
            ],
            count == 2 ==> fields(s@.take(i as int)) == seq![
                s@.subrange(0, first as int),
                s@.subrange(first + 1, second as int),
                s@.subrange(second + 1, i as int),
            ],
        decreases n - i,
    {
        let c = s.get_char(i);
        let ghost t = s@.take(i as int);
        let ghost t2 = s@.take(i + 1);
        assert(t2.drop_last() =~= t);
        assert(t2.last() == c);
        proof {
            lemma_fields_len(t);
        }
        if c == ',' {
            if count == 0 {
                first = i;
            } else if count == 1 {
                second = i;
            }
            count = count + 1;
            proof {
                if count == 1 {
                    assert(s@.subrange(first + 1, i + 1) =~= Seq::<char>::empty());
                    assert(fields(t2) =~= seq![
                        s@.subrange(0, first as int),
                        s@.subrange(first + 1, i + 1),
                    ]);
                }
                if count == 2 {
                    assert(s@.subrange(second + 1, i + 1) =~= Seq::<char>::empty());
                    assert(fields(t2) =~= seq![
                        s@.subrange(0, first as int),
                        s@.subrange(first + 1, second as int),
                        s@.subrange(second + 1, i + 1),
                    ]);
                }
            }
        } else {
            proof {
                if count == 0 {
                    assert(t.push(c) =~= t2);
                    assert(fields(t2) =~= seq![t2]);
                }
                if count == 1 {
                    assert(s@.subrange(first + 1, i + 1) =~= s@.subrange(first + 1, i as int).push(c));
                    assert(fields(t2) =~= seq![
                        s@.subrange(0, first as int),
                        s@.subrange(first + 1, i + 1),
                    ]);
                }
                if count == 2 {
                    assert(s@.subrange(second + 1, i + 1) =~= s@.subrange(second + 1, i as int).push(c));
                    assert(fields(t2) =~= seq![
                        s@.subrange(0, first as int),
                        s@.subrange(first + 1, second as int),
                        s@.subrange(second + 1, i + 1),
                    ]);
                }
            }
        }
        i = i + 1;
    }
    assert(s@.take(n as int) =~= s@);
    Commas { count, first, second }
}

/// Relies on String::push: the character is appended at the end.
#[verifier::external_body]
pub(crate) fn push_char(s: &mut String, c: char)
    ensures
        final(s)@ == old(s)@.push(c),
{
    s.push(c)
}

/// Relies on String::pop: the last character is removed and returned, and an
/// empty string is left as it is.
#[verifier::external_body]
pub(crate) fn pop_char(s: &mut String) -> (r: Option<char>)
    ensures
        old(s)@.len() == 0 ==> r is None && final(s)@ == old(s)@,
        old(s)@.len() > 0 ==> r == Some(old(s)@.last()) && final(s)@ == old(s)@.drop_last(),
{
    s.pop()
}

/// The character of a decimal digit.
pub open spec fn digit_char(d: int) -> char {
    seq!['0', '1', '2', '3', '4', '5', '6', '7', '8', '9'][d]
}

/// The decimal digits of a natural number, most significant first.
pub open spec fn decimal_digits(n: nat) -> Seq<char>
    decreases n,
{
    if n < 10 {
        seq![digit_char(n as int)]
    } else {
        decimal_digits(n / 10).push(digit_char((n % 10) as int))
    }
}

/// An integer written in decimal, with a `-` before a negative one.
pub open spec fn decimal(n: int) -> Seq<char> {
    if n < 0 {
        seq!['-'] + decimal_digits((-n) as nat)
    } else {
        decimal_digits(n as nat)
    }
}

fn digit(d: u64) -> (r: char)
    requires
        d < 10,
    ensures
        r == digit_char(d as int),
{
    match d {
        0 => '0',
        1 => '1',
        2 => '2',
        3 => '3',
        4 => '4',
        5 => '5',
        6 => '6',
        7 => '7',
        8 => '8',
        _ => '9',
    }
}

fn push_digits(out: &mut String, n: u64)
    ensures
        final(out)@ == old(out)@ + decimal_digits(n as nat),
    decreases n,
{
    if n >= 10 {
        push_digits(out, n / 10);
    }
    push_char(out, digit(n % 10));
    assert(final(out)@ =~= old(out)@ + decimal_digits(n as nat));
}

/// Appends `n` written in decimal.
pub fn push_decimal(out: &mut String, n: i32)
    ensures
        final(out)@ == old(out)@ + decimal(n as int),
{
    let wide = n as i64;
    if wide < 0 {
        push_char(out, '-');
        push_digits(out, (0 - wide) as u64);
        assert(final(out)@ =~= old(out)@ + decimal(n as int));
    } else {
        push_digits(out, wide as u64);
    }
}

} // verus!
