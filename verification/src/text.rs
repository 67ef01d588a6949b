//! Small pieces of text: integers in decimal, and strings as characters.

use vstd::prelude::*;

verus! {

/// The character of a decimal digit.
pub open spec fn digit_char(d: int) -> char {
    (48 + d) as char
}

/// The decimal digits of `n`, most significant first.
pub open spec fn decimal_nat(n: nat) -> Seq<char>
    decreases n,
{
    if n < 10 {
        seq![digit_char(n as int)]
    } else {
        decimal_nat(n / 10).push(digit_char((n % 10) as int))
    }
}

/// `x` in decimal.
pub open spec fn decimal(x: int) -> Seq<char> {
    if x < 0 {
        seq!['-'] + decimal_nat((-x) as nat)
    } else {
        decimal_nat(x as nat)
    }
}

fn digit_text(d: u64) -> (r: &'static str)
    requires
        d < 10,
    ensures
        r@ == seq![digit_char(d as int)],
{
    proof {
        reveal_strlit("0");
        reveal_strlit("1");
        reveal_strlit("2");
        reveal_strlit("3");
        reveal_strlit("4");
        reveal_strlit("5");
        reveal_strlit("6");
        reveal_strlit("7");
        reveal_strlit("8");
        reveal_strlit("9");
    }
    let r = match d {
        0 => "0",
        1 => "1",
        2 => "2",
        3 => "3",
        4 => "4",
        5 => "5",
        6 => "6",
        7 => "7",
        8 => "8",
        _ => "9",
    };
    assert(r@ =~= seq![digit_char(d as int)]);
    r
}

/// `n` in decimal.
pub fn nat_text(n: u64) -> (r: String)
    ensures
        r@ == decimal_nat(n as nat),
    decreases n,
{
    if n < 10 {
        String::from_str(digit_text(n))
    } else {
        let mut s: String = nat_text(n / 10);
        let ghost head = s@;
        s.append(digit_text(n % 10));
        assert(s@ =~= head.push(digit_char((n % 10) as int)));
        s
    }
}

/// `x` in decimal.
pub fn int_text(x: i64) -> (r: String)
    ensures
        r@ == decimal(x as int),
{
    if x < 0 {
        let magnitude: u64 = (-(x as i128)) as u64;
        let mut s: String = String::from_str("-");
        proof {
            reveal_strlit("-");
        }
        let digits: String = nat_text(magnitude);
        s.append(digits.as_str());
        assert(s@ =~= seq!['-'] + decimal_nat(magnitude as nat));
        s
    } else {
        nat_text(x as u64)
    }
}

/// The characters of a string.
pub fn chars_of(s: &str) -> (r: Vec<char>)
    ensures
        r@ == s@,
{
    let mut out: Vec<char> = Vec::new();
    for c in it: s.chars()
        invariant
            it.seq() == s@,
            out@ == it.seq().take(it.index()),
    {
        out.push(c);
    }
    out
}

/// Unicode white space.
pub open spec fn is_space(c: char) -> bool {
    ||| 0x9 <= c as u32 <= 0xd
    ||| c as u32 == 0x20
    ||| c as u32 == 0x85
    ||| c as u32 == 0xa0
    ||| c as u32 == 0x1680
    ||| 0x2000 <= c as u32 <= 0x200a
    ||| c as u32 == 0x2028
    ||| c as u32 == 0x2029
    ||| c as u32 == 0x202f
    ||| c as u32 == 0x205f
    ||| c as u32 == 0x3000
}

/// Whether a character is Unicode white space.
pub fn is_space_char(c: char) -> (r: bool)
    ensures
        r == is_space(c),
{
    let u: u32 = c as u32;
    (0x9 <= u && u <= 0xd) || u == 0x20 || u == 0x85 || u == 0xa0 || u == 0x1680 || (0x2000 <= u
        && u <= 0x200a) || u == 0x2028 || u == 0x2029 || u == 0x202f || u == 0x205f || u == 0x3000
}

/// `s` without white space at its start.
pub open spec fn trim_start(s: Seq<char>) -> Seq<char>
    decreases s.len(),
{
    if s.len() > 0 && is_space(s[0]) {
        trim_start(s.skip(1))
    } else {
        s
    }
}

/// `s` without white space at its end.
pub open spec fn trim_end(s: Seq<char>) -> Seq<char>
    decreases s.len(),
{
    if s.len() > 0 && is_space(s.last()) {
        trim_end(s.drop_last())
    } else {
        s
    }
}

/// Every character is a decimal digit.
pub open spec fn all_digits(s: Seq<char>) -> bool {
    forall|i: int| 0 <= i < s.len() ==> '0' <= #[trigger] s[i] <= '9'
}

/// The number that decimal digits write.
pub open spec fn digits_value(s: Seq<char>) -> nat
    decreases s.len(),
{
    if s.len() == 0 {
        0
    } else {
        digits_value(s.drop_last()) * 10 + (s.last() as nat - 48) as nat
    }
}

/// The 64-bit integer that `s` writes: white space around it, an optional sign,
/// at least one digit, nothing else, and within range.
pub open spec fn parsed_int(s: Seq<char>) -> Option<int> {
    let t = trim_end(trim_start(s));
    let negative = t.len() > 0 && t[0] == '-';
    let signed = negative || (t.len() > 0 && t[0] == '+');
    let digits = if signed {
        t.skip(1)
    } else {
        t
    };
    let value = if negative {
        -(digits_value(digits) as int)
    } else {
        digits_value(digits) as int
    };
    if digits.len() > 0 && all_digits(digits) && i64::MIN <= value <= i64::MAX {
        Some(value)
    } else {
        None
    }
}

proof fn lemma_value_grows(s: Seq<char>, n: int)
    requires
        0 <= n <= s.len(),
        all_digits(s),
    ensures
        digits_value(s.take(n)) <= digits_value(s),
    decreases s.len() - n,
{
    if n == s.len() {
        assert(s.take(n) =~= s);
    } else {
        lemma_value_grows(s, n + 1);
        assert(s.take(n + 1).drop_last() =~= s.take(n));
        assert(s.take(n + 1).last() == s[n]);
    }
}

/// The digits of `cs` from `from` to `to` as a number, if they are digits and
/// the number is at most `2^63`.
fn value_of(cs: &Vec<char>, from: usize, to: usize) -> (r: Option<u64>)
    requires
        from <= to <= cs@.len(),
    ensures
        ({
            let d = cs@.subrange(from as int, to as int);
            r == if all_digits(d) && digits_value(d) <= 0x8000_0000_0000_0000 {
                Some(digits_value(d) as u64)
            } else {
                None
            }
        }),
{
    let ghost d = cs@.subrange(from as int, to as int);
    let mut acc: u64 = 0;
    let mut i: usize = from;
    assert(d.take(0) =~= Seq::empty());
    while i < to
        invariant
            from <= i <= to <= cs@.len(),
            d == cs@.subrange(from as int, to as int),
            acc <= 0x8000_0000_0000_0000,
            all_digits(d.take(i - from)),
            acc == digits_value(d.take(i - from)),
        decreases to - i,
    {
        let c: char = cs[i];
        let ghost n = i - from;
        assert(d[n] == c);
        if c < '0' || c > '9' {
            assert(!all_digits(d));
            return None;
        }
        let next: u128 = acc as u128 * 10 + (c as u32 - 48) as u128;
        proof {
            assert(d.take(n + 1).drop_last() =~= d.take(n));
            assert(d.take(n + 1).last() == c);
            assert forall|j: int| 0 <= j < d.take(n + 1).len() implies '0' <= #[trigger] d.take(
                n + 1,
            )[j] <= '9' by {
                if j < n {
                    assert(d.take(n)[j] == d.take(n + 1)[j]);
                }
            }
        }
        if next > 0x8000_0000_0000_0000 {
            proof {
                if all_digits(d) {
                    lemma_value_grows(d, n + 1);
                }
            }
            return None;
        }
        acc = next as u64;
        i = i + 1;
    }
    assert(d.take(i - from) =~= d);
    Some(acc)
}

/// Parse a 64-bit integer out of text.
pub fn parse_int(s: &str) -> (r: Option<i64>)
    ensures
        match r {
            Some(x) => parsed_int(s@) == Some(x as int),
            None => parsed_int(s@) is None,
        },
{
    let cs: Vec<char> = chars_of(s);
    let mut start: usize = 0;
    assert(cs@.skip(0) =~= cs@);
    while start < cs.len() && is_space_char(cs[start])
        invariant
            start <= cs@.len(),
            trim_start(cs@.skip(start as int)) == trim_start(cs@),
        decreases cs@.len() - start,
    {
        assert(cs@.skip(start as int).skip(1) =~= cs@.skip(start + 1));
        start = start + 1;
    }
    let ghost head = cs@.skip(start as int);
    assert(trim_start(cs@) == head);
    let mut end: usize = cs.len();
    assert(head.take(end - start) =~= head);
    while end > start && is_space_char(cs[end - 1])
        invariant
            start <= end <= cs@.len(),
            head == cs@.skip(start as int),
            trim_end(head.take(end - start)) == trim_end(head),
        decreases end,
    {
        assert(head.take(end - start).last() == cs@[end - 1]);
        assert(head.take(end - start).drop_last() =~= head.take(end - start - 1));
        end = end - 1;
    }
    let ghost t = head.take(end - start);
    proof {
        if end > start {
            assert(t.last() == cs@[end - 1]);
        }
        assert(t == trim_end(head));
        assert(t =~= cs@.subrange(start as int, end as int));
    }
    let negative: bool = start < end && cs[start] == '-';
    let signed: bool = negative || (start < end && cs[start] == '+');
    let from: usize = if signed {
        start + 1
    } else {
        start
    };
    proof {
        assert(start < end ==> t[0] == cs@[start as int]);
        assert(cs@.subrange(from as int, end as int) =~= if signed {
            t.skip(1)
        } else {
            t
        });
    }
    if from == end {
        return None;
    }
    match value_of(&cs, from, end) {
        Some(v) => if negative {
            Some((-(v as i128)) as i64)
        } else if v <= 0x7fff_ffff_ffff_ffff {
            Some(v as i64)
        } else {
            None
        },
        None => None,
    }
}

proof fn lemma_decimal_nat(n: nat)
    ensures
        decimal_nat(n).len() > 0,
        all_digits(decimal_nat(n)),
        digits_value(decimal_nat(n)) == n,
    decreases n,
{
    let s = decimal_nat(n);
    if n < 10 {
        reveal_with_fuel(digits_value, 2);
        assert(s.drop_last() =~= Seq::empty());
        assert(s.last() == digit_char(n as int));
    } else {
        lemma_decimal_nat(n / 10);
        assert(s.drop_last() =~= decimal_nat(n / 10));
        assert forall|i: int| 0 <= i < s.len() implies '0' <= #[trigger] s[i] <= '9' by {
            if i < s.len() - 1 {
                assert(decimal_nat(n / 10)[i] == s[i]);
            }
        }
    }
}

/// An integer written in decimal reads back as itself.
pub proof fn law_written_integers_read_back(x: i64)
    ensures
        parsed_int(decimal(x as int)) == Some(x as int),
{
    let s = decimal(x as int);
    let magnitude = (if x < 0 {
        -(x as int)
    } else {
        x as int
    }) as nat;
    lemma_decimal_nat(magnitude);
    let d = decimal_nat(magnitude);
    assert('0' <= d[0] <= '9');
    assert('0' <= d[d.len() - 1] <= '9');
    assert(!is_space(s[0]));
    assert(s.last() == d[d.len() - 1]);
    assert(!is_space(s.last()));
    assert(trim_end(trim_start(s)) == s);
    if x < 0 {
        assert(s.skip(1) =~= d);
    }
}

/// What decimal digits write is written back by them: only digits, at least one, the
/// most significant first, without a leading zero, and of the value of the number.
pub proof fn law_decimal_digits_write_the_number(n: nat)
    ensures
        decimal_nat(n).len() > 0,
        all_digits(decimal_nat(n)),
        digits_value(decimal_nat(n)) == n,
        n > 0 ==> decimal_nat(n)[0] != '0',
    decreases n,
{
    lemma_decimal_nat(n);
    if n >= 10 {
        law_decimal_digits_write_the_number(n / 10);
        assert(decimal_nat(n)[0] == decimal_nat(n / 10)[0]);
    }
}

/// One more digit at the end makes ten times the number and the digit.
pub proof fn law_digits_have_decimal_places(s: Seq<char>, d: char)
    requires
        '0' <= d <= '9',
    ensures
        digits_value(s.push(d)) == 10 * digits_value(s) + (d as nat - '0' as nat),
{
    assert(s.push(d).drop_last() =~= s);
}

pub(crate) proof fn lemma_trim_start_skips(space: Seq<char>, s: Seq<char>)
    requires
        forall|i: int| 0 <= i < space.len() ==> is_space(#[trigger] space[i]),
    ensures
        trim_start(space + s) == trim_start(s),
    decreases space.len(),
{
    if space.len() > 0 {
        assert((space + s)[0] == space[0]);
        assert((space + s).skip(1) =~= space.skip(1) + s);
        lemma_trim_start_skips(space.skip(1), s);
    } else {
        assert(space + s =~= s);
    }
}

proof fn lemma_trim_end_skips(s: Seq<char>, space: Seq<char>)
    requires
        forall|i: int| 0 <= i < space.len() ==> is_space(#[trigger] space[i]),
    ensures
        trim_end(s + space) == trim_end(s),
    decreases space.len(),
{
    if space.len() > 0 {
        assert((s + space).last() == space.last());
        assert((s + space).drop_last() =~= s + space.drop_last());
        lemma_trim_end_skips(s, space.drop_last());
    } else {
        assert(s + space =~= s);
    }
}

/// White space around a number plays no part.
pub proof fn law_space_around_a_number_is_ignored(
    before: Seq<char>,
    s: Seq<char>,
    after: Seq<char>,
)
    requires
        s.len() > 0,
        !is_space(s[0]),
        forall|i: int| 0 <= i < before.len() ==> is_space(#[trigger] before[i]),
        forall|i: int| 0 <= i < after.len() ==> is_space(#[trigger] after[i]),
    ensures
        parsed_int(before + s + after) == parsed_int(s),
{
    assert(before + s + after =~= before + (s + after));
    lemma_trim_start_skips(before, s + after);
    assert((s + after)[0] == s[0]);
    assert(trim_start(s + after) == s + after);
    lemma_trim_end_skips(s, after);
}

/// A plus sign plays no part, and a minus sign turns the number round; what is not
/// made of digits is no number.
pub proof fn law_signs_and_digits(s: Seq<char>)
    requires
        s.len() > 0,
        !is_space(s.last()),
    ensures
        all_digits(s) ==> parsed_int(seq!['+'] + s) == parsed_int(s),
        all_digits(s) && digits_value(s) <= i64::MAX ==> parsed_int(s) == Some(
            digits_value(s) as int,
        ) && parsed_int(seq!['-'] + s) == Some(-(digits_value(s) as int)),
        all_digits(s) && digits_value(s) > i64::MAX ==> parsed_int(s) is None,
        !all_digits(s) ==> parsed_int(seq!['+'] + s) is None && parsed_int(seq!['-'] + s) is None,
        !all_digits(s) && s[0] != '+' && s[0] != '-' && !is_space(s[0]) ==> parsed_int(s) is None,
{
    let plus = seq!['+'] + s;
    let minus = seq!['-'] + s;
    assert(plus.skip(1) =~= s && minus.skip(1) =~= s);
    assert(plus.last() == s.last() && minus.last() == s.last());
    assert(plus[0] == '+' && minus[0] == '-');
    assert(trim_end(trim_start(plus)) == plus);
    assert(trim_end(trim_start(minus)) == minus);
    if all_digits(s) {
        assert('0' <= s[0] <= '9');
        assert(!is_space(s[0]));
    }
    if !is_space(s[0]) {
        assert(trim_end(trim_start(s)) == s);
    }
}

/// What stands between the same head and the same tail is told apart.
pub(crate) proof fn lemma_same_middle(head: Seq<char>, a: Seq<char>, b: Seq<char>, tail: Seq<char>)
    requires
        head + a + tail == head + b + tail,
    ensures
        a == b,
{
    let (x, y) = (head + a + tail, head + b + tail);
    assert(x.len() == y.len());
    assert forall|i: int| 0 <= i < a.len() implies a[i] == b[i] by {
        assert(x[head.len() + i] == a[i]);
        assert(y[head.len() + i] == b[i]);
    }
    assert(a =~= b);
}

} // verus!
