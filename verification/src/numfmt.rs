//! Decimal text for integers. The wire format carries 64-bit integers
//! as decimal strings, so rendering and parsing them exactly matters
//! for the codec's round trip.

use vstd::prelude::*;

verus! {

/// The character for one decimal digit.
pub open spec fn spec_digit_char(d: int) -> char {
    if d == 0 {
        '0'
    } else if d == 1 {
        '1'
    } else if d == 2 {
        '2'
    } else if d == 3 {
        '3'
    } else if d == 4 {
        '4'
    } else if d == 5 {
        '5'
    } else if d == 6 {
        '6'
    } else if d == 7 {
        '7'
    } else if d == 8 {
        '8'
    } else {
        '9'
    }
}

/// The value of one decimal digit character, or -1 for any other character.
pub open spec fn spec_digit_val(c: char) -> int {
    if c == '0' {
        0
    } else if c == '1' {
        1
    } else if c == '2' {
        2
    } else if c == '3' {
        3
    } else if c == '4' {
        4
    } else if c == '5' {
        5
    } else if c == '6' {
        6
    } else if c == '7' {
        7
    } else if c == '8' {
        8
    } else if c == '9' {
        9
    } else {
        -1
    }
}

pub open spec fn spec_is_digit(c: char) -> bool {
    spec_digit_val(c) >= 0
}

pub open spec fn spec_all_digits(s: Seq<char>) -> bool {
    forall|i: int| 0 <= i < s.len() ==> spec_is_digit(s[i])
}

/// Decimal rendering of a natural number, most significant digit first.
pub open spec fn spec_dec_nat(n: nat) -> Seq<char>
    decreases n,
{
    if n < 10 {
        seq![spec_digit_char(n as int)]
    } else {
        spec_dec_nat(n / 10) + seq![spec_digit_char((n % 10) as int)]
    }
}

/// Decimal rendering of a signed integer: a minus sign for negatives,
/// then the digits of the magnitude.
pub open spec fn spec_dec_int(n: int) -> Seq<char> {
    if n >= 0 {
        spec_dec_nat(n as nat)
    } else {
        seq!['-'] + spec_dec_nat((-n) as nat)
    }
}

/// Numeric value of a digit string, read most significant digit first.
pub open spec fn spec_dec_value(s: Seq<char>) -> int
    decreases s.len(),
{
    if s.len() == 0 {
        0
    } else {
        spec_dec_value(s.drop_last()) * 10 + spec_digit_val(s.last())
    }
}

/// Signed reading of a decimal string as a 64-bit integer: an optional
/// leading minus sign, then at least one digit, value within range.
pub open spec fn spec_parse_i64(s: Seq<char>) -> Option<int> {
    if s.len() >= 1 && s[0] == '-' {
        let rest = s.subrange(1, s.len() as int);
        if rest.len() >= 1 && spec_all_digits(rest) && -spec_dec_value(rest) >= i64::MIN {
            Some(-spec_dec_value(rest))
        } else {
            None
        }
    } else if s.len() >= 1 && spec_all_digits(s) && spec_dec_value(s) <= i64::MAX {
        Some(spec_dec_value(s))
    } else {
        None
    }
}

/// A digit string's value is never negative.
pub proof fn lemma_dec_value_nonneg(s: Seq<char>)
    requires
        spec_all_digits(s),
    ensures
        spec_dec_value(s) >= 0,
    decreases s.len(),
{
    if s.len() > 0 {
        assert(spec_all_digits(s.drop_last())) by {
            assert(forall|i: int| 0 <= i < s.len() - 1 ==> s.drop_last()[i] == s[i]);
        }
        lemma_dec_value_nonneg(s.drop_last());
    }
}

/// Rendering a natural number yields a non-empty digit string that
/// reads back to the same number.
pub proof fn lemma_dec_nat_round_trip(n: nat)
    ensures
        spec_dec_nat(n).len() >= 1,
        spec_all_digits(spec_dec_nat(n)),
        spec_dec_value(spec_dec_nat(n)) == n,
    decreases n,
{
    if n < 10 {
        let s = spec_dec_nat(n);
        assert(s == seq![spec_digit_char(n as int)]);
        assert(s.drop_last() =~= Seq::<char>::empty());
        assert(spec_dec_value(s.drop_last()) == 0);
        assert(s.last() == spec_digit_char(n as int));
        assert(spec_digit_val(spec_digit_char(n as int)) == n);
    } else {
        lemma_dec_nat_round_trip(n / 10);
        let prefix = spec_dec_nat(n / 10);
        let whole = spec_dec_nat(n);
        assert(whole == prefix + seq![spec_digit_char((n % 10) as int)]);
        assert(whole.drop_last() =~= prefix);
        assert(whole.last() == spec_digit_char((n % 10) as int));
        assert(spec_dec_value(whole) == (n / 10) * 10 + (n % 10));
        assert((n / 10) * 10 + (n % 10) == n) by (nonlinear_arith);
        assert(spec_all_digits(whole)) by {
            assert(forall|i: int| 0 <= i < prefix.len() ==> whole[i] == prefix[i]);
        }
    }
}

/// Rendering a 64-bit integer and parsing the text back yields the
/// same integer.
pub proof fn lemma_dec_i64_round_trip(n: int)
    requires
        i64::MIN <= n <= i64::MAX,
    ensures
        spec_parse_i64(spec_dec_int(n)) == Some(n),
{
    if n >= 0 {
        lemma_dec_nat_round_trip(n as nat);
        assert(spec_dec_int(n)[0] != '-');
    } else {
        lemma_dec_nat_round_trip((-n) as nat);
        let s = spec_dec_int(n);
        let rest = s.subrange(1, s.len() as int);
        assert(rest =~= spec_dec_nat((-n) as nat));
    }
}

/// The digit character of `d`, as a one-character string slice.
fn digit_str(d: u64) -> (r: &'static str)
    requires
        d < 10,
    ensures
        r@ == seq![spec_digit_char(d as int)],
{
    proof {
        reveal_strlit("0");
        reveal_strlit("1");
        reveal_strlit("2");
        reveal_strlit("3");
        reveal_strlit("4");
        reveal_strlit("5");
        reveal_strlit("6");
        reveal_strlit("7");
        reveal_strlit("8");
        reveal_strlit("9");
    }
    let r: &'static str = match d {
        0 => "0",
        1 => "1",
        2 => "2",
        3 => "3",
        4 => "4",
        5 => "5",
        6 => "6",
        7 => "7",
        8 => "8",
        _ => "9",
    };
    proof {
        assert(r@ =~= seq![spec_digit_char(d as int)]);
    }
    r
}

/// Renders an unsigned 64-bit integer in decimal.
pub fn u64_to_dec(n: u64) -> (r: String)
    ensures
        r@ == spec_dec_nat(n as nat),
    decreases n,
{
    if n < 10 {
        digit_str(n).to_owned()
    } else {
        let mut s = u64_to_dec(n / 10);
        s.append(digit_str(n % 10));
        s
    }
}

/// Renders a signed 64-bit integer in decimal.
pub fn i64_to_dec(n: i64) -> (r: String)
    ensures
        r@ == spec_dec_int(n as int),
{
    if n >= 0 {
        u64_to_dec(n as u64)
    } else {
        let magnitude: u64 = ((-(n + 1)) as u64) + 1;
        assert(magnitude as int == -(n as int));
        proof {
            reveal_strlit("-");
        }
        let mut s: String = "-".to_owned();
        let digits = u64_to_dec(magnitude);
        s.append(digits.as_str());
        proof {
            assert(s@ =~= spec_dec_int(n as int));
        }
        s
    }
}

/// Value of one digit character, if it is one.
fn digit_of(c: char) -> (r: Option<u64>)
    ensures
        match r {
            Some(d) => spec_digit_val(c) == d && d < 10,
            None => !spec_is_digit(c),
        },
{
    match c {
        '0' => Some(0),
        '1' => Some(1),
        '2' => Some(2),
        '3' => Some(3),
        '4' => Some(4),
        '5' => Some(5),
        '6' => Some(6),
        '7' => Some(7),
        '8' => Some(8),
        '9' => Some(9),
        _ => None,
    }
}

/// Reads a decimal digit string as an unsigned 64-bit integer.
/// Returns nothing when the text is empty, holds a non-digit, or names
/// a number too large for the type.
pub fn parse_u64_dec(s: &str) -> (r: Option<u64>)
    ensures
        match r {
            Some(v) => s@.len() >= 1 && spec_all_digits(s@) && spec_dec_value(s@) == v as int,
            None => s@.len() == 0 || !spec_all_digits(s@) || spec_dec_value(s@) > u64::MAX,
        },
{
    let len = s.unicode_len();
    if len == 0 {
        return None;
    }
    let mut acc: u64 = 0;
    let mut i: usize = 0;
    while i < len
        invariant
            len == s@.len(),
            0 <= i <= len,
            spec_all_digits(s@.subrange(0, i as int)),
            acc as int == spec_dec_value(s@.subrange(0, i as int)),
        decreases len - i,
    {
        let c = s.get_char(i);
        let ghost prefix = s@.subrange(0, i as int);
        let ghost extended = s@.subrange(0, i as int + 1);
        proof {
            assert(extended.drop_last() =~= prefix);
            assert(extended.last() == s@[i as int]);
        }
        match digit_of(c) {
            Some(d) => {
                if acc > (u64::MAX - d) / 10 {
                    // The running value would overflow; the suffix can
                    // only push it higher.
                    proof {
                        assert(acc * 10 + d > u64::MAX) by (nonlinear_arith)
                            requires
                                acc > (u64::MAX - d) / 10,
                                d < 10,
                        ;
                        lemma_value_grows(s@, i as int + 1);
                        assert(spec_dec_value(extended) == acc * 10 + d);
                    }
                    return None;
                }
                proof {
                    assert(acc * 10 + d <= u64::MAX) by (nonlinear_arith)
                        requires
                            acc <= (u64::MAX - d) / 10,
                            d < 10,
                    ;
                }
                acc = acc * 10 + d;
                i = i + 1;
                proof {
                    assert(forall|j: int| 0 <= j < i ==> extended[j] == s@[j]);
                }
            },
            None => {
                proof {
                    assert(!spec_is_digit(s@[i as int]));
                }
                return None;
            },
        }
    }
    proof {
        assert(s@.subrange(0, len as int) =~= s@);
    }
    Some(acc)
}

/// When the digits up to position `i` already read above `u64::MAX`,
/// every longer prefix, and the whole string, reads above it too.
proof fn lemma_value_grows(s: Seq<char>, i: int)
    requires
        0 <= i <= s.len(),
        spec_all_digits(s.subrange(0, i)),
        spec_dec_value(s.subrange(0, i)) > u64::MAX,
    ensures
        !spec_all_digits(s) || spec_dec_value(s) > u64::MAX,
    decreases s.len() - i,
{
    if i == s.len() {
        assert(s.subrange(0, i) =~= s);
    } else {
        if spec_is_digit(s[i]) {
            let prefix = s.subrange(0, i);
            let extended = s.subrange(0, i + 1);
            assert(extended.drop_last() =~= prefix);
            assert(spec_all_digits(extended)) by {
                assert(forall|j: int| 0 <= j < i ==> extended[j] == prefix[j]);
            }
            assert(spec_dec_value(extended) == spec_dec_value(prefix) * 10 + spec_digit_val(
                s[i],
            ));
            assert(spec_dec_value(prefix) * 10 >= spec_dec_value(prefix)) by (nonlinear_arith)
                requires
                    spec_dec_value(prefix) > 0,
            ;
            lemma_value_grows(s, i + 1);
        } else {
            assert(!spec_is_digit(s[i]));
        }
    }
}

/// Reads a decimal digit string, with an optional leading minus sign,
/// as a signed 64-bit integer.
pub fn parse_i64_dec(s: &str) -> (r: Option<i64>)
    ensures
        match r {
            Some(v) => spec_parse_i64(s@) == Some(v as int),
            None => spec_parse_i64(s@) is None,
        },
{
    let len = s.unicode_len();
    if len == 0 {
        return None;
    }
    let first = s.get_char(0);
    if first == '-' {
        let rest = s.substring_char(1, len);
        proof {
            assert(rest@ =~= s@.subrange(1, s@.len() as int));
        }
        match parse_u64_dec(rest) {
            Some(magnitude) => {
                if magnitude > 9223372036854775808u64 {
                    return None;
                }
                if magnitude == 9223372036854775808u64 {
                    Some(i64::MIN)
                } else {
                    Some(-(magnitude as i64))
                }
            },
            None => {
                proof {
                    if rest@.len() >= 1 && spec_all_digits(rest@) {
                        lemma_dec_value_nonneg(rest@);
                    }
                }
                None
            },
        }
    } else {
        match parse_u64_dec(s) {
            Some(v) => {
                if v <= i64::MAX as u64 {
                    Some(v as i64)
                } else {
                    None
                }
            },
            None => None,
        }
    }
}

} // verus!
