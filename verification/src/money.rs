//! Exact decimal money values.
//!
//! A price is a non-negative decimal with at most two fractional digits,
//! held as an integer count of hundredths ("cents").  All arithmetic is
//! integer arithmetic; no floating point is involved anywhere.

use vstd::prelude::*;

verus! {

/// Largest accepted unit price, in hundredths.
pub const MAX_PRICE_CENTS: u64 = 1_000_000_000_000;

/// Largest accepted order quantity.
pub const MAX_QUANTITY: u32 = 1_000_000;

/// A non-negative decimal amount with two fractional digits, as hundredths.
#[derive(Clone, Copy, Debug, PartialEq, Eq, Structural)]
pub struct Money {
    pub cents: u64,
}

/// Whether `c` is a decimal digit.
pub open spec fn is_digit(c: char) -> bool {
    48 <= c as u32 <= 57
}

/// Numeric value of a digit character.
pub open spec fn digit_val(c: char) -> int {
    c as u32 - 48
}

/// The digit character for `d` (0 through 9).
pub open spec fn digit_char(d: int) -> char {
    if d == 0 {
        '0'
    } else if d == 1 {
        '1'
    } else if d == 2 {
        '2'
    } else if d == 3 {
        '3'
    } else if d == 4 {
        '4'
    } else if d == 5 {
        '5'
    } else if d == 6 {
        '6'
    } else if d == 7 {
        '7'
    } else if d == 8 {
        '8'
    } else {
        '9'
    }
}

/// Whether every character of `s` is a decimal digit.
pub open spec fn all_digits(s: Seq<char>) -> bool {
    forall|i: int| 0 <= i < s.len() ==> is_digit(#[trigger] s[i])
}

/// The value of a string of decimal digits.
pub open spec fn dec_val(s: Seq<char>) -> int
    decreases s.len(),
{
    if s.len() == 0 {
        0
    } else {
        dec_val(s.drop_last()) * 10 + digit_val(s.last())
    }
}

/// The decimal digit string of a non-negative integer.
pub open spec fn dec_str(n: int) -> Seq<char>
    decreases n,
{
    if n < 10 {
        seq![digit_char(n)]
    } else {
        dec_str(n / 10) + seq![digit_char(n % 10)]
    }
}

/// First position of `c` in `s`, if any.
pub open spec fn find_char(s: Seq<char>, c: char) -> Option<int>
    decreases s.len(),
{
    if s.len() == 0 {
        None
    } else if s[0] == c {
        Some(0)
    } else {
        match find_char(s.drop_first(), c) {
            Some(i) => Some(i + 1),
            None => None,
        }
    }
}

/// The value in hundredths denoted by a price literal: digits, optionally
/// followed by a point and one or two fractional digits.  `None` when the
/// text is not of that shape.
pub open spec fn price_value(s: Seq<char>) -> Option<int> {
    match find_char(s, '.') {
        None => if s.len() > 0 && all_digits(s) {
            Some(100 * dec_val(s))
        } else {
            None
        },
        Some(i) => {
            let ip = s.take(i);
            let fp = s.skip(i + 1);
            if ip.len() > 0 && 1 <= fp.len() <= 2 && all_digits(ip) && all_digits(fp) {
                if fp.len() == 1 {
                    Some(100 * dec_val(ip) + 10 * dec_val(fp))
                } else {
                    Some(100 * dec_val(ip) + dec_val(fp))
                }
            } else {
                None
            }
        },
    }
}

/// The canonical rendering of `cents` hundredths: the integer part, then a
/// fractional part only when it is non-zero, with trailing zeros dropped.
pub open spec fn money_str(cents: int) -> Seq<char> {
    if cents % 100 == 0 {
        dec_str(cents / 100)
    } else if cents % 10 == 0 {
        dec_str(cents / 100) + seq!['.'] + seq![digit_char((cents / 10) % 10)]
    } else {
        dec_str(cents / 100) + seq!['.'] + seq![digit_char((cents / 10) % 10)] + seq![
            digit_char(cents % 10),
        ]
    }
}

/// How a price text fails to denote an accepted price.
#[derive(Clone, Copy, Debug, PartialEq, Eq, Structural)]
pub enum PriceParseError {
    /// Not digits with an optional two-digit fraction.
    Malformed,
    /// A well-formed price preceded by a minus sign.
    Negative,
    /// A well-formed price above `MAX_PRICE_CENTS`.
    TooLarge,
}

proof fn lemma_dec_val_take_step(s: Seq<char>, i: int)
    requires
        0 <= i < s.len(),
    ensures
        dec_val(s.take(i + 1)) == dec_val(s.take(i)) * 10 + digit_val(s[i]),
{
    assert(s.take(i + 1).drop_last() =~= s.take(i));
    assert(s.take(i + 1).last() == s[i]);
}

proof fn lemma_dec_val_nonneg(s: Seq<char>)
    requires
        all_digits(s),
    ensures
        dec_val(s) >= 0,
    decreases s.len(),
{
    if s.len() > 0 {
        assert(all_digits(s.drop_last()));
        lemma_dec_val_nonneg(s.drop_last());
    }
}

proof fn lemma_dec_val_take_le(s: Seq<char>, i: int)
    requires
        all_digits(s),
        0 <= i <= s.len(),
    ensures
        dec_val(s.take(i)) <= dec_val(s),
    decreases s.len() - i,
{
    if i < s.len() {
        assert(all_digits(s.take(i))) by {
            assert(forall|j: int| 0 <= j < i ==> s.take(i)[j] == #[trigger] s[j]);
        }
        lemma_dec_val_nonneg(s.take(i));
        lemma_dec_val_take_step(s, i);
        lemma_dec_val_take_le(s, i + 1);
    } else {
        assert(s.take(i) =~= s);
    }
}

/// Parses a run of digit characters `s[from..to]` into a value in `acc`
/// arithmetic; fails with `None` when the value would exceed `limit`.
pub fn parse_digits(s: &str, from: usize, to: usize, limit: u64) -> (r: Option<u64>)
    requires
        from <= to <= s@.len(),
        all_digits(s@.subrange(from as int, to as int)),
    ensures
        ({
            let d = s@.subrange(from as int, to as int);
            match r {
                Some(v) => v == dec_val(d) && v <= limit,
                None => dec_val(d) > limit,
            }
        }),
{
    let ghost d = s@.subrange(from as int, to as int);
    let mut acc: u64 = 0;
    let mut i: usize = from;
    while i < to
        invariant
            from <= i <= to <= s@.len(),
            d == s@.subrange(from as int, to as int),
            all_digits(d),
            acc == dec_val(d.take(i - from)),
            acc <= limit,
            limit <= u64::MAX,
        decreases to - i,
    {
        let c = s.get_char(i);
        assert(c == d[i - from]);
        let dv: u32 = (c as u32) - 48;
        proof {
            lemma_dec_val_take_step(d, i - from);
        }
        if acc > limit / 10 || (acc == limit / 10 && (dv as u64) > limit % 10) {
            proof {
                assert(dec_val(d.take(i - from + 1)) > limit);
                lemma_dec_val_take_le(d, i - from + 1);
            }
            return None;
        }
        acc = acc * 10 + (dv as u64);
        i = i + 1;
    }
    proof {
        assert(d.take(to - from) =~= d);
    }
    Some(acc)
}

/// Position of the first `c` among the characters of `s`, by linear scan.
pub fn find_char_at(s: &str, c: char) -> (r: Option<usize>)
    ensures
        match r {
            Some(i) => find_char(s@, c) == Some(i as int) && i < s@.len() && s@[i as int] == c,
            None => find_char(s@, c) is None,
        },
{
    let n = s.unicode_len();
    let mut i: usize = 0;
    while i < n
        invariant
            0 <= i <= n,
            n == s@.len(),
            forall|j: int| 0 <= j < i ==> s@[j] != c,
        decreases n - i,
    {
        if s.get_char(i) == c {
            proof {
                lemma_find_char_first(s@, c, i as int);
            }
            return Some(i);
        }
        i = i + 1;
    }
    proof {
        lemma_find_char_absent(s@, c);
    }
    None
}

pub proof fn lemma_find_char_first(s: Seq<char>, c: char, i: int)
    requires
        0 <= i < s.len(),
        s[i] == c,
        forall|j: int| 0 <= j < i ==> s[j] != c,
    ensures
        find_char(s, c) == Some(i),
    decreases s.len(),
{
    if i > 0 {
        lemma_find_char_first(s.drop_first(), c, i - 1);
    }
}

proof fn lemma_find_char_some(s: Seq<char>, c: char)
    ensures
        match find_char(s, c) {
            Some(i) => 0 <= i < s.len() && s[i] == c,
            None => true,
        },
    decreases s.len(),
{
    if s.len() > 0 && s[0] != c {
        lemma_find_char_some(s.drop_first(), c);
    }
}

pub proof fn lemma_find_char_absent(s: Seq<char>, c: char)
    requires
        forall|j: int| 0 <= j < s.len() ==> s[j] != c,
    ensures
        find_char(s, c) is None,
    decreases s.len(),
{
    if s.len() > 0 {
        lemma_find_char_absent(s.drop_first(), c);
    }
}

/// Checks that `s[from..to]` consists of digit characters.
pub fn check_digits(s: &str, from: usize, to: usize) -> (r: bool)
    requires
        from <= to <= s@.len(),
    ensures
        r == all_digits(s@.subrange(from as int, to as int)),
{
    let ghost d = s@.subrange(from as int, to as int);
    let mut i: usize = from;
    while i < to
        invariant
            from <= i <= to <= s@.len(),
            d == s@.subrange(from as int, to as int),
            forall|j: int| from <= j < i ==> is_digit(#[trigger] s@[j]),
        decreases to - i,
    {
        let c = s.get_char(i);
        let u = c as u32;
        if u < 48 || u > 57 {
            assert(!is_digit(d[i - from]));
            return false;
        }
        i = i + 1;
    }
    assert(forall|j: int| 0 <= j < d.len() ==> d[j] == #[trigger] s@[from + j]);
    true
}

impl Money {
    /// The zero amount.
    pub fn zero() -> (r: Money)
        ensures
            r.cents == 0,
    {
        Money { cents: 0 }
    }

    /// A value given directly in hundredths.
    pub fn from_cents(cents: u64) -> (r: Money)
        ensures
            r.cents == cents,
    {
        Money { cents }
    }

    /// Parses a price text: digits with an optional one- or two-digit
    /// fraction.  Rejects malformed text, a negative sign on an otherwise
    /// well-formed price, and prices above `MAX_PRICE_CENTS`.
    pub fn parse(s: &str) -> (r: Result<Money, PriceParseError>)
        ensures
            match r {
                Ok(m) => price_value(s@) == Some(m.cents as int) && m.cents
                    <= MAX_PRICE_CENTS,
                Err(PriceParseError::Negative) => s@.len() > 0 && s@[0] == '-'
                    && price_value(s@.drop_first()) is Some,
                Err(PriceParseError::TooLarge) => ({
                    match price_value(s@) {
                        Some(v) => v > MAX_PRICE_CENTS,
                        None => false,
                    }
                }),
                Err(PriceParseError::Malformed) => price_value(s@) is None && !(s@.len() > 0
                    && s@[0] == '-' && price_value(s@.drop_first()) is Some),
            },
    {
        let n = s.unicode_len();
        if n > 0 && s.get_char(0) == '-' {
            let rest = s.substring_char(1, n);
            assert(rest@ =~= s@.drop_first());
            proof {
                // A leading minus sign keeps the whole text from being a price.
                lemma_find_char_some(s@, '.');
                assert(!is_digit(s@[0]));
                match find_char(s@, '.') {
                    None => {
                        assert(!all_digits(s@));
                    },
                    Some(j) => {
                        assert(s@[j] == '.');
                        assert(j != 0);
                        assert(s@.take(j)[0] == s@[0]);
                        assert(!all_digits(s@.take(j)));
                    },
                }
                assert(price_value(s@) is None);
            }
            return match Self::parse_nonneg(rest) {
                Ok(_) => Err(PriceParseError::Negative),
                Err(PriceParseError::TooLarge) => Err(PriceParseError::Negative),
                Err(e) => Err(e),
            };
        }
        Self::parse_nonneg(s)
    }

    /// Parses a price text without a sign.
    fn parse_nonneg(s: &str) -> (r: Result<Money, PriceParseError>)
        ensures
            match r {
                Ok(m) => price_value(s@) == Some(m.cents as int) && m.cents
                    <= MAX_PRICE_CENTS,
                Err(PriceParseError::TooLarge) => ({
                    match price_value(s@) {
                        Some(v) => v > MAX_PRICE_CENTS,
                        None => false,
                    }
                }),
                Err(PriceParseError::Malformed) => price_value(s@) is None,
                Err(PriceParseError::Negative) => false,
            },
    {
        let n = s.unicode_len();
        match find_char_at(s, '.') {
            None => {
                if n == 0 || !check_digits(s, 0, n) {
                    assert(s@.subrange(0, n as int) =~= s@);
                    return Err(PriceParseError::Malformed);
                }
                assert(s@.subrange(0, n as int) =~= s@);
                match parse_digits(s, 0, n, MAX_PRICE_CENTS / 100) {
                    Some(v) => Ok(Money { cents: v * 100 }),
                    None => {
                        proof {
                            lemma_dec_val_nonneg(s@);
                        }
                        Err(PriceParseError::TooLarge)
                    },
                }
            },
            Some(i) => {
                let ghost ip = s@.take(i as int);
                let ghost fp = s@.skip(i as int + 1);
                assert(ip =~= s@.subrange(0, i as int));
                assert(fp =~= s@.subrange(i as int + 1, n as int));
                let flen = n - i - 1;
                if i == 0 || flen < 1 || flen > 2 || !check_digits(s, 0, i) || !check_digits(
                    s,
                    i + 1,
                    n,
                ) {
                    return Err(PriceParseError::Malformed);
                }
                match parse_digits(s, 0, i, MAX_PRICE_CENTS / 100) {
                    Some(v) => {
                        let f = match parse_digits(s, i + 1, n, 99) {
                            Some(f) => f,
                            None => {
                                proof {
                                    // Two digits are at most 99.
                                    lemma_two_digits_le_99(fp);
                                }
                                assert(false);
                                0
                            },
                        };
                        let cents = if flen == 1 {
                            v * 100 + f * 10
                        } else {
                            v * 100 + f
                        };
                        proof {
                            lemma_dec_val_nonneg(fp);
                        }
                        if cents > MAX_PRICE_CENTS {
                            Err(PriceParseError::TooLarge)
                        } else {
                            Ok(Money { cents })
                        }
                    },
                    None => {
                        proof {
                            lemma_dec_val_nonneg(ip);
                            lemma_dec_val_nonneg(fp);
                        }
                        Err(PriceParseError::TooLarge)
                    },
                }
            },
        }
    }

    /// Renders the amount with trailing fractional zeros dropped.
    pub fn format(&self) -> (r: String)
        ensures
            r@ == money_str(self.cents as int),
    {
        let whole = self.cents / 100;
        let frac = self.cents % 100;
        let mut out = format_u128(whole as u128);
        if frac != 0 {
            out.append(".");
            proof {
                reveal_strlit(".");
            }
            out.append(digit_str((frac / 10) as u8));
            if frac % 10 != 0 {
                out.append(digit_str((frac % 10) as u8));
            }
        }
        out
    }
}

proof fn lemma_two_digits_le_99(s: Seq<char>)
    requires
        all_digits(s),
        s.len() <= 2,
    ensures
        dec_val(s) <= 99,
{
    if s.len() > 0 {
        assert(is_digit(s[s.len() - 1]));
        assert(digit_val(s.last()) <= 9);
        if s.len() == 2 {
            assert(is_digit(s[0]));
            assert(s.drop_last().last() == s[0]);
            assert(dec_val(s.drop_last().drop_last()) == 0);
            assert(dec_val(s.drop_last()) <= 9);
        } else {
            assert(dec_val(s.drop_last()) == 0);
        }
    }
}

/// The value denoted by a quantity literal: one or more digits.
pub open spec fn quantity_value(s: Seq<char>) -> Option<int> {
    if s.len() > 0 && all_digits(s) {
        Some(dec_val(s))
    } else {
        None
    }
}

/// A text that denotes a price starts with a digit, never a minus sign.
pub proof fn lemma_price_value_not_minus(s: Seq<char>)
    requires
        price_value(s) is Some,
    ensures
        s.len() > 0 && s[0] != '-',
{
    match find_char(s, '.') {
        None => {
            assert(is_digit(s[0]));
        },
        Some(i) => {
            lemma_find_char_some(s, '.');
            let ip = s.take(i);
            assert(is_digit(ip[0]));
            assert(ip[0] == s[0]);
        },
    }
}

/// How a quantity text fails to denote an accepted quantity.
#[derive(Clone, Copy, Debug, PartialEq, Eq, Structural)]
pub enum QuantityParseError {
    /// Not a run of digits.
    Malformed,
    /// A run of digits preceded by a minus sign.
    Negative,
    /// A quantity above `MAX_QUANTITY`.
    TooLarge,
}

/// Parses a quantity text: digits only, at most `MAX_QUANTITY`.  Zero is
/// accepted; registration treats it as a deletion.
pub fn parse_quantity(s: &str) -> (r: Result<u32, QuantityParseError>)
    ensures
        match r {
            Ok(q) => quantity_value(s@) == Some(q as int) && q <= MAX_QUANTITY,
            Err(QuantityParseError::Negative) => s@.len() > 0 && s@[0] == '-' && quantity_value(
                s@.drop_first(),
            ) is Some,
            Err(QuantityParseError::TooLarge) => ({
                match quantity_value(s@) {
                    Some(v) => v > MAX_QUANTITY,
                    None => false,
                }
            }),
            Err(QuantityParseError::Malformed) => quantity_value(s@) is None && !(s@.len() > 0
                && s@[0] == '-' && quantity_value(s@.drop_first()) is Some),
        },
{
    let n = s.unicode_len();
    if n > 0 && s.get_char(0) == '-' {
        let rest = s.substring_char(1, n);
        assert(rest@ =~= s@.drop_first());
        assert(!is_digit(s@[0]));
        let m = rest.unicode_len();
        if m > 0 && check_digits(rest, 0, m) {
            assert(rest@.subrange(0, m as int) =~= rest@);
            return Err(QuantityParseError::Negative);
        }
        assert(rest@.subrange(0, rest@.len() as int) =~= rest@);
        return Err(QuantityParseError::Malformed);
    }
    if n == 0 || !check_digits(s, 0, n) {
        assert(s@.subrange(0, n as int) =~= s@);
        return Err(QuantityParseError::Malformed);
    }
    assert(s@.subrange(0, n as int) =~= s@);
    match parse_digits(s, 0, n, MAX_QUANTITY as u64) {
        Some(v) => Ok(v as u32),
        None => {
            proof {
                lemma_dec_val_nonneg(s@);
            }
            Err(QuantityParseError::TooLarge)
        },
    }
}

/// The one-character string for a digit.
pub fn digit_str(d: u8) -> (r: &'static str)
    requires
        d < 10,
    ensures
        r@ =~= seq![digit_char(d as int)],
{
    proof {
        reveal_strlit("0");
        reveal_strlit("1");
        reveal_strlit("2");
        reveal_strlit("3");
        reveal_strlit("4");
        reveal_strlit("5");
        reveal_strlit("6");
        reveal_strlit("7");
        reveal_strlit("8");
        reveal_strlit("9");
    }
    match d {
        0 => "0",
        1 => "1",
        2 => "2",
        3 => "3",
        4 => "4",
        5 => "5",
        6 => "6",
        7 => "7",
        8 => "8",
        _ => "9",
    }
}

/// The decimal rendering of an unsigned integer.
pub fn format_u128(n: u128) -> (r: String)
    ensures
        r@ == dec_str(n as int),
    decreases n,
{
    if n < 10 {
        let mut out = String::new();
        out.append(digit_str(n as u8));
        out
    } else {
        let mut out = format_u128(n / 10);
        out.append(digit_str((n % 10) as u8));
        out
    }
}

/// Renders an amount in hundredths with trailing fractional zeros dropped.
pub fn format_money_u128(cents: u128) -> (r: String)
    ensures
        r@ == money_str(cents as int),
{
    let whole = cents / 100;
    let frac = cents % 100;
    let mut out = format_u128(whole);
    if frac != 0 {
        out.append(".");
        proof {
            reveal_strlit(".");
        }
        out.append(digit_str((frac / 10) as u8));
        if frac % 10 != 0 {
            out.append(digit_str((frac % 10) as u8));
        }
    }
    out
}

/// The decimal rendering of a `u64`.
pub fn format_u64(n: u64) -> (r: String)
    ensures
        r@ == dec_str(n as int),
{
    format_u128(n as u128)
}

} // verus!
