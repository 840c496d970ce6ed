//! Unsigned numbers and their decimal text.
use vstd::prelude::*;
use vstd::string::*;

verus! {

/// Why a text is not an unsigned 64-bit number.
#[derive(Debug, Clone, Copy, PartialEq, Eq, Structural)]
pub enum ParseIntError {
    /// The text is empty.
    Empty,
    /// The text holds something other than a digit, or a sign and nothing else.
    InvalidDigit,
    /// The number is too large.
    PosOverflow,
}

/// Whether `c` is one of the ten decimal digits.
pub open spec fn is_digit(c: char) -> bool {
    '0' <= c && c <= '9'
}

/// The number that a digit stands for.
pub open spec fn digit_value(c: char) -> nat
    recommends
        is_digit(c),
{
    (c as u32 - '0' as u32) as nat
}

/// The number that a run of digits stands for, most significant digit first.
pub open spec fn value_of(digits: Seq<char>) -> nat
    decreases digits.len(),
{
    if digits.len() == 0 {
        0
    } else {
        value_of(digits.drop_last()) * 10 + digit_value(digits.last())
    }
}

/// Reading digits from the left: the first character that is no digit, or at which the number
/// outgrows 64 bits, decides the error.
pub open spec fn scanned(digits: Seq<char>) -> Result<u64, ParseIntError>
    decreases digits.len(),
{
    if digits.len() == 0 {
        Ok(0)
    } else {
        match scanned(digits.drop_last()) {
            Err(e) => Err(e),
            Ok(v) => if !is_digit(digits.last()) {
                Err(ParseIntError::InvalidDigit)
            } else if v * 10 + digit_value(digits.last()) > u64::MAX {
                Err(ParseIntError::PosOverflow)
            } else {
                Ok((v * 10 + digit_value(digits.last())) as u64)
            },
        }
    }
}

/// The text after an optional plus sign.
pub open spec fn unsigned_part(text: Seq<char>) -> Seq<char> {
    if text.len() > 0 && text[0] == '+' {
        text.skip(1)
    } else {
        text
    }
}

/// What reading `text` as an unsigned 64-bit number gives.
pub open spec fn parsed(text: Seq<char>) -> Result<u64, ParseIntError> {
    if text.len() == 0 {
        Err(ParseIntError::Empty)
    } else if unsigned_part(text).len() == 0 {
        Err(ParseIntError::InvalidDigit)
    } else {
        scanned(unsigned_part(text))
    }
}

/// The digit for a number below ten.
pub open spec fn digit_char(d: nat) -> char {
    if d == 0 {
        '0'
    } else if d == 1 {
        '1'
    } else if d == 2 {
        '2'
    } else if d == 3 {
        '3'
    } else if d == 4 {
        '4'
    } else if d == 5 {
        '5'
    } else if d == 6 {
        '6'
    } else if d == 7 {
        '7'
    } else if d == 8 {
        '8'
    } else {
        '9'
    }
}

/// The decimal text of a number, without leading zeros.
pub open spec fn decimal_text(n: nat) -> Seq<char>
    decreases n,
{
    if n < 10 {
        seq![digit_char(n)]
    } else {
        decimal_text(n / 10).push(digit_char(n % 10))
    }
}

/// An error met while reading digits stays, whatever follows.
proof fn lemma_scanned_stops(digits: Seq<char>, n: int)
    requires
        0 <= n <= digits.len(),
        scanned(digits.take(n)) is Err,
    ensures
        scanned(digits) == scanned(digits.take(n)),
    decreases digits.len() - n,
{
    if n < digits.len() {
        assert(digits.take(n + 1).drop_last() =~= digits.take(n));
        lemma_scanned_stops(digits, n + 1);
    } else {
        assert(digits.take(n) =~= digits);
    }
}

/// Reads an unsigned 64-bit number: an optional plus sign, then digits and nothing else.
pub fn parse_u64(text: &str) -> (number: Result<u64, ParseIntError>)
    ensures
        number == parsed(text@),
{
    let mut number: u64 = 0;
    let mut started = false;
    let mut digits = false;
    for c in it: text.chars()
        invariant
            it.seq() == text@,
            started == (it.index() > 0),
            digits == (unsigned_part(text@.take(it.index())).len() > 0),
            scanned(unsigned_part(text@.take(it.index()))) == Ok::<u64, ParseIntError>(number),
    {
        let ghost n = it.index();
        let ghost read = text@.take(n + 1);
        proof {
            assert(read.drop_last() =~= text@.take(n));
            assert(read.last() == c);
        }
        if !started && c == '+' {
            assert(unsigned_part(read) =~= Seq::<char>::empty());
        } else {
            proof {
                assert(unsigned_part(read).drop_last() =~= unsigned_part(text@.take(n)));
                assert(unsigned_part(text@).take(unsigned_part(read).len() as int)
                    =~= unsigned_part(read));
                if scanned(unsigned_part(read)) is Err {
                    lemma_scanned_stops(unsigned_part(text@), unsigned_part(read).len() as int);
                }
            }
            if c < '0' || '9' < c {
                return Err(ParseIntError::InvalidDigit);
            }
            let value: u64 = (c as u32 - '0' as u32) as u64;
            if number > (u64::MAX - value) / 10 {
                return Err(ParseIntError::PosOverflow);
            }
            number = number * 10 + value;
            digits = true;
        }
        started = true;
    }
    assert(text@.take(text@.len() as int) =~= text@);
    if !started {
        Err(ParseIntError::Empty)
    } else if !digits {
        Err(ParseIntError::InvalidDigit)
    } else {
        Ok(number)
    }
}

/// The text of a digit.
fn digit(d: u64) -> (text: &'static str)
    requires
        d < 10,
    ensures
        text@ == seq![digit_char(d as nat)],
{
    proof {
        reveal_strlit("0");
        reveal_strlit("1");
        reveal_strlit("2");
        reveal_strlit("3");
        reveal_strlit("4");
        reveal_strlit("5");
        reveal_strlit("6");
        reveal_strlit("7");
        reveal_strlit("8");
        reveal_strlit("9");
    }
    if d == 0 {
        "0"
    } else if d == 1 {
        "1"
    } else if d == 2 {
        "2"
    } else if d == 3 {
        "3"
    } else if d == 4 {
        "4"
    } else if d == 5 {
        "5"
    } else if d == 6 {
        "6"
    } else if d == 7 {
        "7"
    } else if d == 8 {
        "8"
    } else {
        "9"
    }
}

/// Writes a number in decimal.
pub fn decimal(n: u64) -> (text: String)
    ensures
        text@ == decimal_text(n as nat),
    decreases n,
{
    if n < 10 {
        digit(n).to_owned()
    } else {
        let mut text = decimal(n / 10);
        text.append(digit(n % 10));
        text
    }
}

/// Reading succeeds exactly on a numeral that fits, and gives the number that it stands for.
pub proof fn law_parsed_numeral(text: Seq<char>, number: u64)
    ensures
        parsed(text) == Ok::<u64, ParseIntError>(number) <==> {
            let digits = unsigned_part(text);
            &&& digits.len() > 0
            &&& forall|i: int| 0 <= i < digits.len() ==> is_digit(#[trigger] digits[i])
            &&& value_of(digits) == number
        },
{
    lemma_scanned_value(unsigned_part(text));
}

/// Digits read without an error stand for the number read, and digits that stand for a number
/// that fits are read without an error.
proof fn lemma_scanned_value(digits: Seq<char>)
    ensures
        scanned(digits) matches Ok(v) ==> {
            &&& value_of(digits) == v
            &&& forall|i: int| 0 <= i < digits.len() ==> is_digit(#[trigger] digits[i])
        },
        value_of(digits) <= u64::MAX && (forall|i: int|
            0 <= i < digits.len() ==> is_digit(#[trigger] digits[i])) ==> scanned(digits) is Ok,
    decreases digits.len(),
{
    if digits.len() > 0 {
        let rest = digits.drop_last();
        lemma_scanned_value(rest);
        assert(forall|i: int| 0 <= i < rest.len() ==> rest[i] == digits[i]);
        if scanned(digits) is Ok {
            assert forall|i: int| 0 <= i < digits.len() implies is_digit(#[trigger] digits[i]) by {
                if i < rest.len() {
                    assert(is_digit(rest[i]));
                }
            }
        }
        if forall|i: int| 0 <= i < digits.len() ==> is_digit(#[trigger] digits[i]) {
            assert forall|i: int| 0 <= i < rest.len() implies is_digit(#[trigger] rest[i]) by {
                assert(is_digit(digits[i]));
            }
            assert(is_digit(digits[digits.len() - 1]));
        }
    }
}

/// The decimal text of a number is made of digits and stands for that number.
proof fn lemma_decimal_value(n: nat)
    ensures
        decimal_text(n).len() > 0,
        forall|i: int| 0 <= i < decimal_text(n).len() ==> is_digit(#[trigger] decimal_text(n)[i]),
        value_of(decimal_text(n)) == n,
    decreases n,
{
    if n < 10 {
        assert(decimal_text(n).drop_last() =~= Seq::<char>::empty());
        assert(value_of(decimal_text(n).drop_last()) == 0);
    } else {
        lemma_decimal_value(n / 10);
        assert(decimal_text(n).drop_last() =~= decimal_text(n / 10));
        assert forall|i: int| 0 <= i < decimal_text(n).len() implies is_digit(
            #[trigger] decimal_text(n)[i],
        ) by {
            if i < decimal_text(n / 10).len() {
                assert(is_digit(decimal_text(n / 10)[i]));
            }
        }
    }
}

/// Reading back the decimal text of a number gives the number.
pub proof fn law_decimal_read_back(n: u64)
    ensures
        parsed(decimal_text(n as nat)) == Ok::<u64, ParseIntError>(n),
{
    lemma_decimal_value(n as nat);
    let text = decimal_text(n as nat);
    assert(is_digit(text[0]));
    assert(unsigned_part(text) == text);
    law_parsed_numeral(text, n);
}

/// What is read of a text that is no numeral at all: nothing is `Empty`, and one character that is
/// no digit, a plus sign too, is an `InvalidDigit`. One digit is the number that it stands for.
pub proof fn law_parsed_short(c: char)
    ensures
        parsed(Seq::empty()) == Err::<u64, ParseIntError>(ParseIntError::Empty),
        parsed(seq![c]) == if 48 <= c as u32 <= 57 {
            Ok::<u64, ParseIntError>((c as u32 - 48) as u64)
        } else {
            Err::<u64, ParseIntError>(ParseIntError::InvalidDigit)
        },
{
    let text = seq![c];
    assert(text.drop_last() =~= Seq::<char>::empty());
    assert(scanned(text.drop_last()) == Ok::<u64, ParseIntError>(0));
    assert(text.last() == c);
}

/// Each further digit makes a number ten times as large and adds what it stands for; a number that
/// no longer fits is a `PosOverflow`, anything but a digit an `InvalidDigit`; and a text with an
/// error in it keeps it, whatever follows.
pub proof fn law_parsed_further(text: Seq<char>, c: char)
    requires
        text.len() > 0,
        text != seq!['+'],
    ensures
        parsed(text.push(c)) == match parsed(text) {
            Err(e) => Err::<u64, ParseIntError>(e),
            Ok(n) => if !(48 <= c as u32 <= 57) {
                Err::<u64, ParseIntError>(ParseIntError::InvalidDigit)
            } else if n * 10 + (c as u32 - 48) > 0xffff_ffff_ffff_ffff {
                Err::<u64, ParseIntError>(ParseIntError::PosOverflow)
            } else {
                Ok::<u64, ParseIntError>((n * 10 + (c as u32 - 48)) as u64)
            },
        },
{
    let more = text.push(c);
    if text[0] == '+' {
        if text.len() == 1 {
            assert(text =~= seq!['+']);
        }
        assert(unsigned_part(more).drop_last() =~= unsigned_part(text));
    } else {
        assert(unsigned_part(more).drop_last() =~= unsigned_part(text));
    }
    assert(unsigned_part(more).last() == c);
}

/// A plus sign before a text that has none changes nothing.
pub proof fn law_plus_sign_is_idle(text: Seq<char>)
    requires
        text.len() > 0,
        text[0] != '+',
    ensures
        parsed(seq!['+'] + text) == parsed(text),
{
    assert((seq!['+'] + text).skip(1) =~= text);
}

/// The decimal text of a number is digits alone, does not begin with a zero unless the number is
/// zero, and its last digit is what the number leaves when divided by ten.
pub proof fn law_decimal_is_plain(n: nat)
    ensures
        decimal_text(n).len() > 0,
        forall|i: int|
            0 <= i < decimal_text(n).len() ==> 48 <= (#[trigger] decimal_text(n)[i]) as u32 <= 57,
        decimal_text(n)[0] as u32 == 48 <==> n == 0,
        decimal_text(n).last() as u32 == 48 + n % 10,
        n < 10 <==> decimal_text(n).len() == 1,
        n >= 10 ==> decimal_text(n).drop_last() == decimal_text(n / 10),
    decreases n,
{
    if n >= 10 {
        law_decimal_is_plain(n / 10);
        assert(decimal_text(n).drop_last() =~= decimal_text(n / 10));
        assert(decimal_text(n)[0] == decimal_text(n / 10)[0]);
    }
}

} // verus!
