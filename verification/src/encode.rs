//! Primitive encoders: hand-rolled decimal formatting of integers and
//! percent-encoding of URL text, together with the spec-level decimal
//! grammar that the chapter extractor parses against.
use crate::text::string_from_chars;
use vstd::prelude::*;
use vstd::string::StrSliceExecFns;
use vstd::utf8::encode_utf8;
use vstd::utf8::is_ascii_chars;
use vstd::utf8::is_ascii_chars_encode_utf8;

verus! {

/// The character for a single decimal digit value.
pub open spec fn digit_char(d: int) -> char
    recommends
        0 <= d < 10,
{
    ((48 + d) as u8) as char
}

/// `c` is a decimal digit character.
pub open spec fn is_digit(c: char) -> bool {
    '0' <= c && c <= '9'
}

/// Every character of `s` is a decimal digit.
pub open spec fn all_digits(s: Seq<char>) -> bool {
    forall|i: int| 0 <= i < s.len() ==> is_digit(#[trigger] s[i])
}

/// Decimal digit string of a non-negative integer, without leading zeros.
pub open spec fn dec_rep(n: int) -> Seq<char>
    recommends
        n >= 0,
    decreases n,
    when n >= 0
{
    if n < 10 {
        seq![digit_char(n)]
    } else {
        dec_rep(n / 10).push(digit_char(n % 10))
    }
}

/// Decimal string of an integer: a minus sign for negative values, then digits.
pub open spec fn int_string(n: int) -> Seq<char> {
    if n >= 0 {
        dec_rep(n)
    } else {
        seq!['-'] + dec_rep(-n)
    }
}

/// Numeric value of a string of decimal digit characters.
pub open spec fn dec_val(s: Seq<char>) -> int
    decreases s.len(),
{
    if s.len() == 0 {
        0
    } else {
        dec_val(s.drop_last()) * 10 + (s.last() as int - 48)
    }
}

/// Integer value of a decimal string with an optional leading minus sign.
pub open spec fn parsed_int(s: Seq<char>) -> int {
    if s.len() > 0 && s[0] == '-' {
        -dec_val(s.skip(1))
    } else {
        dec_val(s)
    }
}

/// The digits of a non-negative integer are decimal digit characters.
pub proof fn lemma_dec_rep_digits(n: int)
    requires
        n >= 0,
    ensures
        all_digits(dec_rep(n)),
        dec_rep(n).len() >= 1,
    decreases n,
{
    if n >= 10 {
        lemma_dec_rep_digits(n / 10);
        assert forall|i: int| 0 <= i < dec_rep(n).len() implies is_digit(#[trigger] dec_rep(n)[i])
            by {
            if i < dec_rep(n / 10).len() {
                assert(dec_rep(n)[i] == dec_rep(n / 10)[i]);
            }
        }
    }
}

/// The digit character of a value below ten carries exactly that value.
proof fn lemma_digit_char_val(d: int)
    requires
        0 <= d < 10,
    ensures
        digit_char(d) as int == 48 + d,
{
}

/// Reading the decimal digits of a non-negative integer back yields the integer.
pub proof fn lemma_dec_val_dec_rep(n: int)
    requires
        n >= 0,
    ensures
        dec_val(dec_rep(n)) == n,
    decreases n,
{
    if n < 10 {
        lemma_digit_char_val(n);
        assert(dec_rep(n) =~= seq![digit_char(n)]);
        assert(dec_rep(n).last() == digit_char(n));
        assert(dec_rep(n).drop_last() =~= Seq::<char>::empty());
        assert(dec_val(Seq::<char>::empty()) == 0);
        assert(dec_val(dec_rep(n)) == dec_val(dec_rep(n).drop_last()) * 10 + (dec_rep(n).last() as int
            - 48));
    } else {
        lemma_digit_char_val(n % 10);
        lemma_dec_val_dec_rep(n / 10);
        assert(dec_rep(n).last() == digit_char(n % 10));
        assert(dec_rep(n).drop_last() =~= dec_rep(n / 10));
        assert(dec_val(dec_rep(n)) == dec_val(dec_rep(n).drop_last()) * 10 + (dec_rep(n).last() as int
            - 48));
    }
}

/// Parsing the decimal string of an integer yields the integer back.
pub proof fn lemma_decimal_round_trip(n: int)
    ensures
        parsed_int(int_string(n)) == n,
{
    if n >= 0 {
        lemma_dec_rep_digits(n);
        lemma_dec_val_dec_rep(n);
        assert(is_digit(int_string(n)[0]));
    } else {
        lemma_dec_rep_digits(-n);
        lemma_dec_val_dec_rep(-n);
        assert((seq!['-'] + dec_rep(-n)).skip(1) =~= dec_rep(-n));
    }
}

/// The value of a digit string is non-negative.
pub proof fn lemma_dec_val_nonneg(s: Seq<char>)
    requires
        all_digits(s),
    ensures
        dec_val(s) >= 0,
    decreases s.len(),
{
    if s.len() > 0 {
        assert(all_digits(s.drop_last())) by {
            assert(forall|i: int|
                0 <= i < s.drop_last().len() ==> #[trigger] s.drop_last()[i] == s[i]);
        }
        lemma_dec_val_nonneg(s.drop_last());
        assert(is_digit(s.last()));
    }
}

/// The value of a digit string is at least the value of any of its prefixes.
pub proof fn lemma_dec_val_prefix(s: Seq<char>, i: int)
    requires
        all_digits(s),
        0 <= i <= s.len(),
    ensures
        dec_val(s.take(i)) <= dec_val(s),
    decreases s.len() - i,
{
    if i == s.len() {
        assert(s.take(i) =~= s);
    } else {
        assert(s.take(i + 1).drop_last() =~= s.take(i));
        assert(s.take(i + 1).last() == s[i]);
        assert(all_digits(s.take(i))) by {
            assert(forall|k: int| 0 <= k < i ==> #[trigger] s.take(i)[k] == s[k]);
        }
        lemma_dec_val_nonneg(s.take(i));
        assert(is_digit(s[i]));
        assert(dec_val(s.take(i)) <= dec_val(s.take(i + 1)));
        lemma_dec_val_prefix(s, i + 1);
    }
}

/// Format an integer as its decimal string, handling zero and negative
/// values by digit accumulation rather than any built-in formatting.
pub fn i32_to_string(integer: i32) -> (r: String)
    ensures
        r@ == int_string(integer as int),
{
    if integer == 0 {
        let zero = vec!['0'];
        let r = string_from_chars(&zero);
        proof {
            assert(r@ =~= int_string(0));
        }
        return r;
    }
    let neg = integer < 0;
    let mut m: u64 = if neg {
        (-(integer as i64)) as u64
    } else {
        integer as u64
    };
    let ghost mag: int = m as int;
    let mut digits: Vec<char> = Vec::new();
    while m != 0
        invariant
            mag >= 1,
            m as int <= mag,
            m > 0 ==> dec_rep(mag) == dec_rep(m as int) + digits@.reverse(),
            m == 0 ==> dec_rep(mag) == digits@.reverse(),
        decreases m,
    {
        let d: u64 = m % 10;
        digits.push(((48 + d) as u8) as char);
        proof {
            let prev = digits@.drop_last();
            assert(digits@.reverse() =~= seq![digit_char(m as int % 10)] + prev.reverse());
            if m >= 10 {
                assert(dec_rep(m as int) == dec_rep(m as int / 10).push(
                    digit_char(m as int % 10),
                ));
                assert(dec_rep(m as int / 10).push(digit_char(m as int % 10)) + prev.reverse()
                    =~= dec_rep(m as int / 10) + digits@.reverse());
            } else {
                assert(dec_rep(m as int) =~= seq![digit_char(m as int % 10)]);
                assert(dec_rep(m as int) + prev.reverse() =~= digits@.reverse());
            }
        }
        m = m / 10;
    }
    let mut out: Vec<char> = Vec::new();
    if neg {
        out.push('-');
    }
    let ghost sign: Seq<char> = if neg {
        seq!['-']
    } else {
        Seq::empty()
    };
    proof {
        assert(out@ =~= sign);
    }
    let mut k = digits.len();
    while k > 0
        invariant
            k <= digits@.len(),
            out@ == sign + digits@.reverse().take(digits@.len() - k),
        decreases k,
    {
        k = k - 1;
        out.push(digits[k]);
        proof {
            assert(out@ =~= sign + digits@.reverse().take(digits@.len() - k));
        }
    }
    proof {
        assert(digits@.reverse().take(digits@.len() as int) =~= digits@.reverse());
        assert(out@ =~= sign + dec_rep(mag));
        if neg {
            assert(mag == -(integer as int));
            assert(out@ =~= int_string(integer as int));
        } else {
            assert(sign + dec_rep(mag) =~= dec_rep(mag));
            assert(out@ =~= int_string(integer as int));
        }
    }
    string_from_chars(&out)
}

/// Parse a string of decimal digits as an unsigned integer, rejecting
/// empty input, non-digit characters, and values that do not fit.
pub fn parse_decimal(s: &Vec<char>) -> (r: Option<u64>)
    ensures
        r is Some <==> s@.len() > 0 && all_digits(s@) && dec_val(s@) <= u64::MAX,
        r is Some ==> r->Some_0 as int == dec_val(s@),
{
    if s.len() == 0 {
        return None;
    }
    let mut acc: u64 = 0;
    let mut i: usize = 0;
    while i < s.len()
        invariant
            i <= s@.len(),
            all_digits(s@.take(i as int)),
            acc as int == dec_val(s@.take(i as int)),
        decreases s@.len() - i,
    {
        let c = s[i];
        if !('0' <= c && c <= '9') {
            assert(!is_digit(s@[i as int]));
            return None;
        }
        let d: u64 = (c as u8 - 48) as u64;
        proof {
            assert(s@.take(i + 1).drop_last() =~= s@.take(i as int));
            assert(all_digits(s@.take(i + 1))) by {
                assert(forall|k: int| 0 <= k < i ==> #[trigger] s@.take(i + 1)[k] == s@.take(
                    i as int,
                )[k]);
            }
        }
        if acc > (u64::MAX - d) / 10 {
            proof {
                lemma_dec_val_nonneg(s@.take(i as int));
                assert(dec_val(s@.take(i + 1)) > u64::MAX);
                if all_digits(s@) {
                    lemma_dec_val_prefix(s@, i + 1);
                }
            }
            return None;
        }
        acc = acc * 10 + d;
        i = i + 1;
    }
    proof {
        assert(s@.take(s@.len() as int) =~= s@);
    }
    Some(acc)
}

/// `b` passes through percent-encoding unescaped: an ASCII letter or digit.
pub open spec fn is_safe_byte(b: u8) -> bool {
    (97 <= b && b <= 122) || (65 <= b && b <= 90) || (48 <= b && b <= 57)
}

/// Lowercase hexadecimal digit character for a value below sixteen.
pub open spec fn hex_char(d: u8) -> char
    recommends
        d < 16,
{
    if d < 10 {
        ((48 + d) as u8) as char
    } else {
        ((87 + d) as u8) as char
    }
}

/// Percent-encoding of one byte: itself if a letter or digit, else a
/// percent sign and two lowercase hex digits.
pub open spec fn encode_byte(b: u8) -> Seq<char> {
    if is_safe_byte(b) {
        seq![b as char]
    } else {
        seq!['%', hex_char(b / 16), hex_char(b % 16)]
    }
}

/// Percent-encoding of a byte string.
pub open spec fn percent_encoded(bs: Seq<u8>) -> Seq<char>
    decreases bs.len(),
{
    if bs.len() == 0 {
        Seq::empty()
    } else {
        percent_encoded(bs.drop_last()) + encode_byte(bs.last())
    }
}

/// Percent-encoding of a character string: its UTF-8 bytes, each encoded.
pub open spec fn percent_encoding_of(s: Seq<char>) -> Seq<char> {
    percent_encoded(encode_utf8(s))
}

/// Percent-encode every byte of the input that is not an ASCII letter or
/// digit as a percent sign and two lowercase hex digits.
pub fn urlencode(string: String) -> (r: String)
    ensures
        r@ == percent_encoding_of(string@),
{
    let bytes = string.as_str().as_bytes_vec();
    let mut out: Vec<char> = Vec::new();
    let mut i: usize = 0;
    while i < bytes.len()
        invariant
            bytes@ == encode_utf8(string@),
            i <= bytes@.len(),
            out@ == percent_encoded(bytes@.take(i as int)),
        decreases bytes@.len() - i,
    {
        let b = bytes[i];
        if (97 <= b && b <= 122) || (65 <= b && b <= 90) || (48 <= b && b <= 57) {
            out.push(b as char);
        } else {
            out.push('%');
            let hi = b / 16;
            let lo = b % 16;
            out.push(if hi < 10 {
                ((48 + hi) as u8) as char
            } else {
                ((87 + hi) as u8) as char
            });
            out.push(if lo < 10 {
                ((48 + lo) as u8) as char
            } else {
                ((87 + lo) as u8) as char
            });
        }
        proof {
            assert(bytes@.take(i + 1).drop_last() =~= bytes@.take(i as int));
            assert(out@ =~= percent_encoded(bytes@.take(i as int)) + encode_byte(
                bytes@[i as int],
            ));
        }
        i = i + 1;
    }
    proof {
        assert(bytes@.take(bytes@.len() as int) =~= bytes@);
    }
    string_from_chars(&out)
}

/// `c` is an ASCII letter or digit, so percent-encoding leaves it alone.
pub open spec fn is_safe_char(c: char) -> bool {
    ('a' <= c && c <= 'z') || ('A' <= c && c <= 'Z') || ('0' <= c && c <= '9')
}

/// Percent-encoding a byte string of letters and digits changes nothing.
proof fn lemma_encoded_all_safe(bs: Seq<u8>)
    requires
        forall|i: int| 0 <= i < bs.len() ==> is_safe_byte(#[trigger] bs[i]),
    ensures
        percent_encoded(bs) =~= bs.map_values(|b: u8| b as char),
    decreases bs.len(),
{
    if bs.len() > 0 {
        assert(forall|i: int|
            0 <= i < bs.drop_last().len() ==> #[trigger] bs.drop_last()[i] == bs[i]);
        lemma_encoded_all_safe(bs.drop_last());
        assert(is_safe_byte(bs.last()));
        assert(percent_encoded(bs) =~= bs.drop_last().map_values(|b: u8| b as char) + seq![
            bs.last() as char,
        ]);
    }
}

/// Percent-encoding is the identity on strings made only of ASCII letters
/// and digits, so encoding such a string twice equals encoding it once.
pub proof fn lemma_encode_safe_identity(s: Seq<char>)
    requires
        forall|i: int| 0 <= i < s.len() ==> is_safe_char(#[trigger] s[i]),
    ensures
        percent_encoding_of(s) == s,
{
    assert(is_ascii_chars(s));
    is_ascii_chars_encode_utf8(s);
    let bs = encode_utf8(s);
    assert(forall|i: int| 0 <= i < bs.len() ==> is_safe_byte(#[trigger] bs[i])) by {
        assert(forall|i: int| 0 <= i < s.len() ==> is_safe_char(#[trigger] s[i]));
    }
    lemma_encoded_all_safe(bs);
    let mapped = bs.map_values(|b: u8| b as char);
    assert(percent_encoding_of(s) =~= s) by {
        assert(forall|i: int| 0 <= i < s.len() ==> #[trigger] mapped[i] == s[i]);
    }
}

/// Percent-encoding is idempotent on strings made only of ASCII letters
/// and digits: encoding twice gives what encoding once gives.
pub proof fn lemma_encode_safe_idempotent(s: Seq<char>)
    requires
        forall|i: int| 0 <= i < s.len() ==> is_safe_char(#[trigger] s[i]),
    ensures
        percent_encoding_of(percent_encoding_of(s)) == percent_encoding_of(s),
{
    lemma_encode_safe_identity(s);
}

} // verus!
