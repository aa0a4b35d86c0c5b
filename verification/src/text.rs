//! Decimal text for status codes and property indices, and the
//! reference-path rewriting used by the document conversion.

use vstd::prelude::*;
use vstd::string::StrSliceExecFns;
use vstd::string::StringExecFns;

verus! {

/// The character for one decimal digit.
pub open spec fn dec_digit(d: nat) -> char {
    if d == 0 {
        '0'
    } else if d == 1 {
        '1'
    } else if d == 2 {
        '2'
    } else if d == 3 {
        '3'
    } else if d == 4 {
        '4'
    } else if d == 5 {
        '5'
    } else if d == 6 {
        '6'
    } else if d == 7 {
        '7'
    } else if d == 8 {
        '8'
    } else {
        '9'
    }
}

/// The decimal numeral of `n`, most significant digit first, no sign and no
/// leading zeros (a single `'0'` for zero).
pub open spec fn dec_seq(n: nat) -> Seq<char>
    decreases n,
{
    if n < 10 {
        seq![dec_digit(n)]
    } else {
        dec_seq(n / 10) + seq![dec_digit(n % 10)]
    }
}

/// One decimal digit as text.
fn digit_str(d: u64) -> (r: &'static str)
    requires
        d < 10,
    ensures
        r@ == seq![dec_digit(d as nat)],
{
    let r: &'static str = if d == 0 {
        "0"
    } else if d == 1 {
        "1"
    } else if d == 2 {
        "2"
    } else if d == 3 {
        "3"
    } else if d == 4 {
        "4"
    } else if d == 5 {
        "5"
    } else if d == 6 {
        "6"
    } else if d == 7 {
        "7"
    } else if d == 8 {
        "8"
    } else {
        "9"
    };
    proof {
        reveal_strlit("0");
        reveal_strlit("1");
        reveal_strlit("2");
        reveal_strlit("3");
        reveal_strlit("4");
        reveal_strlit("5");
        reveal_strlit("6");
        reveal_strlit("7");
        reveal_strlit("8");
        reveal_strlit("9");
        assert(r@ =~= seq![dec_digit(d as nat)]);
    }
    r
}

/// The decimal numeral of `n` as an owned string.
pub fn decimal_of(n: u64) -> (r: String)
    ensures
        r@ == dec_seq(n as nat),
    decreases n,
{
    if n < 10 {
        digit_str(n).to_owned()
    } else {
        let mut s = decimal_of(n / 10);
        s.append(digit_str(n % 10));
        proof {
            assert(s@ =~= dec_seq(n as nat));
        }
        s
    }
}

/// Whether `c` is a decimal digit.
pub open spec fn is_dec_digit(c: char) -> bool {
    '0' <= c <= '9'
}

/// The value of a decimal digit character.
pub open spec fn digit_val(c: char) -> nat {
    (c as nat - '0' as nat) as nat
}

/// Whether `s` is a non-empty run of decimal digits.
pub open spec fn is_numeral(s: Seq<char>) -> bool {
    s.len() > 0 && forall|i: int| 0 <= i < s.len() ==> is_dec_digit(#[trigger] s[i])
}

/// The value of a run of decimal digit characters.
pub open spec fn numeral_val(s: Seq<char>) -> nat
    decreases s,
{
    if s.len() == 0 {
        0
    } else {
        numeral_val(s.drop_last()) * 10 + digit_val(s.last())
    }
}

/// What parsing a status-code key as an unsigned 16-bit number yields: the
/// text may carry one leading `'+'`, must otherwise be all digits, and its
/// value must fit.
pub open spec fn parse_u16_spec(s: Seq<char>) -> Option<u16> {
    let body = if s.len() > 0 && s[0] == '+' {
        s.drop_first()
    } else {
        s
    };
    if is_numeral(body) && numeral_val(body) <= 65535 {
        Some(numeral_val(body) as u16)
    } else {
        None
    }
}

/// A numeral's value never shrinks as digits are appended.
proof fn lemma_numeral_prefix_le(s: Seq<char>, i: int)
    requires
        0 <= i <= s.len(),
    ensures
        numeral_val(s.subrange(0, i)) <= numeral_val(s),
    decreases s.len() - i,
{
    if i < s.len() {
        lemma_numeral_prefix_le(s, i + 1);
        assert(s.subrange(0, i + 1).drop_last() =~= s.subrange(0, i));
        assert(numeral_val(s.subrange(0, i + 1)) == numeral_val(s.subrange(0, i)) * 10
            + digit_val(s.subrange(0, i + 1).last()));
    } else {
        assert(s.subrange(0, i) =~= s);
    }
}

/// Parses a digit run, returning its value if every character is a digit
/// and the value fits in 16 bits.
fn parse_digits(s: &str, start: usize) -> (r: Option<u16>)
    requires
        start as int <= s@.len(),
    ensures
        ({
            let body = s@.subrange(start as int, s@.len() as int);
            match r {
                Some(v) => is_numeral(body) && numeral_val(body) == v,
                None => !(is_numeral(body) && numeral_val(body) <= 65535),
            }
        }),
{
    let ghost body = s@.subrange(start as int, s@.len() as int);
    let n = s.unicode_len();
    if start == n {
        return None;
    }
    let mut val: u32 = 0;
    let mut i: usize = start;
    while i < n
        invariant
            start <= i <= n,
            n == s@.len(),
            body == s@.subrange(start as int, s@.len() as int),
            forall|j: int| 0 <= j < i - start ==> is_dec_digit(#[trigger] body[j]),
            val <= 65535,
            val == numeral_val(body.subrange(0, i - start)),
        decreases n - i,
    {
        let c = s.get_char(i);
        proof {
            assert(body[i - start] == s@[i as int]);
        }
        if !('0' <= c && c <= '9') {
            return None;
        }
        let d: u32 = (c as u32) - ('0' as u32);
        proof {
            assert(body.subrange(0, i + 1 - start).drop_last() =~= body.subrange(
                0,
                i - start,
            ));
            assert(body.subrange(0, i + 1 - start).last() == body[i - start]);
        }
        let next: u32 = val * 10 + d;
        if next > 65535 {
            proof {
                lemma_numeral_prefix_le(body, i + 1 - start);
            }
            return None;
        }
        val = next;
        i += 1;
    }
    proof {
        assert(body.subrange(0, n - start) =~= body);
    }
    Some(val as u16)
}

/// Parses the textual status-code key `s` as an unsigned 16-bit number, as
/// the numeric-key rule of the conversion demands: an optional leading
/// `'+'`, then decimal digits, value at most 65535.
pub fn parse_status_key(s: &str) -> (r: Option<u16>)
    ensures
        r == parse_u16_spec(s@),
{
    let n = s.unicode_len();
    if n == 0 {
        return None;
    }
    let first = s.get_char(0);
    if first == '+' {
        let r = parse_digits(s, 1);
        proof {
            assert(s@.drop_first() =~= s@.subrange(1, s@.len() as int));
        }
        r
    } else {
        let r = parse_digits(s, 0);
        proof {
            assert(s@.subrange(0, s@.len() as int) =~= s@);
        }
        r
    }
}

/// The decimal numeral of a number is all digits.
proof fn lemma_dec_seq_digits(n: nat)
    ensures
        dec_seq(n).len() > 0,
        forall|i: int| 0 <= i < dec_seq(n).len() ==> is_dec_digit(#[trigger] dec_seq(n)[i]),
    decreases n,
{
    if n >= 10 {
        lemma_dec_seq_digits(n / 10);
    }
}

/// A digit character reads back as its digit.
proof fn lemma_digit_val(d: nat)
    requires
        d < 10,
    ensures
        digit_val(dec_digit(d)) == d,
{
}

/// Reading back the decimal numeral of a number gives the number.
proof fn lemma_dec_seq_val(n: nat)
    ensures
        numeral_val(dec_seq(n)) == n,
    decreases n,
{
    if n < 10 {
        lemma_digit_val(n);
        assert(numeral_val(Seq::<char>::empty()) == 0);
        assert(dec_seq(n).drop_last() =~= Seq::<char>::empty());
        assert(dec_seq(n).last() == dec_digit(n));
        assert(numeral_val(dec_seq(n)) == numeral_val(Seq::<char>::empty()) * 10 + digit_val(
            dec_digit(n),
        ));
    } else {
        lemma_dec_seq_val(n / 10);
        lemma_digit_val(n % 10);
        assert(dec_seq(n).drop_last() =~= dec_seq(n / 10));
        assert(dec_seq(n).last() == dec_digit(n % 10));
    }
}

/// Writing a 16-bit number as decimal text and parsing the text back as a
/// status-code key yields the same number.
pub proof fn lemma_decimal_round_trip(n: u16)
    ensures
        parse_u16_spec(dec_seq(n as nat)) == Some(n),
{
    lemma_dec_seq_digits(n as nat);
    lemma_dec_seq_val(n as nat);
    assert(dec_seq(n as nat)[0] != '+');
}

/// The path prefix of a reference to a named definition in the older
/// document format.
pub open spec fn v2_ref_prefix() -> Seq<char> {
    "#/definitions/"@
}

/// The path prefix of a reference to a named schema in the newer document
/// format.
pub open spec fn v3_ref_prefix() -> Seq<char> {
    "#/components/schemas/"@
}

/// A reference path moved from the older to the newer format: the
/// definitions prefix is replaced by the component-schemas prefix; any
/// other text is kept as it is.
pub open spec fn rewritten_ref(s: Seq<char>) -> Seq<char> {
    if s.len() >= 14 && s.subrange(0, 14) == v2_ref_prefix() {
        v3_ref_prefix() + s.skip(14)
    } else {
        s
    }
}

/// Rewrites a reference path from the older to the newer format.
pub fn rewrite_ref(s: &str) -> (r: String)
    ensures
        r@ == rewritten_ref(s@),
{
    proof {
        reveal_strlit("#/definitions/");
        reveal_strlit("#/components/schemas/");
    }
    let n = s.unicode_len();
    if n < 14 {
        proof {
            assert(v2_ref_prefix().len() == 14);
        }
        return s.to_owned();
    }
    let mut i: usize = 0;
    let mut matches_prefix = true;
    while i < 14
        invariant
            0 <= i <= 14,
            n == s@.len(),
            n >= 14,
            matches_prefix == (forall|j: int|
                0 <= j < i ==> s@[j] == #[trigger] v2_ref_prefix()[j]),
        decreases 14 - i,
    {
        proof {
            reveal_strlit("#/definitions/");
        }
        let c = s.get_char(i);
        let expected: char = if i == 0 {
            '#'
        } else if i == 1 {
            '/'
        } else if i == 2 {
            'd'
        } else if i == 3 {
            'e'
        } else if i == 4 {
            'f'
        } else if i == 5 {
            'i'
        } else if i == 6 {
            'n'
        } else if i == 7 {
            'i'
        } else if i == 8 {
            't'
        } else if i == 9 {
            'i'
        } else if i == 10 {
            'o'
        } else if i == 11 {
            'n'
        } else if i == 12 {
            's'
        } else {
            '/'
        };
        proof {
            assert(v2_ref_prefix()[i as int] == expected);
        }
        if c != expected {
            matches_prefix = false;
        }
        i += 1;
    }
    if matches_prefix {
        proof {
            assert(s@.subrange(0, 14) =~= v2_ref_prefix());
        }
        let mut r = String::from_str("#/components/schemas/");
        let tail = s.substring_char(14, n);
        r.append(tail);
        proof {
            assert(r@ =~= rewritten_ref(s@));
        }
        r
    } else {
        proof {
            let ghost w = choose|j: int| 0 <= j < 14 && s@[j] != v2_ref_prefix()[j];
            assert(s@.subrange(0, 14)[w] != v2_ref_prefix()[w]);
        }
        s.to_owned()
    }
}

} // verus!
