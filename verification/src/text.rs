//! Text: blank strings and decimal numerals.

use vstd::prelude::*;
use vstd::string::*;

verus! {

/// Whether `c` has the Unicode property `White_Space`.
pub open spec fn is_white_space(c: char) -> bool {
    ||| 0x9 <= c as u32 <= 0xd
    ||| c as u32 == 0x20
    ||| c as u32 == 0x85
    ||| c as u32 == 0xa0
    ||| c as u32 == 0x1680
    ||| 0x2000 <= c as u32 <= 0x200a
    ||| c as u32 == 0x2028
    ||| c as u32 == 0x2029
    ||| c as u32 == 0x202f
    ||| c as u32 == 0x205f
    ||| c as u32 == 0x3000
}

/// Whether `inner` is `outer` without its leading and trailing white space.
pub open spec fn is_trimmed(outer: Seq<char>, inner: Seq<char>) -> bool {
    exists|i: int, j: int|
        {
            &&& 0 <= i <= j <= outer.len()
            &&& inner == #[trigger] outer.subrange(i, j)
            &&& forall|k: int| 0 <= k < i ==> is_white_space(#[trigger] outer[k])
            &&& forall|k: int| j <= k < outer.len() ==> is_white_space(#[trigger] outer[k])
            &&& i < j ==> !is_white_space(outer[i]) && !is_white_space(outer[j - 1])
        }
}

/// `str::trim` drops the white space at both ends of the string, and only that.
pub assume_specification[ str::trim ](s: &str) -> (inner: &str)
    ensures
        is_trimmed(s@, inner@),
;

/// Whether `s` holds nothing but white space.
pub open spec fn is_blank(s: Seq<char>) -> bool {
    forall|k: int| 0 <= k < s.len() ==> is_white_space(#[trigger] s[k])
}

/// Whether nothing of `s` is left once it is trimmed.
pub fn blank(s: &str) -> (r: bool)
    ensures
        r == is_blank(s@),
{
    s.trim().is_empty()
}

/// The character of a decimal digit.
pub open spec fn digit_char(d: nat) -> char {
    ('0' as nat + d) as char
}

/// The decimal numeral of `n`, without leading zeros.
pub open spec fn decimal_numeral(n: nat) -> Seq<char>
    decreases n,
{
    if n < 10 {
        seq![digit_char(n)]
    } else {
        decimal_numeral(n / 10).push(digit_char(n % 10))
    }
}

/// The text of a decimal digit.
fn digit(d: u128) -> (r: &'static str)
    requires
        d < 10,
    ensures
        r@ == seq![digit_char(d as nat)],
{
    proof {
        reveal_strlit("0");
        reveal_strlit("1");
        reveal_strlit("2");
        reveal_strlit("3");
        reveal_strlit("4");
        reveal_strlit("5");
        reveal_strlit("6");
        reveal_strlit("7");
        reveal_strlit("8");
        reveal_strlit("9");
    }
    match d {
        0 => "0",
        1 => "1",
        2 => "2",
        3 => "3",
        4 => "4",
        5 => "5",
        6 => "6",
        7 => "7",
        8 => "8",
        _ => "9",
    }
}

/// The decimal numeral of `n`.
pub fn decimal(n: u128) -> (r: String)
    ensures
        r@ == decimal_numeral(n as nat),
    decreases n,
{
    if n < 10 {
        digit(n).to_string()
    } else {
        decimal(n / 10).concat(digit(n % 10))
    }
}

/// The text `head`, followed by `tail`.
pub fn joined(head: &str, tail: &str) -> (r: String)
    ensures
        r@ == head@ + tail@,
{
    head.to_string().concat(tail)
}

/// A text is blank where all of its parts are: the empty text is, a text of one character is
/// where that is one of the twenty-five white-space characters, and two texts together are where
/// both are.
pub proof fn law_blank(a: Seq<char>, b: Seq<char>, c: char)
    ensures
        is_blank(Seq::empty()),
        is_blank(a + b) <==> is_blank(a) && is_blank(b),
        is_blank(seq![c]) <==> {
            let n = c as u32;
            ||| n == 0x9 || n == 0xa || n == 0xb || n == 0xc || n == 0xd || n == 0x20
            ||| n == 0x85 || n == 0xa0 || n == 0x1680
            ||| n == 0x2000 || n == 0x2001 || n == 0x2002 || n == 0x2003 || n == 0x2004
            ||| n == 0x2005 || n == 0x2006 || n == 0x2007 || n == 0x2008 || n == 0x2009
            ||| n == 0x200a || n == 0x2028 || n == 0x2029 || n == 0x202f || n == 0x205f
            ||| n == 0x3000
        },
{
    if is_blank(a + b) {
        assert forall|k: int| 0 <= k < a.len() implies is_white_space(#[trigger] a[k]) by {
            assert((a + b)[k] == a[k]);
        }
        assert forall|k: int| 0 <= k < b.len() implies is_white_space(#[trigger] b[k]) by {
            assert((a + b)[a.len() + k] == b[k]);
        }
    }
    assert(is_blank(seq![c]) ==> is_white_space(seq![c][0]));
}

/// The number that decimal digits spell, the highest first.
pub open spec fn spelled(s: Seq<char>) -> int
    decreases s.len(),
{
    if s.len() == 0 {
        0
    } else {
        spelled(s.drop_last()) * 10 + (s.last() as int - '0' as int)
    }
}

/// A numeral is made of decimal digits, spells its number, and starts with a zero only where it
/// is the numeral of zero.
pub proof fn law_numeral(n: nat)
    ensures
        spelled(decimal_numeral(n)) == n,
        decimal_numeral(n).len() > 0,
        forall|i: int|
            0 <= i < decimal_numeral(n).len() ==> '0' <= #[trigger] decimal_numeral(n)[i] <= '9',
        decimal_numeral(n)[0] == '0' ==> n == 0,
        n == 0 ==> decimal_numeral(n).len() == 1,
    decreases n,
{
    let s = decimal_numeral(n);
    reveal_with_fuel(spelled, 2);
    if n < 10 {
        assert(s.drop_last() == Seq::<char>::empty());
    } else {
        law_numeral(n / 10);
        assert(s.drop_last() == decimal_numeral(n / 10));
        assert(s[0] == decimal_numeral(n / 10)[0]);
    }
}

} // verus!
