//! Identities of users and of their open sessions.
//!
//! A user identity is the 128 bits of a UUID. On the wire it travels in the
//! canonical text form of 36 characters: 32 hexadecimal digits in groups of
//! 8, 4, 4, 4 and 12, separated by hyphens.

use vstd::prelude::*;
use vstd::string::*;
use vstd::arithmetic::power::*;

verus! {

/// A stable, opaque user identity: the 128 bits of a UUID.
#[derive(Clone, Copy, PartialEq, Eq, Structural, Debug, Hash)]
pub struct UserId(pub u128);

/// The token that names one registered session. It carries the number under
/// which the transport layer accepted the connection; the transport never
/// hands the same number out twice.
#[derive(Clone, Copy, PartialEq, Eq, Structural, Debug, Hash)]
pub struct SessionHandle(pub u64);

/// The value of a hexadecimal digit, upper or lower case.
pub open spec fn hex_value(c: char) -> Option<int> {
    if '0' <= c <= '9' {
        Some(c as int - '0' as int)
    } else if 'a' <= c <= 'f' {
        Some(c as int - 'a' as int + 10)
    } else if 'A' <= c <= 'F' {
        Some(c as int - 'A' as int + 10)
    } else {
        None
    }
}

/// Where the `j`-th of the 32 digits stands among the 36 characters.
pub open spec fn digit_position(j: int) -> int {
    if j < 8 {
        j
    } else if j < 12 {
        j + 1
    } else if j < 16 {
        j + 2
    } else if j < 20 {
        j + 3
    } else {
        j + 4
    }
}

/// Whether `text` is a UUID in canonical form.
pub open spec fn canonical(text: Seq<char>) -> bool {
    &&& text.len() == 36
    &&& text[8] == '-'
    &&& text[13] == '-'
    &&& text[18] == '-'
    &&& text[23] == '-'
    &&& forall|j: int| 0 <= j < 32 ==> hex_value(#[trigger] text[digit_position(j)]) is Some
}

/// The number that the first `k` digits of `text` spell, most significant
/// digit first.
pub open spec fn digits_value(text: Seq<char>, k: int) -> int
    decreases k,
{
    if k <= 0 {
        0
    } else {
        digits_value(text, k - 1) * 16 + hex_value(text[digit_position(k - 1)]).unwrap()
    }
}

/// The identity that `text` spells, if it is canonical.
pub open spec fn parse_user_id(text: Seq<char>) -> Option<UserId> {
    if canonical(text) {
        Some(UserId(digits_value(text, 32) as u128))
    } else {
        None
    }
}

/// Every character of a canonical text is a hyphen or a hexadecimal digit.
pub proof fn lemma_canonical_char(text: Seq<char>, i: int)
    requires
        canonical(text),
        0 <= i < 36,
    ensures
        text[i] == '-' || hex_value(text[i]) is Some,
        '\0' <= text[i] <= '\u{7f}',
{
    if i == 8 || i == 13 || i == 18 || i == 23 {
    } else {
        let j = if i < 8 {
            i
        } else if i < 13 {
            i - 1
        } else if i < 18 {
            i - 2
        } else if i < 23 {
            i - 3
        } else {
            i - 4
        };
        assert(digit_position(j) == i);
        assert(hex_value(text[digit_position(j)]) is Some);
    }
}

/// The first `k` digits of a canonical text spell a number below `16^k`.
pub proof fn lemma_digits_value_bound(text: Seq<char>, k: int)
    requires
        0 <= k <= 32,
        forall|j: int| 0 <= j < k ==> hex_value(#[trigger] text[digit_position(j)]) is Some,
    ensures
        0 <= digits_value(text, k) < pow(16, k as nat),
    decreases k,
{
    if k == 0 {
        lemma_pow0(16);
    } else {
        lemma_digits_value_bound(text, k - 1);
        let d = hex_value(text[digit_position(k - 1)]).unwrap();
        assert(0 <= d < 16);
        assert(pow(16, k as nat) == 16 * pow(16, (k - 1) as nat)) by {
            reveal(pow);
        }
    }
}

/// `16^32` is one more than the largest `u128`.
pub proof fn lemma_pow16_32()
    ensures
        pow(16, 32) == 0x1_0000_0000_0000_0000_0000_0000_0000_0000,
{
    lemma_pow1(16);
    lemma_pow_adds(16, 1, 1);
    assert(pow(16, 2) == 0x100);
    lemma_pow_adds(16, 2, 2);
    assert(pow(16, 4) == 0x1_0000);
    lemma_pow_adds(16, 4, 4);
    assert(pow(16, 8) == 0x1_0000_0000);
    lemma_pow_adds(16, 8, 8);
    assert(pow(16, 16) == 0x1_0000_0000_0000_0000);
    lemma_pow_adds(16, 16, 16);
}

fn hex_digit(b: u8) -> (d: Option<u8>)
    ensures
        match d {
            Some(v) => hex_value(b as char) == Some(v as int),
            None => hex_value(b as char) is None,
        },
{
    if b >= 48 && b <= 57 {
        Some(b - 48)
    } else if b >= 97 && b <= 102 {
        Some(b - 97 + 10)
    } else if b >= 65 && b <= 70 {
        Some(b - 65 + 10)
    } else {
        None
    }
}

fn position_of_digit(j: usize) -> (p: usize)
    requires
        j < 32,
    ensures
        p == digit_position(j as int),
        p < 36,
{
    if j < 8 {
        j
    } else if j < 12 {
        j + 1
    } else if j < 16 {
        j + 2
    } else if j < 20 {
        j + 3
    } else {
        j + 4
    }
}

impl UserId {
    /// The identity's 128 bits.
    pub fn bits(self) -> (b: u128)
        ensures
            b == self.0,
    {
        self.0
    }

    /// Reads an identity from its canonical text form. Any other text gives
    /// `None`.
    pub fn parse(text: &str) -> (id: Option<UserId>)
        ensures
            id == parse_user_id(text@),
    {
        if !text.is_ascii() {
            proof {
                if canonical(text@) {
                    assert forall|i: int| 0 <= i < text@.len() implies '\0' <= #[trigger] text@[i]
                        <= '\u{7f}' by {
                        lemma_canonical_char(text@, i);
                    }
                }
            }
            return None;
        }
        if text.unicode_len() != 36 {
            return None;
        }
        if text.get_ascii(8) != 45 || text.get_ascii(13) != 45 || text.get_ascii(18) != 45
            || text.get_ascii(23) != 45 {
            return None;
        }
        let mut acc: u128 = 0;
        let mut j: usize = 0;
        while j < 32
            invariant
                j <= 32,
                text.is_ascii(),
                text@.len() == 36,
                forall|k: int| 0 <= k < j ==> hex_value(#[trigger] text@[digit_position(k)]) is Some,
                acc as int == digits_value(text@, j as int),
            decreases 32 - j,
        {
            let p = position_of_digit(j);
            let b = text.get_ascii(p);
            assert(text@[p as int] == b as char);
            match hex_digit(b) {
                None => {
                    return None;
                },
                Some(d) => {
                    proof {
                        assert forall|k: int| 0 <= k < j + 1 implies hex_value(
                            #[trigger] text@[digit_position(k)],
                        ) is Some by {}
                        lemma_digits_value_bound(text@, j as int);
                        lemma_digits_value_bound(text@, j as int + 1);
                        lemma_pow16_32();
                        lemma_pow_increases(16, (j + 1) as nat, 32);
                    }
                    acc = acc * 16 + d as u128;
                },
            }
            j = j + 1;
        }
        Some(UserId(acc))
    }
}

/// The lower-case hexadecimal digit of value `d`.
pub open spec fn hex_char(d: int) -> char {
    if d < 10 {
        ((d + 48) as u8) as char
    } else {
        ((d + 87) as u8) as char
    }
}

/// `n` with its last `k` hexadecimal digits struck off.
pub open spec fn shifted(n: int, k: int) -> int
    decreases k,
{
    if k <= 0 {
        n
    } else {
        shifted(n, k - 1) / 16
    }
}

/// Which of the 32 digits stands at place `i` of the 36 characters.
pub open spec fn digit_index(i: int) -> int {
    if i < 8 {
        i
    } else if i < 13 {
        i - 1
    } else if i < 18 {
        i - 2
    } else if i < 23 {
        i - 3
    } else {
        i - 4
    }
}

/// The character at place `i` of the canonical text of `id`.
pub open spec fn text_char(id: UserId, i: int) -> char {
    if i == 8 || i == 13 || i == 18 || i == 23 {
        '-'
    } else {
        hex_char(shifted(id.0 as int, 31 - digit_index(i)) % 16)
    }
}

/// The canonical text of `id`, in lower case.
pub open spec fn text_of(id: UserId) -> Seq<char> {
    Seq::new(36, |i: int| text_char(id, i))
}

/// Striking off `k` digits of a number below `16^32` leaves one below
/// `16^(32-k)`.
pub proof fn lemma_shifted_bound(n: int, k: int)
    requires
        0 <= n < 0x1_0000_0000_0000_0000_0000_0000_0000_0000,
        0 <= k <= 32,
    ensures
        0 <= shifted(n, k) < pow(16, (32 - k) as nat),
    decreases k,
{
    if k == 0 {
        lemma_pow16_32();
    } else {
        lemma_shifted_bound(n, k - 1);
        assert(pow(16, (32 - k + 1) as nat) == 16 * pow(16, (32 - k) as nat)) by {
            reveal(pow);
        }
    }
}

/// The canonical text of an identity is canonical, and its first `k`
/// digits spell the identity with its last `32 - k` digits struck off.
pub proof fn lemma_text_digits(id: UserId, k: int)
    requires
        0 <= k <= 32,
    ensures
        canonical(text_of(id)),
        digits_value(text_of(id), k) == shifted(id.0 as int, 32 - k),
    decreases k,
{
    let text = text_of(id);
    assert forall|j: int| 0 <= j < 32 implies hex_value(#[trigger] text[digit_position(j)])
        == Some(shifted(id.0 as int, 31 - j) % 16) by {
        let d = shifted(id.0 as int, 31 - j) % 16;
        assert(digit_index(digit_position(j)) == j);
        assert(text[digit_position(j)] == hex_char(d));
    }
    if k == 0 {
        lemma_shifted_bound(id.0 as int, 32);
        lemma_pow0(16);
    } else {
        lemma_text_digits(id, k - 1);
        assert(shifted(id.0 as int, 32 - k + 1) == shifted(id.0 as int, 32 - k) / 16);
        assert(hex_value(text[digit_position(k - 1)]) == Some(shifted(id.0 as int, 32 - k) % 16));
    }
}

/// Writing an identity and reading the text gives the identity back.
pub proof fn lemma_text_roundtrip(id: UserId)
    ensures
        parse_user_id(text_of(id)) == Some(id),
{
    lemma_text_digits(id, 32);
}

fn hex_str(d: u8) -> (s: &'static str)
    requires
        d < 16,
    ensures
        s@ == seq![hex_char(d as int)],
{
    proof {
        reveal_strlit("0");
        reveal_strlit("1");
        reveal_strlit("2");
        reveal_strlit("3");
        reveal_strlit("4");
        reveal_strlit("5");
        reveal_strlit("6");
        reveal_strlit("7");
        reveal_strlit("8");
        reveal_strlit("9");
        reveal_strlit("a");
        reveal_strlit("b");
        reveal_strlit("c");
        reveal_strlit("d");
        reveal_strlit("e");
        reveal_strlit("f");
    }
    let s = match d {
        0 => "0",
        1 => "1",
        2 => "2",
        3 => "3",
        4 => "4",
        5 => "5",
        6 => "6",
        7 => "7",
        8 => "8",
        9 => "9",
        10 => "a",
        11 => "b",
        12 => "c",
        13 => "d",
        14 => "e",
        _ => "f",
    };
    assert(s@ =~= seq![hex_char(d as int)]);
    s
}

impl UserId {
    /// Writes the identity in its canonical text form, in lower case.
    pub fn to_text(self) -> (text: String)
        ensures
            text@ == text_of(self),
    {
        let mut digits: Vec<u8> = Vec::new();
        let mut rest: u128 = self.0;
        let mut k: usize = 0;
        while k < 32
            invariant
                k <= 32,
                digits@.len() == k,
                rest as int == shifted(self.0 as int, k as int),
                forall|n: int|
                    0 <= n < k ==> (#[trigger] digits@[n]) as int == shifted(self.0 as int, n) % 16,
            decreases 32 - k,
        {
            digits.push((rest % 16) as u8);
            rest = rest / 16;
            k = k + 1;
        }
        let mut text = String::new();
        let mut i: usize = 0;
        while i < 36
            invariant
                i <= 36,
                digits@.len() == 32,
                forall|n: int|
                    0 <= n < 32 ==> (#[trigger] digits@[n]) as int == shifted(self.0 as int, n) % 16,
                text@ == text_of(self).take(i as int),
            decreases 36 - i,
        {
            if i == 8 || i == 13 || i == 18 || i == 23 {
                proof {
                    reveal_strlit("-");
                }
                text.append("-");
                assert("-"@ =~= seq!['-']);
            } else {
                let j = if i < 8 {
                    i
                } else if i < 13 {
                    i - 1
                } else if i < 18 {
                    i - 2
                } else if i < 23 {
                    i - 3
                } else {
                    i - 4
                };
                let d = digits[31 - j];
                text.append(hex_str(d));
            }
            assert(text@ =~= text_of(self).take(i as int + 1));
            i = i + 1;
        }
        assert(text@ =~= text_of(self));
        text
    }
}

} // verus!
