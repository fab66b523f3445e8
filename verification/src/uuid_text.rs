//! The textual form of a 128-bit identifier: thirty-two lower-case
//! hexadecimal digits in five groups separated by hyphens.

use vstd::prelude::*;
use vstd::string::is_ascii_spec_bytes;

verus! {

/// Whether a character is a hexadecimal digit in lower case.
pub open spec fn is_hex_digit(c: char) -> bool {
    ('0' <= c && c <= '9') || ('a' <= c && c <= 'f')
}

/// Whether a text has the one shape that an identifier is written in:
/// thirty-six characters, a hyphen at the positions 8, 13, 18 and 23, and a
/// hexadecimal digit in lower case everywhere else.
pub open spec fn is_uuid_shape(token: Seq<char>) -> bool {
    &&& token.len() == 36
    &&& forall|p: int|
        0 <= p < 36 ==> if is_hyphen_position(p) {
            #[trigger] token[p] == '-'
        } else {
            is_hex_digit(token[p])
        }
}

/// Whether a text has the shape of an identifier.
pub fn has_uuid_shape(token: &str) -> (shaped: bool)
    ensures
        shaped == is_uuid_shape(token@),
{
    if !token.is_ascii() {
        proof {
            if is_uuid_shape(token@) {
                assert forall|i: int| 0 <= i < token@.len() implies '\0' <= #[trigger] token@[i]
                    && token@[i] <= '\u{7f}' by {
                    if !is_hyphen_position(i) {
                        assert(is_hex_digit(token@[i]));
                    }
                }
            }
        }
        return false;
    }
    let bytes = token.as_bytes();
    proof {
        is_ascii_spec_bytes(token);
    }
    if bytes.len() != 36 {
        return false;
    }
    let mut p: usize = 0;
    while p < 36
        invariant
            p <= 36,
            bytes@.len() == 36,
            token@.len() == 36,
            forall|i: int| 0 <= i < 36 ==> bytes@[i] == #[trigger] token@[i] as u8,
            forall|i: int| 0 <= i < 36 ==> '\0' <= #[trigger] token@[i] && token@[i] <= '\u{7f}',
            forall|i: int|
                0 <= i < p ==> if is_hyphen_position(i) {
                    #[trigger] token@[i] == '-'
                } else {
                    is_hex_digit(token@[i])
                },
        decreases 36 - p,
    {
        let byte: u8 = bytes[p];
        let fits = if p == 8 || p == 13 || p == 18 || p == 23 {
            byte == 45
        } else {
            (48 <= byte && byte <= 57) || (97 <= byte && byte <= 102)
        };
        proof {
            let c = token@[p as int];
            assert(byte == c as u8);
            assert(c as u32 <= 0x7f);
            assert('-' as u32 == 45);
            assert('0' as u32 == 48 && '9' as u32 == 57);
            assert('a' as u32 == 97 && 'f' as u32 == 102);
        }
        if !fits {
            return false;
        }
        p += 1;
    }
    true
}

/// The character that stands for a value below sixteen.
pub open spec fn hex_char(n: u128) -> char {
    if n == 0 {
        '0'
    } else if n == 1 {
        '1'
    } else if n == 2 {
        '2'
    } else if n == 3 {
        '3'
    } else if n == 4 {
        '4'
    } else if n == 5 {
        '5'
    } else if n == 6 {
        '6'
    } else if n == 7 {
        '7'
    } else if n == 8 {
        '8'
    } else if n == 9 {
        '9'
    } else if n == 10 {
        'a'
    } else if n == 11 {
        'b'
    } else if n == 12 {
        'c'
    } else if n == 13 {
        'd'
    } else if n == 14 {
        'e'
    } else {
        'f'
    }
}

/// The `k`-th group of four bits of `bits`, counted from the most significant.
pub open spec fn nibble(bits: u128, k: int) -> u128 {
    (bits >> ((4 * (31 - k)) as u128)) & 0xf
}

/// Whether position `p` of the text holds a hyphen.
pub open spec fn is_hyphen_position(p: int) -> bool {
    p == 8 || p == 13 || p == 18 || p == 23
}

/// Which digit stands at position `p` of the text, hyphens not counted.
pub open spec fn digit_index(p: int) -> int {
    if p < 8 {
        p
    } else if p < 13 {
        p - 1
    } else if p < 18 {
        p - 2
    } else if p < 23 {
        p - 3
    } else {
        p - 4
    }
}

/// The hyphenated lower-case text of `bits`.
pub open spec fn uuid_text(bits: u128) -> Seq<char> {
    Seq::new(
        36,
        |p: int|
            if is_hyphen_position(p) {
                '-'
            } else {
                hex_char(nibble(bits, digit_index(p)))
            },
    )
}

proof fn lemma_nibble_bound(bits: u128, k: int)
    requires
        0 <= k < 32,
    ensures
        nibble(bits, k) < 16,
{
    let s = (4 * (31 - k)) as u128;
    assert((bits >> s) & 0xf < 16) by (bit_vector);
}

proof fn lemma_hex_char_injective(x: u128, y: u128)
    requires
        x < 16,
        y < 16,
        hex_char(x) == hex_char(y),
    ensures
        x == y,
{
}

proof fn lemma_same_digit(a: u128, b: u128, p: int)
    requires
        uuid_text(a) == uuid_text(b),
        0 <= p < 36,
        !is_hyphen_position(p),
    ensures
        nibble(a, digit_index(p)) == nibble(b, digit_index(p)),
{
    let x = nibble(a, digit_index(p));
    let y = nibble(b, digit_index(p));
    lemma_nibble_bound(a, digit_index(p));
    lemma_nibble_bound(b, digit_index(p));
    assert(uuid_text(a)[p] == hex_char(x));
    assert(uuid_text(b)[p] == hex_char(y));
    lemma_hex_char_injective(x, y);
}

/// The text of an identifier has the shape of an identifier.
pub proof fn lemma_uuid_text_shape(bits: u128)
    ensures
        is_uuid_shape(uuid_text(bits)),
{
    assert forall|p: int| 0 <= p < 36 implies if is_hyphen_position(p) {
        #[trigger] uuid_text(bits)[p] == '-'
    } else {
        is_hex_digit(uuid_text(bits)[p])
    } by {
        if !is_hyphen_position(p) {
            lemma_nibble_bound(bits, digit_index(p));
        }
    }
}

/// Two identifiers with the same text are the same identifier.
pub proof fn lemma_uuid_text_injective(a: u128, b: u128)
    requires
        uuid_text(a) == uuid_text(b),
    ensures
        a == b,
{
    lemma_same_digit(a, b, 0);
    lemma_same_digit(a, b, 1);
    lemma_same_digit(a, b, 2);
    lemma_same_digit(a, b, 3);
    lemma_same_digit(a, b, 4);
    lemma_same_digit(a, b, 5);
    lemma_same_digit(a, b, 6);
    lemma_same_digit(a, b, 7);
    lemma_same_digit(a, b, 9);
    lemma_same_digit(a, b, 10);
    lemma_same_digit(a, b, 11);
    lemma_same_digit(a, b, 12);
    lemma_same_digit(a, b, 14);
    lemma_same_digit(a, b, 15);
    lemma_same_digit(a, b, 16);
    lemma_same_digit(a, b, 17);
    lemma_same_digit(a, b, 19);
    lemma_same_digit(a, b, 20);
    lemma_same_digit(a, b, 21);
    lemma_same_digit(a, b, 22);
    lemma_same_digit(a, b, 24);
    lemma_same_digit(a, b, 25);
    lemma_same_digit(a, b, 26);
    lemma_same_digit(a, b, 27);
    lemma_same_digit(a, b, 28);
    lemma_same_digit(a, b, 29);
    lemma_same_digit(a, b, 30);
    lemma_same_digit(a, b, 31);
    lemma_same_digit(a, b, 32);
    lemma_same_digit(a, b, 33);
    lemma_same_digit(a, b, 34);
    lemma_same_digit(a, b, 35);
    assert(a == b) by (bit_vector)
        requires
            (a >> 124) & 0xf == (b >> 124) & 0xf,
            (a >> 120) & 0xf == (b >> 120) & 0xf,
            (a >> 116) & 0xf == (b >> 116) & 0xf,
            (a >> 112) & 0xf == (b >> 112) & 0xf,
            (a >> 108) & 0xf == (b >> 108) & 0xf,
            (a >> 104) & 0xf == (b >> 104) & 0xf,
            (a >> 100) & 0xf == (b >> 100) & 0xf,
            (a >> 96) & 0xf == (b >> 96) & 0xf,
            (a >> 92) & 0xf == (b >> 92) & 0xf,
            (a >> 88) & 0xf == (b >> 88) & 0xf,
            (a >> 84) & 0xf == (b >> 84) & 0xf,
            (a >> 80) & 0xf == (b >> 80) & 0xf,
            (a >> 76) & 0xf == (b >> 76) & 0xf,
            (a >> 72) & 0xf == (b >> 72) & 0xf,
            (a >> 68) & 0xf == (b >> 68) & 0xf,
            (a >> 64) & 0xf == (b >> 64) & 0xf,
            (a >> 60) & 0xf == (b >> 60) & 0xf,
            (a >> 56) & 0xf == (b >> 56) & 0xf,
            (a >> 52) & 0xf == (b >> 52) & 0xf,
            (a >> 48) & 0xf == (b >> 48) & 0xf,
            (a >> 44) & 0xf == (b >> 44) & 0xf,
            (a >> 40) & 0xf == (b >> 40) & 0xf,
            (a >> 36) & 0xf == (b >> 36) & 0xf,
            (a >> 32) & 0xf == (b >> 32) & 0xf,
            (a >> 28) & 0xf == (b >> 28) & 0xf,
            (a >> 24) & 0xf == (b >> 24) & 0xf,
            (a >> 20) & 0xf == (b >> 20) & 0xf,
            (a >> 16) & 0xf == (b >> 16) & 0xf,
            (a >> 12) & 0xf == (b >> 12) & 0xf,
            (a >> 8) & 0xf == (b >> 8) & 0xf,
            (a >> 4) & 0xf == (b >> 4) & 0xf,
            (a >> 0) & 0xf == (b >> 0) & 0xf,
    ;
}

} // verus!
