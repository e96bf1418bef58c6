//! Content addressing: a message is identified by the lower-case hex form
//! of its SHA-256 hash.

use sha2::Digest;
use vstd::prelude::*;
use vstd::string::*;

verus! {

/// Number of bytes in a SHA-256 hash.
pub const HASH_BYTES: usize = 32;

/// Number of characters in a room identifier.
pub const ROOM_ID_CHARS: usize = 64;

/// The SHA-256 hash of `message`.
pub uninterp spec fn sha256(message: Seq<u8>) -> Seq<u8>;

/// Hashes `message` with `sha2::Sha256::digest`.
///
/// Trusted: the result is the SHA-256 hash of the message, which is a
/// function of the message bytes alone and is always 32 bytes long.
#[verifier::external_body]
fn sha256_bytes(message: &[u8]) -> (hash: Vec<u8>)
    ensures
        hash@ == sha256(message@),
        hash@.len() == HASH_BYTES,
{
    sha2::Sha256::digest(message).to_vec()
}

/// The sixteen hex digits, by value.
pub open spec fn hex_alphabet() -> Seq<char> {
    seq!['0', '1', '2', '3', '4', '5', '6', '7', '8', '9', 'a', 'b', 'c', 'd', 'e', 'f']
}

/// The digit that stands for `nibble`, for `0 <= nibble < 16`.
pub open spec fn hex_digit(nibble: int) -> char {
    hex_alphabet()[nibble]
}

/// The character at position `i` of the hex form of `bytes`: the high
/// nibble of a byte comes first.
pub open spec fn hex_char_at(bytes: Seq<u8>, i: int) -> char {
    if i % 2 == 0 {
        hex_digit(bytes[i / 2] as int / 16)
    } else {
        hex_digit(bytes[i / 2] as int % 16)
    }
}

/// The lower-case hex form of `bytes`: two digits per byte.
pub open spec fn hex_encode(bytes: Seq<u8>) -> Seq<char> {
    Seq::new(2 * bytes.len(), |i: int| hex_char_at(bytes, i))
}

/// The room identifier of a message.
pub open spec fn room_id_of(message: Seq<u8>) -> Seq<char> {
    hex_encode(sha256(message))
}

/// The one-character string of a hex digit.
fn hex_digit_str(nibble: u8) -> (digit: &'static str)
    requires
        nibble < 16,
    ensures
        digit@ == seq![hex_digit(nibble as int)],
{
    proof {
        reveal_strlit("0");
        reveal_strlit("1");
        reveal_strlit("2");
        reveal_strlit("3");
        reveal_strlit("4");
        reveal_strlit("5");
        reveal_strlit("6");
        reveal_strlit("7");
        reveal_strlit("8");
        reveal_strlit("9");
        reveal_strlit("a");
        reveal_strlit("b");
        reveal_strlit("c");
        reveal_strlit("d");
        reveal_strlit("e");
        reveal_strlit("f");
    }
    let digit = match nibble {
        0 => "0",
        1 => "1",
        2 => "2",
        3 => "3",
        4 => "4",
        5 => "5",
        6 => "6",
        7 => "7",
        8 => "8",
        9 => "9",
        10 => "a",
        11 => "b",
        12 => "c",
        13 => "d",
        14 => "e",
        _ => "f",
    };
    assert(digit@ =~= seq![hex_digit(nibble as int)]);
    digit
}

/// Writes `bytes` in lower-case hex.
pub fn to_hex(bytes: &[u8]) -> (text: String)
    ensures
        text@ == hex_encode(bytes@),
{
    let mut text = String::new();
    let mut i: usize = 0;
    while i < bytes.len()
        invariant
            i <= bytes.len(),
            text@.len() == 2 * i,
            forall|k: int| 0 <= k < 2 * i ==> text@[k] == hex_char_at(bytes@, k),
        decreases bytes.len() - i,
    {
        let byte = bytes[i];
        let ghost before = text@;
        text.append(hex_digit_str(byte / 16));
        text.append(hex_digit_str(byte % 16));
        proof {
            assert(text@ =~= before.push(hex_digit(byte as int / 16)).push(
                hex_digit(byte as int % 16),
            ));
            assert forall|k: int| 0 <= k < 2 * (i + 1) implies text@[k] == hex_char_at(
                bytes@,
                k,
            ) by {
                if k < 2 * i {
                    assert(text@[k] == before[k]);
                } else if k == 2 * i {
                    assert(k / 2 == i && k % 2 == 0);
                } else {
                    assert(k / 2 == i && k % 2 == 1);
                }
            }
        }
        i = i + 1;
    }
    assert(text@ =~= hex_encode(bytes@));
    text
}

/// The room identifier of `message`: the hex form of its SHA-256 hash.
///
/// The identifier depends on the message bytes alone, so a message that is
/// submitted again is given the identifier it had before.
pub fn digest(message: &[u8]) -> (room_id: String)
    ensures
        room_id@ == room_id_of(message@),
        room_id@.len() == ROOM_ID_CHARS,
{
    let hash = sha256_bytes(message);
    to_hex(hash.as_slice())
}

/// Two different nibbles have different digits.
pub proof fn lemma_hex_digit_injective(x: int, y: int)
    requires
        0 <= x < 16,
        0 <= y < 16,
        hex_digit(x) == hex_digit(y),
    ensures
        x == y,
{
    let digits = hex_alphabet();
    assert(digits[0] == '0' && digits[1] == '1' && digits[2] == '2' && digits[3] == '3');
    assert(digits[4] == '4' && digits[5] == '5' && digits[6] == '6' && digits[7] == '7');
    assert(digits[8] == '8' && digits[9] == '9' && digits[10] == 'a' && digits[11] == 'b');
    assert(digits[12] == 'c' && digits[13] == 'd' && digits[14] == 'e' && digits[15] == 'f');
}

/// The hex form loses nothing: byte sequences with the same hex form are
/// the same.
pub proof fn lemma_hex_encode_injective(a: Seq<u8>, b: Seq<u8>)
    requires
        hex_encode(a) == hex_encode(b),
    ensures
        a == b,
{
    assert(hex_encode(a).len() == 2 * a.len());
    assert(hex_encode(b).len() == 2 * b.len());
    assert forall|i: int| 0 <= i < a.len() implies a[i] == b[i] by {
        let high = 2 * i;
        let low = 2 * i + 1;
        assert(high / 2 == i && high % 2 == 0);
        assert(low / 2 == i && low % 2 == 1);
        assert(hex_encode(a)[high] == hex_char_at(a, high));
        assert(hex_encode(b)[high] == hex_char_at(b, high));
        assert(hex_encode(a)[low] == hex_char_at(a, low));
        assert(hex_encode(b)[low] == hex_char_at(b, low));
        lemma_hex_digit_injective(a[i] as int / 16, b[i] as int / 16);
        lemma_hex_digit_injective(a[i] as int % 16, b[i] as int % 16);
    }
    assert(a =~= b);
}

/// The room identifier is a function of the message bytes alone: equal
/// messages have equal identifiers.
pub proof fn lemma_equal_messages_share_room_id(first: Seq<u8>, second: Seq<u8>)
    requires
        first == second,
    ensures
        room_id_of(first) == room_id_of(second),
{
}

/// Two messages have the same room identifier exactly when they have the
/// same hash: the identifier tells apart whatever the hash tells apart.
pub proof fn lemma_room_id_separates_as_hash_does(first: Seq<u8>, second: Seq<u8>)
    ensures
        room_id_of(first) == room_id_of(second) <==> sha256(first) == sha256(second),
{
    if room_id_of(first) == room_id_of(second) {
        lemma_hex_encode_injective(sha256(first), sha256(second));
    }
}

} // verus!
