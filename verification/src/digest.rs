//! The outside computations: SHA-256 digests and standard base64 text.

use vstd::prelude::*;

use crate::identity::Sha256Digest;
use sha2::Digest;

verus! {

// ---------------------------------------------------------------------------
// SHA-256
// ---------------------------------------------------------------------------

/// The thirty-two bytes of the SHA-256 digest of one message.
pub uninterp spec fn sha256(message: Seq<u8>) -> Seq<u8>;

/// Calls `sha2::Sha256::digest`. The result is the SHA-256 digest of the whole message, which
/// depends on the message alone; its bytes are named by [`sha256`].
#[verifier::external_body]
fn sha256_bytes(message: &[u8]) -> (digest: [u8; 32])
    ensures
        digest@ == sha256(message@),
{
    sha2::Sha256::digest(message).into()
}

/// The digest of one message as a value.
pub open spec fn digest_of(message: Seq<u8>) -> Sha256Digest {
    Sha256Digest::of_bytes(sha256(message))
}

/// Returns the SHA-256 digest of one message.
pub fn sha256_digest(message: &[u8]) -> (digest: Sha256Digest)
    ensures
        digest == digest_of(message@),
        sha256(message@).len() == 32,
{
    let bytes = sha256_bytes(message);
    Sha256Digest::from_bytes(bytes.as_slice())
}

// ---------------------------------------------------------------------------
// Base64
// ---------------------------------------------------------------------------

/// The character of one base64 digit in the standard alphabet.
pub open spec fn base64_char(digit: int) -> char {
    if digit < 26 {
        (65 + digit) as u8 as char
    } else if digit < 52 {
        (71 + digit) as u8 as char
    } else if digit < 62 {
        (digit - 4) as u8 as char
    } else if digit == 62 {
        '+'
    } else {
        '/'
    }
}

/// The padded base64 text of one byte sequence in the standard alphabet.
pub open spec fn base64_text(bytes: Seq<u8>) -> Seq<char>
    decreases bytes.len(),
{
    if bytes.len() == 0 {
        Seq::empty()
    } else {
        let a = bytes[0] as int;
        if bytes.len() == 1 {
            seq![base64_char(a / 4), base64_char((a % 4) * 16), '=', '=']
        } else {
            let b = bytes[1] as int;
            if bytes.len() == 2 {
                seq![
                    base64_char(a / 4),
                    base64_char((a % 4) * 16 + b / 16),
                    base64_char((b % 16) * 4),
                    '=',
                ]
            } else {
                let c = bytes[2] as int;
                seq![
                    base64_char(a / 4),
                    base64_char((a % 4) * 16 + b / 16),
                    base64_char((b % 16) * 4 + c / 64),
                    base64_char(c % 64),
                ] + base64_text(bytes.skip(3))
            }
        }
    }
}

/// Calls `base64::Engine::encode` with `base64::engine::general_purpose::STANDARD`. The result is
/// the padded text in the standard alphabet. The call panics where the length of the text does
/// not fit in memory, so the input stays below a quarter of the address range.
#[verifier::external_body]
pub(crate) fn base64_encode(bytes: &[u8]) -> (text: String)
    requires
        bytes@.len() <= usize::MAX / 4,
    ensures
        text@ == base64_text(bytes@),
{
    base64::Engine::encode(&base64::engine::general_purpose::STANDARD, bytes)
}

/// Calls `base64::Engine::decode` with `base64::engine::general_purpose::STANDARD`. That engine
/// requires canonical padding and rejects nonzero trailing bits, so it accepts exactly the texts
/// that encoding gives and returns the bytes they were made from.
#[verifier::external_body]
pub(crate) fn base64_decode(text: &str) -> (bytes: Option<Vec<u8>>)
    ensures
        bytes matches Some(b) ==> base64_text(b@) == text@,
        bytes is None ==> forall|b: Seq<u8>| #[trigger] base64_text(b) != text@,
{
    base64::Engine::decode(&base64::engine::general_purpose::STANDARD, text).ok()
}

proof fn lemma_base64_char(left: int, right: int)
    requires
        0 <= left < 64,
        0 <= right < 64,
        base64_char(left) == base64_char(right),
    ensures
        left == right,
{
}

proof fn lemma_base64_char_padding(digit: int)
    requires
        0 <= digit < 64,
    ensures
        base64_char(digit) != '=',
{
}

/// Two byte sequences with the same base64 text are the same bytes.
pub proof fn law_base64_injective(left: Seq<u8>, right: Seq<u8>)
    requires
        base64_text(left) == base64_text(right),
    ensures
        left == right,
    decreases left.len(),
{
    let l = base64_text(left);
    let r = base64_text(right);
    if left.len() == 0 || right.len() == 0 {
        assert(l.len() == 0 <==> left.len() == 0);
        assert(r.len() == 0 <==> right.len() == 0);
        assert(left =~= right);
    } else {
        let a = left[0] as int;
        let x = right[0] as int;
        assert(l[0] == r[0]);
        lemma_base64_char(a / 4, x / 4);
        let a1 = if left.len() == 1 { (a % 4) * 16 } else { (a % 4) * 16 + left[1] as int / 16 };
        let x1 = if right.len() == 1 { (x % 4) * 16 } else { (x % 4) * 16 + right[1] as int / 16 };
        assert(l[1] == r[1]);
        assert(l[1] == base64_char(a1));
        assert(r[1] == base64_char(x1));
        lemma_base64_char(a1, x1);
        assert(a == x);
        assert(l[2] == r[2] && l[3] == r[3]);
        if left.len() == 1 || right.len() == 1 {
            if left.len() != right.len() {
                let longer = if left.len() == 1 { right } else { left };
                let b = longer[1] as int;
                let c = if longer.len() == 2 { 0 } else { longer[2] as int };
                lemma_base64_char_padding((b % 16) * 4 + c / 64);
                assert(false);
            }
            assert(left =~= right);
        } else {
            let b = left[1] as int;
            let y = right[1] as int;
            let b1 = if left.len() == 2 { (b % 16) * 4 } else {
                (b % 16) * 4 + left[2] as int / 64
            };
            let y1 = if right.len() == 2 { (y % 16) * 4 } else {
                (y % 16) * 4 + right[2] as int / 64
            };
            lemma_base64_char(b1, y1);
            assert(b == y);
            if left.len() == 2 || right.len() == 2 {
                if left.len() != right.len() {
                    let longer = if left.len() == 2 { right } else { left };
                    lemma_base64_char_padding(longer[2] as int % 64);
                    assert(false);
                }
                assert(left =~= right);
            } else {
                let c = left[2] as int;
                let z = right[2] as int;
                lemma_base64_char(c % 64, z % 64);
                assert(c == z);
                assert(base64_text(left.skip(3)) =~= l.skip(4));
                assert(base64_text(right.skip(3)) =~= r.skip(4));
                law_base64_injective(left.skip(3), right.skip(3));
                assert forall|i: int| 0 <= i < left.len() implies left[i] == right[i] by {
                    if i >= 3 {
                        assert(left.skip(3)[i - 3] == right.skip(3)[i - 3]);
                    }
                }
                assert(left.skip(3).len() == right.skip(3).len());
                assert(left =~= right);
            }
        }
    }
}

} // verus!
