//! Hashing, MAC and hex encoding used by the signer.

use hmac::Mac;
use sha2::Digest;
use vstd::prelude::*;

verus! {

/// The SHA-256 digest of `data`, as computed by the `sha2` crate.
pub uninterp spec fn sha256_digest(data: Seq<u8>) -> Seq<u8>;

/// Calls `sha2::Sha256` (`new`, `update`, `finalize`) on `data`.
/// Trusted: the 32 returned bytes are `sha256_digest` of the input.
#[verifier::external_body]
pub(crate) fn sha256(data: &[u8]) -> (digest: [u8; 32])
    ensures
        digest@ == sha256_digest(data@),
{
    let mut state = sha2::Sha256::new();
    state.update(data);
    state.finalize().into()
}

/// The HMAC-SHA256 tag of `message` under `key`, as computed by the `hmac`
/// crate instantiated with `sha2::Sha256`.
pub uninterp spec fn hmac_sha256_tag(key: Seq<u8>, message: Seq<u8>) -> Seq<u8>;

/// Calls `hmac::Hmac::<sha2::Sha256>::new_from_slice`, `update` and `finalize`.
/// HMAC takes keys of any length, so `new_from_slice` never fails (the crate
/// hashes long keys and pads short ones). Trusted: the returned tag is
/// `hmac_sha256_tag` of the key and the message.
#[verifier::external_body]
pub(crate) fn hmac_sha256(key: &[u8], message: &[u8]) -> (tag: [u8; 32])
    ensures
        tag@ == hmac_sha256_tag(key@, message@),
{
    let mut mac = hmac::Hmac::<sha2::Sha256>::new_from_slice(key).unwrap();
    mac.update(message);
    mac.finalize().into_bytes().into()
}

/// The lower-case hexadecimal digit for a value below 16.
pub open spec fn hex_digit(v: int) -> char {
    if v < 10 {
        ('0' as int + v) as char
    } else {
        ('a' as int + (v - 10)) as char
    }
}

/// Lower-case hex encoding: two digits per byte, high nibble first.
pub open spec fn hex_lower(bytes: Seq<u8>) -> Seq<char>
    decreases bytes.len(),
{
    if bytes.len() == 0 {
        seq![]
    } else {
        seq![hex_digit(bytes[0] as int / 16), hex_digit(bytes[0] as int % 16)] + hex_lower(bytes.drop_first())
    }
}

/// Whether `c` is one of `0-9` or `a-f`.
pub open spec fn is_lower_hex_char(c: char) -> bool {
    ('0' <= c && c <= '9') || ('a' <= c && c <= 'f')
}

/// Calls `hex::encode`. Trusted: the result is the lower-case hex encoding
/// of `data`, two characters per byte with the high nibble first (the crate
/// maps each byte through the table `0123456789abcdef`).
#[verifier::external_body]
pub(crate) fn hex_encode(data: &[u8]) -> (text: String)
    ensures
        text@ == hex_lower(data@),
{
    hex::encode(data)
}

/// The hex encoding is twice as long as its input and uses only lower-case
/// hex digits.
pub proof fn lemma_hex_lower_shape(bytes: Seq<u8>)
    ensures
        hex_lower(bytes).len() == 2 * bytes.len(),
        forall|i: int| 0 <= i < hex_lower(bytes).len() ==> is_lower_hex_char(#[trigger] hex_lower(bytes)[i]),
    decreases bytes.len(),
{
    if bytes.len() > 0 {
        lemma_hex_lower_shape(bytes.drop_first());
        let hi = bytes[0] as int / 16;
        let lo = bytes[0] as int % 16;
        assert(0 <= hi < 16 && 0 <= lo < 16);
        let head = seq![hex_digit(hi), hex_digit(lo)];
        assert(is_lower_hex_char(head[0]));
        assert(is_lower_hex_char(head[1]));
        assert forall|i: int| 0 <= i < hex_lower(bytes).len() implies is_lower_hex_char(
            #[trigger] hex_lower(bytes)[i],
        ) by {
            if i >= 2 {
                assert(hex_lower(bytes)[i] == hex_lower(bytes.drop_first())[i - 2]);
            }
        }
    }
}

/// Distinct values below 16 have distinct hex digits.
proof fn lemma_hex_digit_injective(a: int, b: int)
    requires
        0 <= a < 16,
        0 <= b < 16,
        hex_digit(a) == hex_digit(b),
    ensures
        a == b,
{
    assert((hex_digit(a) as int) == (if a < 10 { '0' as int + a } else { 'a' as int + (a - 10) }));
    assert((hex_digit(b) as int) == (if b < 10 { '0' as int + b } else { 'a' as int + (b - 10) }));
}

/// Hex encoding is one-to-one: equal encodings come from equal bytes.
pub proof fn lemma_hex_lower_injective(a: Seq<u8>, b: Seq<u8>)
    requires
        hex_lower(a) == hex_lower(b),
    ensures
        a == b,
    decreases a.len(),
{
    lemma_hex_lower_shape(a);
    lemma_hex_lower_shape(b);
    if a.len() > 0 {
        let ha = hex_lower(a);
        let hb = hex_lower(b);
        assert(ha[0] == hex_digit(a[0] as int / 16));
        assert(hb[0] == hex_digit(b[0] as int / 16));
        assert(ha[1] == hex_digit(a[0] as int % 16));
        assert(hb[1] == hex_digit(b[0] as int % 16));
        lemma_hex_digit_injective(a[0] as int / 16, b[0] as int / 16);
        lemma_hex_digit_injective(a[0] as int % 16, b[0] as int % 16);
        assert(a[0] == b[0]);
        assert(ha.subrange(2, ha.len() as int) =~= hex_lower(a.drop_first()));
        assert(hb.subrange(2, hb.len() as int) =~= hex_lower(b.drop_first()));
        lemma_hex_lower_injective(a.drop_first(), b.drop_first());
        assert(a =~= seq![a[0]] + a.drop_first());
        assert(b =~= seq![b[0]] + b.drop_first());
    } else {
        assert(a =~= b);
    }
}

} // verus!
