//! Random tokens rendered as lower-case hexadecimal.
use vstd::prelude::*;
use rand::RngCore;

verus! {

/// Lower-case hexadecimal digit for `d < 16`.
pub open spec fn hex_digit(d: nat) -> char {
    if d < 10 {
        ((d + 48) as u32) as char
    } else {
        ((d + 87) as u32) as char
    }
}

/// Two lower-case hexadecimal digits per byte (`format!("{:02x}", b)` for each byte).
pub open spec fn hex_of(bytes: Seq<u8>) -> Seq<char>
    decreases bytes.len(),
{
    if bytes.len() == 0 {
        seq![]
    } else {
        hex_of(bytes.drop_last()).push(hex_digit((bytes.last() / 16) as nat)).push(
            hex_digit((bytes.last() % 16) as nat),
        )
    }
}

/// Whether every character is a lower-case hexadecimal digit.
pub open spec fn is_lower_hex(s: Seq<char>) -> bool {
    forall|i: int|
        0 <= i < s.len() ==> (('0' <= #[trigger] s[i] && s[i] <= '9') || ('a' <= s[i] && s[i]
            <= 'f'))
}

/// `rand::thread_rng().fill_bytes` on a 32-byte buffer: 32 bytes drawn from the
/// thread-local generator. Nothing is claimed of their values; `thread_rng` panics
/// when the operating system cannot seed it, which no argument can rule out.
#[verifier::external_body]
fn random_bytes_32() -> (r: [u8; 32]) {
    let mut bytes = [0u8; 32];
    rand::thread_rng().fill_bytes(&mut bytes);
    bytes
}

fn hex_digit_exec(d: u8) -> (c: char)
    requires
        d < 16,
    ensures
        c == hex_digit(d as nat),
{
    if d < 10 {
        (d + 48) as char
    } else {
        (d + 87) as char
    }
}

proof fn lemma_hex_of_len(bytes: Seq<u8>)
    ensures
        hex_of(bytes).len() == 2 * bytes.len(),
        is_lower_hex(hex_of(bytes)),
    decreases bytes.len(),
{
    if bytes.len() > 0 {
        lemma_hex_of_len(bytes.drop_last());
        let h = hex_of(bytes.drop_last());
        let a = hex_digit((bytes.last() / 16) as nat);
        let b = hex_digit((bytes.last() % 16) as nat);
        assert(hex_of(bytes) == h.push(a).push(b));
        assert forall|i: int| 0 <= i < hex_of(bytes).len() implies (('0' <= #[trigger] hex_of(
            bytes,
        )[i] && hex_of(bytes)[i] <= '9') || ('a' <= hex_of(bytes)[i] && hex_of(bytes)[i]
            <= 'f')) by {
            if i < h.len() {
                assert(hex_of(bytes)[i] == h[i]);
            }
        }
    }
}

/// Hexadecimal rendering of bytes, two lower-case digits per byte.
pub fn hex_encode(bytes: &[u8]) -> (s: String)
    ensures
        s@ == hex_of(bytes@),
        s@.len() == 2 * bytes@.len(),
        is_lower_hex(s@),
{
    let mut v: Vec<char> = Vec::new();
    let mut i: usize = 0;
    while i < bytes.len()
        invariant
            i <= bytes@.len(),
            v@ == hex_of(bytes@.take(i as int)),
        decreases bytes@.len() - i,
    {
        let b = bytes[i];
        v.push(hex_digit_exec(b / 16));
        v.push(hex_digit_exec(b % 16));
        i = i + 1;
        assert(bytes@.take(i as int).drop_last() =~= bytes@.take(i - 1));
    }
    assert(bytes@.take(bytes@.len() as int) =~= bytes@);
    proof {
        lemma_hex_of_len(bytes@);
    }
    crate::text::string_from(v.as_slice())
}

/// A fresh random token: 32 random bytes as 64 lower-case hexadecimal characters.
pub fn random_hex_token() -> (s: String)
    ensures
        s@.len() == 64,
        is_lower_hex(s@),
{
    let bytes = random_bytes_32();
    hex_encode(&bytes)
}

} // verus!
