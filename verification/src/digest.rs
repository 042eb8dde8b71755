//! SHA-256, and the framing of what goes into a fingerprint.
use sha2::Digest;
use vstd::prelude::*;

verus! {

/// A SHA-256 computation: `sha2::Sha256`, whose generic arguments keep it from being named in a
/// contract.
#[verifier::external_body]
pub struct Hasher {
    state: sha2::Sha256,
}

/// The bytes that a SHA-256 computation was fed.
pub uninterp spec fn absorbed(hasher: Hasher) -> Seq<u8>;

/// The SHA-256 digest of some bytes.
pub uninterp spec fn sha256(bytes: Seq<u8>) -> Seq<u8>;

/// Whether two lists of bytes are a collision of SHA-256: they differ, and their digests do not.
pub open spec fn collide(left: Seq<u8>, right: Seq<u8>) -> bool {
    left != right && sha256(left) == sha256(right)
}

impl Hasher {
    /// `Sha256::new` starts a computation that was fed nothing.
    #[verifier::external_body]
    pub(crate) fn new() -> (result: Hasher)
        ensures
            absorbed(result) == Seq::<u8>::empty(),
    {
        Hasher { state: sha2::Sha256::new() }
    }

    /// `Sha256::update` feeds more bytes, behind those that were fed before.
    #[verifier::external_body]
    pub(crate) fn update(&mut self, bytes: &[u8])
        ensures
            absorbed(*final(self)) == absorbed(*old(self)) + bytes@,
    {
        self.state.update(bytes);
    }

    /// `Sha256::finalize` gives the digest of the bytes that were fed. It depends on those bytes
    /// alone.
    #[verifier::external_body]
    pub(crate) fn finalize(self) -> (result: [u8; 32])
        ensures
            result@ == sha256(absorbed(self)),
    {
        self.state.finalize().into()
    }
}

/// The SHA-256 digest of some bytes.
pub fn digest_of(bytes: &[u8]) -> (result: [u8; 32])
    ensures
        result@ == sha256(bytes@),
{
    let mut hasher = Hasher::new();
    hasher.update(bytes);
    assert(Seq::<u8>::empty() + bytes@ =~= bytes@);
    hasher.finalize()
}

/// The lowest `count` bytes of a number, the lowest first.
pub open spec fn low_bytes(value: nat, count: nat) -> Seq<u8>
    decreases count,
{
    if count == 0 {
        Seq::empty()
    } else {
        seq![(value % 256) as u8] + low_bytes(value / 256, (count - 1) as nat)
    }
}

/// The eight bytes of a number, the lowest first.
pub open spec fn little_endian(value: u64) -> Seq<u8> {
    low_bytes(value as nat, 8)
}

/// A field of a fingerprint: the length of its bytes, then the bytes.
pub open spec fn framed(value: Seq<u8>) -> Seq<u8> {
    little_endian(value.len() as u64) + value
}

/// The lowest `count` bytes of a number, the lowest first.
pub fn to_low_bytes(value: u64, count: u32) -> (result: Vec<u8>)
    ensures
        result@ == low_bytes(value as nat, count as nat),
{
    let mut result: Vec<u8> = Vec::new();
    let mut rest: u64 = value;
    let mut left: u32 = count;
    assert(result@ + low_bytes(value as nat, count as nat) =~= low_bytes(
        value as nat,
        count as nat,
    ));
    while left > 0
        invariant
            result@ + low_bytes(rest as nat, left as nat) == low_bytes(value as nat, count as nat),
        decreases left,
    {
        let ghost before = result@;
        result.push((rest % 256) as u8);
        assert(result@ + low_bytes((rest / 256) as nat, (left - 1) as nat) =~= before + low_bytes(
            rest as nat,
            left as nat,
        ));
        rest = rest / 256;
        left -= 1;
    }
    assert(result@ + low_bytes(rest as nat, 0) =~= result@);
    result
}

/// The first number that `count` bytes cannot hold.
spec fn byte_limit(count: nat) -> nat
    decreases count,
{
    if count == 0 {
        1
    } else {
        256 * byte_limit((count - 1) as nat)
    }
}

proof fn lemma_low_bytes(left: nat, right: nat, count: nat)
    requires
        left < byte_limit(count),
        right < byte_limit(count),
        low_bytes(left, count) == low_bytes(right, count),
    ensures
        left == right,
    decreases count,
{
    if count > 0 {
        let shorter = (count - 1) as nat;
        let a = low_bytes(left, count);
        let b = low_bytes(right, count);
        assert(a.skip(1) =~= low_bytes(left / 256, shorter));
        assert(b.skip(1) =~= low_bytes(right / 256, shorter));
        assert(a[0] == b[0]);
        lemma_low_bytes(left / 256, right / 256, shorter);
    }
}

/// A number is written with as many bytes as are asked for.
pub proof fn lemma_low_bytes_len(value: nat, count: nat)
    ensures
        low_bytes(value, count).len() == count,
    decreases count,
{
    if count > 0 {
        lemma_low_bytes_len(value / 256, (count - 1) as nat);
    }
}

/// The eight bytes of a number fix the number.
pub proof fn little_endian_is_injective(left: u64, right: u64)
    requires
        little_endian(left) == little_endian(right),
    ensures
        left == right,
{
    reveal_with_fuel(byte_limit, 9);
    lemma_low_bytes(left as nat, right as nat, 8);
}

/// The four bytes of a number fix the number.
pub proof fn four_bytes_are_injective(left: u32, right: u32)
    requires
        low_bytes(left as nat, 4) == low_bytes(right as nat, 4),
    ensures
        left == right,
{
    reveal_with_fuel(byte_limit, 5);
    lemma_low_bytes(left as nat, right as nat, 4);
}

/// The bytes of the code that a command ended with fix the code.
pub proof fn code_bytes_are_injective(left: i32, right: i32)
    requires
        code_bytes(Some(left)) == code_bytes(Some(right)),
    ensures
        left == right,
{
    let one: int = if left < 0 {
        left + 0x1_0000_0000
    } else {
        left as int
    };
    let other: int = if right < 0 {
        right + 0x1_0000_0000
    } else {
        right as int
    };
    four_bytes_are_injective(one as u32, other as u32);
}

/// Fields can be told apart: what two streams of fields start with is the same field, and what
/// follows it is the same, where the streams are the same.
pub proof fn framing_is_injective(
    left: Seq<u8>,
    left_rest: Seq<u8>,
    right: Seq<u8>,
    right_rest: Seq<u8>,
)
    requires
        left.len() <= u64::MAX,
        right.len() <= u64::MAX,
        framed(left) + left_rest == framed(right) + right_rest,
    ensures
        left == right,
        left_rest == right_rest,
{
    lemma_low_bytes_len(left.len(), 8);
    lemma_low_bytes_len(right.len(), 8);
    let one = framed(left) + left_rest;
    let other = framed(right) + right_rest;
    assert(one.take(8) =~= little_endian(left.len() as u64));
    assert(other.take(8) =~= little_endian(right.len() as u64));
    little_endian_is_injective(left.len() as u64, right.len() as u64);
    assert(one.subrange(8, 8 + left.len() as int) =~= left);
    assert(other.subrange(8, 8 + right.len() as int) =~= right);
    assert(one.skip(8 + left.len() as int) =~= left_rest);
    assert(other.skip(8 + right.len() as int) =~= right_rest);
}

/// Appends a field: the length of its bytes, then the bytes.
pub fn push_field(transcript: &mut Vec<u8>, value: &[u8])
    ensures
        final(transcript)@ == old(transcript)@ + framed(value@),
{
    let length = to_low_bytes(value.len() as u64, 8);
    transcript.extend_from_slice(length.as_slice());
    transcript.extend_from_slice(value);
    assert(transcript@ =~= old(transcript)@ + framed(value@));
}

/// The four bytes of the code that a command ended with; a command without a code counts as the lowest
/// number.
pub open spec fn code_bytes(code: Option<i32>) -> Seq<u8> {
    let value: int = match code {
        Some(code) => code as int,
        None => i32::MIN as int,
    };
    low_bytes(
        (if value < 0 {
            value + 0x1_0000_0000
        } else {
            value
        }) as nat,
        4,
    )
}

/// The four bytes of the code that a command ended with.
pub fn to_code_bytes(code: Option<i32>) -> (result: Vec<u8>)
    ensures
        result@ == code_bytes(code),
{
    let value: i64 = match code {
        Some(code) => code as i64,
        None => -0x8000_0000,
    };
    let unsigned: u64 = if value < 0 {
        (value + 0x1_0000_0000) as u64
    } else {
        value as u64
    };
    to_low_bytes(unsigned, 4)
}

}
