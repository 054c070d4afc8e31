//! The hash of a block header, and the commitment to it.

use crate::text::{byte_list, push_byte_list};
use crate::types::{
    objection, BlockHeader, HashType, UtxoCommitment, UtxoCommitmentError, UtxoCommitmentResult,
};
use sha2::{Digest, Sha256};
use vstd::bytes::{
    lemma_auto_spec_u32_to_from_le_bytes, spec_u32_from_le_bytes, spec_u32_to_le_bytes,
    u32_to_le_bytes,
};
use vstd::prelude::*;
use vstd::string::StringExecFns;

verus! {

/// The SHA-256 digest of `data`, as `sha2::Sha256::digest` computes it.
pub uninterp spec fn sha256_digest(data: Seq<u8>) -> Seq<u8>;

/// `sha2::Sha256::digest`: the digest is a function of the bytes alone. It is
/// asked only for data whose length in bits fits the 64-bit counter of the
/// algorithm. How the digest comes about is left unsaid.
#[verifier::external_body]
fn sha256(data: &[u8]) -> (digest: HashType)
    requires
        data@.len() * 8 <= u64::MAX,
    ensures
        digest@ == sha256_digest(data@),
{
    Sha256::digest(data).into()
}

/// A block header as it is serialized: the fields in order, each number in four
/// bytes with the lowest first, a negative version in two's complement. Of a
/// number that does not fit, the low 32 bits are written.
pub open spec fn header_bytes(header: BlockHeader) -> Seq<u8> {
    spec_u32_to_le_bytes((header.version as i32) as u32) + header.prev_block_hash@
        + header.merkle_root@ + spec_u32_to_le_bytes(header.timestamp as u32)
        + spec_u32_to_le_bytes(header.bits as u32) + spec_u32_to_le_bytes(header.nonce as u32)
}

/// The numbers of a header fit the four bytes that each is serialized in.
pub open spec fn header_fits(header: BlockHeader) -> bool {
    &&& i32::MIN <= header.version <= i32::MAX
    &&& header.timestamp <= u32::MAX
    &&& header.bits <= u32::MAX
    &&& header.nonce <= u32::MAX
}

/// The block header hash: the double SHA-256 of the serialized header.
pub open spec fn block_hash(header: BlockHeader) -> Seq<u8> {
    sha256_digest(sha256_digest(header_bytes(header)))
}

/// A serialized header always has 80 bytes.
pub proof fn law_header_bytes_length(header: BlockHeader)
    ensures
        header_bytes(header).len() == 80,
{
    lemma_auto_spec_u32_to_from_le_bytes();
}

/// What is left of a number in 32 bits is its remainder modulo 2^32.
proof fn lemma_low_bits(version: i64, number: u64)
    ensures
        (version as i32) as u32 == version as int % 0x1_0000_0000,
        number as u32 == number as int % 0x1_0000_0000,
{
    assert(number as u32 == number % 0x1_0000_0000) by (bit_vector);
    let wide = version as u64;
    assert((version as i32) as u32 == wide % 0x1_0000_0000) by (bit_vector)
        requires
            wide == version as u64,
    ;
    if version < 0 {
        assert(wide == version + 0x1_0000_0000_0000_0000) by (bit_vector)
            requires
                wide == version as u64,
                version < 0,
        ;
    }
}

/// Four bytes are fixed by the number that they are read as.
proof fn lemma_number_fixes_bytes(x: Seq<u8>, y: Seq<u8>)
    requires
        x.len() == 4,
        y.len() == 4,
        spec_u32_from_le_bytes(x) == spec_u32_from_le_bytes(y),
    ensures
        x == y,
{
    lemma_auto_spec_u32_to_from_le_bytes();
    assert(x == spec_u32_to_le_bytes(spec_u32_from_le_bytes(x)));
    assert(y == spec_u32_to_le_bytes(spec_u32_from_le_bytes(y)));
}

/// Where each field of a header stands in its serialization, whatever its
/// values: the version in bytes 0 to 3, the previous block hash in 4 to 35, the
/// merkle root in 36 to 67, then timestamp, bits and nonce in four bytes each.
/// Read with the lowest byte first, the bytes of a number give it modulo 2^32.
pub proof fn law_header_layout(header: BlockHeader)
    ensures
        header_bytes(header).len() == 80,
        spec_u32_from_le_bytes(header_bytes(header).subrange(0, 4)) == header.version as int
            % 0x1_0000_0000,
        header_bytes(header).subrange(4, 36) == header.prev_block_hash@,
        header_bytes(header).subrange(36, 68) == header.merkle_root@,
        spec_u32_from_le_bytes(header_bytes(header).subrange(68, 72)) == header.timestamp as int
            % 0x1_0000_0000,
        spec_u32_from_le_bytes(header_bytes(header).subrange(72, 76)) == header.bits as int
            % 0x1_0000_0000,
        spec_u32_from_le_bytes(header_bytes(header).subrange(76, 80)) == header.nonce as int
            % 0x1_0000_0000,
{
    lemma_auto_spec_u32_to_from_le_bytes();
    lemma_low_bits(header.version, header.timestamp);
    lemma_low_bits(header.version, header.bits);
    lemma_low_bits(header.version, header.nonce);
    let bytes = header_bytes(header);
    assert(bytes.subrange(0, 4) == spec_u32_to_le_bytes((header.version as i32) as u32));
    assert(bytes.subrange(4, 36) == header.prev_block_hash@);
    assert(bytes.subrange(36, 68) == header.merkle_root@);
    assert(bytes.subrange(68, 72) == spec_u32_to_le_bytes(header.timestamp as u32));
    assert(bytes.subrange(72, 76) == spec_u32_to_le_bytes(header.bits as u32));
    assert(bytes.subrange(76, 80) == spec_u32_to_le_bytes(header.nonce as u32));
}

/// The serialized header fixes every field: no two headers whose numbers fit
/// share one.
pub proof fn law_header_bytes_fix_the_header(a: BlockHeader, b: BlockHeader)
    requires
        header_fits(a),
        header_fits(b),
        header_bytes(a) == header_bytes(b),
    ensures
        a == b,
{
    law_header_layout(a);
    law_header_layout(b);
    assert(a.prev_block_hash =~= b.prev_block_hash);
    assert(a.merkle_root =~= b.merkle_root);
}

/// The hash of a header, of any version, is SHA-256 applied twice to any 80 bytes
/// that hold the header's own fields in their places, and to nothing else: it
/// depends on the header through these bytes alone.
pub proof fn law_block_hash_covers_the_fields(header: BlockHeader, bytes: Seq<u8>)
    requires
        bytes.len() == 80,
        spec_u32_from_le_bytes(bytes.subrange(0, 4)) == header.version as int % 0x1_0000_0000,
        bytes.subrange(4, 36) == header.prev_block_hash@,
        bytes.subrange(36, 68) == header.merkle_root@,
        spec_u32_from_le_bytes(bytes.subrange(68, 72)) == header.timestamp as int % 0x1_0000_0000,
        spec_u32_from_le_bytes(bytes.subrange(72, 76)) == header.bits as int % 0x1_0000_0000,
        spec_u32_from_le_bytes(bytes.subrange(76, 80)) == header.nonce as int % 0x1_0000_0000,
    ensures
        block_hash(header) == sha256_digest(sha256_digest(bytes)),
{
    law_header_layout(header);
    let own = header_bytes(header);
    lemma_number_fixes_bytes(bytes.subrange(0, 4), own.subrange(0, 4));
    lemma_number_fixes_bytes(bytes.subrange(68, 72), own.subrange(68, 72));
    lemma_number_fixes_bytes(bytes.subrange(72, 76), own.subrange(72, 76));
    lemma_number_fixes_bytes(bytes.subrange(76, 80), own.subrange(76, 80));
    assert(bytes == bytes.subrange(0, 4) + bytes.subrange(4, 36) + bytes.subrange(36, 68)
        + bytes.subrange(68, 72) + bytes.subrange(72, 76) + bytes.subrange(76, 80));
    assert(own == own.subrange(0, 4) + own.subrange(4, 36) + own.subrange(36, 68) + own.subrange(
        68,
        72,
    ) + own.subrange(72, 76) + own.subrange(76, 80));
}

/// Two headers whose numbers fit and that differ in any field have different
/// hashes, unless two different byte strings share a SHA-256 digest.
pub proof fn law_equal_block_hashes_need_a_collision(a: BlockHeader, b: BlockHeader)
    requires
        i32::MIN <= a.version <= i32::MAX,
        i32::MIN <= b.version <= i32::MAX,
        a.timestamp <= u32::MAX && a.bits <= u32::MAX && a.nonce <= u32::MAX,
        b.timestamp <= u32::MAX && b.bits <= u32::MAX && b.nonce <= u32::MAX,
        a != b,
        block_hash(a) == block_hash(b),
    ensures
        exists|x: Seq<u8>, y: Seq<u8>| x != y && #[trigger] sha256_digest(x)
            == #[trigger] sha256_digest(y),
{
    let (x, y) = (header_bytes(a), header_bytes(b));
    law_header_layout(a);
    law_header_layout(b);
    law_block_hash_covers_the_fields(a, x);
    law_block_hash_covers_the_fields(b, y);
    if x == y {
        law_header_bytes_fix_the_header(a, b);
    }
    if sha256_digest(x) != sha256_digest(y) {
        assert(sha256_digest(sha256_digest(x)) == sha256_digest(sha256_digest(y)));
    }
}

/// Serializes `header`.
fn serialize_header(header: &BlockHeader) -> (bytes: Vec<u8>)
    ensures
        bytes@ == header_bytes(*header),
{
    let mut bytes: Vec<u8> = Vec::with_capacity(80);
    bytes.extend_from_slice(u32_to_le_bytes((header.version as i32) as u32).as_slice());
    bytes.extend_from_slice(header.prev_block_hash.as_slice());
    bytes.extend_from_slice(header.merkle_root.as_slice());
    bytes.extend_from_slice(u32_to_le_bytes(header.timestamp as u32).as_slice());
    bytes.extend_from_slice(u32_to_le_bytes(header.bits as u32).as_slice());
    bytes.extend_from_slice(u32_to_le_bytes(header.nonce as u32).as_slice());
    bytes
}

/// Compute block header hash (double SHA256)
pub fn compute_block_hash(header: &BlockHeader) -> (hash: HashType)
    ensures
        hash@ == block_hash(*header),
{
    let bytes = serialize_header(header);
    proof {
        law_header_bytes_length(*header);
    }
    let first_hash = sha256(bytes.as_slice());
    sha256(first_hash.as_slice())
}

fn same_hash(a: &HashType, b: &HashType) -> (same: bool)
    ensures
        same == (a@ == b@),
{
    let mut i: usize = 0;
    while i < 32
        invariant
            i <= 32,
            a@.take(i as int) == b@.take(i as int),
        decreases 32 - i,
    {
        if a[i] != b[i] {
            return false;
        }
        assert(a@.take(i + 1) == a@.take(i as int).push(a@[i as int]));
        assert(b@.take(i + 1) == b@.take(i as int).push(b@[i as int]));
        i = i + 1;
    }
    assert(a@.take(32) == a@);
    assert(b@.take(32) == b@);
    true
}

/// The message for a commitment to `claimed` under a header that hashes to
/// `computed`.
pub open spec fn hash_message(computed: Seq<u8>, claimed: Seq<u8>) -> Seq<char> {
    "Block hash mismatch: expected "@ + byte_list(computed) + ", got "@ + byte_list(claimed)
}

/// What is to object to a commitment to the block `claimed` where the header
/// hashes to `computed`.
pub open spec fn hash_objection(computed: Seq<u8>, claimed: Seq<u8>) -> Option<Seq<char>> {
    if claimed == computed {
        None
    } else {
        Some(hash_message(computed, claimed))
    }
}

/// Any hash but the computed one is objected to, and the message gives the
/// computed hash first, then the claimed one.
pub proof fn law_hash_objection(computed: Seq<u8>, claimed: Seq<u8>)
    ensures
        hash_objection(computed, claimed) is None <==> claimed == computed,
        claimed != computed ==> hash_objection(computed, claimed) == Some(
            "Block hash mismatch: expected "@ + byte_list(computed) + ", got "@ + byte_list(
                claimed,
            ),
        ),
{
}

/// Verify commitment block hash matches the hash computed from the header.
pub fn verify_commitment_hash(
    commitment: &UtxoCommitment,
    computed_hash: &HashType,
) -> (res: UtxoCommitmentResult<()>)
    ensures
        objection(res) == hash_objection(computed_hash@, commitment.block_hash@),
        res is Ok <==> commitment.block_hash@ == computed_hash@,
{
    if same_hash(&commitment.block_hash, computed_hash) {
        return Ok(());
    }
    let mut message = String::from_str("Block hash mismatch: expected ");
    push_byte_list(&mut message, computed_hash.as_slice());
    message.append(", got ");
    push_byte_list(&mut message, commitment.block_hash.as_slice());
    Err(UtxoCommitmentError::VerificationFailed(message))
}

} // verus!
