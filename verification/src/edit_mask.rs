//! The packed deletion bitmap of a Gaussian edit, and the file that stores it.
//!
//! A mask file is a 44-byte header (magic, format version, revision, splat
//! count, deleted count, payload length), an 8-byte FNV-1a checksum of the
//! payload, and the payload: one bit per splat, lowest bit first.
use vstd::arithmetic::div_mod::{lemma_mod_multiples_vanish, lemma_mul_mod_noop_left, lemma_small_mod};
use vstd::bytes::*;
use vstd::prelude::*;

use crate::text::{decimal, push_decimal};

verus! {

pub const HEADER_BYTES: usize = 44;

pub const FORMAT_VERSION: u32 = 1;

pub const FNV_OFFSET: u64 = 0xcbf29ce484222325;

pub const FNV_PRIME: u64 = 0x100000001b3;

/// Why a deletion mask or a mask file was refused.
#[derive(Debug, Clone, Copy, PartialEq, Eq, Structural)]
pub enum MaskError {
    /// The bitmap for this many splats does not fit in memory.
    TooLarge,
    /// The bitmap does not have one bit per splat, rounded up to whole bytes.
    LengthMismatch { expected: usize, actual: usize },
    /// The last byte sets bits past the splat count.
    BitsBeyondCount,
    /// An editing state with deletions but no mask revision.
    MissingRevision,
    /// The file ends inside its header.
    HeaderTruncated,
    /// The file does not start with the mask magic.
    BadMagic,
    /// The file ends inside its checksum field.
    ChecksumFieldTruncated,
    /// Version, revision, splat count, deleted count or payload length differ
    /// from what the editing state expects.
    MetadataMismatch,
    /// The file ends inside its payload.
    PayloadTruncated,
    /// Bytes follow the payload.
    TrailingData,
    /// The payload does not match its checksum or its deleted count.
    ChecksumMismatch,
}

/// The message shown for a refused mask.
pub open spec fn mask_error_message(e: MaskError) -> Seq<char> {
    match e {
        MaskError::TooLarge => "Gaussian 删除位图过大"@,
        MaskError::LengthMismatch { expected, actual } => "Gaussian 删除位图长度无效：期望 "@
            + decimal(expected as nat) + " 字节，实际 "@ + decimal(actual as nat) + " 字节"@,
        MaskError::BitsBeyondCount => "Gaussian 删除位图包含越界数据"@,
        MaskError::MissingRevision => "Gaussian 编辑状态缺少删除位图修订号"@,
        MaskError::HeaderTruncated => "Gaussian 编辑位图 header 损坏：failed to fill whole buffer"@,
        MaskError::BadMagic => "Gaussian 编辑位图标识无效"@,
        MaskError::ChecksumFieldTruncated => "Gaussian 编辑位图校验字段损坏：failed to fill whole buffer"@,
        MaskError::MetadataMismatch => "Gaussian 编辑位图元数据不匹配"@,
        MaskError::PayloadTruncated => "Gaussian 编辑位图内容损坏：failed to fill whole buffer"@,
        MaskError::TrailingData => "Gaussian 编辑位图包含多余数据"@,
        MaskError::ChecksumMismatch => "Gaussian 编辑位图校验失败"@,
    }
}

impl MaskError {
    /// The message shown to the user.
    pub fn message(&self) -> (s: String)
        ensures
            s@ == mask_error_message(*self),
    {
        let mut s = String::new();
        match self {
            MaskError::TooLarge => s.append("Gaussian 删除位图过大"),
            MaskError::LengthMismatch { expected, actual } => {
                s.append("Gaussian 删除位图长度无效：期望 ");
                push_decimal(&mut s, *expected as u64);
                s.append(" 字节，实际 ");
                push_decimal(&mut s, *actual as u64);
                s.append(" 字节");
            },
            MaskError::BitsBeyondCount => s.append("Gaussian 删除位图包含越界数据"),
            MaskError::MissingRevision => s.append("Gaussian 编辑状态缺少删除位图修订号"),
            MaskError::HeaderTruncated => s.append(
                "Gaussian 编辑位图 header 损坏：failed to fill whole buffer",
            ),
            MaskError::BadMagic => s.append("Gaussian 编辑位图标识无效"),
            MaskError::ChecksumFieldTruncated => s.append(
                "Gaussian 编辑位图校验字段损坏：failed to fill whole buffer",
            ),
            MaskError::MetadataMismatch => s.append("Gaussian 编辑位图元数据不匹配"),
            MaskError::PayloadTruncated => s.append(
                "Gaussian 编辑位图内容损坏：failed to fill whole buffer",
            ),
            MaskError::TrailingData => s.append("Gaussian 编辑位图包含多余数据"),
            MaskError::ChecksumMismatch => s.append("Gaussian 编辑位图校验失败"),
        }
        proof {
            assert(s@ =~= mask_error_message(*self));
        }
        s
    }
}

/// The persisted editing state that names a mask file.
#[derive(Debug, Clone, Copy, PartialEq, Eq, Structural)]
pub struct GaussianEditing {
    pub revision: u64,
    pub source_splat_count: u64,
    pub deleted_count: u64,
}

/// Bytes of a bitmap with one bit per splat.
pub open spec fn packed_len(splat_count: u64) -> nat {
    (splat_count as nat + 7) / 8
}

pub open spec fn packed_mask_bytes_spec(splat_count: u64) -> Result<usize, MaskError> {
    if packed_len(splat_count) <= usize::MAX {
        Ok(packed_len(splat_count) as usize)
    } else {
        Err(MaskError::TooLarge)
    }
}

/// Bytes of the deletion bitmap for `splat_count` splats, one bit each.
pub fn packed_mask_bytes(splat_count: u64) -> (r: Result<usize, MaskError>)
    ensures
        r == packed_mask_bytes_spec(splat_count),
{
    let bytes: u64 = splat_count / 8 + if splat_count % 8 != 0 {
        1
    } else {
        0
    };
    if bytes <= usize::MAX as u64 {
        Ok(bytes as usize)
    } else {
        Err(MaskError::TooLarge)
    }
}

/// Set bits of a byte value.
pub open spec fn ones(n: nat) -> nat
    decreases n,
{
    if n == 0 {
        0
    } else {
        n % 2 + ones(n / 2)
    }
}

/// Set bits of a whole bitmap.
pub open spec fn deleted_bits(mask: Seq<u8>) -> nat
    decreases mask.len(),
{
    if mask.len() == 0 {
        0
    } else {
        deleted_bits(mask.drop_last()) + ones(mask.last() as nat)
    }
}

pub open spec fn pow2(k: nat) -> nat
    decreases k,
{
    if k == 0 {
        1
    } else {
        2 * pow2((k - 1) as nat)
    }
}

/// Whether the last byte of the bitmap sets a bit at or past the splat count.
pub open spec fn has_bits_beyond(mask: Seq<u8>, splat_count: u64) -> bool {
    mask.len() > 0 && splat_count % 8 != 0 && mask.last() as nat >= pow2((splat_count % 8) as nat)
}

pub open spec fn count_deleted_spec(mask: Seq<u8>, splat_count: u64) -> Result<u64, MaskError> {
    match packed_mask_bytes_spec(splat_count) {
        Err(e) => Err(e),
        Ok(expected) => if mask.len() != expected {
            Err(MaskError::LengthMismatch { expected, actual: mask.len() as usize })
        } else if has_bits_beyond(mask, splat_count) {
            Err(MaskError::BitsBeyondCount)
        } else {
            Ok(deleted_bits(mask) as u64)
        },
    }
}

/// Keeping the bits at and above position `k` of a byte leaves something
/// exactly when the byte reaches `1 << k`.
proof fn lemma_high_bits_of_byte(b: u8, k: u8)
    by (bit_vector)
    requires
        1 <= k < 8,
    ensures
        (b & !(((1u8 << k) - 1) as u8)) != 0 <==> b >= (1u8 << k),
{
}

proof fn lemma_shift_is_pow2(k: u8)
    requires
        1 <= k < 8,
    ensures
        (1u8 << k) as nat == pow2(k as nat),
{
    lemma_pow2_values();
    if k == 1 {
        assert(1u8 << 1u8 == 2) by (bit_vector);
    } else if k == 2 {
        assert(1u8 << 2u8 == 4) by (bit_vector);
    } else if k == 3 {
        assert(1u8 << 3u8 == 8) by (bit_vector);
    } else if k == 4 {
        assert(1u8 << 4u8 == 16) by (bit_vector);
    } else if k == 5 {
        assert(1u8 << 5u8 == 32) by (bit_vector);
    } else if k == 6 {
        assert(1u8 << 6u8 == 64) by (bit_vector);
    } else {
        assert(1u8 << 7u8 == 128) by (bit_vector);
    }
}

/// The bitmap sets a bit past the splat count exactly when the last byte,
/// with its bits below `splat_count % 8` cleared, is not zero (for a count
/// that does not fill the last byte).
pub proof fn lemma_bits_beyond_is_the_high_bits_test(mask: Seq<u8>, splat_count: u64)
    ensures
        has_bits_beyond(mask, splat_count) <==> (mask.len() > 0 && splat_count % 8 != 0 && ({
            let used = (splat_count % 8) as u8;
            (mask.last() & !(((1u8 << used) - 1) as u8)) != 0
        })),
{
    if mask.len() > 0 && splat_count % 8 != 0 {
        let used = (splat_count % 8) as u8;
        lemma_high_bits_of_byte(mask.last(), used);
        lemma_shift_is_pow2(used);
    }
}

/// A number below `2^k` has at most `k` set bits.
pub proof fn lemma_ones_bound(n: nat, k: nat)
    requires
        n < pow2(k),
    ensures
        ones(n) <= k,
    decreases k,
{
    if k > 0 && n > 0 {
        lemma_ones_bound(n / 2, (k - 1) as nat);
    }
}

fn byte_ones(b: u8) -> (c: u64)
    ensures
        c == ones(b as nat),
        c <= 8,
{
    proof {
        lemma_pow2_values();
        lemma_ones_bound(b as nat, 8);
    }
    let mut x: u8 = b;
    let mut c: u64 = 0;
    while x > 0
        invariant
            c + ones(x as nat) == ones(b as nat),
            ones(b as nat) <= 8,
        decreases x,
    {
        c = c + (x % 2) as u64;
        x = x / 2;
    }
    c
}

/// Number of splats the bitmap deletes, after checking that it has one bit
/// per splat and sets no bit past the splat count.
pub fn count_deleted(mask: &[u8], splat_count: u64) -> (r: Result<u64, MaskError>)
    ensures
        r == count_deleted_spec(mask@, splat_count),
{
    let expected = packed_mask_bytes(splat_count)?;
    if mask.len() != expected {
        return Err(MaskError::LengthMismatch { expected, actual: mask.len() });
    }
    let used = splat_count % 8;
    let n = mask.len();
    if n > 0 && used != 0 {
        let mut limit: u64 = 1;
        let mut k: u64 = 0;
        while k < used
            invariant
                k <= used < 8,
                limit == pow2(k as nat),
                limit <= 128,
            decreases used - k,
        {
            proof {
                assert(pow2((k + 1) as nat) == 2 * pow2(k as nat));
                if k < 7 {
                    assert(pow2(k as nat) <= 64) by {
                        lemma_pow2_small(k as nat);
                    }
                }
            }
            limit = limit * 2;
            k = k + 1;
        }
        if mask[n - 1] as u64 >= limit {
            proof {
                assert(mask@.last() == mask@[n - 1]);
            }
            return Err(MaskError::BitsBeyondCount);
        }
    }
    proof {
        assert(!has_bits_beyond(mask@, splat_count));
        lemma_deleted_bits_bound(mask@, splat_count);
    }
    let mut total: u64 = 0;
    let mut i: usize = 0;
    while i < n
        invariant
            n == mask@.len(),
            i <= n,
            total == deleted_bits(mask@.subrange(0, i as int)),
            total <= 8 * i,
            deleted_bits(mask@) <= splat_count,
            n == packed_len(splat_count),
            !has_bits_beyond(mask@, splat_count),
        decreases n - i,
    {
        let c = byte_ones(mask[i]);
        proof {
            let t = mask@.subrange(0, i + 1);
            assert(t.drop_last() == mask@.subrange(0, i as int));
            lemma_deleted_bits_prefix(mask@, i + 1);
        }
        total = total + c;
        i = i + 1;
    }
    proof {
        assert(mask@.subrange(0, n as int) == mask@);
    }
    Ok(total)
}

proof fn lemma_pow2_values()
    ensures
        pow2(0) == 1,
        pow2(1) == 2,
        pow2(2) == 4,
        pow2(3) == 8,
        pow2(4) == 16,
        pow2(5) == 32,
        pow2(6) == 64,
        pow2(7) == 128,
        pow2(8) == 256,
{
    reveal_with_fuel(pow2, 9);
}

proof fn lemma_pow2_small(k: nat)
    requires
        k <= 6,
    ensures
        pow2(k) <= 64,
{
    lemma_pow2_values();
}

/// A prefix never holds more set bits than the whole bitmap.
proof fn lemma_deleted_bits_prefix(mask: Seq<u8>, i: int)
    requires
        0 <= i <= mask.len(),
    ensures
        deleted_bits(mask.subrange(0, i)) <= deleted_bits(mask),
    decreases mask.len() - i,
{
    if i < mask.len() {
        lemma_deleted_bits_prefix(mask, i + 1);
        assert(mask.subrange(0, i + 1).drop_last() == mask.subrange(0, i));
    } else {
        assert(mask.subrange(0, i) == mask);
    }
}

proof fn lemma_deleted_bits_full(mask: Seq<u8>)
    ensures
        deleted_bits(mask) <= 8 * mask.len(),
    decreases mask.len(),
{
    if mask.len() > 0 {
        lemma_deleted_bits_full(mask.drop_last());
        lemma_pow2_values();
        lemma_ones_bound(mask.last() as nat, 8);
    }
}

/// A valid bitmap deletes at most as many splats as it describes.
pub proof fn lemma_deleted_bits_bound(mask: Seq<u8>, splat_count: u64)
    requires
        mask.len() == packed_len(splat_count),
        !has_bits_beyond(mask, splat_count),
    ensures
        deleted_bits(mask) <= splat_count,
{
    if mask.len() > 0 {
        lemma_deleted_bits_full(mask.drop_last());
        let used = (splat_count % 8) as nat;
        if used != 0 {
            lemma_ones_bound(mask.last() as nat, used);
        } else {
            lemma_pow2_values();
            lemma_ones_bound(mask.last() as nat, 8);
        }
    }
}

/// One FNV-1a step.
pub open spec fn fnv_step(hash: u64, byte: u8) -> u64 {
    (((hash ^ (byte as u64)) as nat * FNV_PRIME as nat) % 0x1_0000_0000_0000_0000) as u64
}

/// 64-bit FNV-1a of a byte sequence.
pub open spec fn fnv1a(bytes: Seq<u8>) -> u64
    decreases bytes.len(),
{
    if bytes.len() == 0 {
        FNV_OFFSET
    } else {
        fnv_step(fnv1a(bytes.drop_last()), bytes.last())
    }
}

/// The FNV-1a hash of `bytes`, which a mask file stores for its payload.
pub fn checksum(bytes: &[u8]) -> (h: u64)
    ensures
        h == fnv1a(bytes@),
{
    let mut hash: u64 = FNV_OFFSET;
    let mut i: usize = 0;
    while i < bytes.len()
        invariant
            i <= bytes@.len(),
            hash == fnv1a(bytes@.subrange(0, i as int)),
        decreases bytes.len() - i,
    {
        proof {
            assert(bytes@.subrange(0, i + 1).drop_last() == bytes@.subrange(0, i as int));
        }
        hash = (hash ^ (bytes[i] as u64)).wrapping_mul(FNV_PRIME);
        i = i + 1;
    }
    proof {
        assert(bytes@.subrange(0, bytes@.len() as int) == bytes@);
    }
    hash
}

pub open spec fn magic() -> Seq<u8> {
    seq![0x4fu8, 0x4f, 0x53, 0x4d, 0x41, 0x53, 0x4b, 0x00]
}

/// Bytes of the mask file for `mask`, which deletes `deleted` splats.
pub open spec fn mask_file_spec(revision: u64, splat_count: u64, deleted: u64, mask: Seq<u8>) -> Seq<u8> {
    magic() + spec_u32_to_le_bytes(FORMAT_VERSION) + spec_u64_to_le_bytes(revision)
        + spec_u64_to_le_bytes(splat_count) + spec_u64_to_le_bytes(deleted)
        + spec_u64_to_le_bytes(mask.len() as u64) + spec_u64_to_le_bytes(fnv1a(mask)) + mask
}

pub open spec fn encode_mask_file_spec(revision: u64, splat_count: u64, mask: Seq<u8>) -> Result<
    Seq<u8>,
    MaskError,
> {
    match count_deleted_spec(mask, splat_count) {
        Err(e) => Err(e),
        Ok(deleted) => Ok(mask_file_spec(revision, splat_count, deleted, mask)),
    }
}

/// The bytes that `write_mask_atomic` stores for a valid mask.
pub fn encode_mask_file(revision: u64, splat_count: u64, mask: &[u8]) -> (r: Result<
    Vec<u8>,
    MaskError,
>)
    ensures
        match r {
            Ok(bytes) => encode_mask_file_spec(revision, splat_count, mask@) == Ok::<
                Seq<u8>,
                MaskError,
            >(bytes@),
            Err(e) => encode_mask_file_spec(revision, splat_count, mask@) == Err::<
                Seq<u8>,
                MaskError,
            >(e),
        },
{
    let deleted = count_deleted(mask, splat_count)?;
    let mut out: Vec<u8> = vec![0x4fu8, 0x4f, 0x53, 0x4d, 0x41, 0x53, 0x4b, 0x00];
    proof {
        assert(out@ == magic());
    }
    let mut version = u32_to_le_bytes(FORMAT_VERSION);
    out.append(&mut version);
    let mut a = u64_to_le_bytes(revision);
    out.append(&mut a);
    let mut b = u64_to_le_bytes(splat_count);
    out.append(&mut b);
    let mut c = u64_to_le_bytes(deleted);
    out.append(&mut c);
    let mut d = u64_to_le_bytes(mask.len() as u64);
    out.append(&mut d);
    let mut e = u64_to_le_bytes(checksum(mask));
    out.append(&mut e);
    let mut i: usize = 0;
    let ghost head = out@;
    while i < mask.len()
        invariant
            i <= mask@.len(),
            out@ == head + mask@.subrange(0, i as int),
        decreases mask.len() - i,
    {
        out.push(mask[i]);
        proof {
            assert(mask@.subrange(0, i + 1) == mask@.subrange(0, i as int).push(mask@[i as int]));
        }
        i = i + 1;
    }
    proof {
        assert(mask@.subrange(0, mask@.len() as int) == mask@);
        assert(out@ =~= mask_file_spec(revision, splat_count, deleted, mask@));
    }
    Ok(out)
}

pub open spec fn read_u64_at(bytes: Seq<u8>, at: int) -> u64 {
    spec_u64_from_le_bytes(bytes.subrange(at, at + 8))
}

/// What `read_mask` returns for an editing state and, when its revision is
/// not zero, the contents of the mask file that revision names.
pub open spec fn read_mask_spec(editing: GaussianEditing, contents: Seq<u8>) -> Result<
    Seq<u8>,
    MaskError,
> {
    match packed_mask_bytes_spec(editing.source_splat_count) {
        Err(e) => Err(e),
        Ok(expected) => {
            if editing.revision == 0 {
                if editing.deleted_count != 0 {
                    Err(MaskError::MissingRevision)
                } else {
                    Ok(Seq::new(expected as nat, |i: int| 0u8))
                }
            } else if contents.len() < 44 {
                Err(MaskError::HeaderTruncated)
            } else if contents.subrange(0, 8) != magic() {
                Err(MaskError::BadMagic)
            } else if contents.len() < 52 {
                Err(MaskError::ChecksumFieldTruncated)
            } else if spec_u32_from_le_bytes(contents.subrange(8, 12)) != FORMAT_VERSION
                || read_u64_at(contents, 12) != editing.revision || read_u64_at(contents, 20)
                != editing.source_splat_count || read_u64_at(contents, 28) != editing.deleted_count
                || read_u64_at(contents, 36) as usize != expected {
                Err(MaskError::MetadataMismatch)
            } else if contents.len() < 52 + expected {
                Err(MaskError::PayloadTruncated)
            } else if contents.len() > 52 + expected {
                Err(MaskError::TrailingData)
            } else {
                let mask = contents.subrange(52, contents.len() as int);
                if fnv1a(mask) != read_u64_at(contents, 44) {
                    Err(MaskError::ChecksumMismatch)
                } else {
                    match count_deleted_spec(mask, editing.source_splat_count) {
                        Err(e) => Err(e),
                        Ok(d) => if d != editing.deleted_count {
                            Err(MaskError::ChecksumMismatch)
                        } else {
                            Ok(mask)
                        },
                    }
                }
            }
        },
    }
}

/// Reads the deletion mask of an editing state from the contents of its mask
/// file. For revision 0 no file exists and `contents` is not consulted: the
/// state must then delete nothing, and the mask is all zero.
pub fn read_mask(editing: GaussianEditing, contents: &[u8]) -> (r: Result<Vec<u8>, MaskError>)
    ensures
        match r {
            Ok(mask) => read_mask_spec(editing, contents@) == Ok::<Seq<u8>, MaskError>(mask@),
            Err(e) => read_mask_spec(editing, contents@) == Err::<Seq<u8>, MaskError>(e),
        },
{
    let expected = packed_mask_bytes(editing.source_splat_count)?;
    if editing.revision == 0 {
        if editing.deleted_count != 0 {
            return Err(MaskError::MissingRevision);
        }
        let zeros: Vec<u8> = vec![0u8; expected];
        proof {
            assert(zeros@ =~= Seq::new(expected as nat, |i: int| 0u8));
        }
        return Ok(zeros);
    }
    if contents.len() < HEADER_BYTES {
        return Err(MaskError::HeaderTruncated);
    }
    let head = &contents[0..8];
    let magic_bytes: [u8; 8] = [0x4f, 0x4f, 0x53, 0x4d, 0x41, 0x53, 0x4b, 0x00];
    let mut k: usize = 0;
    while k < 8
        invariant
            k <= 8,
            contents@.len() >= 44,
            editing.revision != 0,
            packed_mask_bytes_spec(editing.source_splat_count) == Ok::<usize, MaskError>(expected),
            head@ == contents@.subrange(0, 8),
            magic_bytes@ == magic(),
            forall|j: int| 0 <= j < k ==> head@[j] == magic()[j],
        decreases 8 - k,
    {
        if head[k] != magic_bytes[k] {
            proof {
                assert(contents@.subrange(0, 8)[k as int] != magic()[k as int]);
                assert(contents@.subrange(0, 8) != magic());
                assert(read_mask_spec(editing, contents@) == Err::<Seq<u8>, MaskError>(
                    MaskError::BadMagic,
                ));
            }
            return Err(MaskError::BadMagic);
        }
        k = k + 1;
    }
    proof {
        assert(head@ =~= magic());
    }
    if contents.len() < HEADER_BYTES + 8 {
        return Err(MaskError::ChecksumFieldTruncated);
    }
    let version = u32_from_le_bytes(&contents[8..12]);
    let revision = u64_from_le_bytes(&contents[12..20]);
    let splat_count = u64_from_le_bytes(&contents[20..28]);
    let deleted_count = u64_from_le_bytes(&contents[28..36]);
    let payload_len = u64_from_le_bytes(&contents[36..44]);
    let expected_checksum = u64_from_le_bytes(&contents[44..52]);
    if version != FORMAT_VERSION || revision != editing.revision || splat_count
        != editing.source_splat_count || deleted_count != editing.deleted_count || #[verifier::truncate] (payload_len
        as usize) != expected {
        return Err(MaskError::MetadataMismatch);
    }
    if contents.len() - 52 < expected {
        return Err(MaskError::PayloadTruncated);
    }
    if contents.len() - 52 > expected {
        return Err(MaskError::TrailingData);
    }
    let payload = &contents[52..contents.len()];
    if checksum(payload) != expected_checksum {
        return Err(MaskError::ChecksumMismatch);
    }
    let counted = count_deleted(payload, splat_count)?;
    if counted != deleted_count {
        return Err(MaskError::ChecksumMismatch);
    }
    let mut mask: Vec<u8> = Vec::new();
    let mut i: usize = 0;
    while i < payload.len()
        invariant
            i <= payload@.len(),
            mask@ == payload@.subrange(0, i as int),
        decreases payload.len() - i,
    {
        mask.push(payload[i]);
        proof {
            assert(payload@.subrange(0, i + 1) == payload@.subrange(0, i as int).push(
                payload@[i as int],
            ));
        }
        i = i + 1;
    }
    proof {
        assert(payload@.subrange(0, payload@.len() as int) == payload@);
    }
    Ok(mask)
}

/// Multiplicative inverse of the FNV prime modulo 2^64:
/// `FNV_PRIME * FNV_PRIME_INVERSE == 887285111055 * 2^64 + 1`.
pub const FNV_PRIME_INVERSE: u64 = 0xce965057aff6957b;

/// Multiplying by the inverse undoes the multiplication by the FNV prime.
proof fn lemma_fnv_prime_unmix(w: int)
    requires
        0 <= w < 0x1_0000_0000_0000_0000,
    ensures
        ((w * FNV_PRIME) % 0x1_0000_0000_0000_0000 * FNV_PRIME_INVERSE) % 0x1_0000_0000_0000_0000
            == w,
{
    let m: int = 0x1_0000_0000_0000_0000;
    let p: int = FNV_PRIME as int;
    let inv: int = FNV_PRIME_INVERSE as int;
    let k: int = 887285111055;
    assert(p * inv == k * m + 1);
    lemma_mul_mod_noop_left(w * p, inv, m);
    assert((w * p) * inv == m * (w * k) + w) by (nonlinear_arith)
        requires
            p * inv == k * m + 1,
    ;
    lemma_mod_multiples_vanish(w * k, w, m);
    lemma_small_mod(w as nat, m as nat);
}

/// One FNV-1a step is a bijection of the mixed value `hash ^ byte`.
proof fn lemma_fnv_step_injective(h1: u64, h2: u64, b1: u8, b2: u8)
    requires
        fnv_step(h1, b1) == fnv_step(h2, b2),
    ensures
        h1 ^ (b1 as u64) == h2 ^ (b2 as u64),
{
    let u: int = (h1 ^ (b1 as u64)) as int;
    let v: int = (h2 ^ (b2 as u64)) as int;
    lemma_fnv_prime_unmix(u);
    lemma_fnv_prime_unmix(v);
}

/// The FNV-1a checksum changes whenever exactly one byte of the input does.
pub proof fn lemma_fnv1a_detects_one_changed_byte(a: Seq<u8>, b: Seq<u8>, at: int)
    requires
        a.len() == b.len(),
        0 <= at < a.len(),
        a[at] != b[at],
        forall|j: int| 0 <= j < a.len() && j != at ==> a[j] == b[j],
    ensures
        fnv1a(a) != fnv1a(b),
    decreases a.len(),
{
    let n = a.len();
    if at == n - 1 {
        assert(a.drop_last() =~= b.drop_last());
        if fnv1a(a) == fnv1a(b) {
            let h = fnv1a(a.drop_last());
            lemma_fnv_step_injective(h, h, a.last(), b.last());
            let x = a.last();
            let y = b.last();
            assert(h ^ (x as u64) == h ^ (y as u64) ==> x == y) by (bit_vector);
        }
    } else {
        lemma_fnv1a_detects_one_changed_byte(a.drop_last(), b.drop_last(), at);
        if fnv1a(a) == fnv1a(b) {
            let ha = fnv1a(a.drop_last());
            let hb = fnv1a(b.drop_last());
            let c = a.last();
            assert(b.last() == c);
            lemma_fnv_step_injective(ha, hb, c, c);
            assert(ha ^ (c as u64) == hb ^ (c as u64) ==> ha == hb) by (bit_vector);
        }
    }
}

proof fn lemma_mask_file_layout(revision: u64, splat_count: u64, deleted: u64, mask: Seq<u8>)
    ensures
        ({
            let f = mask_file_spec(revision, splat_count, deleted, mask);
            &&& f.len() == 52 + mask.len()
            &&& f.subrange(0, 8) == magic()
            &&& spec_u32_from_le_bytes(f.subrange(8, 12)) == FORMAT_VERSION
            &&& read_u64_at(f, 12) == revision
            &&& read_u64_at(f, 20) == splat_count
            &&& read_u64_at(f, 28) == deleted
            &&& read_u64_at(f, 36) == mask.len() as u64
            &&& read_u64_at(f, 44) == fnv1a(mask)
            &&& f.subrange(52, f.len() as int) == mask
        }),
{
    lemma_auto_spec_u64_to_from_le_bytes();
    lemma_auto_spec_u32_to_from_le_bytes();
    let f = mask_file_spec(revision, splat_count, deleted, mask);
    let v = spec_u32_to_le_bytes(FORMAT_VERSION);
    let r = spec_u64_to_le_bytes(revision);
    let s = spec_u64_to_le_bytes(splat_count);
    let d = spec_u64_to_le_bytes(deleted);
    let l = spec_u64_to_le_bytes(mask.len() as u64);
    let c = spec_u64_to_le_bytes(fnv1a(mask));
    assert(f.subrange(0, 8) =~= magic());
    assert(f.subrange(8, 12) =~= v);
    assert(f.subrange(12, 20) =~= r);
    assert(f.subrange(20, 28) =~= s);
    assert(f.subrange(28, 36) =~= d);
    assert(f.subrange(36, 44) =~= l);
    assert(f.subrange(44, 52) =~= c);
    assert(f.subrange(52, f.len() as int) =~= mask);
}

/// A mask written by `encode_mask_file` reads back unchanged under the
/// editing state that records its revision, splat count and deleted count.
pub proof fn lemma_mask_file_round_trip(revision: u64, splat_count: u64, mask: Seq<u8>)
    requires
        revision != 0,
        count_deleted_spec(mask, splat_count) is Ok,
    ensures
        ({
            let deleted = count_deleted_spec(mask, splat_count)->Ok_0;
            let editing = GaussianEditing {
                revision,
                source_splat_count: splat_count,
                deleted_count: deleted,
            };
            let file = mask_file_spec(revision, splat_count, deleted, mask);
            &&& encode_mask_file_spec(revision, splat_count, mask) == Ok::<Seq<u8>, MaskError>(
                file,
            )
            &&& read_mask_spec(editing, file) == Ok::<Seq<u8>, MaskError>(mask)
        }),
{
    let deleted = count_deleted_spec(mask, splat_count)->Ok_0;
    lemma_mask_file_layout(revision, splat_count, deleted, mask);
    let expected = packed_mask_bytes_spec(splat_count)->Ok_0;
    assert(mask.len() == expected);
    assert((mask.len() as u64) as usize == expected);
}

/// Casting to `usize` keeps the low four bytes of a `u64`, whatever the width
/// of `usize`.
proof fn lemma_low_bytes_survive_usize(x: u64, y: u64)
    by (bit_vector)
    requires
        x as usize == y as usize,
    ensures
        x & 0xff == y & 0xff,
        (x >> 8) & 0xff == (y >> 8) & 0xff,
        (x >> 16) & 0xff == (y >> 16) & 0xff,
        (x >> 24) & 0xff == (y >> 24) & 0xff,
{
}

/// Changing any one byte of a written mask file makes it unreadable: the
/// magic, the metadata and the checksum are each compared, and the checksum
/// changes with every byte of the payload. The high half of the payload
/// length field is the exception: the length is compared as a `usize`, which
/// on a 32-bit target drops those bytes.
pub proof fn lemma_corrupted_mask_file_is_rejected(
    revision: u64,
    splat_count: u64,
    mask: Seq<u8>,
    corrupted: Seq<u8>,
    at: int,
)
    requires
        revision != 0,
        count_deleted_spec(mask, splat_count) is Ok,
        ({
            let file = mask_file_spec(
                revision,
                splat_count,
                count_deleted_spec(mask, splat_count)->Ok_0,
                mask,
            );
            &&& corrupted.len() == file.len()
            &&& 0 <= at < file.len()
            &&& !(40 <= at < 44)
            &&& corrupted[at] != file[at]
            &&& forall|j: int| 0 <= j < file.len() && j != at ==> corrupted[j] == file[j]
        }),
    ensures
        read_mask_spec(
            GaussianEditing {
                revision,
                source_splat_count: splat_count,
                deleted_count: count_deleted_spec(mask, splat_count)->Ok_0,
            },
            corrupted,
        ) is Err,
{
    let deleted = count_deleted_spec(mask, splat_count)->Ok_0;
    let editing = GaussianEditing { revision, source_splat_count: splat_count, deleted_count: deleted };
    let file = mask_file_spec(revision, splat_count, deleted, mask);
    lemma_mask_file_layout(revision, splat_count, deleted, mask);
    lemma_auto_spec_u64_to_from_le_bytes();
    lemma_auto_spec_u32_to_from_le_bytes();
    let expected = packed_mask_bytes_spec(splat_count)->Ok_0;
    assert(mask.len() == expected);
    if at < 8 {
        assert(corrupted.subrange(0, 8)[at] != magic()[at]);
    } else if at < 12 {
        let w = corrupted.subrange(8, 12);
        assert(w[at - 8] != file.subrange(8, 12)[at - 8]);
        if spec_u32_from_le_bytes(w) == FORMAT_VERSION {
            assert(spec_u32_to_le_bytes(spec_u32_from_le_bytes(w)) == w);
            assert(spec_u32_to_le_bytes(spec_u32_from_le_bytes(file.subrange(8, 12)))
                == file.subrange(8, 12));
        }
    } else if at < 36 {
        let base: int = if at < 20 {
            12
        } else if at < 28 {
            20
        } else {
            28
        };
        let w = corrupted.subrange(base, base + 8);
        let o = file.subrange(base, base + 8);
        assert(w[at - base] != o[at - base]);
        assert(spec_u64_to_le_bytes(spec_u64_from_le_bytes(w)) == w);
        assert(spec_u64_to_le_bytes(spec_u64_from_le_bytes(o)) == o);
        assert(corrupted.subrange(0, 8) =~= file.subrange(0, 8));
        assert(corrupted.subrange(8, 12) =~= file.subrange(8, 12));
        if base != 12 {
            assert(corrupted.subrange(12, 20) =~= file.subrange(12, 20));
        }
        if base != 20 {
            assert(corrupted.subrange(20, 28) =~= file.subrange(20, 28));
        }
        assert(read_u64_at(corrupted, base) != read_u64_at(file, base));
    } else if at < 40 {
        let w = corrupted.subrange(36, 44);
        let o = file.subrange(36, 44);
        let x = spec_u64_from_le_bytes(w);
        let y = spec_u64_from_le_bytes(o);
        assert(w[at - 36] != o[at - 36]);
        assert(spec_u64_to_le_bytes(x) == w);
        assert(spec_u64_to_le_bytes(y) == o);
        spec_u64_to_le_bytes_to_open(x);
        spec_u64_to_le_bytes_to_open(y);
        assert(corrupted.subrange(0, 8) =~= file.subrange(0, 8));
        assert(corrupted.subrange(8, 12) =~= file.subrange(8, 12));
        assert(corrupted.subrange(12, 20) =~= file.subrange(12, 20));
        assert(corrupted.subrange(20, 28) =~= file.subrange(20, 28));
        assert(corrupted.subrange(28, 36) =~= file.subrange(28, 36));
        assert((mask.len() as u64) as usize == expected);
        if x as usize == y as usize {
            lemma_low_bytes_survive_usize(x, y);
        }
        assert(read_u64_at(corrupted, 36) as usize != expected);
    } else {
        assert(corrupted.subrange(0, 8) =~= file.subrange(0, 8));
        assert(corrupted.subrange(8, 12) =~= file.subrange(8, 12));
        assert(corrupted.subrange(12, 20) =~= file.subrange(12, 20));
        assert(corrupted.subrange(20, 28) =~= file.subrange(20, 28));
        assert(corrupted.subrange(28, 36) =~= file.subrange(28, 36));
        assert(corrupted.subrange(36, 44) =~= file.subrange(36, 44));
        assert((mask.len() as u64) as usize == expected);
        if at < 52 {
            let w = corrupted.subrange(44, 52);
            let o = file.subrange(44, 52);
            assert(w[at - 44] != o[at - 44]);
            assert(spec_u64_to_le_bytes(spec_u64_from_le_bytes(w)) == w);
            assert(spec_u64_to_le_bytes(spec_u64_from_le_bytes(o)) == o);
            assert(corrupted.subrange(52, corrupted.len() as int) =~= mask);
        } else {
            let payload = corrupted.subrange(52, corrupted.len() as int);
            assert(corrupted.subrange(44, 52) =~= file.subrange(44, 52));
            assert forall|j: int| 0 <= j < mask.len() && j != at - 52 implies payload[j]
                == mask[j] by {
                assert(file.subrange(52, file.len() as int)[j] == file[j + 52]);
            }
            assert(file.subrange(52, file.len() as int)[at - 52] == file[at]);
            lemma_fnv1a_detects_one_changed_byte(payload, mask, at - 52);
        }
    }
}

/// Joins a relative path onto a directory, as `Path::join` does with `/`.
pub open spec fn join_path(dir: Seq<char>, name: Seq<char>) -> Seq<char> {
    if dir.len() == 0 || dir.last() == '/' {
        dir + name
    } else {
        dir + seq!['/'] + name
    }
}

/// `<project_root>/edits/deleted-<revision>.mask`.
pub open spec fn mask_path_spec(project_root: Seq<char>, revision: u64) -> Seq<char> {
    join_path(project_root, "edits/deleted-"@ + decimal(revision as nat) + ".mask"@)
}

/// Where the mask of `revision` is stored in a project.
pub fn mask_path(project_root: &str, revision: u64) -> (p: String)
    ensures
        p@ == mask_path_spec(project_root@, revision),
{
    let mut p = String::from_str(project_root);
    let n = project_root.unicode_len();
    if n > 0 && project_root.get_char(n - 1) != '/' {
        p.append("/");
        proof {
            reveal_strlit("/");
        }
    }
    p.append("edits/deleted-");
    push_decimal(&mut p, revision);
    p.append(".mask");
    proof {
        let name = "edits/deleted-"@ + decimal(revision as nat) + ".mask"@;
        if n > 0 && project_root@.last() != '/' {
            assert(p@ =~= project_root@ + seq!['/'] + name);
        } else {
            assert(p@ =~= project_root@ + name);
        }
    }
    p
}

} // verus!
