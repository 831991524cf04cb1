//! Reshoot plans: the regions a user circled for a higher-detail reshoot, and
//! the annotated guidance images that travel with them.
use vstd::prelude::*;

use crate::text::{chars_to_string, find, first_occurrence, str_chars, trim, trim_bounds};

verus! {

/// Why a reshoot plan or one of its guidance images was refused.
#[derive(Debug, Clone, Copy, PartialEq, Eq, Structural)]
pub enum ReshootError {
    /// The plan names no region.
    NoRegions,
    /// Two selections describe the same spot.
    DuplicateRegion,
    /// Regions, guidance texts and guidance images are not one per region.
    CountMismatch,
    /// A guidance image is not a PNG data URL.
    InvalidImageFormat,
    /// A guidance image payload is not base64.
    UndecodableImage,
    /// A guidance image payload does not start with the PNG signature.
    NotPng,
    /// The source project has not completed or has no final PLY.
    SourceNotCompleted,
    /// The source project kept no input frames to merge with.
    SourceFramesMissing,
    /// The source project has transparency masks.
    SourceHasMasks,
    /// The reshoot footage has transparency.
    TransparentReshoot,
    /// A resumed reshoot finds its source project's frames gone.
    SourceFramesLost,
    /// A resumed reshoot's footage, prepared again, has transparency.
    TransparentRecovery,
}

/// The message shown for a refused plan or image.
pub open spec fn reshoot_error_message(e: ReshootError) -> Seq<char> {
    match e {
        ReshootError::NoRegions => "请至少圈选一个需要补拍的区域"@,
        ReshootError::DuplicateRegion => "补拍清单中存在重复区域，请移除重复项或重新圈选不同区域"@,
        ReshootError::CountMismatch => "补拍区域与补拍指引数量不一致，请重新圈选区域"@,
        ReshootError::InvalidImageFormat => "补拍指引图格式无效，请重新生成"@,
        ReshootError::UndecodableImage => "补拍指引图无法解码，请重新生成"@,
        ReshootError::NotPng => "补拍指引图不是有效的 PNG"@,
        ReshootError::SourceNotCompleted => "只能为已完成且包含 final.ply 的项目创建高清补拍"@,
        ReshootError::SourceFramesMissing => "原项目缺少可复用的输入画面，无法融合补拍素材"@,
        ReshootError::SourceHasMasks => "原项目含透明 Mask，当前高清补拍不支持混合透明素材"@,
        ReshootError::TransparentReshoot => "高清补拍暂不支持透明素材；请导出不含 Alpha 的 JPG/PNG 或 MP4/MOV"@,
        ReshootError::SourceFramesLost => "原项目输入画面已缺失，无法继续高清补拍"@,
        ReshootError::TransparentRecovery => "高清补拍恢复不支持透明素材"@,
    }
}

impl ReshootError {
    /// The message shown to the user.
    pub fn message(&self) -> (s: &'static str)
        ensures
            s@ == reshoot_error_message(*self),
    {
        match self {
            ReshootError::NoRegions => "请至少圈选一个需要补拍的区域",
            ReshootError::DuplicateRegion => "补拍清单中存在重复区域，请移除重复项或重新圈选不同区域",
            ReshootError::CountMismatch => "补拍区域与补拍指引数量不一致，请重新圈选区域",
            ReshootError::InvalidImageFormat => "补拍指引图格式无效，请重新生成",
            ReshootError::UndecodableImage => "补拍指引图无法解码，请重新生成",
            ReshootError::NotPng => "补拍指引图不是有效的 PNG",
            ReshootError::SourceNotCompleted => "只能为已完成且包含 final.ply 的项目创建高清补拍",
            ReshootError::SourceFramesMissing => "原项目缺少可复用的输入画面，无法融合补拍素材",
            ReshootError::SourceHasMasks => "原项目含透明 Mask，当前高清补拍不支持混合透明素材",
            ReshootError::TransparentReshoot => "高清补拍暂不支持透明素材；请导出不含 Alpha 的 JPG/PNG 或 MP4/MOV",
            ReshootError::SourceFramesLost => "原项目输入画面已缺失，无法继续高清补拍",
            ReshootError::TransparentRecovery => "高清补拍恢复不支持透明素材",
        }
    }
}

/// A circled region with every coordinate in thousandths, rounded: two
/// selections closer than that describe the same spot.
#[derive(Debug, Clone, Copy, PartialEq, Eq, Structural)]
pub enum RegionKey {
    Sphere { center_x: i64, center_y: i64, center_z: i64, radius: i64 },
    Box { center_x: i64, center_y: i64, center_z: i64, size_x: i64, size_y: i64, size_z: i64 },
}

pub open spec fn all_distinct(regions: Seq<RegionKey>) -> bool {
    forall|i: int, j: int| 0 <= i < j < regions.len() ==> regions[i] != regions[j]
}

/// The reshoot list must describe distinct areas: a repeated selection would
/// ask the shooter for the same footage twice and skew the merged frame set.
pub fn ensure_distinct_reshoot_regions(regions: &[RegionKey]) -> (r: Result<(), ReshootError>)
    ensures
        r is Ok <==> all_distinct(regions@),
        r is Err ==> r == Err::<(), ReshootError>(ReshootError::DuplicateRegion),
{
    let mut j: usize = 0;
    while j < regions.len()
        invariant
            j <= regions@.len(),
            forall|a: int, b: int| 0 <= a < b < j ==> regions@[a] != regions@[b],
        decreases regions.len() - j,
    {
        let mut i: usize = 0;
        while i < j
            invariant
                i <= j < regions@.len(),
                forall|a: int, b: int| 0 <= a < b < j ==> regions@[a] != regions@[b],
                forall|a: int| 0 <= a < i ==> regions@[a] != regions@[j as int],
            decreases j - i,
        {
            if regions[i] == regions[j] {
                return Err(ReshootError::DuplicateRegion);
            }
            i = i + 1;
        }
        j = j + 1;
    }
    Ok(())
}

/// A reshoot builds on a completed project that still has its final PLY and
/// its input frames, and no transparency masks: merged footage cannot mix
/// masked and unmasked frames. The checks run in that order.
pub fn check_reshoot_source(
    completed: bool,
    has_final_ply: bool,
    has_source_frames: bool,
    has_source_masks: bool,
) -> (r: Result<(), ReshootError>)
    ensures
        r == if !completed || !has_final_ply {
            Err(ReshootError::SourceNotCompleted)
        } else if !has_source_frames {
            Err(ReshootError::SourceFramesMissing)
        } else if has_source_masks {
            Err(ReshootError::SourceHasMasks)
        } else {
            Ok(())
        },
{
    if !completed || !has_final_ply {
        Err(ReshootError::SourceNotCompleted)
    } else if !has_source_frames {
        Err(ReshootError::SourceFramesMissing)
    } else if has_source_masks {
        Err(ReshootError::SourceHasMasks)
    } else {
        Ok(())
    }
}

/// Everything the user selected in the preview for one reshoot run.
pub struct ReshootPlan {
    pub regions: Vec<RegionKey>,
    pub guidance: Vec<String>,
    /// PNG data URLs: the circled region plus arrows for the shooting positions.
    pub guidance_images: Vec<String>,
}

pub open spec fn validate_spec(regions: Seq<RegionKey>, guidance: nat, images: nat) -> Result<
    (),
    ReshootError,
> {
    if regions.len() == 0 {
        Err(ReshootError::NoRegions)
    } else if !all_distinct(regions) {
        Err(ReshootError::DuplicateRegion)
    } else if guidance != regions.len() || images != regions.len() {
        Err(ReshootError::CountMismatch)
    } else {
        Ok(())
    }
}

impl ReshootPlan {
    /// Accepts a plan of at least one region, no two alike, each with one
    /// guidance text and one guidance image.
    pub fn validate(&self) -> (r: Result<(), ReshootError>)
        ensures
            r == validate_spec(self.regions@, self.guidance@.len(), self.guidance_images@.len()),
    {
        if self.regions.len() == 0 {
            return Err(ReshootError::NoRegions);
        }
        ensure_distinct_reshoot_regions(self.regions.as_slice())?;
        if self.guidance.len() != self.regions.len() || self.guidance_images.len()
            != self.regions.len() {
            return Err(ReshootError::CountMismatch);
        }
        Ok(())
    }
}

/// Value of a base64 digit of the standard alphabet.
pub open spec fn b64_digit(c: char) -> Option<u8> {
    if 'A' <= c && c <= 'Z' {
        Some(((c as u32) - ('A' as u32)) as u8)
    } else if 'a' <= c && c <= 'z' {
        Some(((c as u32) - ('a' as u32) + 26) as u8)
    } else if '0' <= c && c <= '9' {
        Some(((c as u32) - ('0' as u32) + 52) as u8)
    } else if c == '+' {
        Some(62u8)
    } else if c == '/' {
        Some(63u8)
    } else {
        None
    }
}

/// Padding and line breaks carry no data.
pub open spec fn b64_ignored(c: char) -> bool {
    c == '=' || c == '\n' || c == '\r'
}

/// The 6-bit digits of a base64 text, or `None` when it holds a character
/// that is neither a digit nor ignored.
pub open spec fn sextets(s: Seq<char>) -> Option<Seq<u8>>
    decreases s.len(),
{
    if s.len() == 0 {
        Some(Seq::<u8>::empty())
    } else {
        match sextets(s.drop_last()) {
            None => None,
            Some(prefix) => if b64_ignored(s.last()) {
                Some(prefix)
            } else {
                match b64_digit(s.last()) {
                    Some(d) => Some(prefix.push(d)),
                    None => None,
                }
            },
        }
    }
}

/// The low `width` bits of `v`, most significant first.
pub open spec fn bits_of(v: nat, width: nat) -> Seq<bool>
    decreases width,
{
    if width == 0 {
        Seq::<bool>::empty()
    } else {
        bits_of(v / 2, (width - 1) as nat).push(v % 2 == 1)
    }
}

/// The bit string that a sequence of base64 digits encodes.
pub open spec fn bitstream(digits: Seq<u8>) -> Seq<bool>
    decreases digits.len(),
{
    if digits.len() == 0 {
        Seq::<bool>::empty()
    } else {
        bitstream(digits.drop_last()) + bits_of(digits.last() as nat, 6)
    }
}

/// Unsigned value of a bit string, most significant bit first.
pub open spec fn bits_value(b: Seq<bool>) -> nat
    decreases b.len(),
{
    if b.len() == 0 {
        0
    } else {
        bits_value(b.drop_last()) * 2 + (if b.last() {
            1nat
        } else {
            0nat
        })
    }
}

/// Standard-alphabet base64 decoding: the encoded bit string cut into whole
/// bytes, with any incomplete trailing byte dropped.
pub open spec fn decode_base64_spec(s: Seq<char>) -> Option<Seq<u8>> {
    match sextets(s) {
        None => None,
        Some(digits) => {
            let bits = bitstream(digits);
            Some(
                Seq::new(
                    bits.len() / 8,
                    |j: int| bits_value(bits.subrange(8 * j, 8 * j + 8)) as u8,
                ),
            )
        },
    }
}

pub open spec fn pow2(k: nat) -> nat
    decreases k,
{
    if k == 0 {
        1
    } else {
        2 * pow2((k - 1) as nat)
    }
}

proof fn lemma_pow2_positive(k: nat)
    ensures
        pow2(k) >= 1,
    decreases k,
{
    if k > 0 {
        lemma_pow2_positive((k - 1) as nat);
    }
}

proof fn lemma_bits_value_bound(b: Seq<bool>)
    ensures
        bits_value(b) < pow2(b.len()),
    decreases b.len(),
{
    if b.len() > 0 {
        lemma_bits_value_bound(b.drop_last());
    }
}

proof fn lemma_bits_value_concat(a: Seq<bool>, b: Seq<bool>)
    ensures
        bits_value(a + b) == bits_value(a) * pow2(b.len()) + bits_value(b),
    decreases b.len(),
{
    if b.len() == 0 {
        assert(a + b =~= a);
        assert(pow2(0) == 1);
        assert(bits_value(b) == 0);
    } else {
        let b0 = b.drop_last();
        lemma_bits_value_concat(a, b0);
        assert((a + b).drop_last() =~= a + b0);
        assert((a + b).last() == b.last());
        let bit: nat = if b.last() {
            1
        } else {
            0
        };
        let va = bits_value(a);
        let p0 = pow2(b0.len());
        let vb0 = bits_value(b0);
        assert(bits_value(a + b) == bits_value(a + b0) * 2 + bit);
        assert(bits_value(b) == vb0 * 2 + bit);
        assert(pow2(b.len()) == 2 * p0);
        assert((va * p0 + vb0) * 2 + bit == va * (2 * p0) + (vb0 * 2 + bit)) by (nonlinear_arith);
        assert(bits_value(a + b) == va * pow2(b.len()) + bits_value(b));
    }
}

proof fn lemma_bits_of(v: nat, width: nat)
    requires
        v < pow2(width),
    ensures
        bits_of(v, width).len() == width,
        bits_value(bits_of(v, width)) == v,
    decreases width,
{
    if width > 0 {
        assert(pow2(width) == 2 * pow2((width - 1) as nat));
        assert(v / 2 < pow2((width - 1) as nat));
        lemma_bits_of(v / 2, (width - 1) as nat);
        let prev = bits_of(v / 2, (width - 1) as nat);
        let full = bits_of(v, width);
        assert(full == prev.push(v % 2 == 1));
        assert(full.drop_last() =~= prev);
        assert(bits_value(full) == bits_value(prev) * 2 + (if v % 2 == 1 {
            1nat
        } else {
            0nat
        }));
    } else {
        assert(v == 0);
    }
}

proof fn lemma_bitstream_len(digits: Seq<u8>)
    ensures
        bitstream(digits).len() == 6 * digits.len(),
    decreases digits.len(),
{
    if digits.len() > 0 {
        lemma_bitstream_len(digits.drop_last());
        lemma_bits_of_len(digits.last() as nat, 6);
    }
}

proof fn lemma_bits_of_len(v: nat, width: nat)
    ensures
        bits_of(v, width).len() == width,
    decreases width,
{
    if width > 0 {
        lemma_bits_of_len(v / 2, (width - 1) as nat);
    }
}

fn small_pow2(k: u32) -> (p: u32)
    requires
        k <= 8,
    ensures
        p == pow2(k as nat),
{
    reveal_with_fuel(pow2, 9);
    match k {
        0 => 1,
        1 => 2,
        2 => 4,
        3 => 8,
        4 => 16,
        5 => 32,
        6 => 64,
        7 => 128,
        _ => 256,
    }
}

fn b64_digit_of(c: char) -> (d: Option<u8>)
    ensures
        d == b64_digit(c),
{
    if 'A' <= c && c <= 'Z' {
        Some((c as u32 - 'A' as u32) as u8)
    } else if 'a' <= c && c <= 'z' {
        Some((c as u32 - 'a' as u32 + 26) as u8)
    } else if '0' <= c && c <= '9' {
        Some((c as u32 - '0' as u32 + 52) as u8)
    } else if c == '+' {
        Some(62u8)
    } else if c == '/' {
        Some(63u8)
    } else {
        None
    }
}

/// Minimal standard-alphabet base64 decoder: padding and line breaks are
/// skipped, any other character outside the alphabet is refused.
pub fn decode_base64(input: &str) -> (r: Option<Vec<u8>>)
    ensures
        match r {
            Some(bytes) => decode_base64_spec(input@) == Some(bytes@),
            None => decode_base64_spec(input@) is None,
        },
{
    let chars = str_chars(input);
    let mut buffer: u32 = 0;
    let mut bits: u32 = 0;
    let mut output: Vec<u8> = Vec::new();
    let mut i: usize = 0;
    let ghost mut digits: Seq<u8> = Seq::empty();
    while i < chars.len()
        invariant
            i <= chars@.len(),
            chars@ == input@,
            sextets(chars@.subrange(0, i as int)) == Some(digits),
            bitstream(digits).len() == 8 * output@.len() + bits,
            bits < 8,
            buffer == bits_value(
                bitstream(digits).subrange(8 * output@.len() as int, bitstream(digits).len() as int),
            ),
            forall|j: int|
                0 <= j < output@.len() ==> #[trigger] output@[j] == bits_value(
                    bitstream(digits).subrange(8 * j, 8 * j + 8),
                ) as u8,
        decreases chars.len() - i,
    {
        let c = chars[i];
        let ghost prefix = chars@.subrange(0, i + 1);
        proof {
            assert(prefix.drop_last() == chars@.subrange(0, i as int));
            assert(prefix.last() == c);
        }
        if c == '=' || c == '\n' || c == '\r' {
            proof {
                assert(b64_ignored(c));
            }
            i = i + 1;
            continue;
        }
        let value = match b64_digit_of(c) {
            Some(v) => v,
            None => {
                proof {
                    assert(sextets(prefix) is None);
                    lemma_sextets_none_extends(chars@, i + 1);
                    assert(chars@.subrange(0, chars@.len() as int) == chars@);
                }
                return None;
            },
        };
        let ghost old_bits = bitstream(digits);
        let ghost out_len: int = output@.len() as int;
        let ghost rem = old_bits.subrange(8 * out_len, old_bits.len() as int);
        proof {
            lemma_bits_value_bound(rem);
            assert(rem.len() == bits);
            reveal_with_fuel(pow2, 7);
            lemma_bits_of(value as nat, 6);
            lemma_bits_value_concat(rem, bits_of(value as nat, 6));
            reveal_with_fuel(pow2, 7);
            assert(buffer < 256) by {
                lemma_pow2_monotone(bits as nat, 8);
                reveal_with_fuel(pow2, 9);
            }
        }
        let ghost new_digits = digits.push(value);
        let ghost new_bits_seq = bitstream(new_digits);
        proof {
            assert(new_digits.drop_last() == digits);
            assert(new_bits_seq == old_bits + bits_of(value as nat, 6));
            assert(new_bits_seq.subrange(8 * out_len, new_bits_seq.len() as int) =~= rem + bits_of(
                value as nat,
                6,
            ));
            assert(pow2(6) == 64);
        }
        buffer = buffer * 64 + value as u32;
        bits = bits + 6;
        proof {
            digits = new_digits;
        }
        if bits >= 8 {
            let shift = bits - 8;
            let p = small_pow2(shift);
            let ghost tail = new_bits_seq.subrange(8 * out_len, new_bits_seq.len() as int);
            let ghost head8 = tail.subrange(0, 8);
            let ghost rest = tail.subrange(8, tail.len() as int);
            proof {
                assert(tail =~= head8 + rest);
                lemma_bits_value_concat(head8, rest);
                lemma_bits_value_bound(rest);
                lemma_bits_value_bound(head8);
                assert(rest.len() == shift);
                lemma_pow2_positive(shift as nat);
                lemma_div_mod_split(bits_value(head8), bits_value(rest), p as nat);
                reveal_with_fuel(pow2, 9);
                assert(head8 =~= new_bits_seq.subrange(8 * out_len, 8 * out_len + 8));
                assert(rest =~= new_bits_seq.subrange(8 * (out_len + 1), new_bits_seq.len() as int));
            }
            let byte = (buffer / p) as u8;
            buffer = buffer % p;
            bits = shift;
            output.push(byte);
            proof {
                assert forall|j: int| 0 <= j < output@.len() implies #[trigger] output@[j]
                    == bits_value(new_bits_seq.subrange(8 * j, 8 * j + 8)) as u8 by {
                    if j < out_len {
                        assert(new_bits_seq.subrange(8 * j, 8 * j + 8) =~= old_bits.subrange(
                            8 * j,
                            8 * j + 8,
                        ));
                    }
                }
            }
        } else {
            proof {
                assert forall|j: int| 0 <= j < output@.len() implies #[trigger] output@[j]
                    == bits_value(new_bits_seq.subrange(8 * j, 8 * j + 8)) as u8 by {
                    assert(new_bits_seq.subrange(8 * j, 8 * j + 8) =~= old_bits.subrange(
                        8 * j,
                        8 * j + 8,
                    ));
                }
            }
        }
        i = i + 1;
    }
    proof {
        assert(chars@.subrange(0, chars@.len() as int) == chars@);
        let bs = bitstream(digits);
        assert(bs.len() / 8 == output@.len());
        assert(output@ =~= Seq::new(
            bs.len() / 8,
            |j: int| bits_value(bs.subrange(8 * j, 8 * j + 8)) as u8,
        ));
    }
    Some(output)
}

proof fn lemma_pow2_monotone(a: nat, b: nat)
    requires
        a <= b,
    ensures
        pow2(a) <= pow2(b),
    decreases b,
{
    if a < b {
        lemma_pow2_monotone(a, (b - 1) as nat);
    }
}

proof fn lemma_div_mod_split(hi: nat, lo: nat, p: nat)
    requires
        lo < p,
    ensures
        (hi * p + lo) / p == hi,
        (hi * p + lo) % p == lo,
{
    vstd::arithmetic::div_mod::lemma_fundamental_div_mod_converse(
        (hi * p + lo) as int,
        p as int,
        hi as int,
        lo as int,
    );
}

/// Once a prefix holds a refused character, every longer prefix does too.
proof fn lemma_sextets_none_extends(s: Seq<char>, i: int)
    requires
        0 <= i <= s.len(),
        sextets(s.subrange(0, i)) is None,
    ensures
        sextets(s.subrange(0, s.len() as int)) is None,
    decreases s.len() - i,
{
    if i < s.len() {
        assert(s.subrange(0, i + 1).drop_last() == s.subrange(0, i));
        lemma_sextets_none_extends(s, i + 1);
    }
}

/// The PNG file signature.
pub open spec fn png_signature() -> Seq<u8> {
    seq![0x89u8, 0x50, 0x4e, 0x47, 0x0d, 0x0a, 0x1a, 0x0a]
}

pub open spec fn starts_with<T>(s: Seq<T>, prefix: Seq<T>) -> bool {
    prefix.len() <= s.len() && s.subrange(0, prefix.len() as int) == prefix
}

/// Position of the first comma, as `str::split_once(',')` finds it.
pub open spec fn first_comma(s: Seq<char>, p: int) -> bool {
    0 <= p < s.len() && s[p] == ',' && forall|j: int| 0 <= j < p ==> s[j] != ','
}

/// What a guidance image contributes to a reshoot project: nothing when it is
/// blank, else the PNG bytes of its `data:image/png` URL.
pub open spec fn decode_guidance_image_spec(image: Seq<char>) -> Result<Option<Seq<u8>>, ReshootError> {
    if trim(image).len() == 0 {
        Ok(None)
    } else if !exists|p: int| first_comma(image, p) {
        Err(ReshootError::InvalidImageFormat)
    } else {
        let p = choose|p: int| first_comma(image, p);
        if !starts_with(image.subrange(0, p), "data:image/png"@) {
            Err(ReshootError::InvalidImageFormat)
        } else {
            match decode_base64_spec(image.subrange(p + 1, image.len() as int)) {
                None => Err(ReshootError::UndecodableImage),
                Some(bytes) => if starts_with(bytes, png_signature()) {
                    Ok(Some(bytes))
                } else {
                    Err(ReshootError::NotPng)
                },
            }
        }
    }
}

proof fn lemma_first_comma_unique(s: Seq<char>, p: int, q: int)
    requires
        first_comma(s, p),
        first_comma(s, q),
    ensures
        p == q,
{
}

fn chars_start_with(v: &[char], end: usize, prefix: &[char]) -> (b: bool)
    requires
        end <= v@.len(),
    ensures
        b == starts_with(v@.subrange(0, end as int), prefix@),
{
    if prefix.len() > end {
        return false;
    }
    let mut k: usize = 0;
    while k < prefix.len()
        invariant
            prefix@.len() <= end <= v@.len(),
            k <= prefix@.len(),
            forall|j: int| 0 <= j < k ==> v@[j] == prefix@[j],
        decreases prefix.len() - k,
    {
        if v[k] != prefix[k] {
            proof {
                assert(v@.subrange(0, end as int).subrange(0, prefix@.len() as int)[k as int]
                    == v@[k as int]);
            }
            return false;
        }
        k = k + 1;
    }
    proof {
        assert(v@.subrange(0, end as int).subrange(0, prefix@.len() as int) =~= prefix@);
    }
    true
}

fn is_png(bytes: &[u8]) -> (b: bool)
    ensures
        b == starts_with(bytes@, png_signature()),
{
    let signature: [u8; 8] = [0x89, 0x50, 0x4e, 0x47, 0x0d, 0x0a, 0x1a, 0x0a];
    if bytes.len() < 8 {
        return false;
    }
    let mut i: usize = 0;
    while i < 8
        invariant
            i <= 8,
            bytes@.len() >= 8,
            signature@ == png_signature(),
            forall|j: int| 0 <= j < i ==> bytes@[j] == png_signature()[j],
        decreases 8 - i,
    {
        if bytes[i] != signature[i] {
            proof {
                assert(bytes@.subrange(0, 8)[i as int] != png_signature()[i as int]);
            }
            return false;
        }
        i = i + 1;
    }
    proof {
        assert(bytes@.subrange(0, 8) =~= png_signature());
    }
    true
}

/// Decodes one guidance image of a reshoot plan before it is written into the
/// derived project.
pub fn decode_guidance_image(image: &str) -> (r: Result<Option<Vec<u8>>, ReshootError>)
    ensures
        match r {
            Ok(Some(bytes)) => decode_guidance_image_spec(image@) == Ok::<
                Option<Seq<u8>>,
                ReshootError,
            >(Some(bytes@)),
            Ok(None) => decode_guidance_image_spec(image@) == Ok::<Option<Seq<u8>>, ReshootError>(
                None,
            ),
            Err(e) => decode_guidance_image_spec(image@) == Err::<Option<Seq<u8>>, ReshootError>(
                e,
            ),
        },
{
    let chars = str_chars(image);
    let n = chars.len();
    let (a, b) = trim_bounds(chars.as_slice(), 0, n);
    proof {
        assert(chars@.subrange(0, n as int) == image@);
    }
    if a == b {
        return Ok(None);
    }
    let comma = vec![','];
    let found = find(chars.as_slice(), 0, n, comma.as_slice());
    let p = match found {
        None => {
            proof {
                if exists|p: int| first_comma(image@, p) {
                    let q = choose|p: int| first_comma(image@, p);
                    assert(image@.subrange(q, q + 1) =~= seq![',']);
                    assert(comma@ =~= seq![',']);
                    assert(crate::text::occurs_at(image@, comma@, q));
                }
            }
            return Err(ReshootError::InvalidImageFormat);
        },
        Some(p) => p,
    };
    proof {
        assert(comma@ =~= seq![',']);
        assert(image@.subrange(p as int, p + 1) == seq![',']);
        assert(image@[p as int] == image@.subrange(p as int, p + 1)[0]);
        assert forall|j: int| 0 <= j < p implies image@[j] != ',' by {
            if image@[j] == ',' {
                assert(image@.subrange(j, j + 1) =~= seq![',']);
                assert(crate::text::occurs_at(image@, comma@, j));
            }
        }
        assert(first_comma(image@, p as int));
        let q = choose|q: int| first_comma(image@, q);
        lemma_first_comma_unique(image@, p as int, q);
    }
    let prefix = str_chars("data:image/png");
    if !chars_start_with(chars.as_slice(), p, prefix.as_slice()) {
        return Err(ReshootError::InvalidImageFormat);
    }
    let payload = chars_to_string(chars.as_slice(), p + 1, n);
    let bytes = match decode_base64(payload.as_str()) {
        None => {
            return Err(ReshootError::UndecodableImage);
        },
        Some(bytes) => bytes,
    };
    if !is_png(bytes.as_slice()) {
        return Err(ReshootError::NotPng);
    }
    Ok(Some(bytes))
}


/// An accepted plan names at least one region, no two alike, and has exactly
/// one guidance text and one guidance image for each region; every plan with
/// that shape is accepted.
pub proof fn lemma_accepted_plans_pair_every_region(regions: Seq<RegionKey>, guidance: nat, images: nat)
    ensures
        validate_spec(regions, guidance, images) is Ok <==> (regions.len() > 0 && all_distinct(
            regions,
        ) && guidance == regions.len() && images == regions.len()),
        images != regions.len() && regions.len() > 0 && all_distinct(regions) ==> validate_spec(
            regions,
            guidance,
            images,
        ) == Err::<(), ReshootError>(ReshootError::CountMismatch),
{
}

} // verus!
