//! Which local history calibrates a runtime estimate, how sure the estimate
//! is, and how its basis is described.
use vstd::prelude::*;

use crate::presets::{MapperBackend, Quality};
use crate::text::{decimal, push_decimal};

verus! {

/// A completed local run.
#[derive(Debug, Clone, Copy, PartialEq, Eq, Structural)]
pub struct RuntimeSample {
    pub quality: Quality,
    /// Mapper backend the run actually used: each backend has its own cost
    /// model, so a sample only calibrates machine speed against that model.
    pub backend: MapperBackend,
    /// Images the run actually fed to COLMAP.
    pub mapped_frames: u64,
    pub duration_ms: u64,
}

#[derive(Debug, Clone, Copy, PartialEq, Eq, Structural)]
pub enum EstimateConfidence {
    Low,
    Medium,
    High,
}

#[derive(Debug, Clone, PartialEq, Eq)]
pub struct RuntimeEstimate {
    pub estimated_ms: u64,
    pub lower_bound_ms: u64,
    pub upper_bound_ms: u64,
    pub confidence: EstimateConfidence,
    pub sample_count: usize,
    pub basis: String,
}

/// Which samples calibrated an estimate.
#[derive(Debug, Clone, Copy, PartialEq, Eq, Structural)]
pub enum CalibrationScope {
    /// Same quality tier and a frame count within 25%.
    NearbySameQuality,
    /// Same quality tier.
    SameQuality,
    /// Any tier.
    AnyQuality,
}

/// A run that lasted at least ten seconds and mapped at least one image.
pub open spec fn is_valid_sample(s: RuntimeSample) -> bool {
    s.duration_ms >= 10_000 && s.mapped_frames > 0
}

pub open spec fn at_least_one(n: u64) -> int {
    if n < 1 {
        1
    } else {
        n as int
    }
}

/// Whether two frame counts differ by at most 25%: the larger is at most 1.25
/// times the smaller, both counted as at least one.
pub open spec fn is_nearby(a: u64, b: u64) -> bool {
    let small = if at_least_one(a) <= at_least_one(b) {
        at_least_one(a)
    } else {
        at_least_one(b)
    };
    let large = if at_least_one(a) <= at_least_one(b) {
        at_least_one(b)
    } else {
        at_least_one(a)
    };
    4 * large <= 5 * small
}

pub open spec fn valid_samples(s: Seq<RuntimeSample>) -> Seq<RuntimeSample>
    decreases s.len(),
{
    if s.len() == 0 {
        s
    } else if is_valid_sample(s.last()) {
        valid_samples(s.drop_last()).push(s.last())
    } else {
        valid_samples(s.drop_last())
    }
}

pub open spec fn of_quality(s: Seq<RuntimeSample>, quality: Quality) -> Seq<RuntimeSample>
    decreases s.len(),
{
    if s.len() == 0 {
        s
    } else if s.last().quality == quality {
        of_quality(s.drop_last(), quality).push(s.last())
    } else {
        of_quality(s.drop_last(), quality)
    }
}

pub open spec fn near_frames(s: Seq<RuntimeSample>, mapped: u64) -> Seq<RuntimeSample>
    decreases s.len(),
{
    if s.len() == 0 {
        s
    } else if is_nearby(s.last().mapped_frames, mapped) {
        near_frames(s.drop_last(), mapped).push(s.last())
    } else {
        near_frames(s.drop_last(), mapped)
    }
}

/// The samples that calibrate an estimate for `quality` at `mapped` frames:
/// valid runs of the same tier and a nearby frame count if there are any,
/// else valid runs of the same tier, else all valid runs.
pub open spec fn calibration_spec(samples: Seq<RuntimeSample>, quality: Quality, mapped: u64) -> (
    Seq<RuntimeSample>,
    CalibrationScope,
) {
    let valid = valid_samples(samples);
    let same = of_quality(valid, quality);
    let nearby = near_frames(same, mapped);
    if nearby.len() > 0 {
        (nearby, CalibrationScope::NearbySameQuality)
    } else if same.len() > 0 {
        (same, CalibrationScope::SameQuality)
    } else {
        (valid, CalibrationScope::AnyQuality)
    }
}

fn nearby(a: u64, b: u64) -> (r: bool)
    ensures
        r == is_nearby(a, b),
{
    let x: u128 = if a < 1 {
        1
    } else {
        a as u128
    };
    let y: u128 = if b < 1 {
        1
    } else {
        b as u128
    };
    let (small, large) = if x <= y {
        (x, y)
    } else {
        (y, x)
    };
    4 * large <= 5 * small
}

/// Picks the local runs that calibrate an estimate for `quality` when
/// `mapped_frames` images reach COLMAP.
pub fn select_calibration_samples(
    samples: &[RuntimeSample],
    quality: Quality,
    mapped_frames: u64,
) -> (r: (Vec<RuntimeSample>, CalibrationScope))
    ensures
        (r.0@, r.1) == calibration_spec(samples@, quality, mapped_frames),
{
    let mut valid: Vec<RuntimeSample> = Vec::new();
    let mut same: Vec<RuntimeSample> = Vec::new();
    let mut near: Vec<RuntimeSample> = Vec::new();
    let mut i: usize = 0;
    while i < samples.len()
        invariant
            i <= samples@.len(),
            valid@ == valid_samples(samples@.subrange(0, i as int)),
            same@ == of_quality(valid@, quality),
            near@ == near_frames(same@, mapped_frames),
        decreases samples.len() - i,
    {
        let s = samples[i];
        proof {
            assert(samples@.subrange(0, i + 1).drop_last() == samples@.subrange(0, i as int));
            assert(samples@.subrange(0, i + 1).last() == s);
        }
        if s.duration_ms >= 10_000 && s.mapped_frames > 0 {
            let ghost v0 = valid@;
            let ghost s0 = same@;
            valid.push(s);
            proof {
                assert(valid@.drop_last() == v0);
            }
            if s.quality == quality {
                same.push(s);
                proof {
                    assert(same@.drop_last() == s0);
                }
                if nearby(s.mapped_frames, mapped_frames) {
                    let ghost n0 = near@;
                    near.push(s);
                    proof {
                        assert(near@.drop_last() == n0);
                    }
                }
            }
        }
        i = i + 1;
    }
    proof {
        assert(samples@.subrange(0, samples@.len() as int) == samples@);
    }
    if near.len() > 0 {
        (near, CalibrationScope::NearbySameQuality)
    } else if same.len() > 0 {
        (same, CalibrationScope::SameQuality)
    } else {
        (valid, CalibrationScope::AnyQuality)
    }
}

/// How sure an estimate calibrated by `count` samples is, and its range as
/// percentages of the estimate.
pub open spec fn confidence_spec(count: nat) -> (EstimateConfidence, u32, u32) {
    if count == 0 {
        (EstimateConfidence::Low, 55, 175)
    } else if count <= 2 {
        (EstimateConfidence::Low, 60, 160)
    } else if count <= 5 {
        (EstimateConfidence::Medium, 72, 138)
    } else {
        (EstimateConfidence::High, 82, 122)
    }
}

/// Confidence and range (lower and upper bound, in percent of the estimate)
/// for an estimate calibrated by `sample_count` local runs: more history
/// narrows the range.
pub fn confidence_for(sample_count: usize) -> (r: (EstimateConfidence, u32, u32))
    ensures
        r == confidence_spec(sample_count as nat),
{
    if sample_count == 0 {
        (EstimateConfidence::Low, 55, 175)
    } else if sample_count <= 2 {
        (EstimateConfidence::Low, 60, 160)
    } else if sample_count <= 5 {
        (EstimateConfidence::Medium, 72, 138)
    } else {
        (EstimateConfidence::High, 82, 122)
    }
}

/// More history never widens the range.
pub proof fn lemma_more_samples_narrow_the_range(fewer: nat, more: nat)
    requires
        fewer <= more,
    ensures
        confidence_spec(more).1 >= confidence_spec(fewer).1,
        confidence_spec(more).2 <= confidence_spec(fewer).2,
        confidence_spec(fewer).1 < 100 < confidence_spec(fewer).2,
{
}

pub open spec fn scope_label(scope: CalibrationScope) -> Seq<char> {
    match scope {
        CalibrationScope::NearbySameQuality => "同档位、相近帧数"@,
        CalibrationScope::SameQuality => "同档位"@,
        CalibrationScope::AnyQuality => "跨档位"@,
    }
}

/// The basis of an estimate for an input of `source_count` frames of which
/// `mapped_frames` reach COLMAP.
pub open spec fn input_basis_spec(
    source_count: u64,
    mapped_frames: u64,
    sample_count: u64,
    scope: CalibrationScope,
) -> Seq<char> {
    if sample_count == 0 {
        "根据输入 "@ + decimal(source_count as nat) + " 总帧、实际进入 COLMAP 的 "@ + decimal(
            mapped_frames as nat,
        ) + " 帧和质量档位估算；完成任务后会自动校准"@
    } else {
        "根据输入 "@ + decimal(source_count as nat) + " 总帧、实际进入 COLMAP 的 "@ + decimal(
            mapped_frames as nat,
        ) + " 帧、质量档位和本机 "@ + decimal(sample_count as nat) + " 个"@ + scope_label(scope)
            + "任务校准"@
    }
}

/// Says what an estimate for a video input rests on.
pub fn input_basis(
    source_count: u64,
    mapped_frames: u64,
    sample_count: u64,
    scope: CalibrationScope,
) -> (s: String)
    ensures
        s@ == input_basis_spec(source_count, mapped_frames, sample_count, scope),
{
    let mut s = String::from_str("根据输入 ");
    push_decimal(&mut s, source_count);
    s.append(" 总帧、实际进入 COLMAP 的 ");
    push_decimal(&mut s, mapped_frames);
    if sample_count == 0 {
        s.append(" 帧和质量档位估算；完成任务后会自动校准");
    } else {
        s.append(" 帧、质量档位和本机 ");
        push_decimal(&mut s, sample_count);
        s.append(" 个");
        match scope {
            CalibrationScope::NearbySameQuality => s.append("同档位、相近帧数"),
            CalibrationScope::SameQuality => s.append("同档位"),
            CalibrationScope::AnyQuality => s.append("跨档位"),
        }
        s.append("任务校准");
    }
    s
}

/// The basis of an estimate for an image sequence of `image_count` images.
pub open spec fn image_basis_spec(image_count: u64, sample_count: u64) -> Seq<char> {
    if sample_count == 0 {
        "根据 "@ + decimal(image_count as nat) + " 张输入图片和质量档位估算；完成任务后会自动校准"@
    } else {
        "根据 "@ + decimal(image_count as nat) + " 张输入图片、质量档位和本机 "@ + decimal(
            sample_count as nat,
        ) + " 个历史任务校准"@
    }
}

/// Says what an estimate for an image sequence rests on.
pub fn image_basis(image_count: u64, sample_count: u64) -> (s: String)
    ensures
        s@ == image_basis_spec(image_count, sample_count),
{
    let mut s = String::from_str("根据 ");
    push_decimal(&mut s, image_count);
    if sample_count == 0 {
        s.append(" 张输入图片和质量档位估算；完成任务后会自动校准");
    } else {
        s.append(" 张输入图片、质量档位和本机 ");
        push_decimal(&mut s, sample_count);
        s.append(" 个历史任务校准");
    }
    s
}


/// Two frame counts are nearby exactly when each, taken as at least one, is
/// at most 1.25 times the other; so nearness is symmetric.
pub proof fn lemma_nearby_is_a_two_sided_window(a: u64, b: u64)
    ensures
        is_nearby(a, b) <==> (4 * at_least_one(a) <= 5 * at_least_one(b) && 4 * at_least_one(b)
            <= 5 * at_least_one(a)),
        is_nearby(a, b) == is_nearby(b, a),
{
}

proof fn lemma_valid_samples_members(s: Seq<RuntimeSample>, x: RuntimeSample)
    ensures
        valid_samples(s).contains(x) <==> s.contains(x) && is_valid_sample(x),
    decreases s.len(),
{
    if s.len() > 0 {
        lemma_valid_samples_members(s.drop_last(), x);
        assert(s =~= s.drop_last().push(s.last()));
        assert(s.contains(x) <==> s.drop_last().contains(x) || x == s.last()) by {
            if s.contains(x) {
                let i = choose|i: int| 0 <= i < s.len() && s[i] == x;
                if i < s.len() - 1 {
                    assert(s.drop_last()[i] == x);
                }
            }
            if s.drop_last().contains(x) {
                let i = choose|i: int| 0 <= i < s.len() - 1 && s.drop_last()[i] == x;
                assert(s[i] == x);
            }
            if x == s.last() {
                assert(s[s.len() - 1] == x);
            }
        }
        let r = valid_samples(s.drop_last());
        if is_valid_sample(s.last()) {
            assert(r.push(s.last()).contains(x) <==> r.contains(x) || x == s.last()) by {
                if r.push(s.last()).contains(x) {
                    let i = choose|i: int| 0 <= i < r.len() + 1 && r.push(s.last())[i] == x;
                    if i < r.len() {
                        assert(r[i] == x);
                    }
                }
                if r.contains(x) {
                    let i = choose|i: int| 0 <= i < r.len() && r[i] == x;
                    assert(r.push(s.last())[i] == x);
                }
                if x == s.last() {
                    assert(r.push(s.last())[r.len() as int] == x);
                }
            }
        }
    }
}

proof fn lemma_of_quality_members(s: Seq<RuntimeSample>, quality: Quality, x: RuntimeSample)
    ensures
        of_quality(s, quality).contains(x) <==> s.contains(x) && x.quality == quality,
    decreases s.len(),
{
    if s.len() > 0 {
        lemma_of_quality_members(s.drop_last(), quality, x);
        assert(s.contains(x) <==> s.drop_last().contains(x) || x == s.last()) by {
            if s.contains(x) {
                let i = choose|i: int| 0 <= i < s.len() && s[i] == x;
                if i < s.len() - 1 {
                    assert(s.drop_last()[i] == x);
                }
            }
            if s.drop_last().contains(x) {
                let i = choose|i: int| 0 <= i < s.len() - 1 && s.drop_last()[i] == x;
                assert(s[i] == x);
            }
            if x == s.last() {
                assert(s[s.len() - 1] == x);
            }
        }
        let r = of_quality(s.drop_last(), quality);
        if s.last().quality == quality {
            assert(r.push(s.last()).contains(x) <==> r.contains(x) || x == s.last()) by {
                if r.push(s.last()).contains(x) {
                    let i = choose|i: int| 0 <= i < r.len() + 1 && r.push(s.last())[i] == x;
                    if i < r.len() {
                        assert(r[i] == x);
                    }
                }
                if r.contains(x) {
                    let i = choose|i: int| 0 <= i < r.len() && r[i] == x;
                    assert(r.push(s.last())[i] == x);
                }
                if x == s.last() {
                    assert(r.push(s.last())[r.len() as int] == x);
                }
            }
        }
    }
}

proof fn lemma_near_frames_members(s: Seq<RuntimeSample>, mapped: u64, x: RuntimeSample)
    ensures
        near_frames(s, mapped).contains(x) <==> s.contains(x) && is_nearby(x.mapped_frames, mapped),
    decreases s.len(),
{
    if s.len() > 0 {
        lemma_near_frames_members(s.drop_last(), mapped, x);
        assert(s.contains(x) <==> s.drop_last().contains(x) || x == s.last()) by {
            if s.contains(x) {
                let i = choose|i: int| 0 <= i < s.len() && s[i] == x;
                if i < s.len() - 1 {
                    assert(s.drop_last()[i] == x);
                }
            }
            if s.drop_last().contains(x) {
                let i = choose|i: int| 0 <= i < s.len() - 1 && s.drop_last()[i] == x;
                assert(s[i] == x);
            }
            if x == s.last() {
                assert(s[s.len() - 1] == x);
            }
        }
        let r = near_frames(s.drop_last(), mapped);
        if is_nearby(s.last().mapped_frames, mapped) {
            assert(r.push(s.last()).contains(x) <==> r.contains(x) || x == s.last()) by {
                if r.push(s.last()).contains(x) {
                    let i = choose|i: int| 0 <= i < r.len() + 1 && r.push(s.last())[i] == x;
                    if i < r.len() {
                        assert(r[i] == x);
                    }
                }
                if r.contains(x) {
                    let i = choose|i: int| 0 <= i < r.len() && r[i] == x;
                    assert(r.push(s.last())[i] == x);
                }
                if x == s.last() {
                    assert(r.push(s.last())[r.len() as int] == x);
                }
            }
        }
    }
}

/// The calibration runs are exactly the local runs that lasted at least ten
/// seconds and mapped an image, narrowed to the requested tier when it has
/// any, and further to runs whose frame count is within 25% of the request
/// either way when there are any; so a run at a third of the frames never
/// calibrates a nearby estimate.
pub proof fn lemma_calibration_runs_are_the_closest_kind(
    samples: Seq<RuntimeSample>,
    quality: Quality,
    mapped: u64,
    x: RuntimeSample,
)
    ensures
        ({
            let (chosen, scope) = calibration_spec(samples, quality, mapped);
            let valid = samples.contains(x) && x.duration_ms >= 10_000 && x.mapped_frames > 0;
            let same = valid && x.quality == quality;
            let close = same && 4 * at_least_one(x.mapped_frames) <= 5 * at_least_one(mapped) && 4
                * at_least_one(mapped) <= 5 * at_least_one(x.mapped_frames);
            &&& scope == CalibrationScope::NearbySameQuality ==> (chosen.contains(x) <==> close)
            &&& scope == CalibrationScope::SameQuality ==> (chosen.contains(x) <==> same) && !close
            &&& scope == CalibrationScope::AnyQuality ==> (chosen.contains(x) <==> valid) && !same
        }),
{
    let valid = valid_samples(samples);
    let same = of_quality(valid, quality);
    let nearby = near_frames(same, mapped);
    lemma_valid_samples_members(samples, x);
    lemma_of_quality_members(valid, quality, x);
    lemma_near_frames_members(same, mapped, x);
    lemma_nearby_is_a_two_sided_window(x.mapped_frames, mapped);
    if nearby.len() == 0 {
        assert(!nearby.contains(x));
    }
    if same.len() == 0 {
        assert(!same.contains(x));
    }
}

} // verus!
