//! The Brush training engine: its command line and the console note on the
//! tuning in effect.
use vstd::prelude::*;

use crate::presets::{BrushTuning, QualityPreset};
use crate::text::{decimal, decimal_string, push_decimal};

verus! {

/// An engine executable that is not where it was expected.
#[derive(Debug, Clone, PartialEq, Eq)]
pub struct EngineMissing {
    /// The executable's path as it is displayed.
    pub path: String,
}

/// Accepts the engine at `executable` when it is a file.
pub fn require_verified_cli(executable: &str, is_file: bool) -> (r: Result<(), EngineMissing>)
    ensures
        is_file ==> r is Ok,
        !is_file ==> r is Err && r->Err_0.path@ == executable@,
{
    if is_file {
        Ok(())
    } else {
        Err(EngineMissing { path: String::from_str(executable) })
    }
}

/// The spherical-harmonics order Brush trains with unless told otherwise.
pub const BRUSH_DEFAULT_SH_DEGREE: u32 = 3;

/// The name Brush writes the trained splats under, before publishing.
pub open spec fn export_name() -> Seq<char> {
    "final.ply.tmp"@
}

pub open spec fn optional_flag(flag: Seq<char>, value: Option<nat>) -> Seq<Seq<char>> {
    match value {
        Some(v) => seq![flag, decimal(v)],
        None => Seq::<Seq<char>>::empty(),
    }
}

pub open spec fn opt_u32(v: Option<u32>) -> Option<nat> {
    match v {
        Some(x) => Some(x as nat),
        None => None,
    }
}

pub open spec fn opt_usize(v: Option<usize>) -> Option<nat> {
    match v {
        Some(x) => Some(x as nat),
        None => None,
    }
}

/// The Brush command line: training length, resolution, a single export at
/// the end and the spherical-harmonics order (Brush's own 3 when the preset
/// leaves it unset), then each other tuning knob that is set, and the dataset
/// last so that it is not parsed as a flag's value.
pub open spec fn training_args_spec(
    preset: QualityPreset,
    output_directory: Seq<char>,
    dataset: Seq<char>,
) -> Seq<Seq<char>> {
    seq![
        "--total-steps"@,
        decimal(preset.brush_iterations as nat),
        "--max-resolution"@,
        decimal(preset.brush_max_resolution as nat),
        "--export-every"@,
        decimal(preset.brush_iterations as nat),
        "--export-path"@,
        output_directory,
        "--export-name"@,
        export_name(),
        "--sh-degree"@,
        decimal(
            match preset.brush_tuning.sh_degree {
                Some(d) => d as nat,
                None => BRUSH_DEFAULT_SH_DEGREE as nat,
            },
        ),
    ] + optional_flag(
        "--growth-stop-iter"@,
        opt_usize(preset.brush_tuning.growth_stop_iter),
    ) + optional_flag("--refine-every"@, opt_usize(preset.brush_tuning.refine_every))
        + optional_flag("--max-splats"@, opt_usize(preset.brush_tuning.max_splats)) + seq![dataset]
}

/// For every preset, Brush exports exactly once, at the last training step,
/// under the stable name in the output directory, and the dataset is the
/// last argument.
pub proof fn lemma_training_args_shape(
    preset: QualityPreset,
    output_directory: Seq<char>,
    dataset: Seq<char>,
)
    ensures
        ({
            let args = training_args_spec(preset, output_directory, dataset);
            &&& args[0] == "--total-steps"@ && args[4] == "--export-every"@
            &&& args[5] == args[1]
            &&& args[6] == "--export-path"@ && args[7] == output_directory
            &&& args[8] == "--export-name"@ && args[9] == export_name()
            &&& args.last() == dataset
        }),
{
}

pub open spec fn views(v: Seq<String>) -> Seq<Seq<char>> {
    v.map_values(|s: String| s@)
}

fn push_arg(args: &mut Vec<String>, arg: String)
    ensures
        views(final(args)@) == views(old(args)@).push(arg@),
{
    let ghost before = args@;
    args.push(arg);
    proof {
        assert(views(args@) =~= views(before).push(arg@));
    }
}

fn push_optional(args: &mut Vec<String>, flag: &str, value: Option<u64>)
    ensures
        views(final(args)@) == views(old(args)@) + optional_flag(
            flag@,
            match value {
                Some(v) => Some(v as nat),
                None => None,
            },
        ),
{
    match value {
        Some(v) => {
            let ghost before = views(args@);
            push_arg(args, String::from_str(flag));
            push_arg(args, decimal_string(v));
            proof {
                assert(views(args@) =~= before + seq![flag@, decimal(v as nat)]);
            }
        },
        None => {
            proof {
                assert(views(args@) =~= views(args@) + Seq::<Seq<char>>::empty());
            }
        },
    }
}

/// Builds the Brush training command line for a preset.
pub fn training_args(preset: &QualityPreset, output_directory: &str, dataset: &str) -> (args: Vec<
    String,
>)
    ensures
        views(args@) == training_args_spec(*preset, output_directory@, dataset@),
{
    let mut args: Vec<String> = Vec::new();
    push_arg(&mut args, String::from_str("--total-steps"));
    push_arg(&mut args, decimal_string(preset.brush_iterations as u64));
    push_arg(&mut args, String::from_str("--max-resolution"));
    push_arg(&mut args, decimal_string(preset.brush_max_resolution as u64));
    push_arg(&mut args, String::from_str("--export-every"));
    push_arg(&mut args, decimal_string(preset.brush_iterations as u64));
    push_arg(&mut args, String::from_str("--export-path"));
    push_arg(&mut args, String::from_str(output_directory));
    push_arg(&mut args, String::from_str("--export-name"));
    push_arg(&mut args, String::from_str("final.ply.tmp"));
    let t = preset.brush_tuning;
    push_arg(&mut args, String::from_str("--sh-degree"));
    let degree: u32 = match t.sh_degree {
        Some(d) => d,
        None => BRUSH_DEFAULT_SH_DEGREE,
    };
    push_arg(&mut args, decimal_string(degree as u64));
    push_optional(
        &mut args,
        "--growth-stop-iter",
        match t.growth_stop_iter {
            Some(v) => Some(v as u64),
            None => None,
        },
    );
    push_optional(
        &mut args,
        "--refine-every",
        match t.refine_every {
            Some(v) => Some(v as u64),
            None => None,
        },
    );
    push_optional(
        &mut args,
        "--max-splats",
        match t.max_splats {
            Some(v) => Some(v as u64),
            None => None,
        },
    );
    push_arg(&mut args, String::from_str(dataset));
    proof {
        assert(views(args@) =~= training_args_spec(*preset, output_directory@, dataset@));
    }
    args
}

/// The console parts naming each tuning knob in effect.
pub open spec fn tuning_parts(t: BrushTuning) -> Seq<Seq<char>> {
    (match t.sh_degree {
        Some(d) => seq!["SH 阶数 "@ + decimal(d as nat)],
        None => Seq::<Seq<char>>::empty(),
    }) + (match t.growth_stop_iter {
        Some(s) => seq!["致密化止于 "@ + decimal(s as nat) + " 步"@],
        None => Seq::<Seq<char>>::empty(),
    }) + (match t.refine_every {
        Some(e) => seq!["细化间隔 "@ + decimal(e as nat)],
        None => Seq::<Seq<char>>::empty(),
    }) + (match t.max_splats {
        Some(m) => seq!["高斯上限 "@ + decimal(m as nat)],
        None => Seq::<Seq<char>>::empty(),
    }) + (if t.single_export {
        seq!["仅最终导出"@]
    } else {
        Seq::<Seq<char>>::empty()
    })
}

/// Each part preceded by ` · `.
pub open spec fn joined(parts: Seq<Seq<char>>) -> Seq<char>
    decreases parts.len(),
{
    if parts.len() == 0 {
        Seq::<char>::empty()
    } else {
        joined(parts.drop_last()) + " · "@ + parts.last()
    }
}

/// ` · part · part …` for the knobs in effect, or nothing for an untuned
/// preset, so the console shows which parameters ran.
pub fn brush_tuning_note(tuning: BrushTuning) -> (s: String)
    ensures
        s@ == joined(tuning_parts(tuning)),
{
    let mut parts: Vec<String> = Vec::new();
    if let Some(degree) = tuning.sh_degree {
        let mut p = String::from_str("SH 阶数 ");
        push_decimal(&mut p, degree as u64);
        push_arg(&mut parts, p);
    }
    if let Some(stop) = tuning.growth_stop_iter {
        let mut p = String::from_str("致密化止于 ");
        push_decimal(&mut p, stop as u64);
        p.append(" 步");
        push_arg(&mut parts, p);
    }
    if let Some(every) = tuning.refine_every {
        let mut p = String::from_str("细化间隔 ");
        push_decimal(&mut p, every as u64);
        push_arg(&mut parts, p);
    }
    if let Some(max) = tuning.max_splats {
        let mut p = String::from_str("高斯上限 ");
        push_decimal(&mut p, max as u64);
        push_arg(&mut parts, p);
    }
    if tuning.single_export {
        push_arg(&mut parts, String::from_str("仅最终导出"));
    }
    proof {
        assert(views(parts@) =~= tuning_parts(tuning));
    }
    let mut s = String::new();
    let mut i: usize = 0;
    while i < parts.len()
        invariant
            i <= parts@.len(),
            s@ == joined(views(parts@).subrange(0, i as int)),
        decreases parts.len() - i,
    {
        proof {
            let v = views(parts@);
            assert(v.subrange(0, i + 1).drop_last() =~= v.subrange(0, i as int));
            assert(v.subrange(0, i + 1).last() == parts@[i as int]@);
        }
        s.append(" · ");
        s.append(parts[i].as_str());
        i = i + 1;
    }
    proof {
        assert(views(parts@).subrange(0, parts@.len() as int) =~= views(parts@));
    }
    s
}

} // verus!
