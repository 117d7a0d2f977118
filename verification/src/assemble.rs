//! The command assembler: fixed argument ordering, the displayable command
//! string, and the collision-free output path for a validated request.

use vstd::prelude::*;
use crate::command::build_command_string;
use crate::command::spec_command_string;
use crate::filters::build_filter_plan;
use crate::filters::mode_is_side_by_side;
use crate::filters::opt_view;
use crate::filters::render_composite;
use crate::filters::spec_composite_graph;
use crate::filters::spec_left_filters;
use crate::filters::spec_plan_ok;
use crate::filters::spec_primary_input;
use crate::filters::spec_right_filters;
use crate::filters::spec_simple_filters;
use crate::filters::spec_uses_select;
use crate::filters::spec_validation_error;
use crate::filters::BuildError;
use crate::filters::ExportParams;
use crate::filters::FilterGraph;
use crate::filters::FilterPlan;
use crate::outpath::spec_unique_output_path;
use crate::outpath::unique_output_path;
use crate::text::dec_seq;
use crate::text::join_seq;
use crate::text::join_with;
use crate::text::str_eq;
use crate::text::u64_to_string;

verus! {

/// The argument pair selecting the video codec: `h265` maps to the HEVC
/// encoder, anything else defaults to the AVC encoder.
pub open spec fn spec_codec_args(codec: Seq<char>) -> Seq<Seq<char>> {
    seq!["-c:v"@, if codec == "h265"@ {
        "libx265"@
    } else {
        "libx264"@
    }]
}

/// Audio passthrough when copying, else the synthesized default track.
pub open spec fn spec_audio_args(copy: bool) -> Seq<Seq<char>> {
    seq!["-c:a"@, if copy {
        "copy"@
    } else {
        "aac"@
    }]
}

/// The filter arguments: in side-by-side mode the composition graph with
/// its output-node map, and the primary input's audio mapped only when
/// copying; otherwise the flat chain, or nothing when it is empty.
pub open spec fn spec_video_args(p: ExportParams) -> Seq<Seq<char>> {
    if mode_is_side_by_side(p) {
        seq!["-filter_complex"@, spec_composite_graph(
            spec_left_filters(p),
            spec_right_filters(p),
        ), "-map"@, "[vout]"@] + (if p.audio_copy {
            seq!["-map"@, "0:a?"@]
        } else {
            Seq::<Seq<char>>::empty()
        })
    } else {
        let f = spec_simple_filters(p);
        if f.len() == 0 {
            Seq::empty()
        } else {
            seq!["-vf"@, join_seq(f, ","@)]
        }
    }
}

/// The full transcoder argument vector, in its fixed order: inputs, filter
/// arguments, the variable-frame-rate flag when trimming selected frames,
/// codec, quality, audio, overwrite, machine-readable progress on standard
/// output, suppressed stats, and the output path.
pub open spec fn spec_args(p: ExportParams, output_path: Seq<char>) -> Seq<Seq<char>> {
    seq!["-i"@, spec_primary_input(p)] + (if mode_is_side_by_side(p) {
        seq!["-i"@, opt_view(p.input_path_b)]
    } else {
        Seq::<Seq<char>>::empty()
    }) + spec_video_args(p) + (if spec_uses_select(p) {
        seq!["-vsync"@, "vfr"@]
    } else {
        Seq::<Seq<char>>::empty()
    }) + spec_codec_args(p.codec@) + seq!["-crf"@, dec_seq(p.crf as nat)] + spec_audio_args(
        p.audio_copy,
    ) + seq!["-y"@, "-progress"@, "pipe:1"@, "-nostats"@, output_path]
}

/// Assembles the argument vector for a plan built from the same request,
/// matching `spec_args`.
pub fn assemble_args(params: &ExportParams, plan: &FilterPlan, output_path: &str) -> (r: Vec<
    String,
>)
    requires
        spec_plan_ok(*plan, *params),
    ensures
        r@.map_values(|s: String| s@) == spec_args(*params, output_path@),
{
    let ghost p = *params;
    let mut args: Vec<String> = Vec::new();
    args.push(("-i").to_owned());
    args.push(plan.primary.clone());
    let ghost acc1 = seq!["-i"@, spec_primary_input(p)] + (if mode_is_side_by_side(p) {
        seq!["-i"@, opt_view(p.input_path_b)]
    } else {
        Seq::<Seq<char>>::empty()
    });
    match &plan.secondary {
        Some(second) => {
            args.push(("-i").to_owned());
            args.push(second.clone());
        },
        None => {},
    }
    proof {
        assert(args@.map_values(|s: String| s@) =~= acc1);
    }
    let ghost acc2 = acc1 + spec_video_args(p);
    match &plan.graph {
        FilterGraph::Composite { left, right } => {
            args.push(("-filter_complex").to_owned());
            args.push(render_composite(left, right));
            args.push(("-map").to_owned());
            args.push(("[vout]").to_owned());
            if params.audio_copy {
                args.push(("-map").to_owned());
                args.push(("0:a?").to_owned());
            }
        },
        FilterGraph::Simple { filters } => {
            if filters.len() > 0 {
                args.push(("-vf").to_owned());
                args.push(join_with(filters, ","));
            }
        },
    }
    proof {
        assert(args@.map_values(|s: String| s@) =~= acc2);
    }
    let ghost acc3 = acc2 + (if spec_uses_select(p) {
        seq!["-vsync"@, "vfr"@]
    } else {
        Seq::<Seq<char>>::empty()
    });
    if plan.uses_select {
        args.push(("-vsync").to_owned());
        args.push(("vfr").to_owned());
    }
    proof {
        assert(args@.map_values(|s: String| s@) =~= acc3);
    }
    let ghost acc4 = acc3 + spec_codec_args(p.codec@);
    if str_eq(params.codec.as_str(), "h265") {
        args.push(("-c:v").to_owned());
        args.push(("libx265").to_owned());
    } else {
        args.push(("-c:v").to_owned());
        args.push(("libx264").to_owned());
    }
    proof {
        assert(args@.map_values(|s: String| s@) =~= acc4);
    }
    let ghost acc5 = acc4 + seq!["-crf"@, dec_seq(p.crf as nat)];
    args.push(("-crf").to_owned());
    args.push(u64_to_string(params.crf as u64));
    proof {
        assert(args@.map_values(|s: String| s@) =~= acc5);
    }
    let ghost acc6 = acc5 + spec_audio_args(p.audio_copy);
    if params.audio_copy {
        args.push(("-c:a").to_owned());
        args.push(("copy").to_owned());
    } else {
        args.push(("-c:a").to_owned());
        args.push(("aac").to_owned());
    }
    proof {
        assert(args@.map_values(|s: String| s@) =~= acc6);
    }
    args.push(("-y").to_owned());
    args.push(("-progress").to_owned());
    args.push(("pipe:1").to_owned());
    args.push(("-nostats").to_owned());
    args.push(output_path.to_owned());
    proof {
        assert(args@.map_values(|s: String| s@) =~= spec_args(p, output_path@));
    }
    args
}

/// Everything needed to launch an export: the argument vector, the
/// displayable command string, and the chosen output path.
pub struct AssembledCommand {
    pub args: Vec<String>,
    pub command: String,
    pub output_path: String,
}

/// Validates a request and assembles the full invocation. A rejected
/// request gets exactly the outcome of `spec_validation_error` and nothing
/// else happens; an accepted one gets the collision-free output path, the
/// argument vector of `spec_args` for that path, and the command string
/// rendered from the executable and those arguments. `taken` lists the
/// output paths that already exist.
pub fn plan_export(executable: &str, params: &ExportParams, taken: &Vec<String>) -> (r: Result<
    AssembledCommand,
    BuildError,
>)
    ensures
        match r {
            Err(e) => Some(e) == spec_validation_error(*params),
            Ok(cmd) => {
                &&& spec_validation_error(*params) is None
                &&& cmd.output_path@ == spec_unique_output_path(
                    params.output_path@,
                    taken@.map_values(|t: String| t@),
                )
                &&& cmd.args@.map_values(|s: String| s@) == spec_args(*params, cmd.output_path@)
                &&& cmd.command@ == spec_command_string(
                    executable@,
                    spec_args(*params, cmd.output_path@),
                )
            },
        },
{
    let plan = match build_filter_plan(params) {
        Err(e) => {
            return Err(e);
        },
        Ok(pl) => pl,
    };
    let output_path = unique_output_path(params.output_path.as_str(), taken);
    let args = assemble_args(params, &plan, output_path.as_str());
    let command = build_command_string(executable, &args);
    Ok(AssembledCommand { args, command, output_path })
}

} // verus!
