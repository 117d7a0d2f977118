//! The filter-graph builder: validates an export request and assembles the
//! ordered per-clip filter chain (trim selection, rate conversion, resize,
//! overlays), either as one flat chain or as a two-input stack composition.

use vstd::prelude::*;
use crate::escape::label_filters;
use crate::escape::spec_label_filters;
use crate::numbers::Fraction;
use crate::text::dec_seq;
use crate::text::ends_with;
use crate::text::has_substring;
use crate::text::join_seq;
use crate::text::join_with;
use crate::text::str_eq;
use crate::text::u64_to_string;

verus! {

/// A declarative export request. Rates are exact rationals; width, height
/// and stack height are pixel counts; trim bounds are frame indices on the
/// original timeline.
pub struct ExportParams {
    pub input_path_a: Option<String>,
    pub input_path_b: Option<String>,
    pub export_mode: String,
    pub output_path: String,
    pub codec: String,
    pub crf: u8,
    pub resize_width: Option<u32>,
    pub resize_height: Option<u32>,
    pub keep_aspect: bool,
    pub fps: Option<Fraction>,
    pub trim_start_frame: Option<u64>,
    pub trim_end_frame: Option<u64>,
    pub label_a: Option<String>,
    pub label_b: Option<String>,
    pub audio_copy: bool,
    pub stack_height: Option<u32>,
}

/// Why a request was rejected before anything was spawned.
#[derive(Clone, Copy, PartialEq, Eq, Structural, Debug)]
pub enum BuildError {
    MissingInputA,
    MissingInputB,
    UnknownMode,
}

impl BuildError {
    /// A short diagnostic for the caller.
    pub fn message(&self) -> (r: String)
        ensures
            r@ == self.spec_message(),
    {
        match self {
            BuildError::MissingInputA => ("Input A is required.").to_owned(),
            BuildError::MissingInputB => ("Input B is required.").to_owned(),
            BuildError::UnknownMode => ("Unknown export mode.").to_owned(),
        }
    }

    pub open spec fn spec_message(&self) -> Seq<char> {
        match self {
            BuildError::MissingInputA => "Input A is required."@,
            BuildError::MissingInputB => "Input B is required."@,
            BuildError::UnknownMode => "Unknown export mode."@,
        }
    }
}

/// An optional input that actually names a file.
pub open spec fn spec_opt_nonempty(o: Option<String>) -> bool {
    match o {
        Some(s) => s@.len() > 0,
        None => false,
    }
}

/// The view of an optional string, empty when absent.
pub open spec fn opt_view(o: Option<String>) -> Seq<char> {
    match o {
        Some(s) => s@,
        None => Seq::empty(),
    }
}

pub open spec fn mode_is_input_b(p: ExportParams) -> bool {
    p.export_mode@ == "input-b"@
}

pub open spec fn mode_is_input_a(p: ExportParams) -> bool {
    p.export_mode@ == "input-a"@
}

pub open spec fn mode_is_side_by_side(p: ExportParams) -> bool {
    p.export_mode@ == "side-by-side"@
}

/// The validation outcome: which input is missing for the request's mode,
/// or that the mode itself is unknown; nothing for a valid request.
pub open spec fn spec_validation_error(p: ExportParams) -> Option<BuildError> {
    if mode_is_input_b(p) {
        if !spec_opt_nonempty(p.input_path_b) {
            Some(BuildError::MissingInputB)
        } else {
            None
        }
    } else if mode_is_input_a(p) || mode_is_side_by_side(p) {
        if !spec_opt_nonempty(p.input_path_a) {
            Some(BuildError::MissingInputA)
        } else if mode_is_side_by_side(p) && !spec_opt_nonempty(p.input_path_b) {
            Some(BuildError::MissingInputB)
        } else {
            None
        }
    } else {
        Some(BuildError::UnknownMode)
    }
}

/// The file the transcoder reads first in the request's mode.
pub open spec fn spec_primary_input(p: ExportParams) -> Seq<char> {
    if mode_is_input_b(p) {
        opt_view(p.input_path_b)
    } else {
        opt_view(p.input_path_a)
    }
}

/// A request missing a required input is always rejected: the outcome names
/// a missing input for every such request, so nothing downstream of
/// validation (no spawn, no registration) can happen for it.
pub proof fn lemma_missing_input_rejected(p: ExportParams)
    requires
        (mode_is_input_b(p) && !spec_opt_nonempty(p.input_path_b)) || ((mode_is_input_a(p)
            || mode_is_side_by_side(p)) && !spec_opt_nonempty(p.input_path_a)) || (
        mode_is_side_by_side(p) && !spec_opt_nonempty(p.input_path_b)),
    ensures
        spec_validation_error(p) is Some,
{
    reveal_strlit("input-a");
    reveal_strlit("input-b");
    reveal_strlit("side-by-side");
    assert(("input-a"@).len() == 7);
    assert(("input-b"@).len() == 7);
    assert(("side-by-side"@).len() == 12);
    assert(("input-a"@)[6] == 'a' && ("input-b"@)[6] == 'b');
}

/// The frame-selection filter covering the frame range, paired with its
/// timestamp reset.
pub open spec fn select_filter(start: u64, end: u64) -> Seq<char> {
    "select=between(n\\,"@ + dec_seq(start as nat) + "\\,"@ + dec_seq(end as nat)
        + "),setpts=N/FRAME_RATE/TB"@
}

/// A rate rendered for the rate-conversion filter: a whole number when the
/// denominator is one, else `num/den`.
pub open spec fn fps_text(f: Fraction) -> Seq<char> {
    if f.den == 1 {
        dec_seq(f.num as nat)
    } else {
        dec_seq(f.num as nat) + "/"@ + dec_seq(f.den as nat)
    }
}

pub open spec fn fps_filter(f: Fraction) -> Seq<char> {
    "fps=fps="@ + fps_text(f)
}

/// A target dimension, `-1` when unspecified (preserve that side's ratio).
pub open spec fn dim_text(d: Option<u32>) -> Seq<char> {
    match d {
        Some(v) => dec_seq(v as nat),
        None => "-1"@,
    }
}

/// The Lanczos scale filter, constrained to decrease-only when the aspect
/// lock is requested.
pub open spec fn scale_filter(w: Option<u32>, h: Option<u32>, keep_aspect: bool) -> Seq<char> {
    let base = "scale="@ + dim_text(w) + ":"@ + dim_text(h) + ":flags=lanczos"@;
    if keep_aspect {
        base + ":force_original_aspect_ratio=decrease"@
    } else {
        base
    }
}

/// The per-side scale to the stack height; `-2` forces an even width, which
/// some encoders require.
pub open spec fn stack_scale_filter(h: u32) -> Seq<char> {
    "scale=-2:"@ + dec_seq(h as nat) + ":flags=lanczos"@
}

/// The effective trim range: the end clamps up to the start, so a reversed
/// range selects the single frame at the start rather than failing.
pub open spec fn spec_trim_range(p: ExportParams) -> Option<(u64, u64)> {
    match p.trim_end_frame {
        Some(end) => {
            let start = match p.trim_start_frame {
                Some(s) => s,
                None => 0u64,
            };
            Some((start, if end > start {
                end
            } else {
                start
            }))
        },
        None => None,
    }
}

/// An end frame before the start frame is never an error: the selection
/// clamps up to a single frame at the start, and the validation outcome is
/// untouched by any trim bound.
pub proof fn lemma_reversed_trim_clamps(p: ExportParams, start: u64, end: u64)
    requires
        p.trim_start_frame == Some(start),
        p.trim_end_frame == Some(end),
        end < start,
    ensures
        spec_trim_range(p) == Some((start, start)),
        spec_validation_error(p) == spec_validation_error(
            ExportParams { trim_start_frame: None, trim_end_frame: None, ..p },
        ),
{
}

/// Whether the pipeline trims by frame selection and therefore must request
/// variable-frame-rate muxing downstream.
pub open spec fn spec_uses_select(p: ExportParams) -> bool {
    p.trim_end_frame is Some
}

/// The shared per-clip chain, in its fixed order: trim selection, then rate
/// conversion, then resize.
pub open spec fn spec_clip_filters(p: ExportParams) -> Seq<Seq<char>> {
    let trims: Seq<Seq<char>> = match spec_trim_range(p) {
        Some(r) => seq![select_filter(r.0, r.1)],
        None => Seq::empty(),
    };
    let rate: Seq<Seq<char>> = match p.fps {
        Some(f) => seq![fps_filter(f)],
        None => Seq::empty(),
    };
    let resize: Seq<Seq<char>> = if p.resize_width is Some || p.resize_height is Some {
        seq![scale_filter(p.resize_width, p.resize_height, p.keep_aspect)]
    } else {
        Seq::empty()
    };
    trims + rate + resize
}

/// Builds the shared per-clip chain, matching `spec_clip_filters`.
pub fn clip_filters(params: &ExportParams) -> (r: Vec<String>)
    ensures
        r@.map_values(|s: String| s@) == spec_clip_filters(*params),
{
    let mut fs: Vec<String> = Vec::new();
    match params.trim_end_frame {
        Some(end) => {
            let start: u64 = match params.trim_start_frame {
                Some(s) => s,
                None => 0,
            };
            let end2: u64 = if end > start {
                end
            } else {
                start
            };
            let mut f = ("select=between(n\\,").to_owned();
            f.append(u64_to_string(start).as_str());
            f.append("\\,");
            f.append(u64_to_string(end2).as_str());
            f.append("),setpts=N/FRAME_RATE/TB");
            proof {
                assert(f@ =~= select_filter(start, end2));
            }
            fs.push(f);
        },
        None => {},
    }
    let ghost after_trim = fs@.map_values(|s: String| s@);
    match params.fps {
        Some(f) => {
            let mut t = ("fps=fps=").to_owned();
            t.append(u64_to_string(f.num).as_str());
            if f.den != 1 {
                t.append("/");
                t.append(u64_to_string(f.den).as_str());
            }
            proof {
                assert(t@ =~= fps_filter(f));
            }
            fs.push(t);
        },
        None => {},
    }
    let ghost after_rate = fs@.map_values(|s: String| s@);
    if params.resize_width.is_some() || params.resize_height.is_some() {
        let mut t = ("scale=").to_owned();
        match params.resize_width {
            Some(v) => t.append(u64_to_string(v as u64).as_str()),
            None => t.append("-1"),
        }
        t.append(":");
        match params.resize_height {
            Some(v) => t.append(u64_to_string(v as u64).as_str()),
            None => t.append("-1"),
        }
        t.append(":flags=lanczos");
        if params.keep_aspect {
            t.append(":force_original_aspect_ratio=decrease");
        }
        proof {
            assert(t@ =~= scale_filter(params.resize_width, params.resize_height,
                params.keep_aspect));
        }
        fs.push(t);
    }
    proof {
        assert(fs@.map_values(|s: String| s@) =~= spec_clip_filters(*params));
    }
    fs
}

/// The left chain of a side-by-side composition: the shared chain, the
/// stack scale, then the overlay filters for the left label.
pub open spec fn spec_left_filters(p: ExportParams) -> Seq<Seq<char>> {
    spec_clip_filters(p) + (match p.stack_height {
        Some(h) => seq![stack_scale_filter(h)],
        None => Seq::<Seq<char>>::empty(),
    }) + (match p.label_a {
        Some(l) => spec_label_filters(l@),
        None => Seq::<Seq<char>>::empty(),
    })
}

/// The right chain of a side-by-side composition.
pub open spec fn spec_right_filters(p: ExportParams) -> Seq<Seq<char>> {
    spec_clip_filters(p) + (match p.stack_height {
        Some(h) => seq![stack_scale_filter(h)],
        None => Seq::<Seq<char>>::empty(),
    }) + (match p.label_b {
        Some(l) => spec_label_filters(l@),
        None => Seq::<Seq<char>>::empty(),
    })
}

/// The flat chain of a single-input mode: the shared chain, then the
/// overlay filters for that mode's label.
pub open spec fn spec_simple_filters(p: ExportParams) -> Seq<Seq<char>> {
    spec_clip_filters(p) + (match (if mode_is_input_b(p) {
        p.label_b
    } else {
        p.label_a
    }) {
        Some(l) => spec_label_filters(l@),
        None => Seq::<Seq<char>>::empty(),
    })
}

fn extend_stack_and_label(
    fs: &mut Vec<String>,
    stack_height: &Option<u32>,
    label: &Option<String>,
) -> (nothing: ())
    ensures
        final(fs)@.map_values(|s: String| s@) == old(fs)@.map_values(|s: String| s@) + (match
            *stack_height {
            Some(h) => seq![stack_scale_filter(h)],
            None => Seq::<Seq<char>>::empty(),
        }) + (match *label {
            Some(l) => spec_label_filters(l@),
            None => Seq::<Seq<char>>::empty(),
        }),
{
    let ghost base = fs@.map_values(|s: String| s@);
    match stack_height {
        Some(h) => {
            let mut t = ("scale=-2:").to_owned();
            t.append(u64_to_string(*h as u64).as_str());
            t.append(":flags=lanczos");
            proof {
                assert(t@ =~= stack_scale_filter(*h));
            }
            fs.push(t);
        },
        None => {},
    }
    let ghost mid = fs@.map_values(|s: String| s@);
    match label {
        Some(l) => {
            let overlay = label_filters(l.as_str());
            proof {
                assert(fs@.map_values(|s: String| s@) =~= mid + overlay@.map_values(
                    |s: String| s@,
                ).take(0));
            }
            let mut k: usize = 0;
            while k < overlay.len()
                invariant
                    k <= overlay.len(),
                    fs@.map_values(|s: String| s@) == mid + overlay@.map_values(
                        |s: String| s@,
                    ).take(k as int),
                decreases overlay.len() - k,
            {
                let item = overlay[k].clone();
                let ghost iv = item@;
                let ghost prev = fs@.map_values(|s: String| s@);
                proof {
                    assert(iv == overlay@.map_values(|s: String| s@)[k as int]);
                }
                fs.push(item);
                proof {
                    let ov = overlay@.map_values(|s: String| s@);
                    assert(fs@.map_values(|s: String| s@) =~= prev.push(iv));
                    assert(ov.take(k + 1) =~= ov.take(k as int).push(ov[k as int]));
                    assert(fs@.map_values(|s: String| s@) =~= mid + ov.take(k + 1));
                }
                k += 1;
            }
            proof {
                let ov = overlay@.map_values(|s: String| s@);
                assert(ov.take(overlay@.len() as int) =~= ov);
                assert(fs@.map_values(|s: String| s@) =~= base + (match *stack_height {
                    Some(h) => seq![stack_scale_filter(h)],
                    None => Seq::<Seq<char>>::empty(),
                }) + spec_label_filters(l@));
            }
        },
        None => {
            proof {
                assert(fs@.map_values(|s: String| s@) =~= mid);
            }
        },
    }
}

/// A filter plan: one flat chain for a single input, or two per-side chains
/// stacked side by side.
pub enum FilterGraph {
    Simple { filters: Vec<String> },
    Composite { left: Vec<String>, right: Vec<String> },
}

/// The validated inputs and filter graph of an export request.
pub struct FilterPlan {
    pub primary: String,
    pub secondary: Option<String>,
    pub graph: FilterGraph,
    pub uses_select: bool,
}

/// The graph a valid request must produce: the two per-side chains in
/// side-by-side mode, the flat chain otherwise.
pub open spec fn spec_graph_ok(g: FilterGraph, p: ExportParams) -> bool {
    if mode_is_side_by_side(p) {
        match g {
            FilterGraph::Composite { left, right } => left@.map_values(|s: String| s@)
                == spec_left_filters(p) && right@.map_values(|s: String| s@)
                == spec_right_filters(p),
            _ => false,
        }
    } else {
        match g {
            FilterGraph::Simple { filters } => filters@.map_values(|s: String| s@)
                == spec_simple_filters(p),
            _ => false,
        }
    }
}

/// Everything a built plan promises about a valid request.
pub open spec fn spec_plan_ok(plan: FilterPlan, p: ExportParams) -> bool {
    &&& plan.primary@ == spec_primary_input(p)
    &&& (match plan.secondary {
        Some(s) => mode_is_side_by_side(p) && s@ == opt_view(p.input_path_b),
        None => !mode_is_side_by_side(p),
    })
    &&& plan.uses_select == spec_uses_select(p)
    &&& spec_graph_ok(plan.graph, p)
}

/// Validates the request and builds its filter plan: rejected requests get
/// exactly the outcome of `spec_validation_error`, accepted ones a plan
/// satisfying `spec_plan_ok`.
pub fn build_filter_plan(params: &ExportParams) -> (r: Result<FilterPlan, BuildError>)
    ensures
        match r {
            Ok(plan) => spec_validation_error(*params) is None && spec_plan_ok(plan, *params),
            Err(e) => Some(e) == spec_validation_error(*params),
        },
{
    let mode = params.export_mode.as_str();
    let uses_select = params.trim_end_frame.is_some();
    if str_eq(mode, "input-b") {
        let primary: String = match &params.input_path_b {
            Some(s) => s.clone(),
            None => String::new(),
        };
        if primary.unicode_len() == 0 {
            return Err(BuildError::MissingInputB);
        }
        let mut fs = clip_filters(params);
        extend_stack_and_label(&mut fs, &None, &params.label_b);
        proof {
            reveal_strlit("input-b");
            reveal_strlit("side-by-side");
            assert(("input-b"@).len() == 7);
            assert(("side-by-side"@).len() == 12);
            assert(fs@.map_values(|s: String| s@) =~= spec_simple_filters(*params));
        }
        return Ok(FilterPlan {
            primary,
            secondary: None,
            graph: FilterGraph::Simple { filters: fs },
            uses_select,
        });
    }
    let side_by_side = str_eq(mode, "side-by-side");
    if side_by_side || str_eq(mode, "input-a") {
        let primary: String = match &params.input_path_a {
            Some(s) => s.clone(),
            None => String::new(),
        };
        if primary.unicode_len() == 0 {
            return Err(BuildError::MissingInputA);
        }
        if side_by_side {
            let second: String = match &params.input_path_b {
                Some(s) => s.clone(),
                None => String::new(),
            };
            if second.unicode_len() == 0 {
                return Err(BuildError::MissingInputB);
            }
            let mut left = clip_filters(params);
            extend_stack_and_label(&mut left, &params.stack_height, &params.label_a);
            let mut right = clip_filters(params);
            extend_stack_and_label(&mut right, &params.stack_height, &params.label_b);
            proof {
                assert(left@.map_values(|s: String| s@) =~= spec_left_filters(*params));
                assert(right@.map_values(|s: String| s@) =~= spec_right_filters(*params));
            }
            return Ok(FilterPlan {
                primary,
                secondary: Some(second),
                graph: FilterGraph::Composite { left, right },
                uses_select,
            });
        }
        let mut fs = clip_filters(params);
        extend_stack_and_label(&mut fs, &None, &params.label_a);
        proof {
            assert(fs@.map_values(|s: String| s@) =~= spec_simple_filters(*params));
        }
        return Ok(FilterPlan {
            primary,
            secondary: None,
            graph: FilterGraph::Simple { filters: fs },
            uses_select,
        });
    }
    Err(BuildError::UnknownMode)
}

/// The left chain as a graph node: its filters between the first input and
/// the `[left]` label, or an explicit pass-through when it has none, so the
/// node reference stays valid.
pub open spec fn spec_left_node(filters: Seq<Seq<char>>) -> Seq<char> {
    if filters.len() == 0 {
        "[0:v]null[left];"@
    } else {
        "[0:v]"@ + join_seq(filters, ","@) + "[left];"@
    }
}

/// The right chain as a graph node feeding `[right]`.
pub open spec fn spec_right_node(filters: Seq<Seq<char>>) -> Seq<char> {
    if filters.len() == 0 {
        "[1:v]null[right];"@
    } else {
        "[1:v]"@ + join_seq(filters, ","@) + "[right];"@
    }
}

/// The whole composition graph: both nodes, then the horizontal stack of
/// exactly those two into the output node.
pub open spec fn spec_composite_graph(left: Seq<Seq<char>>, right: Seq<Seq<char>>) -> Seq<char> {
    spec_left_node(left) + spec_right_node(right) + "[left][right]hstack=inputs=2[vout]"@
}

/// Renders the composition graph, matching `spec_composite_graph`.
pub fn render_composite(left: &Vec<String>, right: &Vec<String>) -> (r: String)
    ensures
        r@ == spec_composite_graph(
            left@.map_values(|s: String| s@),
            right@.map_values(|s: String| s@),
        ),
{
    let mut r = String::new();
    if left.len() == 0 {
        r.append("[0:v]null[left];");
    } else {
        r.append("[0:v]");
        r.append(join_with(left, ",").as_str());
        r.append("[left];");
    }
    if right.len() == 0 {
        r.append("[1:v]null[right];");
    } else {
        r.append("[1:v]");
        r.append(join_with(right, ",").as_str());
        r.append("[right];");
    }
    r.append("[left][right]hstack=inputs=2[vout]");
    proof {
        assert(r@ =~= spec_composite_graph(
            left@.map_values(|s: String| s@),
            right@.map_values(|s: String| s@),
        ));
    }
    r
}

/// Side-by-side composition always stacks exactly two input nodes: whatever
/// the two chains hold — even nothing, where the explicit pass-through node
/// stands in — the rendered graph defines a `[left]` and a `[right]` node
/// and ends by stacking exactly those two into the output node.
pub proof fn lemma_composite_two_stack_inputs(left: Seq<Seq<char>>, right: Seq<Seq<char>>)
    ensures
        has_substring(spec_composite_graph(left, right), "[left];"@),
        has_substring(spec_composite_graph(left, right), "[right];"@),
        ends_with(spec_composite_graph(left, right), "[left][right]hstack=inputs=2[vout]"@),
{
    reveal_strlit("[left];");
    reveal_strlit("[right];");
    reveal_strlit("[0:v]null[left];");
    reveal_strlit("[1:v]null[right];");
    reveal_strlit("[left][right]hstack=inputs=2[vout]");
    let g = spec_composite_graph(left, right);
    let ln = spec_left_node(left);
    let rn = spec_right_node(right);
    let tail = "[left][right]hstack=inputs=2[vout]"@;
    assert(("[left];"@).len() == 7);
    assert(("[right];"@).len() == 8);
    assert(ln.subrange(ln.len() - 7, ln.len() as int) =~= "[left];"@);
    assert(rn.subrange(rn.len() - 8, rn.len() as int) =~= "[right];"@);
    let i = ln.len() - 7;
    assert(g.subrange(i, i + 7) =~= ln.subrange(i, ln.len() as int));
    assert(has_substring(g, "[left];"@));
    let j = ln.len() + rn.len() - 8;
    assert(g.subrange(j, j + 8) =~= rn.subrange(rn.len() - 8, rn.len() as int));
    assert(has_substring(g, "[right];"@));
    assert(g.skip(g.len() - tail.len()) =~= tail);
}

} // verus!
