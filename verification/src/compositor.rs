//! Deterministic planning for preview and export compositors.
//!
//! Layers occupy fixed slots in bottom-to-top order, so a renderer never has to infer z-order.
use crate::arith::{nearest_i64, saturating_sub_ticks};
use crate::audio::target::{is_finite_number, FadeProgress, Level};
use vstd::prelude::*;

verus! {

/// The maximum concurrently composited video layers supported by the preview.
pub const MAX_COMPOSITE_LAYERS: usize = 4;

/// Non-zero pixel dimensions for source or project frames.
#[derive(Clone, Copy, Debug, Eq, PartialEq, Structural)]
pub struct PixelSize {
    pub width: u32,
    pub height: u32,
}

impl PixelSize {
    pub fn new(width: u32, height: u32) -> (size: Self)
        ensures
            size == (PixelSize { width, height }),
    {
        PixelSize { width, height }
    }

    /// Whether there is a pixel at all.
    pub open spec fn has_pixels(self) -> bool {
        self.width != 0 && self.height != 0
    }

    pub fn is_nonzero(self) -> (nonzero: bool)
        ensures
            nonzero == self.has_pixels(),
    {
        self.width != 0 && self.height != 0
    }
}

/// A fixed-capacity compositing plan. Slots preserve request order bottom-to-top.
#[derive(Clone, Copy, Debug)]
pub struct CompositionPlan<Q> {
    pub project_size: PixelSize,
    pub layers: [Option<Q>; 4],
}

/// How a layer's source is brought to the project's size.
#[derive(Clone, Copy, Debug, Eq, PartialEq, Structural)]
pub enum ClipSizingMode {
    /// The whole source is seen, at its own aspect ratio.
    Fit,
    /// The whole project is covered, at the source's aspect ratio.
    Fill,
    /// The source takes on the project's size.
    Stretch,
    /// The source keeps its pixels.
    Original,
}

/// How a clip is placed in the project.
#[derive(Clone, Copy, Debug, PartialEq)]
pub struct ClipTransform {
    pub sizing_mode: ClipSizingMode,
    pub pos_x: Level,
    pub pos_y: Level,
    pub scale_x: Level,
    pub scale_y: Level,
    pub anchor_x: Level,
    pub anchor_y: Level,
    /// Clockwise in screen coordinates.
    pub rotation_degrees: Level,
    pub crop_left: Level,
    pub crop_right: Level,
    pub crop_top: Level,
    pub crop_bottom: Level,
    pub flip_h: bool,
    pub flip_v: bool,
    pub opacity: Level,
}

impl ClipTransform {
    /// Whether every number of the transform is finite.
    pub open spec fn all_finite(self) -> bool {
        &&& is_finite_number(self.pos_x.bits) && is_finite_number(self.pos_y.bits)
        &&& is_finite_number(self.scale_x.bits) && is_finite_number(self.scale_y.bits)
        &&& is_finite_number(self.anchor_x.bits) && is_finite_number(self.anchor_y.bits)
        &&& is_finite_number(self.rotation_degrees.bits)
        &&& is_finite_number(self.crop_left.bits) && is_finite_number(self.crop_right.bits)
        &&& is_finite_number(self.crop_top.bits) && is_finite_number(self.crop_bottom.bits)
        &&& is_finite_number(self.opacity.bits)
    }

    pub fn is_finite(self) -> (finite: bool)
        ensures
            finite == self.all_finite(),
    {
        self.pos_x.is_finite() && self.pos_y.is_finite() && self.scale_x.is_finite()
            && self.scale_y.is_finite() && self.anchor_x.is_finite() && self.anchor_y.is_finite()
            && self.rotation_degrees.is_finite() && self.crop_left.is_finite()
            && self.crop_right.is_finite() && self.crop_top.is_finite()
            && self.crop_bottom.is_finite() && self.opacity.is_finite()
    }
}

/// One source layer to be composed. Input slots are bottom-to-top.
#[derive(Clone, Copy, Debug, PartialEq)]
pub struct CompositeLayerInput {
    pub clip_id: u32,
    pub source_size: PixelSize,
    pub transform: ClipTransform,
    /// Runtime fade multiplier. It is intentionally not persisted on the clip.
    pub fade_opacity: Level,
}

/// A complete immutable composition request. Empty slots are skipped.
#[derive(Clone, Copy, Debug)]
pub struct CompositionRequest {
    pub project_size: PixelSize,
    pub layers: [Option<CompositeLayerInput>; 4],
}

/// A corner of the cropped source.
#[derive(Clone, Copy, Debug, Eq, PartialEq, Structural)]
pub struct SourceCorner {
    /// Whether it lies on the right edge and not on the left one.
    pub right: bool,
    /// Whether it lies on the bottom edge and not on the top one.
    pub bottom: bool,
}

/// The corners of the cropped source that the corners of a quad show.
#[derive(Clone, Copy, Debug, Eq, PartialEq, Structural)]
pub struct SourceCorners {
    pub top_left: SourceCorner,
    pub top_right: SourceCorner,
    pub bottom_right: SourceCorner,
    pub bottom_left: SourceCorner,
}

/// What a layer's quad is made from.
#[derive(Clone, Copy, Debug, PartialEq)]
pub struct LayerPlan {
    pub input: CompositeLayerInput,
    pub corners: SourceCorners,
}

/// The source corners of a layer: a flip exchanges the edges of its axis.
pub open spec fn corners_shown(flip_h: bool, flip_v: bool) -> SourceCorners {
    SourceCorners {
        top_left: SourceCorner { right: flip_h, bottom: flip_v },
        top_right: SourceCorner { right: !flip_h, bottom: flip_v },
        bottom_right: SourceCorner { right: !flip_h, bottom: !flip_v },
        bottom_left: SourceCorner { right: flip_h, bottom: !flip_v },
    }
}

pub fn source_corners(flip_h: bool, flip_v: bool) -> (corners: SourceCorners)
    ensures
        corners == corners_shown(flip_h, flip_v),
{
    SourceCorners {
        top_left: SourceCorner { right: flip_h, bottom: flip_v },
        top_right: SourceCorner { right: !flip_h, bottom: flip_v },
        bottom_right: SourceCorner { right: !flip_h, bottom: !flip_v },
        bottom_left: SourceCorner { right: flip_h, bottom: !flip_v },
    }
}

/// What a slot plans: nothing where it is empty or its layer is invalid.
pub open spec fn slot_plan(input: Option<CompositeLayerInput>) -> Option<LayerPlan> {
    match input {
        Some(input) if input.source_size.has_pixels() && is_finite_number(input.fade_opacity.bits)
            && input.transform.all_finite() => Some(
            LayerPlan {
                input,
                corners: corners_shown(input.transform.flip_h, input.transform.flip_v),
            },
        ),
        _ => None,
    }
}

/// Plans one layer. A source without pixels, or a number that is not finite, leaves it out.
pub fn plan_layer(input: CompositeLayerInput) -> (plan: Option<LayerPlan>)
    ensures
        plan == slot_plan(Some(input)),
{
    if !input.source_size.is_nonzero() || !input.fade_opacity.is_finite()
        || !input.transform.is_finite() {
        return None;
    }
    Some(
        LayerPlan {
            input,
            corners: source_corners(input.transform.flip_h, input.transform.flip_v),
        },
    )
}

fn plan_slot(input: Option<CompositeLayerInput>) -> (plan: Option<LayerPlan>)
    ensures
        plan == slot_plan(input),
{
    match input {
        Some(input) => plan_layer(input),
        None => None,
    }
}

/// Plans a composition. Invalid project dimensions return `None`; an invalid layer remains an empty
/// transparent slot so it cannot suppress ready layers.
pub fn plan_composition(request: CompositionRequest) -> (plan: Option<CompositionPlan<LayerPlan>>)
    ensures
        plan is Some == request.project_size.has_pixels(),
        plan matches Some(plan) ==> plan.project_size == request.project_size && forall|slot: int|
            0 <= slot < MAX_COMPOSITE_LAYERS ==> (#[trigger] plan.layers@[slot]) == slot_plan(
                request.layers@[slot],
            ),
{
    if !request.project_size.is_nonzero() {
        return None;
    }
    let layers = [
        plan_slot(request.layers[0]),
        plan_slot(request.layers[1]),
        plan_slot(request.layers[2]),
        plan_slot(request.layers[3]),
    ];
    Some(CompositionPlan { project_size: request.project_size, layers })
}

/// The corners that a quad shows are the four corners of the source, each once, and opposite
/// corners stay opposite, whatever is flipped.
pub proof fn law_flips_keep_the_picture_whole(flip_h: bool, flip_v: bool, corner: SourceCorner)
    ensures
        ({
            let shown = corners_shown(flip_h, flip_v);
            &&& {
                ||| corner == shown.top_left
                ||| corner == shown.top_right
                ||| corner == shown.bottom_right
                ||| corner == shown.bottom_left
            }
            &&& shown.top_left.right != shown.bottom_right.right
            &&& shown.top_left.bottom != shown.bottom_right.bottom
            &&& shown.top_right.right != shown.bottom_left.right
            &&& shown.top_right.bottom != shown.bottom_left.bottom
        }),
{
}

/// A valid layer is planned with its own values, whatever the other slots hold.
pub proof fn law_valid_layer_is_planned(input: CompositeLayerInput)
    requires
        input.source_size.has_pixels(),
        is_finite_number(input.fade_opacity.bits),
        input.transform.all_finite(),
    ensures
        slot_plan(Some(input)) matches Some(plan) && plan.input == input,
{
}

/// How far the fades of a clip have come at a tick relative to its start; there is none where no
/// fade bears on the tick.
#[derive(Clone, Copy, Debug, PartialEq, Eq, Structural)]
pub struct VideoFades {
    pub fade_in: Option<FadeProgress>,
    pub fade_out: Option<FadeProgress>,
}

/// `tick` brought into a clip of this duration.
pub open spec fn within_clip(tick: int, duration: int) -> int {
    if tick < 0 {
        0
    } else if tick > duration {
        duration
    } else {
        tick
    }
}

/// The fades that bear on a tick of a clip. Each goes from its transparent edge towards full level.
pub fn video_fades_at(
    clip_duration: i64,
    fade_in_duration: i64,
    fade_out_duration: i64,
    relative_tick: i64,
) -> (fades: VideoFades)
    requires
        clip_duration >= 0,
    ensures
        ({
            let relative = within_clip(relative_tick as int, clip_duration as int);
            &&& fades.fade_in == (if fade_in_duration > 0 && relative < fade_in_duration {
                Some(FadeProgress { elapsed: relative as i64, duration: fade_in_duration })
            } else {
                None
            })
            &&& fades.fade_out == (if fade_out_duration > 0 && relative > nearest_i64(
                clip_duration - fade_out_duration,
            ) {
                Some(
                    FadeProgress {
                        elapsed: (clip_duration - relative) as i64,
                        duration: fade_out_duration,
                    },
                )
            } else {
                None
            })
        }),
{
    let relative: i64 = if relative_tick < 0 {
        0
    } else if relative_tick > clip_duration {
        clip_duration
    } else {
        relative_tick
    };
    let fade_in = if fade_in_duration > 0 && relative < fade_in_duration {
        Some(FadeProgress { elapsed: relative, duration: fade_in_duration })
    } else {
        None
    };
    let fade_out_start: i64 = saturating_sub_ticks(clip_duration, fade_out_duration);
    let fade_out = if fade_out_duration > 0 && relative > fade_out_start {
        Some(FadeProgress { elapsed: clip_duration - relative, duration: fade_out_duration })
    } else {
        None
    };
    VideoFades { fade_in, fade_out }
}

/// Each flip bears on its own axis, always, and on no other: the top left of a layer shows the edge
/// that its flips say, turning one flip over exchanges the edges of its axis in every corner and
/// leaves the other axis alone, and neighbouring corners differ in one axis only.
pub proof fn law_each_flip_turns_its_own_axis(flip_h: bool, flip_v: bool)
    ensures
        ({
            let shown = corners_shown(flip_h, flip_v);
            let turned_h = corners_shown(!flip_h, flip_v);
            let turned_v = corners_shown(flip_h, !flip_v);
            &&& shown.top_left.right == flip_h && shown.top_left.bottom == flip_v
            &&& shown.top_right.right != shown.top_left.right && shown.top_right.bottom
                == shown.top_left.bottom
            &&& shown.bottom_left.right == shown.top_left.right && shown.bottom_left.bottom
                != shown.top_left.bottom
            &&& shown.bottom_right.right == shown.top_right.right && shown.bottom_right.bottom
                == shown.bottom_left.bottom
            &&& turned_h.top_left == shown.top_right && turned_h.top_right == shown.top_left
            &&& turned_h.bottom_left == shown.bottom_right && turned_h.bottom_right
                == shown.bottom_left
            &&& turned_v.top_left == shown.bottom_left && turned_v.bottom_left == shown.top_left
            &&& turned_v.top_right == shown.bottom_right && turned_v.bottom_right
                == shown.top_right
        }),
{
}

/// A slot is planned exactly where it holds a layer with pixels whose every number is finite; the
/// plan then holds that layer, turned the way its own flips say.
pub proof fn law_slot_is_planned_exactly_when_valid(input: CompositeLayerInput)
    ensures
        slot_plan(None) is None,
        slot_plan(Some(input)) is Some <==> {
            let t = input.transform;
            &&& input.source_size.width > 0 && input.source_size.height > 0
            &&& is_finite_number(input.fade_opacity.bits) && is_finite_number(t.opacity.bits)
            &&& is_finite_number(t.pos_x.bits) && is_finite_number(t.pos_y.bits)
            &&& is_finite_number(t.scale_x.bits) && is_finite_number(t.scale_y.bits)
            &&& is_finite_number(t.anchor_x.bits) && is_finite_number(t.anchor_y.bits)
            &&& is_finite_number(t.rotation_degrees.bits)
            &&& is_finite_number(t.crop_left.bits) && is_finite_number(t.crop_right.bits)
            &&& is_finite_number(t.crop_top.bits) && is_finite_number(t.crop_bottom.bits)
        },
        slot_plan(Some(input)) matches Some(plan) ==> {
            &&& plan.input == input
            &&& plan.corners.top_left.right == input.transform.flip_h
            &&& plan.corners.top_left.bottom == input.transform.flip_v
            &&& plan.corners.bottom_right.right == !input.transform.flip_h
            &&& plan.corners.bottom_right.bottom == !input.transform.flip_v
        },
{
}

/// A tick is brought into its clip: one inside stays, and one outside goes to the nearer end.
pub proof fn law_ticks_stay_within_their_clip(tick: int, duration: int)
    requires
        0 <= duration,
    ensures
        0 <= within_clip(tick, duration) <= duration,
        0 <= tick <= duration ==> within_clip(tick, duration) == tick,
        tick <= 0 ==> within_clip(tick, duration) == 0,
        tick >= duration ==> within_clip(tick, duration) == duration,
{
}

/// A composition is planned exactly where its project has pixels, and each slot on its own: it holds
/// its own layer, each corner turned by that layer's own flips, or nothing where the slot is empty or
/// its source has no pixels.
pub proof fn law_slots_are_planned_on_their_own(
    request: CompositionRequest,
    planned: Option<CompositionPlan<LayerPlan>>,
    slot: int,
)
    requires
        call_ensures(plan_composition, (request,), planned),
        0 <= slot < 4,
    ensures
        planned is Some <==> request.project_size.width > 0 && request.project_size.height > 0,
        planned matches Some(plan) ==> {
            &&& plan.project_size == request.project_size
            &&& request.layers@[slot] is None ==> plan.layers@[slot] is None
            &&& plan.layers@[slot] matches Some(layer) ==> {
                &&& request.layers@[slot] == Some(layer.input)
                &&& layer.input.source_size.width > 0 && layer.input.source_size.height > 0
                &&& is_finite_number(layer.input.fade_opacity.bits)
                &&& layer.corners.top_left.right == layer.input.transform.flip_h
                &&& layer.corners.top_left.bottom == layer.input.transform.flip_v
                &&& layer.corners.top_right.right == !layer.input.transform.flip_h
                &&& layer.corners.top_right.bottom == layer.input.transform.flip_v
                &&& layer.corners.bottom_right.right == !layer.input.transform.flip_h
                &&& layer.corners.bottom_right.bottom == !layer.input.transform.flip_v
                &&& layer.corners.bottom_left.right == layer.input.transform.flip_h
                &&& layer.corners.bottom_left.bottom == !layer.input.transform.flip_v
            }
            &&& request.layers@[slot] matches Some(input) ==> {
                let t = input.transform;
                plan.layers@[slot] is Some <==> {
                    &&& input.source_size.width > 0 && input.source_size.height > 0
                    &&& is_finite_number(input.fade_opacity.bits)
                        && is_finite_number(t.opacity.bits)
                    &&& is_finite_number(t.pos_x.bits) && is_finite_number(t.pos_y.bits)
                    &&& is_finite_number(t.scale_x.bits) && is_finite_number(t.scale_y.bits)
                    &&& is_finite_number(t.anchor_x.bits) && is_finite_number(t.anchor_y.bits)
                    &&& is_finite_number(t.rotation_degrees.bits)
                    &&& is_finite_number(t.crop_left.bits) && is_finite_number(t.crop_right.bits)
                    &&& is_finite_number(t.crop_top.bits) && is_finite_number(t.crop_bottom.bits)
                }
            }
        },
{
}

/// A fade bears on a tick exactly within its own length of its own end of the clip, and has come as far
/// as the tick is from that end.
pub proof fn law_video_fades_bear_on_their_ends(
    clip_duration: i64,
    fade_in_duration: i64,
    fade_out_duration: i64,
    relative_tick: i64,
    fades: VideoFades,
)
    requires
        call_ensures(
            video_fades_at,
            (clip_duration, fade_in_duration, fade_out_duration, relative_tick),
            fades,
        ),
        0 <= relative_tick <= clip_duration,
        0 <= fade_out_duration,
    ensures
        fades.fade_in is Some <==> fade_in_duration > 0 && relative_tick < fade_in_duration,
        fades.fade_in matches Some(progress) ==> progress.elapsed == relative_tick
            && progress.duration == fade_in_duration,
        fades.fade_out is Some <==> fade_out_duration > 0 && clip_duration - relative_tick
            < fade_out_duration,
        fades.fade_out matches Some(progress) ==> progress.elapsed == clip_duration - relative_tick
            && progress.duration == fade_out_duration,
{
}

} // verus!
