use maelstrom::audio::target::{FadeProgress, Level};
use maelstrom::compositor::{
    plan_composition, plan_layer, source_corners, video_fades_at, ClipSizingMode, ClipTransform,
    CompositeLayerInput, CompositionRequest, PixelSize, SourceCorner, MAX_COMPOSITE_LAYERS,
};

fn level(number: f32) -> Level {
    Level {
        bits: number.to_bits(),
    }
}

fn neutral(sizing_mode: ClipSizingMode) -> ClipTransform {
    ClipTransform {
        sizing_mode,
        pos_x: level(0.0),
        pos_y: level(0.0),
        scale_x: level(1.0),
        scale_y: level(1.0),
        anchor_x: level(0.5),
        anchor_y: level(0.5),
        rotation_degrees: level(0.0),
        crop_left: level(0.0),
        crop_right: level(0.0),
        crop_top: level(0.0),
        crop_bottom: level(0.0),
        flip_h: false,
        flip_v: false,
        opacity: level(1.0),
    }
}

fn layer(clip_id: u32, width: u32, height: u32) -> CompositeLayerInput {
    CompositeLayerInput {
        clip_id,
        source_size: PixelSize::new(width, height),
        transform: neutral(ClipSizingMode::Fit),
        fade_opacity: level(1.0),
    }
}

fn request() -> CompositionRequest {
    CompositionRequest {
        project_size: PixelSize::new(200, 100),
        layers: [Some(layer(1, 50, 50)), None, None, None],
    }
}

#[test]
fn fixed_order_and_capacity_are_preserved() {
    let mut request = request();
    for (slot, id) in [3, 8, 13, 21].into_iter().enumerate() {
        request.layers[slot] = Some(layer(id, 100, 100));
    }
    let plan = plan_composition(request).unwrap();
    assert_eq!(
        plan.layers.map(|layer| layer.unwrap().input.clip_id),
        [3, 8, 13, 21]
    );
    assert_eq!(plan.layers.len(), MAX_COMPOSITE_LAYERS);
    assert_eq!(plan.project_size, PixelSize::new(200, 100));
}

#[test]
fn invalid_dimensions_and_nonfinite_inputs_are_rejected() {
    let mut invalid_size = request();
    invalid_size.project_size.width = 0;
    assert!(plan_composition(invalid_size).is_none());
    let mut invalid_opacity = request();
    invalid_opacity.layers[0].as_mut().unwrap().fade_opacity = level(f32::NAN);
    assert!(plan_composition(invalid_opacity).unwrap().layers[0].is_none());
}

#[test]
fn invalid_layer_is_transparent_without_suppressing_ready_layers() {
    let mut request = request();
    for (slot, id) in [3, 8, 13, 21].into_iter().enumerate() {
        request.layers[slot] = Some(layer(id, 100, 100));
    }
    request.layers[2].as_mut().unwrap().source_size.height = 0;
    let plan = plan_composition(request).unwrap();
    assert_eq!(plan.layers[0].unwrap().input.clip_id, 3);
    assert_eq!(plan.layers[1].unwrap().input.clip_id, 8);
    assert!(plan.layers[2].is_none());
    assert_eq!(plan.layers[3].unwrap().input.clip_id, 21);
}

#[test]
fn empty_slots_and_empty_projects_plan_nothing() {
    let plan = plan_composition(request()).unwrap();
    assert!(plan.layers[0].is_some());
    assert!(plan.layers[1..].iter().all(|layer| layer.is_none()));
    for size in [PixelSize::new(0, 100), PixelSize::new(100, 0)] {
        assert!(!size.is_nonzero());
        let mut empty = request();
        empty.project_size = size;
        assert!(plan_composition(empty).is_none());
    }
    assert!(PixelSize::new(1, 1).is_nonzero());
}

#[test]
fn each_number_of_a_transform_has_to_be_finite() {
    for broken in [f32::NAN, f32::INFINITY, f32::NEG_INFINITY] {
        let setters: [fn(&mut ClipTransform, Level); 12] = [
            |t, n| t.pos_x = n,
            |t, n| t.pos_y = n,
            |t, n| t.scale_x = n,
            |t, n| t.scale_y = n,
            |t, n| t.anchor_x = n,
            |t, n| t.anchor_y = n,
            |t, n| t.rotation_degrees = n,
            |t, n| t.crop_left = n,
            |t, n| t.crop_right = n,
            |t, n| t.crop_top = n,
            |t, n| t.crop_bottom = n,
            |t, n| t.opacity = n,
        ];
        for set in setters {
            let mut input = layer(1, 50, 50);
            set(&mut input.transform, level(-f32::MAX));
            assert!(plan_layer(input).is_some());
            set(&mut input.transform, level(broken));
            assert!(!input.transform.is_finite());
            assert!(plan_layer(input).is_none());
        }
    }
}

#[test]
fn flips_exchange_the_edges_of_their_axis() {
    let corner = |right, bottom| SourceCorner { right, bottom };
    let plain = source_corners(false, false);
    assert_eq!(plain.top_left, corner(false, false));
    assert_eq!(plain.top_right, corner(true, false));
    assert_eq!(plain.bottom_right, corner(true, true));
    assert_eq!(plain.bottom_left, corner(false, true));
    let mut input = layer(1, 50, 50);
    input.transform.flip_h = true;
    input.transform.flip_v = true;
    let both = plan_layer(input).unwrap().corners;
    assert_eq!(both.top_left, corner(true, true));
    assert_eq!(both.top_right, corner(false, true));
    assert_eq!(both.bottom_right, corner(false, false));
    assert_eq!(both.bottom_left, corner(true, false));
    assert_eq!(source_corners(true, false).top_left, corner(true, false));
}

#[test]
fn fades_bear_only_on_their_edges() {
    let progress = |elapsed, duration| Some(FadeProgress { elapsed, duration });
    let fades = video_fades_at(1_000, 100, 200, 40);
    assert_eq!(fades.fade_in, progress(40, 100));
    assert_eq!(fades.fade_out, None);
    let fades = video_fades_at(1_000, 100, 200, 100);
    assert_eq!((fades.fade_in, fades.fade_out), (None, None));
    let fades = video_fades_at(1_000, 100, 200, 800);
    assert_eq!(fades.fade_out, None);
    let fades = video_fades_at(1_000, 100, 200, 801);
    assert_eq!(fades.fade_out, progress(199, 200));
    let fades = video_fades_at(1_000, 100, 200, 5_000);
    assert_eq!(fades.fade_out, progress(0, 200));
    let fades = video_fades_at(1_000, 100, 200, -5);
    assert_eq!(fades.fade_in, progress(0, 100));
    let fades = video_fades_at(1_000, 0, 0, 0);
    assert_eq!((fades.fade_in, fades.fade_out), (None, None));
}
