use maelstrom::decode::geometry::{
    bounded_dimensions, decoder_attempts, hardware_decoder_candidates,
    requires_cpu_frame_transfer, scaling_flags, thread_policy,
    HostPlatform, ScalerInput, ScalerState, ScalingFilter, VideoCodec, MAX_DIMENSION,
    MAX_FRAME_BYTES,
};
use maelstrom::decode::packing::{
    copy_rgba_frame, letterbox_rgba, pack_decoded_monitor_frame, pack_monitor_rgba, pack_rgba_rows,
    ScaledFrame,
};
use maelstrom::decode::request::{AccelerationPreference, DecodeBackend};
use maelstrom::decode::traversal::FrameStamp;
use std::sync::Arc;

struct Plane {
    width: u32,
    height: u32,
    stride: usize,
    data: Vec<u8>,
}

impl Plane {
    fn frame(&self) -> ScaledFrame<'_> {
        ScaledFrame {
            is_rgba: true,
            width: self.width,
            height: self.height,
            linesize: self.stride as i32,
            data: &self.data,
        }
    }
}

fn legacy_pack(frame: &Plane, output_size: (u32, u32)) -> Arc<[u8]> {
    let scaled = copy_rgba_frame(&frame.data, frame.stride, frame.width, frame.height).unwrap();
    Arc::from(letterbox_rgba(
        scaled,
        (frame.width, frame.height),
        output_size,
    ))
}

fn production_pack(frame: &Plane, output: (u32, u32)) -> Arc<[u8]> {
    pack_monitor_rgba(&frame.frame(), (frame.width, frame.height), output).unwrap()
}

fn patterned_rgba(width: u32, height: u32) -> Plane {
    let stride = (width as usize * 4).div_ceil(32) * 32;
    let mut data = vec![0xEE; stride * height as usize];
    for row in 0..height as usize {
        for column in 0..width as usize {
            let offset = row * stride + column * 4;
            data[offset..offset + 4].copy_from_slice(&[
                (column % 256) as u8,
                (row % 256) as u8,
                ((column + row) % 256) as u8,
                ((column ^ row) % 256) as u8,
            ]);
        }
    }
    Plane {
        width,
        height,
        stride,
        data,
    }
}

#[test]
fn production_packing_matches_legacy_for_native_and_centered_frames() {
    for width in 1..=9 {
        for height in 1..=9 {
            let frame = patterned_rgba(width, height);
            for extra_width in 0..=3 {
                for extra_height in 0..=3 {
                    let output = (width + extra_width, height + extra_height);
                    assert_eq!(production_pack(&frame, output), legacy_pack(&frame, output));
                }
            }
        }
    }
}

#[test]
fn production_packing_preserves_full_resolution_pixels_and_owned_lifetime() {
    for (scaled, output) in [
        ((1920, 1080), (1920, 1080)),
        ((810, 1080), (1920, 1080)),
        ((1920, 810), (1920, 1080)),
        ((1919, 1079), (1920, 1080)),
        ((3840, 2160), (3840, 2160)),
    ] {
        let mut frame = patterned_rgba(scaled.0, scaled.1);
        let expected = legacy_pack(&frame, output);
        let actual = production_pack(&frame, output);
        frame.data.fill(0xAA);
        drop(frame);
        assert_eq!(actual.len(), expected.len());
        assert_eq!(
            actual.iter().zip(expected.iter()).position(|(a, b)| a != b),
            None
        );
    }
}

#[test]
fn rgba_adapter_rejects_invalid_scaler_output_before_accessing_pixels() {
    let empty = ScaledFrame {
        is_rgba: false,
        width: 0,
        height: 0,
        linesize: 0,
        data: &[],
    };
    assert!(pack_monitor_rgba(&empty, (1, 1), (1, 1)).is_err());
    let plane = patterned_rgba(4, 2);
    let bgra = ScaledFrame {
        is_rgba: false,
        ..plane.frame()
    };
    assert!(pack_monitor_rgba(&bgra, (4, 2), (4, 2)).is_err());
    let rgba = plane.frame();
    assert!(pack_monitor_rgba(&rgba, (3, 2), (4, 2)).is_err());
    assert!(pack_monitor_rgba(&rgba, (4, 2), (3, 2)).is_err());
    for linesize in [1_000_000, -32, 0] {
        let altered = ScaledFrame { linesize, ..rgba };
        assert!(pack_monitor_rgba(&altered, (4, 2), (4, 2)).is_err());
    }
    assert!(pack_monitor_rgba(&rgba, (4, 2), (4, 2)).is_ok());
}

#[test]
fn monitor_frame_pack_keeps_identity_and_records_complete_packing_span() {
    let decoded = patterned_rgba(4, 2);
    let packed = pack_decoded_monitor_frame(
        &decoded.frame(),
        (4, 2),
        (4, 4),
        FrameStamp {
            request_id: 7,
            target_tick: 83_334,
            source_tick: 83_333,
        },
    )
    .unwrap();
    assert_eq!(
        (packed.request_id, packed.target_tick, packed.source_tick),
        (7, 83_334, 83_333)
    );
    assert_eq!((packed.width, packed.height), (4, 4));
    assert_eq!(packed.rgba, legacy_pack(&decoded, (4, 4)));
}

#[test]
fn preserves_exact_native_rgba_rows() {
    let source = [1, 2, 3, 4, 5, 6, 7, 8];
    assert_eq!(
        pack_rgba_rows(&source, 8, (2, 1), (2, 1)).unwrap().as_ref(),
        source
    );
}

#[test]
fn discards_stride_padding_and_keeps_alpha() {
    let source = [
        1, 2, 3, 4, 5, 6, 7, 255, 0xEE, 0xEE, 0xEE, 0xEE, 8, 9, 10, 11, 12, 13, 14, 254, 0xDD,
        0xDD, 0xDD, 0xDD,
    ];
    assert_eq!(
        pack_rgba_rows(&source, 12, (2, 2), (2, 2))
            .unwrap()
            .as_ref(),
        &[1, 2, 3, 4, 5, 6, 7, 255, 8, 9, 10, 11, 12, 13, 14, 254]
    );
}

#[test]
fn letterboxes_with_transparent_black_padding() {
    let source = [9, 8, 7, 6, 5, 4, 3, 2];
    let expected = [
        0, 0, 0, 0, 0, 0, 0, 0, 9, 8, 7, 6, 5, 4, 3, 2, 0, 0, 0, 0, 0, 0, 0, 0,
    ];
    assert_eq!(
        pack_rgba_rows(&source, 8, (2, 1), (2, 3)).unwrap().as_ref(),
        expected
    );
}

#[test]
fn odd_letterbox_extra_pixels_are_right_and_bottom() {
    let source = [11, 12, 13, 14];
    let packed = pack_rgba_rows(&source, 4, (1, 1), (4, 4)).unwrap();
    let pixel = |x: usize, y: usize| &packed[(y * 4 + x) * 4..(y * 4 + x + 1) * 4];
    assert_eq!(pixel(1, 1), source);
    assert_eq!(pixel(0, 1), [0; 4]);
    assert_eq!(pixel(2, 1), [0; 4]);
    assert_eq!(pixel(3, 1), [0; 4]);
    assert_eq!(pixel(1, 0), [0; 4]);
    assert_eq!(pixel(1, 2), [0; 4]);
    assert_eq!(pixel(1, 3), [0; 4]);
}

#[test]
fn one_pixel_frame_is_packed() {
    assert_eq!(
        pack_rgba_rows(&[0, 1, 2, 3], 4, (1, 1), (1, 1))
            .unwrap()
            .as_ref(),
        &[0, 1, 2, 3]
    );
}

#[test]
fn rejects_malformed_inputs() {
    for (data, stride, scaled, output) in [
        (&[][..], 0, (0, 1), (1, 1)),
        (&[0; 4][..], 4, (1, 1), (0, 1)),
        (&[0; 4][..], 4, (4_097, 1), (4_097, 1)),
        (&[0; 4][..], 4, (2, 1), (1, 1)),
        (&[0; 7][..], 7, (2, 1), (2, 1)),
        (&[0; 7][..], 8, (2, 1), (2, 1)),
        (&[0; 8][..], usize::MAX, (1, 2), (1, 2)),
    ] {
        assert!(pack_rgba_rows(data, stride, scaled, output).is_err());
    }
}

#[test]
fn each_malformed_input_is_named() {
    for (data, stride, scaled, output, message) in [
        (&[][..], 0, (0, 1), (1, 1), "scaled width must be nonzero"),
        (&[0; 4][..], 4, (1, 0), (1, 1), "scaled height must be nonzero"),
        (&[0; 4][..], 4, (1, 1), (0, 1), "output width must be nonzero"),
        (
            &[0; 4][..],
            4,
            (1, 1),
            (1, 4_097),
            "output height exceeds the maximum dimension",
        ),
        (
            &[0; 4][..],
            4,
            (2, 1),
            (1, 1),
            "scaled RGBA frame exceeds its output bounds",
        ),
        (
            &[0; 7][..],
            7,
            (2, 1),
            (2, 1),
            "monitor scaler returned an RGBA stride shorter than its row",
        ),
        (
            &[0; 8][..],
            usize::MAX,
            (1, 2),
            (1, 2),
            "scaled RGBA source length overflow",
        ),
        (
            &[0; 7][..],
            8,
            (2, 1),
            (2, 1),
            "monitor scaler returned a truncated RGBA frame",
        ),
    ] {
        assert_eq!(
            pack_rgba_rows(data, stride, scaled, output).unwrap_err(),
            message
        );
    }
}

#[test]
fn output_owns_its_bytes_and_arc_clones_share_them() {
    let packed = {
        let source = vec![1, 2, 3, 4];
        pack_rgba_rows(&source, 4, (1, 1), (1, 1)).unwrap()
    };
    let clone = Arc::clone(&packed);
    assert!(Arc::ptr_eq(&packed, &clone));
    assert_eq!(clone.as_ref(), &[1, 2, 3, 4]);
}

#[test]
fn truncated_frames_are_not_copied() {
    assert_eq!(
        copy_rgba_frame(&[0; 15], 8, 2, 2).unwrap_err(),
        "monitor scaler returned a truncated RGBA frame"
    );
    assert!(copy_rgba_frame(&[0; 16], 7, 2, 2).is_err());
    assert_eq!(copy_rgba_frame(&[5; 16], 8, 2, 2).unwrap(), vec![5; 16]);
    assert_eq!(copy_rgba_frame(&[], 8, 2, 0).unwrap(), Vec::<u8>::new());
}

#[test]
fn dimensions_are_clamped_and_allocation_is_bounded() {
    let (width, height, bytes) = bounded_dimensions(u32::MAX, u32::MAX);
    assert!((1..=MAX_DIMENSION).contains(&width));
    assert!((1..=MAX_DIMENSION).contains(&height));
    assert!(bytes <= MAX_FRAME_BYTES);
    assert_eq!(bounded_dimensions(0, 0), (1, 1, 4));
}

#[test]
fn ordinary_dimensions_stay_as_they_are() {
    assert_eq!(
        bounded_dimensions(1_920, 1_080),
        (1_920, 1_080, 1_920 * 1_080 * 4)
    );
    assert_eq!(bounded_dimensions(5_000, 2), (4_096, 2, 4_096 * 2 * 4));
}

#[test]
fn thread_policy_requires_both_full_hd_areas() {
    assert_eq!(thread_policy(1_920, 1_080, 1_919, 1_080, 8), 1);
    assert_eq!(thread_policy(1_919, 1_080, 1_920, 1_080, 8), 1);
    for cpus in [0, 1, 2, 3, 4, 7] {
        assert_eq!(thread_policy(1_920, 1_080, 1_920, 1_080, cpus), 1);
    }
    assert_eq!(thread_policy(1_920, 1_080, 1_920, 1_080, 8), 2);
    assert_eq!(thread_policy(1_920, 1_080, 1_920, 1_080, 28), 2);
    assert_eq!(thread_policy(4_096, 4_096, 4_096, 4_096, 8), 2);
}

#[test]
fn backend_identity_and_cpu_transfer_requirements_are_stable() {
    assert_eq!(
        DecodeBackend::VideoToolbox.display_name(),
        "Apple VideoToolbox"
    );
    assert_eq!(DecodeBackend::D3D11VA.display_name(), "Windows D3D11VA");
    assert_eq!(DecodeBackend::DXVA2.display_name(), "Windows DXVA2");
    assert!(requires_cpu_frame_transfer(DecodeBackend::VideoToolbox));
    assert!(requires_cpu_frame_transfer(DecodeBackend::D3D11VA));
    assert!(requires_cpu_frame_transfer(DecodeBackend::DXVA2));
    assert!(!requires_cpu_frame_transfer(DecodeBackend::Software));
    assert!(!requires_cpu_frame_transfer(DecodeBackend::IntelQuickSync));
    assert!(!requires_cpu_frame_transfer(DecodeBackend::Nvidia));
}

#[test]
fn scaler_policy_selects_requested_ffmpeg_filter() {
    assert_eq!(scaling_flags(true), ScalingFilter::Bicubic);
    assert_eq!(scaling_flags(false), ScalingFilter::Bilinear);
}

fn attempts(
    acceleration: AccelerationPreference,
    platform: HostPlatform,
    codec: VideoCodec,
) -> Vec<(Option<&'static str>, DecodeBackend)> {
    decoder_attempts(acceleration, platform, codec)
        .iter()
        .map(|attempt| (attempt.name, attempt.backend))
        .collect()
}

#[test]
fn named_decoders_come_before_windows_contexts() {
    assert_eq!(
        attempts(
            AccelerationPreference::Auto,
            HostPlatform::Windows,
            VideoCodec::H264
        ),
        vec![
            (Some("h264_cuvid"), DecodeBackend::Nvidia),
            (Some("h264_qsv"), DecodeBackend::IntelQuickSync),
            (None, DecodeBackend::D3D11VA),
            (None, DecodeBackend::DXVA2),
            (None, DecodeBackend::Software),
        ]
    );
    assert_eq!(
        attempts(
            AccelerationPreference::PreferHardware,
            HostPlatform::Windows,
            VideoCodec::Other
        ),
        vec![
            (None, DecodeBackend::D3D11VA),
            (None, DecodeBackend::DXVA2),
            (None, DecodeBackend::Software),
        ]
    );
}

#[test]
fn software_is_tried_last_or_alone() {
    assert_eq!(
        attempts(
            AccelerationPreference::PreferHardware,
            HostPlatform::MacOs,
            VideoCodec::Av1
        ),
        vec![
            (None, DecodeBackend::VideoToolbox),
            (Some("av1_cuvid"), DecodeBackend::Nvidia),
            (Some("av1_qsv"), DecodeBackend::IntelQuickSync),
            (None, DecodeBackend::Software),
        ]
    );
    assert_eq!(
        attempts(
            AccelerationPreference::Auto,
            HostPlatform::Other,
            VideoCodec::Other
        ),
        vec![(None, DecodeBackend::Software)]
    );
    assert_eq!(
        attempts(
            AccelerationPreference::Software,
            HostPlatform::Windows,
            VideoCodec::H264
        ),
        vec![(None, DecodeBackend::Software)]
    );
}

#[test]
fn cuvid_precedes_quick_sync() {
    let names: Vec<_> = hardware_decoder_candidates(VideoCodec::Hevc)
        .iter()
        .map(|candidate| (candidate.name, candidate.backend))
        .collect();
    assert_eq!(
        names,
        vec![
            ("hevc_cuvid", DecodeBackend::Nvidia),
            ("hevc_qsv", DecodeBackend::IntelQuickSync),
        ]
    );
    assert!(hardware_decoder_candidates(VideoCodec::Other).is_empty());
}

#[test]
fn a_scaler_is_rebuilt_exactly_when_its_ends_change() {
    let mut state = ScalerState {
        input: None,
        high_quality: Some(true),
        scaled_width: 40,
        scaled_height: 30,
        output_width: 40,
        output_height: 30,
    };
    assert!(!state.needs_output(40, 30, true));
    assert!(state.needs_output(40, 30, false));
    state.set_output((20, 15), (20, 20), false);
    assert!(!state.needs_output(20, 20, false));
    let input = ScalerInput {
        format: 23,
        width: 80,
        height: 60,
    };
    assert!(state.needs_input(input, (20, 15), false));
    state.set_input(input, (20, 15), false);
    assert!(!state.needs_input(input, (20, 15), false));
    assert!(state.needs_input(ScalerInput { width: 81, ..input }, (20, 15), false));
}
