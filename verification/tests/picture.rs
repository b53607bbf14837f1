use pimax_alvr::decoder::{
    begin_push_nal, choose_decoder, codec_for_label, continue_push_nal, decoder_output_step,
    mime_for_codec, poll_upstream_frame, release_upstream_decoder, software_codec_name,
    upstream_decoder_dimensions, CodecType, DecodedImageQueue, DecoderChoice, DecoderLoopAction, DecoderOutput, NalAction,
    RelaxedAtomic, UpstreamDecoder,
};
use pimax_alvr::staging::{
    neutralize_zero_chroma, push_staged_nv12_as_rgba, select_region, stage_decoded_image,
    stage_packed_yuv_as_rgba, stage_rgba_image, stage_yuv420_image_as_nv12, CropRect,
    DecodedFormat, ImagePlane, Region, StagingError, StagingKind,
};
use pimax_alvr::video::{
    active_foveation_for_frame, connect_to_alvr, copy_rgba_frame_to_target,
    copy_video_frame_to_target, disconnect, foveated_frame_size, get_connection_info,
    get_latest_frame, get_video_receiver, is_connected, logs_debug_frame, parse_debug_rgba_header,
    push_rgba_frame, push_video_frame, source_eye_for_target, source_span, DebugRgbaError,
    FoveationError, HardwareBufferLease, ReceiverState, RgbaError, SourceSpan, UploadPath,
    VideoFrameEye,
};

#[test]
fn codecs_are_named() {
    for codec in [CodecType::H264, CodecType::Hevc, CodecType::AV1] {
        assert_eq!(codec_for_label(codec.label()), codec);
        assert_eq!(mime_for_codec(codec), codec.mime_type());
    }
    assert_eq!(codec_for_label("VP9"), CodecType::H264);
    assert_eq!(CodecType::Hevc.mime_type(), "video/hevc");
    assert!(software_codec_name(CodecType::H264).is_some());
}

#[test]
fn key_frames_restart_the_decoder() {
    let mut decoder = UpstreamDecoder::new();
    assert!(matches!(begin_push_nal(&decoder, false), NalAction::Done(false)));
    assert!(matches!(begin_push_nal(&decoder, true), NalAction::Restart(_)));
    assert!(!decoder.begin_restart());
    decoder.configured("HEVC", vec![1, 2], 64, 32);
    decoder.installed(64, 32);
    assert_eq!(upstream_decoder_dimensions(&decoder), Some((64, 32)));
    let stage = match begin_push_nal(&decoder, true) {
        NalAction::Push(stage) => stage,
        _ => panic!("expected a push"),
    };
    let stage = match continue_push_nal(&mut decoder, stage, false, true) {
        NalAction::Restart(stage) => stage,
        _ => panic!("expected a restart"),
    };
    assert!(decoder.begin_restart());
    assert_eq!(decoder.diagnostics.restart_count, 1);
    let stage = match continue_push_nal(&mut decoder, stage, true, true) {
        NalAction::Push(stage) => stage,
        _ => panic!("expected another push"),
    };
    assert!(matches!(
        continue_push_nal(&mut decoder, stage, true, true),
        NalAction::Done(true)
    ));
    release_upstream_decoder(&mut decoder);
    assert_eq!(upstream_decoder_dimensions(&decoder), None);
}

#[test]
fn saturated_decoders_are_counted() {
    let mut decoder = UpstreamDecoder::new();
    decoder.configured("H264", vec![], 2, 2);
    decoder.installed(2, 2);
    let stage = match begin_push_nal(&decoder, false) {
        NalAction::Push(stage) => stage,
        _ => panic!("expected a push"),
    };
    assert!(matches!(
        continue_push_nal(&mut decoder, stage, false, false),
        NalAction::Done(false)
    ));
    assert_eq!(decoder.diagnostics.backpressure_count, 1);
    decoder.note_fatal_error();
    assert_eq!(decoder.diagnostics.fatal_error_count, 1);
}

#[test]
fn the_newest_image_is_shown() {
    let mut queue = DecodedImageQueue::new();
    assert!(queue.dequeue_frame().is_none());
    queue.push(1, 10);
    queue.push(2, 11);
    let shown = queue.dequeue_frame().unwrap();
    assert_eq!((shown.timestamp_ns, shown.slot, shown.in_use), (2, 11, true));
    assert_eq!(queue.images.len(), 1);
    queue.push(3, 12);
    queue.push(4, 13);
    assert_eq!(queue.drop_stale(), 2);
    assert_eq!(queue.images.len(), 1);
    queue.clear();
    assert!(queue.images.is_empty());
}

#[test]
fn decoders_give_up_after_five_errors() {
    let mut errors = 0;
    for _ in 0..4 {
        assert!(matches!(
            decoder_output_step(&mut errors, DecoderOutput::Failed),
            DecoderLoopAction::PauseLong
        ));
    }
    assert!(matches!(
        decoder_output_step(&mut errors, DecoderOutput::Failed),
        DecoderLoopAction::Stop
    ));
    let mut errors = 4;
    decoder_output_step(&mut errors, DecoderOutput::Empty);
    assert_eq!(errors, 0);
}

#[test]
fn decoders_are_tried_in_turn() {
    assert!(matches!(choose_decoder(false, None), DecoderChoice::Platform));
    assert!(matches!(choose_decoder(true, None), DecoderChoice::Software));
    assert!(matches!(
        choose_decoder(false, Some(DecoderChoice::Platform)),
        DecoderChoice::Software
    ));
    assert!(matches!(
        choose_decoder(false, Some(DecoderChoice::Software)),
        DecoderChoice::GiveUp
    ));
    let mut flag = RelaxedAtomic::new(false);
    flag.set(true);
    assert!(flag.value());
}

fn gray(y: u8, _u: u8, _v: u8) -> [u8; 3] {
    [y, y, y]
}

#[test]
fn planes_become_nv12_and_pixels() {
    let region = select_region(None, 2, 2);
    assert_eq!((region.left, region.top, region.width, region.height), (0, 0, 2, 2));
    let y = ImagePlane {
        data: &[1, 2, 0, 3, 4],
        row_stride: 3,
        pixel_stride: 1,
    };
    let u = ImagePlane {
        data: &[50],
        row_stride: 1,
        pixel_stride: 1,
    };
    let v = ImagePlane {
        data: &[60],
        row_stride: 1,
        pixel_stride: 1,
    };
    let nv12 = stage_yuv420_image_as_nv12(&region, &y, &u, &v).ok().unwrap();
    assert_eq!(nv12, vec![1, 2, 3, 4, 50, 60]);
    let rgba = push_staged_nv12_as_rgba(2, 2, &nv12, &gray).ok().unwrap();
    assert_eq!(
        rgba,
        vec![1, 1, 1, 255, 2, 2, 2, 255, 3, 3, 3, 255, 4, 4, 4, 255]
    );
}

#[test]
fn packed_images_become_pixels() {
    let region = Region {
        left: 0,
        top: 0,
        width: 2,
        height: 2,
    };
    let plane = ImagePlane {
        data: &[9, 8, 7, 6, 100, 110],
        row_stride: 2,
        pixel_stride: 1,
    };
    let rgba = stage_packed_yuv_as_rgba(&region, &plane, 2, &gray).ok().unwrap();
    assert_eq!(rgba.len(), 16);
    assert_eq!(rgba[..4], [9, 9, 9, 255]);
}

#[test]
fn pixels_are_packed() {
    let plane = ImagePlane {
        data: &[1, 2, 3, 4, 0, 0, 5, 6, 7, 8],
        row_stride: 6,
        pixel_stride: 4,
    };
    let rgba = stage_rgba_image(1, 2, 1, &plane).ok().unwrap();
    assert_eq!(rgba, vec![1, 2, 3, 4, 5, 6, 7, 8]);
    assert!(matches!(
        stage_rgba_image(1, 2, 0, &plane),
        Err(StagingError::NoPlanes)
    ));
    assert!(matches!(
        stage_rgba_image(usize::MAX, 2, 1, &plane),
        Err(StagingError::SizeOverflow)
    ));
}

#[test]
fn crops_are_kept_inside() {
    let crop = CropRect {
        left: 1,
        top: 1,
        right: 3,
        bottom: 3,
    };
    let region = select_region(Some(crop), 4, 4);
    assert_eq!((region.left, region.top, region.width, region.height), (1, 1, 2, 2));
    let bad = CropRect {
        left: 3,
        top: 3,
        right: 1,
        bottom: 1,
    };
    let region = select_region(Some(bad), 4, 4);
    assert!(region.left + region.width <= 4 && region.top + region.height <= 4);
}

#[test]
fn empty_chroma_is_neutral() {
    let (mut u, mut v) = (0, 0);
    neutralize_zero_chroma(&mut u, &mut v);
    assert_eq!((u, v), (128, 128));
    let (mut u, mut v) = (0, 5);
    neutralize_zero_chroma(&mut u, &mut v);
    assert_eq!((u, v), (0, 5));
}

#[test]
fn formats_are_staged_by_kind() {
    assert!(matches!(
        stage_decoded_image(DecodedFormat::Yuv420, 3),
        StagingKind::YuvPlanes
    ));
    assert!(matches!(
        stage_decoded_image(DecodedFormat::Yuv420, 1),
        StagingKind::PackedYuv
    ));
    assert!(matches!(
        stage_decoded_image(DecodedFormat::Rgbx, 1),
        StagingKind::Rgba
    ));
    assert!(matches!(
        stage_decoded_image(DecodedFormat::Private, 0),
        StagingKind::NotStaged
    ));
}

#[test]
fn receivers_hold_the_latest_frame() {
    let mut shared = None;
    let receiver = get_video_receiver(&mut shared);
    assert!(!is_connected(receiver));
    connect_to_alvr(receiver, "10.0.0.1", 9944);
    assert!(is_connected(receiver));
    assert_eq!(get_connection_info(receiver).as_deref(), Some("10.0.0.1:9944"));
    push_video_frame(receiver, 5, 16, 200, 100, 0, HardwareBufferLease::acquire(16));
    let frame = get_latest_frame(receiver).unwrap();
    assert_eq!(frame.timestamp_ns, 5);
    assert!(matches!(copy_video_frame_to_target(frame), UploadPath::HardwareBuffer));
    assert!(active_foveation_for_frame(Some((200, 100)), frame));
    push_rgba_frame(receiver, 6, 1, 1, vec![1, 2, 3, 4]);
    let frame = get_latest_frame(receiver).unwrap();
    assert!(matches!(copy_video_frame_to_target(frame), UploadPath::Pixels));
    assert!(!active_foveation_for_frame(Some((200, 100)), frame));
    disconnect(receiver);
    assert!(!is_connected(receiver));
    assert!(HardwareBufferLease::acquire(0).is_none());
}

#[test]
fn the_receiver_is_made_once() {
    let mut shared = None;
    let receiver = get_video_receiver(&mut shared);
    assert!(matches!(receiver.state, ReceiverState::Disconnected));
    assert!(!is_connected(receiver));
    assert!(get_latest_frame(receiver).is_none());
    assert!(get_connection_info(receiver).is_none());
    connect_to_alvr(receiver, "10.0.0.1", 9944);
    push_rgba_frame(receiver, 6, 1, 1, vec![1, 2, 3, 4]);
    let again = get_video_receiver(&mut shared);
    assert!(is_connected(again));
    assert!(matches!(again.state, ReceiverState::Streaming));
    assert_eq!(get_connection_info(again).as_deref(), Some("10.0.0.1:9944"));
    assert_eq!(get_latest_frame(again).unwrap().timestamp_ns, 6);
    assert!(shared.is_some());
}

#[test]
fn eyes_take_their_half() {
    assert!(matches!(source_span(400, 100, VideoFrameEye::Left), SourceSpan::LeftHalf));
    assert!(matches!(source_span(400, 100, VideoFrameEye::Right), SourceSpan::RightHalf));
    assert!(matches!(source_span(100, 100, VideoFrameEye::Right), SourceSpan::Whole));
    assert!(matches!(source_eye_for_target(VideoFrameEye::Left), VideoFrameEye::Left));
}

#[test]
fn pixels_are_cut_for_each_eye() {
    let mut shared = None;
    let receiver = get_video_receiver(&mut shared);
    let pixels: Vec<u8> = (0..16).collect();
    push_rgba_frame(receiver, 1, 4, 1, pixels.clone());
    let frame = get_latest_frame(receiver).unwrap();
    let right = copy_rgba_frame_to_target(frame, &pixels, VideoFrameEye::Right, 2, 1)
        .ok()
        .unwrap();
    assert_eq!(right.data, vec![8, 9, 10, 11, 12, 13, 14, 15]);
    assert_eq!((right.x_offset, right.y_offset, right.width, right.height), (0, 0, 2, 1));
    assert!(matches!(
        copy_rgba_frame_to_target(frame, &pixels[..3], VideoFrameEye::Left, 2, 1),
        Err(RgbaError::TooSmall { actual: 3, .. })
    ));
}

#[test]
fn foveated_frames_hold_both_eyes() {
    assert_eq!(foveated_frame_size(100, 50).ok(), Some((200, 50)));
    assert!(matches!(
        foveated_frame_size(u32::MAX, 50),
        Err(FoveationError::WidthOverflow)
    ));
    assert!(matches!(foveated_frame_size(0, 50), Err(FoveationError::EmptyFrame)));
}

#[test]
fn debug_pictures_announce_themselves() {
    let mut header = b"PIMXRGBA".to_vec();
    header.extend_from_slice(&2_u32.to_le_bytes());
    header.extend_from_slice(&3_u32.to_le_bytes());
    header.extend_from_slice(&9_u64.to_le_bytes());
    header.extend_from_slice(&24_u32.to_le_bytes());
    let parsed = parse_debug_rgba_header(&header).ok().unwrap();
    assert_eq!((parsed.width, parsed.height, parsed.frame_index, parsed.payload_len), (2, 3, 9, 24));
    header[24] = 23;
    assert!(matches!(
        parse_debug_rgba_header(&header),
        Err(DebugRgbaError::LengthMismatch {
            announced: 23,
            wanted: 24
        })
    ));
    header[0] = 0;
    assert!(matches!(parse_debug_rgba_header(&header), Err(DebugRgbaError::BadMagic)));
    let mut large = b"PIMXRGBA".to_vec();
    large.extend_from_slice(&8192_u32.to_le_bytes());
    large.extend_from_slice(&8192_u32.to_le_bytes());
    large.extend_from_slice(&0_u64.to_le_bytes());
    large.extend_from_slice(&(8192_u32 * 8192 * 4).to_le_bytes());
    assert!(matches!(
        parse_debug_rgba_header(&large),
        Err(DebugRgbaError::TooLarge { .. })
    ));
    assert!(logs_debug_frame(4) && !logs_debug_frame(5) && logs_debug_frame(120));
}

#[test]
fn a_released_decoder_hands_out_nothing() {
    let mut decoder = UpstreamDecoder::new();
    let mut queue = DecodedImageQueue::new();
    decoder.installed(200, 100);
    queue.push(5, 1);
    assert_eq!(poll_upstream_frame(&decoder, &mut queue).map(|image| image.timestamp_ns), Some(5));
    queue.push(6, 2);
    release_upstream_decoder(&mut decoder);
    release_upstream_decoder(&mut decoder);
    assert!(poll_upstream_frame(&decoder, &mut queue).is_none());
    assert_eq!(decoder.dimensions, None);
    decoder.installed(200, 100);
    assert_eq!(poll_upstream_frame(&decoder, &mut queue).map(|image| image.timestamp_ns), Some(6));
}
