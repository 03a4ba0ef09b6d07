use surf_ace_compositor::pixels::{
    clear_host_scene_background, copy_renderer_pixels_to_dumb, pack_xrgb8888, rotate_scanout_to_view,
    rotate_xrgb8888, xrgb8888_to_rgb,
};
use surf_ace_compositor::rotation::{
    CapturePixelRotation, OutputRotation, direct_present_supported_for_rotation,
    screen_capture_src_flipped, swaps_axes,
};
use surf_ace_compositor::screen_capture::{
    CaptureError, CaptureGeometry, PaneId, PixelRect, RootGeometrySnapshot, ScreenCaptureStore,
    crop_xrgb8888, encode_png,
};

fn two_by_two() -> Vec<u8> {
    vec![
        0x01, 0x00, 0x00, 0x00, 0x02, 0x00, 0x00, 0x00, //
        0x03, 0x00, 0x00, 0x00, 0x04, 0x00, 0x00, 0x00,
    ]
}

fn snapshot(generation: u64, rotation: OutputRotation) -> RootGeometrySnapshot<()> {
    RootGeometrySnapshot { generation, rotation, detail: () }
}

fn be_u32(bytes: &[u8]) -> u32 {
    u32::from_be_bytes([bytes[0], bytes[1], bytes[2], bytes[3]])
}

#[test]
fn deg90_capture_rotates_landscape_scanout_into_portrait_view() {
    let src = two_by_two();
    let (width, height, rotated) = rotate_scanout_to_view(&src, 2, 2, OutputRotation::Deg90);
    assert_eq!((width, height), (2, 2));
    assert_eq!(
        rotated,
        vec![
            0x03, 0x00, 0x00, 0x00, 0x01, 0x00, 0x00, 0x00, //
            0x04, 0x00, 0x00, 0x00, 0x02, 0x00, 0x00, 0x00,
        ]
    );
}

#[test]
fn deg180_capture_rotates_scanout_180_degrees() {
    let src = two_by_two();
    let (width, height, rotated) = rotate_scanout_to_view(&src, 2, 2, OutputRotation::Deg180);
    assert_eq!((width, height), (2, 2));
    assert_eq!(
        rotated,
        vec![
            0x04, 0x00, 0x00, 0x00, 0x03, 0x00, 0x00, 0x00, //
            0x02, 0x00, 0x00, 0x00, 0x01, 0x00, 0x00, 0x00,
        ]
    );
}

#[test]
fn deg270_capture_rotates_landscape_scanout_into_portrait_view() {
    let src = two_by_two();
    let (width, height, rotated) = rotate_scanout_to_view(&src, 2, 2, OutputRotation::Deg270);
    assert_eq!((width, height), (2, 2));
    assert_eq!(
        rotated,
        vec![
            0x02, 0x00, 0x00, 0x00, 0x04, 0x00, 0x00, 0x00, //
            0x01, 0x00, 0x00, 0x00, 0x03, 0x00, 0x00, 0x00,
        ]
    );
}

#[test]
fn root4_transaction_requires_matching_staged_capture_frame() {
    let snapshot = snapshot(1, OutputRotation::Deg0);
    let mut store: ScreenCaptureStore<()> = ScreenCaptureStore::default();
    store.begin_root4_stage(snapshot.generation);
    assert!(!store.root4_stage_has_frame(snapshot.generation));
    store.update_root4_scanout_xrgb8888(&[0x20; 4 * 4 * 4], 16, 4, 4, false, snapshot, &[]);
    assert!(store.root4_stage_has_frame(1));
    store.discard_root4_stage(1);
    assert!(!store.root4_stage_has_frame(1));
}

#[test]
fn deg90_capture_ignores_renderer_row_flip_before_rotation() {
    let mut store: ScreenCaptureStore<()> = ScreenCaptureStore::default();
    let src = two_by_two();
    let src_flipped = screen_capture_src_flipped(true, OutputRotation::Deg90);
    store.update_from_scanout_xrgb8888(&src, 8, 2, 2, src_flipped, OutputRotation::Deg90);

    let (width, height, xrgb8888) = store
        .committed_view_xrgb8888()
        .expect("capture frame should exist");
    assert_eq!((width, height), (2, 2));
    assert_eq!(
        xrgb8888,
        vec![
            0x03, 0x00, 0x00, 0x00, 0x01, 0x00, 0x00, 0x00, //
            0x04, 0x00, 0x00, 0x00, 0x02, 0x00, 0x00, 0x00,
        ]
    );
}

#[test]
fn screen_capture_flip_policy_matches_verified_rotation_contract() {
    assert!(!screen_capture_src_flipped(true, OutputRotation::Deg0));
    assert!(!screen_capture_src_flipped(true, OutputRotation::Deg90));
    assert!(!screen_capture_src_flipped(true, OutputRotation::Deg180));
    assert!(!screen_capture_src_flipped(true, OutputRotation::Deg270));
    assert!(!screen_capture_src_flipped(false, OutputRotation::Deg0));
    assert!(!screen_capture_src_flipped(false, OutputRotation::Deg180));
    assert!(!screen_capture_src_flipped(false, OutputRotation::Deg90));
    assert!(!screen_capture_src_flipped(false, OutputRotation::Deg270));
}

#[test]
fn quarter_turn_dumb_present_unflips_readback_rows_before_scanout() {
    let src = two_by_two();
    let mut dst = vec![0u8; 16];

    copy_renderer_pixels_to_dumb(&src, true, OutputRotation::Deg90, &mut dst, 8, 2, 2);

    assert_eq!(
        dst,
        vec![
            0x03, 0x00, 0x00, 0x00, 0x04, 0x00, 0x00, 0x00, //
            0x01, 0x00, 0x00, 0x00, 0x02, 0x00, 0x00, 0x00,
        ]
    );
}

#[test]
fn direct_present_support_allows_compositor_rendered_quarter_turn_rotations() {
    assert!(direct_present_supported_for_rotation(OutputRotation::Deg0));
    assert!(direct_present_supported_for_rotation(OutputRotation::Deg90));
    assert!(direct_present_supported_for_rotation(OutputRotation::Deg180));
    assert!(direct_present_supported_for_rotation(OutputRotation::Deg270));
}

#[test]
fn dumb_copy_clears_alpha_and_keeps_row_order_when_not_flipped() {
    let src = vec![1, 2, 3, 4, 5, 6, 7, 8, 9, 10, 11, 12, 13, 14, 15, 16];
    let mut dst = vec![0xaa; 24];
    copy_renderer_pixels_to_dumb(&src, false, OutputRotation::Deg0, &mut dst, 12, 2, 2);
    assert_eq!(
        dst,
        vec![
            1, 2, 3, 0, 5, 6, 7, 0, 0xaa, 0xaa, 0xaa, 0xaa, //
            9, 10, 11, 0, 13, 14, 15, 0, 0xaa, 0xaa, 0xaa, 0xaa,
        ]
    );
}

#[test]
fn dumb_copy_ignores_zero_strides() {
    let src = two_by_two();
    let mut dst = vec![7u8; 16];
    copy_renderer_pixels_to_dumb(&src, true, OutputRotation::Deg0, &mut dst, 0, 2, 2);
    assert_eq!(dst, vec![7u8; 16]);
    copy_renderer_pixels_to_dumb(&src, true, OutputRotation::Deg0, &mut dst, 8, 0, 2);
    assert_eq!(dst, vec![7u8; 16]);
}

#[test]
fn background_clear_fills_whole_pixels_of_each_row() {
    let mut target = vec![0xffu8; 20];
    clear_host_scene_background(&mut target, 10, 2, 2);
    assert_eq!(
        target,
        vec![
            0x14, 0x14, 0x18, 0x00, 0x14, 0x14, 0x18, 0x00, 0xff, 0xff, //
            0x14, 0x14, 0x18, 0x00, 0x14, 0x14, 0x18, 0x00, 0xff, 0xff,
        ]
    );
    let mut short = vec![0xffu8; 6];
    clear_host_scene_background(&mut short, 8, 2, 1);
    assert_eq!(short, vec![0x14, 0x14, 0x18, 0x00, 0xff, 0xff]);
    let mut untouched = vec![0xffu8; 8];
    clear_host_scene_background(&mut untouched, 8, -3, 2);
    assert_eq!(untouched, vec![0xffu8; 8]);
}

#[test]
fn pack_undoes_row_flip_and_drops_row_padding() {
    let src = vec![1, 2, 3, 4, 0xee, 0xee, 5, 6, 7, 8, 0xee, 0xee];
    assert_eq!(pack_xrgb8888(&src, 6, 1, 2, false), vec![1, 2, 3, 4, 5, 6, 7, 8]);
    assert_eq!(pack_xrgb8888(&src, 6, 1, 2, true), vec![5, 6, 7, 8, 1, 2, 3, 4]);
    assert_eq!(pack_xrgb8888(&src, 0, 1, 2, false), vec![0; 8]);
    assert_eq!(pack_xrgb8888(&src[..8], 6, 1, 2, false), vec![1, 2, 3, 4, 5, 6, 0, 0]);
}

#[test]
fn quarter_turns_cancel_on_a_concrete_raster() {
    let src: Vec<u8> = (0u8..24).collect();
    let (w, h, turned) = rotate_xrgb8888(&src, 3, 2, CapturePixelRotation::Rotate90Clockwise);
    assert_eq!((w, h), (2, 3));
    let (w2, h2, back) = rotate_xrgb8888(&turned, w, h, CapturePixelRotation::Rotate90Counterclockwise);
    assert_eq!((w2, h2), (3, 2));
    assert_eq!(back, src);
    let (_, _, half) = rotate_xrgb8888(&src, 3, 2, CapturePixelRotation::Rotate180);
    let (_, _, whole) = rotate_xrgb8888(&half, 3, 2, CapturePixelRotation::Rotate180);
    assert_eq!(whole, src);
}

#[test]
fn rotation_zero_fills_missing_source_pixels() {
    let src = vec![1, 2, 3, 4, 5, 6];
    let (w, h, out) = rotate_xrgb8888(&src, 2, 1, CapturePixelRotation::Identity);
    assert_eq!((w, h), (2, 1));
    assert_eq!(out, vec![1, 2, 3, 4, 0, 0, 0, 0]);
}

#[test]
fn crop_copies_the_rectangle_and_rejects_overflow() {
    let src: Vec<u8> = (0u8..36).collect();
    assert_eq!(crop_xrgb8888(&src, 3, 3, 1, 1, 2, 1).unwrap(), vec![16, 17, 18, 19, 20, 21, 22, 23]);
    assert_eq!(crop_xrgb8888(&src, 3, 3, 2, 0, 2, 1), Err(CaptureError::CropExceedsScanout));
    assert_eq!(crop_xrgb8888(&src, 3, 3, 0, 3, 1, 1), Err(CaptureError::CropExceedsScanout));
    assert_eq!(crop_xrgb8888(&src, 3, 3, 0, 0, 0, 0).unwrap(), Vec::<u8>::new());
    assert_eq!(crop_xrgb8888(&src, 3, 3, usize::MAX, 0, 2, 1), Err(CaptureError::CropExceedsScanout));
}

#[test]
fn crop_edges_are_summed_with_saturation() {
    let empty: Vec<u8> = Vec::new();
    assert_eq!(crop_xrgb8888(&empty, usize::MAX, 0, usize::MAX, 0, 5, 0).unwrap(), Vec::<u8>::new());
    assert_eq!(crop_xrgb8888(&empty, usize::MAX, 0, usize::MAX, 0, 5, 1), Err(CaptureError::CropExceedsScanout));
}

#[test]
fn rgb_extraction_reorders_bgrx_bytes() {
    assert_eq!(xrgb8888_to_rgb(&[0x10, 0x20, 0x30, 0x00, 1, 2, 3, 4, 9]), vec![0x30, 0x20, 0x10, 3, 2, 1]);
}

#[test]
fn png_encoding_declares_size_and_rejects_empty_images() {
    let png = encode_png(2, 1, &[1, 2, 3, 4, 5, 6]).unwrap();
    assert_eq!(&png[0..8], &[137, 80, 78, 71, 13, 10, 26, 10]);
    assert_eq!(be_u32(&png[16..20]), 2);
    assert_eq!(be_u32(&png[20..24]), 1);
    assert_eq!(encode_png(0, 1, &[]), Err(CaptureError::Encoding));
    assert_eq!(encode_png(2, 1, &[1, 2, 3]), Err(CaptureError::Encoding));
}

#[test]
fn store_writes_png_from_latest_frame() {
    let mut store: ScreenCaptureStore<()> = ScreenCaptureStore::default();
    assert_eq!(store.write_png(), Err(CaptureError::NotFound));
    store.update_from_scanout_xrgb8888(&[0x10, 0x20, 0x30, 0x00], 4, 1, 1, false, OutputRotation::Deg0);
    let png = store.write_png().expect("png should be encoded");
    assert!(!png.is_empty());
    assert_eq!(be_u32(&png[16..20]), 1);
}

#[test]
fn quarter_turn_png_has_portrait_size() {
    let mut store: ScreenCaptureStore<()> = ScreenCaptureStore::default();
    store.update_from_scanout_xrgb8888(&[0x20; 4 * 3 * 4], 16, 4, 3, false, OutputRotation::Deg90);
    let png = store.write_png().unwrap();
    assert_eq!((be_u32(&png[16..20]), be_u32(&png[20..24])), (3, 4));
}

#[test]
fn root4_capture_keeps_raw_scanout_raster_and_pinned_generation() {
    let mut store: ScreenCaptureStore<()> = ScreenCaptureStore::default();
    store.update_root4_scanout_xrgb8888(&[0x20; 4 * 3 * 4], 4 * 4, 4, 3, false, snapshot(1, OutputRotation::Deg90), &[]);
    assert_eq!(store.root4_generations_for_test(), (Some(1), None));
    // The logical 3x4 root rect at scale 1 under a quarter turn covers the physical
    // scanout with its axes swapped.
    let (logical_w, logical_h) = (3, 4);
    let (width, height) =
        if swaps_axes(OutputRotation::Deg90) { (logical_h, logical_w) } else { (logical_w, logical_h) };
    let geometry = CaptureGeometry {
        physical_pixel_rect: PixelRect { x: 0, y: 0, width, height },
        root_geometry_generation: store.committed_root_geometry().unwrap().generation,
    };
    let png = store.write_root4_png(geometry).unwrap();
    assert_eq!((geometry.physical_pixel_rect.width, geometry.physical_pixel_rect.height), (4, 3));
    assert_eq!(geometry.root_geometry_generation, 1);
    assert_eq!(be_u32(&png[16..20]), 4);
    assert_eq!(be_u32(&png[20..24]), 3);
}

#[test]
fn root4_png_reports_missing_geometry_and_bad_crops() {
    let mut store: ScreenCaptureStore<()> = ScreenCaptureStore::default();
    let geometry = CaptureGeometry {
        physical_pixel_rect: PixelRect { x: 0, y: 0, width: 2, height: 2 },
        root_geometry_generation: 1,
    };
    assert_eq!(store.write_root4_png(geometry), Err(CaptureError::NotFound));
    store.update_from_scanout_xrgb8888(&[0; 16], 8, 2, 2, false, OutputRotation::Deg0);
    assert_eq!(store.write_root4_png(geometry), Err(CaptureError::GeometryUnavailable));
    store.update_root4_scanout_xrgb8888(&[0; 16], 8, 2, 2, false, snapshot(2, OutputRotation::Deg0), &[]);
    let outside = CaptureGeometry {
        physical_pixel_rect: PixelRect { x: -1, y: 0, width: 2, height: 2 },
        root_geometry_generation: 2,
    };
    assert_eq!(store.write_root4_png(outside), Err(CaptureError::CropExceedsScanout));
    let empty = CaptureGeometry {
        physical_pixel_rect: PixelRect { x: 0, y: 0, width: 0, height: 2 },
        root_geometry_generation: 2,
    };
    assert_eq!(store.write_root4_png(empty), Err(CaptureError::Encoding));
}

#[test]
fn root4_pane_png_uses_the_recorded_pane_geometry() {
    let mut store: ScreenCaptureStore<()> = ScreenCaptureStore::default();
    let pane = PaneId("pane-a".to_string());
    let geometry = CaptureGeometry {
        physical_pixel_rect: PixelRect { x: 1, y: 0, width: 1, height: 2 },
        root_geometry_generation: 3,
    };
    store.update_root4_scanout_xrgb8888(&[0; 16], 8, 2, 2, false, snapshot(3, OutputRotation::Deg0), &[(pane.clone(), geometry)]);
    let (found, png) = store.write_root4_pane_png(&pane).unwrap();
    assert_eq!(found, geometry);
    assert_eq!((be_u32(&png[16..20]), be_u32(&png[20..24])), (1, 2));
    let other = PaneId("pane-b".to_string());
    assert_eq!(store.write_root4_pane_png(&other).err(), Some(CaptureError::PaneCaptureUnavailable));
}

#[test]
fn staged_frame_stays_private_until_commit() {
    let mut store: ScreenCaptureStore<()> = ScreenCaptureStore::default();
    store.update_root4_scanout_xrgb8888(&[1; 16], 8, 2, 2, false, snapshot(1, OutputRotation::Deg0), &[]);
    store.begin_root4_stage(2);
    store.update_root4_scanout_xrgb8888(&[2; 16], 8, 2, 2, false, snapshot(2, OutputRotation::Deg0), &[]);
    assert_eq!(store.root4_generations_for_test(), (Some(1), Some(2)));
    assert_eq!(store.committed_view_xrgb8888().unwrap().2, vec![1; 16]);
    store.commit_root4_stage(5);
    assert_eq!(store.root4_generations_for_test(), (Some(1), Some(2)));
    store.commit_root4_stage(2);
    assert_eq!(store.root4_generations_for_test(), (Some(2), None));
    assert_eq!(store.committed_view_xrgb8888().unwrap().2, vec![2; 16]);
}

#[test]
fn discarded_stage_restores_the_committed_frame() {
    let mut store: ScreenCaptureStore<()> = ScreenCaptureStore::default();
    store.update_root4_scanout_xrgb8888(&[1; 16], 8, 2, 2, false, snapshot(1, OutputRotation::Deg0), &[]);
    store.begin_root4_stage(2);
    store.update_root4_scanout_xrgb8888(&[2; 16], 8, 2, 2, false, snapshot(2, OutputRotation::Deg0), &[]);
    store.discard_root4_stage(2);
    assert_eq!(store.root4_generations_for_test(), (Some(1), None));
    assert_eq!(store.committed_view_xrgb8888().unwrap().2, vec![1; 16]);
}

#[test]
fn empty_frames_are_ignored() {
    let mut store: ScreenCaptureStore<()> = ScreenCaptureStore::default();
    store.update_from_scanout_xrgb8888(&[], 0, 0, 4, false, OutputRotation::Deg0);
    assert!(store.committed_view_xrgb8888().is_none());
}
