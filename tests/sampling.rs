use raymarching::frame::FrameLayout;
use raymarching::sampling::{
    pixel_samples, screen_point, Antialiasing, ScreenPoint, SubpixelOffset, SUBPIXEL_STEPS,
};

#[test]
fn single_sample_is_the_pixel_centre() {
    let o = Antialiasing::Off.offsets();
    assert_eq!(o, vec![SubpixelOffset { dx: 0, dy: 0 }]);
    assert_eq!(Antialiasing::Off.samples_per_pixel(), 1);
}

#[test]
fn four_samples_on_a_rotated_grid() {
    let o = Antialiasing::AAx4.offsets();
    let as_pixels: Vec<(f32, f32)> = o
        .iter()
        .map(|s| (s.dx as f32 / SUBPIXEL_STEPS as f32, s.dy as f32 / SUBPIXEL_STEPS as f32))
        .collect();
    assert_eq!(
        as_pixels,
        vec![(0.125, 0.375), (-0.125, -0.375), (-0.375, 0.125), (0.375, -0.125)]
    );
    assert_eq!(Antialiasing::AAx4.samples_per_pixel(), 4);
    let sx: i32 = o.iter().map(|s| s.dx as i32).sum();
    let sy: i32 = o.iter().map(|s| s.dy as i32).sum();
    assert_eq!((sx, sy), (0, 0));
}

#[test]
fn screen_points_centre_the_frame() {
    let l = FrameLayout::new(512, 512).unwrap();
    let c = SubpixelOffset { dx: 0, dy: 0 };
    assert_eq!(screen_point(&l, 256, 256, c), ScreenPoint { x: 0, y: 0, z: 2048 });
    assert_eq!(screen_point(&l, 0, 0, c), ScreenPoint { x: -2048, y: 2048, z: 2048 });
    let p = screen_point(&l, 10, 20, SubpixelOffset { dx: 3, dy: -1 });
    assert_eq!((p.x as f32 / 8.0, p.y as f32 / 8.0, p.z as f32 / 8.0), (-245.625, 235.875, 256.0));
}

#[test]
fn odd_frames_have_half_pixel_centres() {
    let l = FrameLayout::new(3, 5).unwrap();
    let p = screen_point(&l, 1, 2, SubpixelOffset { dx: 0, dy: 0 });
    assert_eq!(p, ScreenPoint { x: -4, y: 4, z: 20 });
}

#[test]
fn pixel_samples_follow_offsets() {
    let l = FrameLayout::new(8, 8).unwrap();
    let s = pixel_samples(&l, &Antialiasing::AAx4, 4, 4);
    assert_eq!(s.len(), 4);
    assert_eq!(s[0], ScreenPoint { x: 1, y: 3, z: 32 });
    assert_eq!(s[3], ScreenPoint { x: 3, y: -1, z: 32 });
    let one = pixel_samples(&l, &Antialiasing::Off, 0, 7);
    assert_eq!(one, vec![ScreenPoint { x: -32, y: -24, z: 32 }]);
}
