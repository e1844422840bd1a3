use raymarching::dispatch::{ChunkPlan, Threading};
use raymarching::frame::{paint_rgb, FrameLayout, Rgb8, BYTES_PER_PIXEL};

#[test]
fn layout_rejects_empty_frames() {
    assert!(FrameLayout::new(0, 5).is_none());
    assert!(FrameLayout::new(5, 0).is_none());
    let l = FrameLayout::new(512, 512).unwrap();
    assert_eq!(l.pixel_count(), 512 * 512);
    assert_eq!(l.byte_len(), 512 * 512 * 4);
    assert_eq!(BYTES_PER_PIXEL, 4);
}

#[test]
fn layout_coords_and_indices() {
    let l = FrameLayout::new(4, 3).unwrap();
    assert_eq!(l.coords_of(0), (0, 0));
    assert_eq!(l.coords_of(5), (1, 1));
    assert_eq!(l.coords_of(11), (3, 2));
    assert_eq!(l.index_of(3, 2), 11);
    assert_eq!(l.index_of(0, 1), 4);
    for i in 0..12usize {
        let (x, y) = l.coords_of(i);
        assert_eq!(l.index_of(x, y), i);
    }
}

#[test]
fn paint_keeps_alpha_and_tail() {
    let mut buf = vec![9u8; 12];
    let colors = [Rgb8 { r: 1, g: 2, b: 3 }, Rgb8 { r: 4, g: 5, b: 6 }];
    paint_rgb(&mut buf, &colors);
    assert_eq!(buf, vec![1, 2, 3, 9, 4, 5, 6, 9, 9, 9, 9, 9]);
}

#[test]
fn paint_nothing_changes_nothing() {
    let mut buf = vec![7u8; 8];
    paint_rgb(&mut buf, &[]);
    assert_eq!(buf, vec![7u8; 8]);
}

#[test]
fn threading_chunk_sizes() {
    let l = FrameLayout::new(4, 3).unwrap();
    assert_eq!(Threading::Single.pixels_per_chunk(&l), 12);
    assert_eq!(Threading::ChunkMut.pixels_per_chunk(&l), 1);
    assert_eq!(Threading::LineChunkMut(8).pixels_per_chunk(&l), 8);
    assert!(ChunkPlan::for_threading(&l, &Threading::LineChunkMut(0)).is_none());
    let p = ChunkPlan::for_threading(&l, &Threading::Single).unwrap();
    assert_eq!(p.chunk_count(), 1);
    assert_eq!(p.pixel_range(0), (0, 12));
}

#[test]
fn plan_ranges_with_short_last_chunk() {
    let l = FrameLayout::new(5, 2).unwrap();
    assert!(ChunkPlan::new(&l, 0).is_none());
    let p = ChunkPlan::new(&l, 4).unwrap();
    assert_eq!(p.chunk_count(), 3);
    assert_eq!(p.chunk_bytes(), 16);
    assert_eq!(p.pixel_range(0), (0, 4));
    assert_eq!(p.pixel_range(1), (4, 8));
    assert_eq!(p.pixel_range(2), (8, 10));
    assert_eq!(p.byte_range(2), (32, 40));
    assert_eq!(p.chunk_of(9), 2);
    assert_eq!(p.chunk_of(4), 1);
    assert_eq!(p.pixel_in_chunk(2, 1), 9);
}

#[test]
fn plan_covers_every_pixel_once() {
    let l = FrameLayout::new(7, 5).unwrap();
    for per in 1..40usize {
        let p = ChunkPlan::new(&l, per).unwrap();
        let mut seen = vec![0u32; 35];
        for i in 0..p.chunk_count() {
            let (s, e) = p.pixel_range(i);
            for q in s..e {
                seen[q] += 1;
                assert_eq!(p.chunk_of(q), i);
            }
        }
        assert!(seen.iter().all(|&n| n == 1));
    }
}

#[test]
fn plan_bytes_match_chunked_split() {
    let l = FrameLayout::new(3, 3).unwrap();
    let p = ChunkPlan::new(&l, 2).unwrap();
    let buf = vec![0u8; l.byte_len()];
    let chunks: Vec<usize> = buf.chunks(p.chunk_bytes()).map(|c| c.len()).collect();
    assert_eq!(chunks.len(), p.chunk_count());
    for (i, len) in chunks.iter().enumerate() {
        let (s, e) = p.byte_range(i);
        assert_eq!(e - s, *len);
    }
}

#[test]
fn scanline_chunks_start_rows() {
    let l = FrameLayout::new(4, 3).unwrap();
    let p = ChunkPlan::new(&l, 8).unwrap();
    assert_eq!(p.chunk_count(), 2);
    for i in 0..p.chunk_count() {
        let coords = p.chunk_coords(&l, i);
        assert_eq!(coords[0].0, 0);
    }
    let last = p.chunk_coords(&l, 1);
    assert_eq!(last, vec![(0, 2), (1, 2), (2, 2), (3, 2)]);
    let first = p.chunk_coords(&l, 0);
    assert_eq!(first.len(), 8);
    assert_eq!(first[5], (1, 1));
}

#[test]
fn chunks_write_each_pixel_at_its_own_bytes() {
    let l = FrameLayout::new(6, 4).unwrap();
    for per in [1usize, 5, 6, 12, 24] {
        let plan = ChunkPlan::new(&l, per).unwrap();
        let mut frame = vec![200u8; l.byte_len()];
        for (i, chunk) in frame.chunks_mut(plan.chunk_bytes()).enumerate() {
            let colors: Vec<Rgb8> = plan
                .chunk_coords(&l, i)
                .into_iter()
                .map(|(x, y)| Rgb8 { r: x as u8, g: y as u8, b: 7 })
                .collect();
            paint_rgb(chunk, &colors);
        }
        for y in 0..4u32 {
            for x in 0..6u32 {
                let b = BYTES_PER_PIXEL * l.index_of(x, y);
                assert_eq!(&frame[b..b + 4], &[x as u8, y as u8, 7, 200]);
            }
        }
    }
}
