//! Where the primary rays of a pixel pass through the image plane.
//!
//! Positions are exact integers in eighths of a pixel, in camera space: the
//! image plane lies at the focal length (half the frame height) in front of
//! the camera, `x` grows to the right and `y` grows upwards.
use vstd::prelude::*;
use crate::frame::FrameLayout;

verus! {

/// Subdivisions of a pixel along each axis in which positions are given.
pub const SUBPIXEL_STEPS: i64 = 8;

/// Anti-aliasing mode: how many primary rays one pixel averages.
#[derive(Clone, Copy, Debug, PartialEq, Eq, Structural)]
pub enum Antialiasing {
    /// One ray through the pixel centre.
    Off,
    /// Four rays on a rotated grid around the pixel centre.
    AAx4,
}

/// Displacement of a sample from the pixel centre, in eighths of a pixel.
#[derive(Clone, Copy, Debug, PartialEq, Eq, Structural)]
pub struct SubpixelOffset {
    pub dx: i8,
    pub dy: i8,
}

/// A point of the image plane in camera space, in eighths of a pixel.
#[derive(Clone, Copy, Debug, PartialEq, Eq, Structural)]
pub struct ScreenPoint {
    pub x: i64,
    pub y: i64,
    pub z: i64,
}

/// The offsets at which a pixel is sampled under mode `aa`.
pub open spec fn offsets_spec(aa: Antialiasing) -> Seq<SubpixelOffset> {
    match aa {
        Antialiasing::Off => seq![SubpixelOffset { dx: 0, dy: 0 }],
        Antialiasing::AAx4 => seq![
            SubpixelOffset { dx: 1, dy: 3 },
            SubpixelOffset { dx: (-1) as i8, dy: (-3) as i8 },
            SubpixelOffset { dx: (-3) as i8, dy: 1 },
            SubpixelOffset { dx: 3, dy: (-1) as i8 },
        ],
    }
}

/// The image-plane point of pixel (`x`, `y`) of a frame of layout `l`,
/// displaced by `o`: the frame is centred on the optical axis, and the
/// plane lies half the frame height in front of the camera.
pub open spec fn screen_point_spec(l: FrameLayout, x: int, y: int, o: SubpixelOffset) -> ScreenPoint {
    ScreenPoint {
        x: (SUBPIXEL_STEPS * x - SUBPIXEL_STEPS / 2 * l.width + o.dx) as i64,
        y: (SUBPIXEL_STEPS / 2 * l.height - SUBPIXEL_STEPS * y + o.dy) as i64,
        z: (SUBPIXEL_STEPS / 2 * l.height) as i64,
    }
}

/// Sum of the horizontal and of the vertical displacements of `s`.
pub open spec fn offset_sums(s: Seq<SubpixelOffset>) -> (int, int)
    decreases s.len(),
{
    if s.len() == 0 {
        (0, 0)
    } else {
        let rest = offset_sums(s.drop_last());
        (rest.0 + s.last().dx, rest.1 + s.last().dy)
    }
}

impl Antialiasing {
    /// The offsets at which a pixel is sampled under this mode.
    pub fn offsets(&self) -> (r: Vec<SubpixelOffset>)
        ensures
            r@ == offsets_spec(*self),
    {
        match self {
            Antialiasing::Off => vec![SubpixelOffset { dx: 0, dy: 0 }],
            Antialiasing::AAx4 => {
                let r = vec![
                    SubpixelOffset { dx: 1, dy: 3 },
                    SubpixelOffset { dx: -1, dy: -3 },
                    SubpixelOffset { dx: -3, dy: 1 },
                    SubpixelOffset { dx: 3, dy: -1 },
                ];
                assert(r@ =~= offsets_spec(*self));
                r
            },
        }
    }

    /// Number of primary rays per pixel under this mode.
    pub fn samples_per_pixel(&self) -> (r: usize)
        ensures
            r == offsets_spec(*self).len(),
    {
        match self {
            Antialiasing::Off => 1,
            Antialiasing::AAx4 => 4,
        }
    }
}

/// The sample pattern of every mode is centred on the pixel and stays inside
/// it: the displacements sum to zero on each axis, and each is less than
/// half a pixel.
pub proof fn lemma_offsets_centred(aa: Antialiasing)
    ensures
        offset_sums(offsets_spec(aa)) == (0int, 0int),
        forall|i: int|
            0 <= i < offsets_spec(aa).len() ==> {
                let o = #[trigger] offsets_spec(aa)[i];
                -SUBPIXEL_STEPS / 2 < o.dx < SUBPIXEL_STEPS / 2 && -SUBPIXEL_STEPS / 2 < o.dy
                    < SUBPIXEL_STEPS / 2
            },
{
    let s = offsets_spec(aa);
    reveal_with_fuel(offset_sums, 5);
    match aa {
        Antialiasing::Off => {
            assert(s.drop_last() =~= Seq::<SubpixelOffset>::empty());
        },
        Antialiasing::AAx4 => {
            assert(s.drop_last().drop_last().drop_last().drop_last() =~= Seq::<
                SubpixelOffset,
            >::empty());
        },
    }
}

/// The image-plane point of pixel (`x`, `y`) of a frame of layout `l`,
/// displaced by `o`.
pub fn screen_point(l: &FrameLayout, x: u32, y: u32, o: SubpixelOffset) -> (r: ScreenPoint)
    requires
        l.wf(),
        x < l.width,
        y < l.height,
    ensures
        r == screen_point_spec(*l, x as int, y as int, o),
{
    let half = SUBPIXEL_STEPS / 2;
    ScreenPoint {
        x: SUBPIXEL_STEPS * x as i64 - half * l.width as i64 + o.dx as i64,
        y: half * l.height as i64 - SUBPIXEL_STEPS * y as i64 + o.dy as i64,
        z: half * l.height as i64,
    }
}

/// The image-plane points through which the primary rays of pixel (`x`, `y`)
/// pass under mode `aa`, one for each sample offset, in order.
pub fn pixel_samples(l: &FrameLayout, aa: &Antialiasing, x: u32, y: u32) -> (r: Vec<ScreenPoint>)
    requires
        l.wf(),
        x < l.width,
        y < l.height,
    ensures
        r@.len() == offsets_spec(*aa).len(),
        forall|i: int|
            0 <= i < r@.len() ==> r@[i] == screen_point_spec(
                *l,
                x as int,
                y as int,
                #[trigger] offsets_spec(*aa)[i],
            ),
{
    let offsets = aa.offsets();
    let mut r: Vec<ScreenPoint> = Vec::new();
    let mut i: usize = 0;
    while i < offsets.len()
        invariant
            0 <= i <= offsets@.len(),
            offsets@ == offsets_spec(*aa),
            l.wf(),
            x < l.width,
            y < l.height,
            r@.len() == i,
            forall|k: int|
                0 <= k < i ==> r@[k] == screen_point_spec(
                    *l,
                    x as int,
                    y as int,
                    #[trigger] offsets_spec(*aa)[k],
                ),
        decreases offsets@.len() - i,
    {
        r.push(screen_point(l, x, y, offsets[i]));
        i = i + 1;
    }
    r
}

} // verus!
