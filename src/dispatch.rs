//! Partition of a frame into work units of consecutive pixels.
//!
//! Each unit owns a contiguous run of pixels, and so a contiguous byte range
//! of the framebuffer; workers that each write only their own unit never
//! write the same byte, and together they write every pixel once.
use vstd::prelude::*;
use crate::frame::{lemma_index_of_coords, FrameLayout, BYTES_PER_PIXEL};

verus! {

/// How the pixels of a frame are handed out to workers.
#[derive(Clone, Copy, Debug, PartialEq, Eq, Structural)]
pub enum Threading {
    /// One unit holds the whole frame.
    Single,
    /// Every pixel is a unit of its own.
    ChunkMut,
    /// Units of the given number of consecutive pixels; a multiple of the
    /// frame width gives units of whole scanlines.
    LineChunkMut(u32),
}

impl Threading {
    /// Pixels per work unit under this mode, for a frame of layout `l`.
    pub open spec fn pixels_per_chunk_spec(self, l: FrameLayout) -> nat {
        match self {
            Threading::Single => l.pixels(),
            Threading::ChunkMut => 1,
            Threading::LineChunkMut(n) => n as nat,
        }
    }

    /// Pixels per work unit under this mode, for a frame of layout `l`.
    pub fn pixels_per_chunk(&self, l: &FrameLayout) -> (r: usize)
        requires
            l.wf(),
        ensures
            r == self.pixels_per_chunk_spec(*l),
    {
        match self {
            Threading::Single => l.pixel_count(),
            Threading::ChunkMut => 1,
            Threading::LineChunkMut(n) => *n as usize,
        }
    }
}

/// A frame of `pixels` pixels cut into units of `per_chunk` consecutive
/// pixels; the last unit may be shorter.
#[derive(Clone, Copy, Debug, PartialEq, Eq, Structural)]
pub struct ChunkPlan {
    pub pixels: usize,
    pub per_chunk: usize,
}

impl ChunkPlan {
    /// Units are non-empty, and every byte offset of the frame and of a unit
    /// is addressable.
    pub open spec fn wf(self) -> bool {
        &&& self.per_chunk > 0
        &&& BYTES_PER_PIXEL * self.pixels <= usize::MAX
        &&& BYTES_PER_PIXEL * self.per_chunk <= usize::MAX
    }

    /// Number of units: the pixel count divided by the unit size, rounded up.
    pub open spec fn count(self) -> nat {
        ((self.pixels + self.per_chunk - 1) / self.per_chunk as int) as nat
    }

    /// First pixel of unit `i`.
    pub open spec fn start(self, i: int) -> int {
        i * self.per_chunk
    }

    /// One past the last pixel of unit `i`.
    pub open spec fn end(self, i: int) -> int {
        if (i + 1) * self.per_chunk <= self.pixels {
            (i + 1) * self.per_chunk
        } else {
            self.pixels as int
        }
    }

    /// Whether pixel `p` belongs to unit `i`.
    pub open spec fn holds(self, i: int, p: int) -> bool {
        self.start(i) <= p < self.end(i)
    }

    /// The plan that cuts the frame of layout `l` into units of `per_chunk`
    /// pixels; `None` when `per_chunk` is zero or a unit's byte length would
    /// not be addressable.
    pub fn new(l: &FrameLayout, per_chunk: usize) -> (r: Option<ChunkPlan>)
        requires
            l.wf(),
        ensures
            r is Some <==> per_chunk > 0 && BYTES_PER_PIXEL * per_chunk <= usize::MAX,
            r is Some ==> r->0 == (ChunkPlan { pixels: l.pixels() as usize, per_chunk }),
            r is Some ==> r->0.wf(),
    {
        if per_chunk == 0 || per_chunk > usize::MAX / BYTES_PER_PIXEL {
            return None;
        }
        Some(ChunkPlan { pixels: l.pixel_count(), per_chunk })
    }

    /// The plan that `threading` asks for on a frame of layout `l`.
    pub fn for_threading(l: &FrameLayout, threading: &Threading) -> (r: Option<ChunkPlan>)
        requires
            l.wf(),
        ensures
            r is Some <==> threading.pixels_per_chunk_spec(*l) > 0
                && BYTES_PER_PIXEL * threading.pixels_per_chunk_spec(*l) <= usize::MAX,
            r is Some ==> r->0 == (ChunkPlan {
                pixels: l.pixels() as usize,
                per_chunk: threading.pixels_per_chunk_spec(*l) as usize,
            }),
            r is Some ==> r->0.wf(),
    {
        let per_chunk = threading.pixels_per_chunk(l);
        ChunkPlan::new(l, per_chunk)
    }

    /// Byte length of a full unit: the chunk length to split the framebuffer by.
    pub fn chunk_bytes(&self) -> (r: usize)
        requires
            self.wf(),
        ensures
            r == BYTES_PER_PIXEL * self.per_chunk,
    {
        BYTES_PER_PIXEL * self.per_chunk
    }

    /// Number of units.
    pub fn chunk_count(&self) -> (r: usize)
        requires
            self.wf(),
        ensures
            r == self.count(),
    {
        (self.pixels + self.per_chunk - 1) / self.per_chunk
    }

    /// First pixel of unit `i` and one past its last.
    pub fn pixel_range(&self, i: usize) -> (r: (usize, usize))
        requires
            self.wf(),
            i < self.count(),
        ensures
            r.0 == self.start(i as int),
            r.1 == self.end(i as int),
            r.0 < r.1 <= self.pixels,
            r.1 - r.0 <= self.per_chunk,
    {
        proof {
            lemma_below_count(*self, i as int);
        }
        let start = i * self.per_chunk;
        let end = if self.pixels - start >= self.per_chunk {
            start + self.per_chunk
        } else {
            self.pixels
        };
        proof {
            assert((i + 1) * self.per_chunk == i * self.per_chunk + self.per_chunk)
                by (nonlinear_arith);
        }
        (start, end)
    }

    /// First byte of unit `i` in the framebuffer and one past its last.
    pub fn byte_range(&self, i: usize) -> (r: (usize, usize))
        requires
            self.wf(),
            i < self.count(),
        ensures
            r.0 == BYTES_PER_PIXEL * self.start(i as int),
            r.1 == BYTES_PER_PIXEL * self.end(i as int),
            r.0 < r.1 <= BYTES_PER_PIXEL * self.pixels,
    {
        let (start, end) = self.pixel_range(i);
        (BYTES_PER_PIXEL * start, BYTES_PER_PIXEL * end)
    }

    /// The unit that pixel `p` belongs to.
    pub fn chunk_of(&self, p: usize) -> (r: usize)
        requires
            self.wf(),
            p < self.pixels,
        ensures
            r == p / self.per_chunk,
            r < self.count(),
            self.holds(r as int, p as int),
    {
        proof {
            lemma_exactly_one_chunk(*self, p as int, (p / self.per_chunk) as int);
        }
        p / self.per_chunk
    }

    /// Pixel `j` of unit `i`, as a flat index into the frame.
    pub fn pixel_in_chunk(&self, i: usize, j: usize) -> (r: usize)
        requires
            self.wf(),
            i < self.count(),
            j < self.end(i as int) - self.start(i as int),
        ensures
            r == self.start(i as int) + j,
            self.holds(i as int, r as int),
            r < self.pixels,
    {
        let (start, _) = self.pixel_range(i);
        start + j
    }
    /// Column and row of each pixel of unit `i`, in order, for a plan made
    /// over the frame of layout `l`.
    pub fn chunk_coords(&self, l: &FrameLayout, i: usize) -> (r: Vec<(u32, u32)>)
        requires
            self.wf(),
            l.wf(),
            self.pixels == l.pixels(),
            i < self.count(),
        ensures
            r@.len() == self.end(i as int) - self.start(i as int),
            forall|j: int|
                0 <= j < r@.len() ==> {
                    let (x, y) = #[trigger] r@[j];
                    (x as int, y as int) == l.coords_spec(self.start(i as int) + j)
                },
    {
        let (start, end) = self.pixel_range(i);
        let mut r: Vec<(u32, u32)> = Vec::new();
        let mut p: usize = start;
        while p < end
            invariant
                start <= p <= end,
                start == self.start(i as int),
                end == self.end(i as int),
                end <= l.pixels(),
                l.wf(),
                r@.len() == p - start,
                forall|j: int|
                    0 <= j < r@.len() ==> {
                        let (x, y) = #[trigger] r@[j];
                        (x as int, y as int) == l.coords_spec(start + j)
                    },
            decreases end - p,
        {
            r.push(l.coords_of(p));
            p = p + 1;
        }
        r
    }
}

/// A unit index lies below the unit count exactly when its first pixel lies
/// inside the frame.
proof fn lemma_below_count(plan: ChunkPlan, i: int)
    requires
        plan.wf(),
        0 <= i,
    ensures
        i < plan.count() <==> plan.start(i) < plan.pixels,
{
    let q = plan.per_chunk as int;
    let n = plan.pixels as int;
    let c = (n + q - 1) / q;
    let r = (n + q - 1) % q;
    vstd::arithmetic::div_mod::lemma_fundamental_div_mod(n + q - 1, q);
    assert(0 <= r < q);
    assert(i < c ==> i * q < n) by (nonlinear_arith)
        requires n + q - 1 == q * c + r, 0 <= r < q, q > 0, 0 <= i;
    assert(i * q < n ==> i < c) by (nonlinear_arith)
        requires n + q - 1 == q * c + r, 0 <= r < q, q > 0, 0 <= i;
}

/// Every pixel of the frame lies in exactly one unit: unit `i` holds pixel
/// `p` if and only if `i` is `p` divided by the unit size.
pub proof fn lemma_exactly_one_chunk(plan: ChunkPlan, p: int, i: int)
    requires
        plan.wf(),
        0 <= p < plan.pixels,
        0 <= i,
    ensures
        (p / plan.per_chunk as int) < plan.count(),
        plan.holds(i, p) <==> i == p / plan.per_chunk as int,
{
    let q = plan.per_chunk as int;
    let n = plan.pixels as int;
    let k = p / q;
    vstd::arithmetic::div_mod::lemma_fundamental_div_mod(p, q);
    assert(k * q <= p < (k + 1) * q) by (nonlinear_arith)
        requires p == q * k + p % q, 0 <= p % q < q;
    assert(k >= 0) by (nonlinear_arith)
        requires p == q * k + p % q, 0 <= p % q < q, p >= 0, q > 0;
    lemma_below_count(plan, k);
    if plan.holds(i, p) {
        assert(i * q <= p < (i + 1) * q);
        assert(i == k) by (nonlinear_arith)
            requires i * q <= p < (i + 1) * q, k * q <= p < (k + 1) * q, q > 0;
    }
}

/// Units never overlap: two different units share no pixel, and so no byte
/// of the framebuffer.
pub proof fn lemma_chunks_disjoint(plan: ChunkPlan, i: int, j: int, p: int)
    requires
        plan.wf(),
        0 <= i,
        0 <= j,
        i != j,
        0 <= p < plan.pixels,
    ensures
        !(plan.holds(i, p) && plan.holds(j, p)),
{
    lemma_exactly_one_chunk(plan, p, i);
    lemma_exactly_one_chunk(plan, p, j);
}

/// Every byte of the framebuffer lies in the byte range of exactly one unit:
/// the unit that holds the byte's pixel.
pub proof fn lemma_exactly_one_chunk_per_byte(plan: ChunkPlan, b: int, i: int)
    requires
        plan.wf(),
        0 <= b < BYTES_PER_PIXEL * plan.pixels,
        0 <= i,
    ensures
        (BYTES_PER_PIXEL * plan.start(i) <= b < BYTES_PER_PIXEL * plan.end(i)) <==> i == (b
            / BYTES_PER_PIXEL as int) / plan.per_chunk as int,
{
    let p = b / BYTES_PER_PIXEL as int;
    assert(0 <= p < plan.pixels);
    lemma_exactly_one_chunk(plan, p, i);
}

/// Pixel `j` of unit `i` sits, in the framebuffer, at the bytes of the
/// pixel whose column and row `chunk_coords` gives for it: a worker that
/// shades the pixels of its unit in order writes each colour where its
/// pixel is.
pub proof fn lemma_chunk_writes_own_pixel(plan: ChunkPlan, l: FrameLayout, i: int, j: int)
    requires
        plan.wf(),
        l.wf(),
        plan.pixels == l.pixels(),
        0 <= i < plan.count(),
        0 <= j < plan.end(i) - plan.start(i),
    ensures
        ({
            let (x, y) = l.coords_spec(plan.start(i) + j);
            BYTES_PER_PIXEL * plan.start(i) + BYTES_PER_PIXEL * j == BYTES_PER_PIXEL
                * l.index_spec(x, y)
        }),
{
    lemma_below_count(plan, i);
    let p = plan.start(i) + j;
    assert(0 <= plan.start(i)) by (nonlinear_arith)
        requires 0 <= i, plan.per_chunk > 0;
    lemma_index_of_coords(l, p);
}

/// When the unit size is a whole number of scanlines, every unit starts at
/// the first pixel of a row.
pub proof fn lemma_chunks_row_aligned(plan: ChunkPlan, l: FrameLayout, i: int)
    requires
        plan.wf(),
        l.wf(),
        plan.per_chunk as int % l.width as int == 0,
        0 <= i,
    ensures
        l.coords_spec(plan.start(i)).0 == 0,
{
    let w = l.width as int;
    let q = plan.per_chunk as int;
    let m = q / w;
    vstd::arithmetic::div_mod::lemma_fundamental_div_mod(q, w);
    assert(i * q == (i * m) * w) by (nonlinear_arith)
        requires q == w * m;
    vstd::arithmetic::div_mod::lemma_mod_multiples_basic(i * m, w);
}

} // verus!
