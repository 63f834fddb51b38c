//! The heightmap: a dense square field of normalized scalar samples, one per
//! world column. Samples are stored in fixed point: the integer `SAMPLE_ONE`
//! stands for the value one, so every sample lies in the closed interval from
//! zero to one by the field's well-formedness invariant.
//!
//! The raw coherent-noise values that seed the field are floating point and
//! are mapped into fixed point by the caller; this module owns everything
//! after that mapping, and clamps on construction so that the range invariant
//! holds of every field it ever hands out.

use vstd::prelude::*;

verus! {

use crate::WorldError;

/// The fixed-point representation of the scalar value one. A sample `s`
/// stands for the real value `s / SAMPLE_ONE`.
pub const SAMPLE_ONE: u32 = 65536;

/// Largest edge length of a field: keeps `size * size` well inside `usize`
/// on every target this library builds for.
pub const MAX_FIELD_SIZE: usize = 46340;

/// A sample clamped into `[0, SAMPLE_ONE]`, the fixed-point image of
/// clamping a scalar into `[0, 1]`.
pub open spec fn clamp_sample(s: u32) -> u32 {
    if s > SAMPLE_ONE {
        SAMPLE_ONE
    } else {
        s
    }
}

/// The grayscale byte a sample maps to in the debug overlay: the truncation
/// of the sample, read as a scalar in `[0, 1]`, scaled to `[0, 255]`.
pub open spec fn gray_byte(s: u32) -> int {
    s * 255 / (SAMPLE_ONE as int)
}

/// A dense 2D array of normalized samples, `size` columns by `size` rows,
/// indexed by absolute world column coordinates. Immutable once built.
#[derive(Debug)]
pub struct HeightmapField {
    pub size: usize,
    pub samples: Vec<u32>,
}

/// A flat grid index stays inside the grid: used wherever a pair of
/// coordinates is turned into a row-major index.
pub(crate) proof fn lemma_grid_index_bounds(x: int, z: int, size: int)
    by (nonlinear_arith)
    requires
        0 <= x < size,
        0 <= z < size,
    ensures
        0 <= x * size + z < size * size,
{
}

/// Squaring is monotone on the naturals: bounds the area of a bounded grid.
pub(crate) proof fn lemma_square_bounds(size: int, cap: int)
    by (nonlinear_arith)
    requires
        0 <= size <= cap,
    ensures
        size * size <= cap * cap,
{
}

impl HeightmapField {
    /// Well-formedness: a positive, bounded edge length, one sample per
    /// column, and every sample normalized. Constructors establish this and
    /// the field is never mutated afterwards.
    pub open spec fn wf(self) -> bool {
        &&& 1 <= self.size <= MAX_FIELD_SIZE
        &&& self.samples@.len() == self.size * self.size
        &&& forall|i: int|
            0 <= i < self.samples@.len() ==> #[trigger] self.samples@[i] <= SAMPLE_ONE
    }

    /// The sample of world column `(x, z)`, in row-major order.
    pub open spec fn sample_at(self, x: int, z: int) -> u32 {
        self.samples@[x * self.size + z]
    }

    /// The field `raw` generates: same edge length, every raw sample clamped
    /// into range. Two fields generated from the same input are equal.
    pub open spec fn is_generated_from(self, size: int, raw: Seq<u32>) -> bool {
        &&& self.size == size
        &&& self.samples@.len() == raw.len()
        &&& forall|i: int|
            0 <= i < raw.len() ==> #[trigger] self.samples@[i] == clamp_sample(raw[i])
    }

    /// Builds a field of edge length `size` from one raw fixed-point sample
    /// per column, clamping each into `[0, SAMPLE_ONE]`. Fails with a
    /// configuration error exactly when the size is invalid or the sample
    /// count does not match it.
    pub fn from_samples(size: usize, samples: Vec<u32>) -> (r: Result<HeightmapField, WorldError>)
        ensures
            match r {
                Ok(hm) => {
                    &&& 1 <= size <= MAX_FIELD_SIZE
                    &&& samples@.len() == size * size
                    &&& hm.wf()
                    &&& hm.is_generated_from(size as int, samples@)
                },
                Err(e) => {
                    &&& e == WorldError::ConfigurationError
                    &&& (size < 1 || size > MAX_FIELD_SIZE || samples@.len() != size * size)
                },
            },
    {
        if size < 1 || size > MAX_FIELD_SIZE {
            return Err(WorldError::ConfigurationError);
        }
        proof {
            lemma_square_bounds(size as int, MAX_FIELD_SIZE as int);
        }
        if samples.len() != size * size {
            return Err(WorldError::ConfigurationError);
        }
        let n: usize = samples.len();
        let mut clamped: Vec<u32> = Vec::new();
        let mut i: usize = 0;
        while i < n
            invariant
                i <= n,
                n == samples@.len(),
                clamped@.len() == i,
                forall|j: int| 0 <= j < i ==> #[trigger] clamped@[j] == clamp_sample(samples@[j]),
            decreases n - i,
        {
            let s: u32 = samples[i];
            if s > SAMPLE_ONE {
                clamped.push(SAMPLE_ONE);
            } else {
                clamped.push(s);
            }
            i = i + 1;
        }
        Ok(HeightmapField { size, samples: clamped })
    }

    /// Reads the sample of world column `(x, z)`.
    pub fn sample(&self, x: usize, z: usize) -> (s: u32)
        requires
            self.wf(),
            x < self.size,
            z < self.size,
        ensures
            s == self.sample_at(x as int, z as int),
            s <= SAMPLE_ONE,
    {
        proof {
            lemma_grid_index_bounds(x as int, z as int, self.size as int);
            lemma_square_bounds(self.size as int, MAX_FIELD_SIZE as int);
        }
        self.samples[x * self.size + z]
    }

    /// Renders the field as an RGBA8 image buffer for the debug overlay:
    /// four bytes per sample, red, green and blue all the sample's grayscale
    /// byte, alpha fully opaque.
    pub fn to_rgba(&self) -> (r: Vec<u8>)
        requires
            self.wf(),
        ensures
            r@.len() == 4 * self.samples@.len(),
            forall|i: int| 0 <= i < self.samples@.len() ==> {
                &&& #[trigger] r@[4 * i] == gray_byte(self.samples@[i])
                &&& r@[4 * i + 1] == gray_byte(self.samples@[i])
                &&& r@[4 * i + 2] == gray_byte(self.samples@[i])
                &&& r@[4 * i + 3] == 255
            },
    {
        let n: usize = self.samples.len();
        let mut r: Vec<u8> = Vec::new();
        let mut i: usize = 0;
        while i < n
            invariant
                i <= n,
                n == self.samples@.len(),
                self.wf(),
                r@.len() == 4 * i,
                forall|j: int| 0 <= j < i ==> {
                    &&& #[trigger] r@[4 * j] == gray_byte(self.samples@[j])
                    &&& r@[4 * j + 1] == gray_byte(self.samples@[j])
                    &&& r@[4 * j + 2] == gray_byte(self.samples@[j])
                    &&& r@[4 * j + 3] == 255
                },
            decreases n - i,
        {
            let s: u32 = self.samples[i];
            assert(s <= SAMPLE_ONE);
            let byte: u8 = (s * 255 / SAMPLE_ONE) as u8;
            assert(byte == gray_byte(s));
            let ghost r0 = r@;
            r.push(byte);
            r.push(byte);
            r.push(byte);
            r.push(255);
            proof {
                assert forall|j: int| 0 <= j <= i implies {
                    &&& #[trigger] r@[4 * j] == gray_byte(self.samples@[j])
                    &&& r@[4 * j + 1] == gray_byte(self.samples@[j])
                    &&& r@[4 * j + 2] == gray_byte(self.samples@[j])
                    &&& r@[4 * j + 3] == 255
                } by {
                    if j < i {
                        assert(r@[4 * j] == r0[4 * j]);
                        assert(r@[4 * j + 1] == r0[4 * j + 1]);
                        assert(r@[4 * j + 2] == r0[4 * j + 2]);
                        assert(r@[4 * j + 3] == r0[4 * j + 3]);
                    } else {
                        assert(r@[4 * j] == byte);
                        assert(r@[4 * j + 1] == byte);
                        assert(r@[4 * j + 2] == byte);
                        assert(r@[4 * j + 3] == 255);
                    }
                }
            }
            i = i + 1;
        }
        r
    }
}

/// Range invariant: every sample of a well-formed field, read as a scalar,
/// lies in `[0, 1]` inclusive — in fixed point, in `[0, SAMPLE_ONE]`.
pub proof fn lemma_sample_range(hm: HeightmapField, x: int, z: int)
    requires
        hm.wf(),
        0 <= x < hm.size,
        0 <= z < hm.size,
    ensures
        0 <= hm.sample_at(x, z) <= SAMPLE_ONE,
{
    lemma_grid_index_bounds(x, z, hm.size as int);
}

/// Determinism: generating a field twice from the same edge length and the
/// same raw samples gives byte-for-byte identical fields. Everything derived
/// from a field (the grayscale overlay, the terrain) is pinned by contracts
/// as a function of the field alone, so it is identical too.
pub proof fn lemma_generation_deterministic(
    size: int,
    raw: Seq<u32>,
    a: HeightmapField,
    b: HeightmapField,
)
    requires
        a.is_generated_from(size, raw),
        b.is_generated_from(size, raw),
    ensures
        a.size == b.size,
        a.samples@ == b.samples@,
{
    assert(a.samples@ =~= b.samples@);
}

} // verus!
