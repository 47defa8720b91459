//! A volume whose intensities have been rescaled to the unit interval, and
//! the slices cut from it.

use vstd::arithmetic::div_mod::lemma_fundamental_div_mod_converse;
use vstd::prelude::*;

use crate::error_ty::{ErrorTy, Failure};
use crate::extents::{canonical_extents, positive_extents, voxel_index, VolumeDimensions};
use crate::intensity::{level_values, unit_fractions};
use crate::nifti_image::{fills_grid, load_error, NiftiImage, Volume};
use crate::raster::{fits_image_buffer, lemma_cell, raw_rgba};
use crate::rescaled_intensity_nii_slice::{Plane, RescaledIntensityNiiSlice};
use crate::{MAX_DIMS, PRIMARY_DIMS, SECONDARY_DIMS};

verus! {

/// What a rescaled volume is: four extents, and for every voxel a fraction
/// between 0 and 1, as a level over the span that all voxels share.
pub struct RescaledVolume {
    pub dims: Seq<isize>,
    pub levels: Seq<u64>,
    pub span: u64,
}

impl RescaledVolume {
    /// The levels fill the grid, and none is above the span.
    pub open spec fn wf(self) -> bool {
        &&& self.dims.len() == 4
        &&& fills_grid(self.dims, self.levels.len())
        &&& unit_fractions(level_values(self.levels), self.span as int)
    }

    /// The level of the voxel at `(x, y, z, t)`.
    pub open spec fn voxel(self, x: int, y: int, z: int, t: int) -> u64 {
        self.levels[voxel_index(self.dims, x, y, z, t)]
    }

    /// The slice at depth `z` and time `t`: a plane with a row for every
    /// step along the first axis and a column for every step along the
    /// second.
    pub open spec fn plane(self, z: int, t: int) -> Plane {
        Plane {
            levels: slice_levels(self, z, t),
            span: self.span,
            width: self.dims[1] as nat,
            height: self.dims[0] as nat,
        }
    }
}

/// A volume with every intensity between 0 and 1.
#[derive(Debug)]
pub struct RescaledIntensityNiftiImage {
    levels: Vec<u64>,
    span: u64,
    dims: VolumeDimensions,
}

impl View for RescaledIntensityNiftiImage {
    type V = RescaledVolume;

    closed spec fn view(&self) -> RescaledVolume {
        RescaledVolume { dims: self.dims@, levels: self.levels@, span: self.span }
    }
}

/// Row `x` and column `y` of a slice hold the voxel at `(x, y, z, t)`.
pub proof fn lemma_plane_at(volume: RescaledVolume, z: int, t: int, x: int, y: int)
    requires
        volume.dims.len() == 4,
        positive_extents(volume.dims),
        0 <= x < volume.dims[0],
        0 <= y < volume.dims[1],
    ensures
        volume.plane(z, t).at(x, y) == volume.voxel(x, y, z, addressed_time(volume.dims, t)),
{
    lemma_cell(volume.dims[1] as int, volume.dims[0] as int, x, y);
    assert(volume.dims[1] * volume.dims[0] == volume.dims[0] * volume.dims[1]) by (nonlinear_arith);
}

/// Whether a slice lies at depth `z` and time `t`. A volume of a single time
/// step is addressed by depth alone, whatever `t` is.
pub open spec fn slice_in_bounds(dims: Seq<isize>, z: int, t: int) -> bool {
    &&& 0 <= z < dims[2]
    &&& dims[3] > 1 ==> 0 <= t < dims[3]
}

/// The time step that `t` addresses: `t` itself, or the only one there is.
pub open spec fn addressed_time(dims: Seq<isize>, t: int) -> int {
    if dims[3] > 1 {
        t
    } else {
        0
    }
}

/// Where the volume holds pixel `p` of the slice at depth `z` and time `t`.
/// Pixel `x * dims[1] + y` is the voxel at `(x, y, z, t)`: its position is
/// `voxel_index(dims, x, y, z, addressed_time(dims, t))`.
pub open spec fn slice_position(dims: Seq<isize>, p: int, z: int, t: int) -> int {
    (p * dims[2] + z) * dims[3] + addressed_time(dims, t)
}

/// The levels of the slice at depth `z` and time `t`, row after row: row `x`
/// and column `y` of it hold the voxel at `(x, y, z, t)`.
pub open spec fn slice_levels(volume: RescaledVolume, z: int, t: int) -> Seq<u64> {
    Seq::new(
        (volume.dims[0] * volume.dims[1]) as nat,
        |p: int| volume.levels[slice_position(volume.dims, p, z, t)],
    )
}

/// Two slices of a volume share no voxel, unless they are the same slice:
/// at another depth, or at another of several time steps, every pixel comes
/// from another place of the volume.
pub proof fn lemma_slices_disjoint(
    dims: Seq<isize>,
    z: int,
    t: int,
    p: int,
    other_z: int,
    other_t: int,
    other_p: int,
)
    requires
        dims.len() == 4,
        positive_extents(dims),
        slice_in_bounds(dims, z, t),
        slice_in_bounds(dims, other_z, other_t),
        0 <= p,
        0 <= other_p,
        z != other_z || addressed_time(dims, t) != addressed_time(dims, other_t),
    ensures
        slice_position(dims, p, z, t) != slice_position(dims, other_p, other_z, other_t),
{
    let nz = dims[2] as int;
    let nt = dims[3] as int;
    let this_at = addressed_time(dims, t);
    let other_at = addressed_time(dims, other_t);
    if slice_position(dims, p, z, t) == slice_position(dims, other_p, other_z, other_t) {
        let at = slice_position(dims, p, z, t);
        lemma_fundamental_div_mod_converse(at, nt, p * nz + z, this_at);
        lemma_fundamental_div_mod_converse(at, nt, other_p * nz + other_z, other_at);
        let row = p * nz + z;
        lemma_fundamental_div_mod_converse(row, nz, p, z);
        lemma_fundamental_div_mod_converse(row, nz, other_p, other_z);
    }
}

/// What the extents of a filled grid imply for the sizes that slicing
/// computes with.
proof fn lemma_grid_sizes(nx: int, ny: int, nz: int, nt: int, z: int, t: int)
    requires
        nx >= 1,
        ny >= 1,
        nz >= 1,
        nt >= 1,
        0 <= z < nz,
        0 <= t < nt,
    ensures
        1 <= nx * ny <= nx * ny * nz * nt,
        1 <= nz * nt <= nx * ny * nz * nt,
        0 <= z * nt + t < nz * nt,
        nx * ny * nz * nt == (nx * ny) * (nz * nt),
{
    assert(1 <= nx * ny <= nx * ny * nz * nt) by (nonlinear_arith)
        requires
            nx >= 1,
            ny >= 1,
            nz >= 1,
            nt >= 1,
    ;
    assert(1 <= nz * nt <= nx * ny * nz * nt) by (nonlinear_arith)
        requires
            nx >= 1,
            ny >= 1,
            nz >= 1,
            nt >= 1,
    ;
    assert(0 <= z * nt + t < nz * nt) by (nonlinear_arith)
        requires
            nt >= 1,
            0 <= z < nz,
            0 <= t < nt,
    ;
    assert(nx * ny * nz * nt == (nx * ny) * (nz * nt)) by (nonlinear_arith);
}

/// Where the voxel of pixel `p` lies: the voxels of one pixel after the
/// other are `nz * nt` samples apart, and the slice begins `z * nt + t`
/// samples into the buffer.
proof fn lemma_pixel_position(p: int, pixels: int, nz: int, nt: int, z: int, t: int)
    requires
        0 <= p < pixels,
        nz >= 1,
        nt >= 1,
        0 <= z < nz,
        0 <= t < nt,
    ensures
        (p * nz + z) * nt + t == p * (nz * nt) + (z * nt + t),
        0 <= p * (nz * nt) + (z * nt + t) < pixels * (nz * nt),
{
    assert((p * nz + z) * nt + t == p * (nz * nt) + (z * nt + t)) by (nonlinear_arith);
    assert(0 <= p * (nz * nt) + (z * nt + t) < pixels * (nz * nt)) by (nonlinear_arith)
        requires
            0 <= p < pixels,
            nz >= 1,
            nt >= 1,
            0 <= z < nz,
            0 <= t < nt,
    ;
}

impl RescaledIntensityNiftiImage {
    /// The levels fill the grid, and none is above the span.
    #[verifier::type_invariant]
    pub open spec fn wf(&self) -> bool {
        self@.wf()
    }

    pub(crate) fn from_parts(dims: VolumeDimensions, levels: Vec<u64>, span: u64) -> (r: Self)
        requires
            dims.wf(),
            fills_grid(dims@, levels@.len()),
            unit_fractions(level_values(levels@), span as int),
        ensures
            r.wf(),
            r@.dims == dims@,
            r@.levels == levels@,
            r@.span == span,
    {
        RescaledIntensityNiftiImage { levels, span, dims }
    }

    /// Takes what a decoder read from `path` (see `NiftiImage::open`) and
    /// rescales it to the unit interval, with the window given or else with
    /// the range that the samples themselves cover.
    pub fn new(path: &str, shape: &[isize], fdata: Vec<i64>, minmax: Option<(u64, u64)>) -> (r:
        Result<Self, ErrorTy>)
        ensures
            match r {
                Ok(image) => {
                    &&& load_error(path@, shape@, fdata@.len()) is None
                    &&& image.wf()
                    &&& image@ == (Volume {
                        dims: canonical_extents(shape@),
                        samples: fdata@,
                    }).rescaled(minmax)
                },
                Err(e) => load_error(path@, shape@, fdata@.len()) == Some(e@),
            },
    {
        match NiftiImage::open(path, shape, fdata) {
            Ok(nii) => Ok(nii.rescale_intensity_to_unit_interval(minmax)),
            Err(e) => Err(e),
        }
    }

    /// The levels of the voxels, the last axis running fastest.
    pub fn levels(&self) -> (levels: &Vec<u64>)
        ensures
            levels@ == self@.levels,
    {
        &self.levels
    }

    /// The span that the levels are fractions of.
    pub fn span(&self) -> (span: u64)
        ensures
            span == self@.span,
    {
        self.span
    }

    /// The extent along one axis.
    pub fn dim(&self, axis: usize) -> (extent: isize)
        requires
            axis < MAX_DIMS,
        ensures
            extent == self@.dims[axis as int],
    {
        self.dims.dim(axis)
    }

    /// The extents of a slice: those of the first two axes.
    pub fn primary_dims(&self) -> (extents: [isize; PRIMARY_DIMS])
        ensures
            extents@ == self@.dims.subrange(0, 2),
    {
        self.dims.primary_dims()
    }

    /// How many slices there are in depth, and how many volumes in time.
    pub fn secondary_dims(&self) -> (extents: [isize; SECONDARY_DIMS])
        ensures
            extents@ == self@.dims.subrange(2, 4),
    {
        self.dims.secondary_dims()
    }

    /// Cuts the slice at depth `index[0]` and time `index[1]` out of the
    /// volume. A volume of a single time step is addressed by depth alone.
    /// An index outside the volume is an error, never wrapped or clamped.
    pub fn slice(&self, index: [isize; SECONDARY_DIMS]) -> (r: Result<
        RescaledIntensityNiiSlice,
        ErrorTy,
    >)
        ensures
            match r {
                Ok(plane) => {
                    &&& slice_in_bounds(self@.dims, index[0] as int, index[1] as int)
                    &&& plane.wf()
                    &&& plane@ == self@.plane(index[0] as int, index[1] as int)
                },
                Err(e) => {
                    &&& !slice_in_bounds(self@.dims, index[0] as int, index[1] as int)
                    &&& e@ == Failure::SliceOutOfBounds(index[0], index[1])
                },
            },
    {
        proof {
            use_type_invariant(self);
        }
        let nx: isize = self.dims.dim(0);
        let ny: isize = self.dims.dim(1);
        let nz: isize = self.dims.dim(2);
        let nt: isize = self.dims.dim(3);
        let z: isize = index[0];
        let t: isize = if nt > 1 {
            index[1]
        } else {
            0
        };
        if z < 0 || z >= nz || t < 0 || t >= nt {
            return Err(ErrorTy::SliceOutOfBounds(index[0], index[1]));
        }
        let voxels: usize = self.levels.len();
        proof {
            lemma_grid_sizes(nx as int, ny as int, nz as int, nt as int, z as int, t as int);
        }
        let pixels: usize = (nx as usize) * (ny as usize);
        let stride: usize = (nz as usize) * (nt as usize);
        let offset: usize = (z as usize) * (nt as usize) + (t as usize);
        let mut plane: Vec<u64> = Vec::new();
        let mut p: usize = 0;
        while p < pixels
            invariant
                p <= pixels,
                pixels == nx * ny,
                stride == nz * nt,
                offset == z * nt + t,
                nz >= 1,
                nt >= 1,
                0 <= z < nz,
                0 <= t < nt,
                pixels * stride == voxels,
                voxels == self.levels@.len(),
                plane@.len() == p,
                forall|q: int|
                    0 <= q < p ==> #[trigger] plane@[q] == self.levels@[(q * nz + z) * nt + t],
                forall|q: int| 0 <= q < p ==> #[trigger] plane@[q] <= self.span,
                unit_fractions(level_values(self.levels@), self.span as int),
            decreases pixels - p,
        {
            proof {
                lemma_pixel_position(p as int, pixels as int, nz as int, nt as int, z as int, t as int);
            }
            assert(p * stride >= 0) by (nonlinear_arith)
                requires
                    p >= 0,
                    stride >= 0,
            ;
            let at: usize = p * stride + offset;
            let level: u64 = self.levels[at];
            assert(level_values(self.levels@)[at as int] == level);
            plane.push(level);
            p += 1;
        }
        assert(plane@ =~= slice_levels(self@, index[0] as int, index[1] as int));
        Ok(RescaledIntensityNiiSlice::new(plane, self.span, ny as usize, nx as usize))
    }

    /// The slice at depth `idx[0]` and time `idx[1]` as the bytes of the
    /// raster that is stored for it, with an alpha of 255 behind every pixel:
    /// row after row, four bytes for each pixel. The raster has a row for
    /// every step along the volume's second axis and a column for every step
    /// along its first.
    pub fn slice_as_raw_rgba(&self, idx: [isize; SECONDARY_DIMS]) -> (r: Result<Vec<u8>, ErrorTy>)
        ensures
            match r {
                Ok(raw) => {
                    &&& slice_in_bounds(self@.dims, idx[0] as int, idx[1] as int)
                    &&& fits_image_buffer(self@.dims[0] as nat, self@.dims[1] as nat)
                    &&& raw@ == raw_rgba(
                        self@.plane(idx[0] as int, idx[1] as int).ubyte_rgb().transposed().pixels,
                    )
                },
                Err(e) => {
                    if !slice_in_bounds(self@.dims, idx[0] as int, idx[1] as int) {
                        e@ == Failure::SliceOutOfBounds(idx[0], idx[1])
                    } else {
                        &&& !fits_image_buffer(self@.dims[0] as nat, self@.dims[1] as nat)
                        &&& e@ == Failure::ImageTooLarge(
                            self@.dims[0] as usize,
                            self@.dims[1] as usize,
                        )
                    }
                },
            },
    {
        proof {
            use_type_invariant(self);
        }
        let plane = match self.slice(idx) {
            Ok(plane) => plane,
            Err(e) => {
                return Err(e);
            },
        };
        plane.as_rgb_image().into_raw_rgba()
    }
}

} // verus!
