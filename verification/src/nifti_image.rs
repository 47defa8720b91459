//! A loaded volume: its extents and its voxel intensities.

use vstd::prelude::*;

use crate::error_ty::{ErrorTy, Failure};
use crate::extents::{
    canonical_extents, positive_extents, shape_error, voxel_count, VolumeDimensions,
};
use crate::intensity::{
    lemma_greatest_is_maximum, lemma_least_is_minimum, level_values, rescale, rescaled,
    rescaled_levels, sample_values, unit_span, window_of,
};
use crate::rescaled_intensity_nifti_image::{RescaledIntensityNiftiImage, RescaledVolume};
use crate::{PRIMARY_DIMS, SECONDARY_DIMS};

verus! {

/// Whether a buffer of `voxels` samples fills the grid of these extents:
/// every extent is at least one, and their product is the number of samples.
pub open spec fn fills_grid(dims: Seq<isize>, voxels: nat) -> bool {
    positive_extents(dims) && voxel_count(dims) == voxels
}

/// Why the data read from the file at `path` cannot be taken as a volume,
/// if it cannot: its shape has not three or four axes, or else its samples
/// do not fill the grid of its shape.
pub open spec fn load_error(path: Seq<char>, shape: Seq<isize>, voxels: nat) -> Option<Failure> {
    if shape_error(shape, path) is Some {
        shape_error(shape, path)
    } else if !fills_grid(canonical_extents(shape), voxels) {
        Some(Failure::MalformedVolume(path))
    } else {
        None
    }
}

/// What a loaded volume is: four extents, and one sample per voxel, the last
/// axis running fastest.
pub struct Volume {
    pub dims: Seq<isize>,
    pub samples: Seq<i64>,
}

impl Volume {
    /// The samples fill the grid that the four extents describe.
    pub open spec fn wf(self) -> bool {
        &&& self.dims.len() == 4
        &&& fills_grid(self.dims, self.samples.len())
    }

    /// The volume with its intensities rescaled to the unit interval, with
    /// the window given or else the range that the samples cover.
    pub open spec fn rescaled(self, minmax: Option<(u64, u64)>) -> RescaledVolume {
        let (lo, hi) = window_of(self.samples, minmax);
        RescaledVolume {
            dims: self.dims,
            levels: rescaled_levels(self.samples, minmax),
            span: unit_span(lo, hi) as u64,
        }
    }
}

/// A volume as its file gave it: intensities in whole units, on a grid of
/// four axes.
#[derive(Debug)]
pub struct NiftiImage {
    fdata: Vec<i64>,
    dims: VolumeDimensions,
}

impl View for NiftiImage {
    type V = Volume;

    closed spec fn view(&self) -> Volume {
        Volume { dims: self.dims@, samples: self.fdata@ }
    }
}

/// Rescaling a sound volume gives a sound rescaled volume: the grid is the
/// same, and every intensity is a fraction between 0 and 1, namely the one
/// that `rescaled` gives for the window.
pub proof fn lemma_rescaled_volume_wf(volume: Volume, minmax: Option<(u64, u64)>)
    requires
        volume.wf(),
    ensures
        volume.rescaled(minmax).wf(),
        volume.rescaled(minmax).dims == volume.dims,
        ({
            let (lo, hi) = window_of(volume.samples, minmax);
            &&& level_values(volume.rescaled(minmax).levels) == rescaled(
                sample_values(volume.samples),
                lo,
                hi,
            )
            &&& volume.rescaled(minmax).span == unit_span(lo, hi)
        }),
{
    let (lo, hi) = window_of(volume.samples, minmax);
    if volume.samples.len() > 0 {
        lemma_least_is_minimum(volume.samples);
        lemma_greatest_is_maximum(volume.samples);
    }
    assert(level_values(volume.rescaled(minmax).levels) =~= rescaled(
        sample_values(volume.samples),
        lo,
        hi,
    ));
}

impl NiftiImage {
    /// The samples fill the grid that the four extents describe.
    #[verifier::type_invariant]
    pub open spec fn wf(&self) -> bool {
        self@.wf()
    }

    /// Takes what a decoder read from `path`: the shape of the data, of
    /// three or four axes, and the samples. A shape of another length is
    /// rejected as of unsupported dimensionality; data that does not fill
    /// the grid of its shape is rejected as malformed.
    pub fn open(path: &str, shape: &[isize], fdata: Vec<i64>) -> (r: Result<NiftiImage, ErrorTy>)
        ensures
            match r {
                Ok(image) => {
                    &&& load_error(path@, shape@, fdata@.len()) is None
                    &&& image.wf()
                    &&& image@ == (Volume { dims: canonical_extents(shape@), samples: fdata@ })
                },
                Err(e) => load_error(path@, shape@, fdata@.len()) == Some(e@),
            },
    {
        let dims = match VolumeDimensions::from_shape(shape, path) {
            Ok(dims) => dims,
            Err(e) => {
                return Err(e);
            },
        };
        let len: usize = fdata.len();
        let filled: bool = match dims.checked_voxel_count() {
            Some(n) => n == len,
            None => false,
        };
        if filled {
            Ok(NiftiImage { fdata, dims })
        } else {
            Err(ErrorTy::MalformedVolume(path.to_owned()))
        }
    }

    /// The extents of a slice: those of the first two axes.
    pub fn primary_dims(&self) -> (extents: [isize; PRIMARY_DIMS])
        ensures
            extents@ == self@.dims.subrange(0, 2),
    {
        self.dims.primary_dims()
    }

    /// How many slices there are in depth, and how many volumes in time.
    pub fn secondary_dims(&self) -> (extents: [isize; SECONDARY_DIMS])
        ensures
            extents@ == self@.dims.subrange(2, 4),
    {
        self.dims.secondary_dims()
    }

    /// Rescales the intensities to the unit interval, with the window given
    /// or else with the range that the samples themselves cover. The grid
    /// stays as it is.
    pub fn rescale_intensity_to_unit_interval(self, minmax: Option<(u64, u64)>) -> (r:
        RescaledIntensityNiftiImage)
        ensures
            r.wf(),
            r@ == self@.rescaled(minmax),
    {
        proof {
            use_type_invariant(&self);
        }
        let (levels, span) = rescale(&self.fdata, minmax);
        RescaledIntensityNiftiImage::from_parts(self.dims, levels, span)
    }
}

} // verus!
