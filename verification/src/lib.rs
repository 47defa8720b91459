//! Turns volumetric NIFTI data into PNG-ready rasters, one for each slice.
//!
//! A volume is a grid of voxels along three or four axes: the two axes of a
//! slice, depth, and time. Its intensities are whole numbers of some fixed
//! unit; who decodes a file chooses the unit. Converting a volume means:
//! rescaling its intensities to the unit interval (`intensity`), cutting
//! it into slices (`rescaled_intensity_nifti_image`), making an 8-bit grey
//! raster of each slice (`rescaled_intensity_nii_slice`), and bringing the
//! raster into viewing position (`raster`). Where the rasters go is planned
//! in `target_path`, and `convert` puts all of it in order for a whole
//! directory of volumes.
//!
//! Nothing here reads or writes a file. Decoding, listing, making
//! directories and storing images is asked of the caller, one request at a
//! time.

pub mod convert;
pub mod error_ty;
pub mod extents;
pub mod intensity;
pub mod nifti_image;
pub mod raster;
pub mod rescaled_intensity_nifti_image;
pub mod rescaled_intensity_nii_slice;
pub mod target_path;

use vstd::prelude::*;

pub use convert::{convert, Conversion, Reply, Request};
pub use error_ty::ErrorTy;
pub use extents::VolumeDimensions;
pub use nifti_image::NiftiImage;
pub use raster::{Raster, Rgb};
pub use rescaled_intensity_nifti_image::RescaledIntensityNiftiImage;
pub use rescaled_intensity_nii_slice::RescaledIntensityNiiSlice;
pub use target_path::{TargetImageDir, TargetPath};

verus! {

/// Number of axes of a loaded volume.
pub const MAX_DIMS: usize = 4;

/// The two leading axes, which span every slice.
pub const PRIMARY_DIMS: usize = 2;

/// The axes behind the first two: depth and time.
pub const SECONDARY_DIMS: usize = MAX_DIMS - PRIMARY_DIMS;

} // verus!
