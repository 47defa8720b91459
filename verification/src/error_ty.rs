//! The ways in which a conversion can fail.

use vstd::prelude::*;

verus! {

/// Why a conversion was given up. Where outside work failed, the error holds
/// what the one who did the work said of it, and then the path in question.
#[derive(Debug, PartialEq, Eq)]
pub enum ErrorTy {
    /// The entries of the directory could not be listed.
    ListDirFailed(String, String),
    /// The volume in the file could not be decoded.
    FailedToLoadNiftiObj(String, String),
    /// The shape of the named file has this many axes, not three or four.
    UnsupportedDimensionality(usize, String),
    /// The data of the named file does not fill the grid that its shape
    /// describes: an extent is below one, or the number of samples is not
    /// the product of the extents.
    MalformedVolume(String),
    /// It could not be found out whether the directory exists.
    TryExistsFailed(String, String),
    /// The directory could not be made.
    CreateDirAllFailed(String, String),
    /// The raster could not be stored in the file.
    ImageSaveFailed(String, String),
    /// The window from this intensity to this one cannot be told in the
    /// units of the samples.
    WindowTooWide(u64, u64),
    /// No slice lies at this depth and time.
    SliceOutOfBounds(isize, isize),
    /// A raster of this width and height is more than an image buffer holds.
    ImageTooLarge(usize, usize),
    /// A reply came that answers no request.
    UnexpectedReply,
}

/// An error, with text as sequences of characters.
pub enum Failure {
    ListDirFailed(Seq<char>, Seq<char>),
    FailedToLoadNiftiObj(Seq<char>, Seq<char>),
    UnsupportedDimensionality(usize, Seq<char>),
    MalformedVolume(Seq<char>),
    TryExistsFailed(Seq<char>, Seq<char>),
    CreateDirAllFailed(Seq<char>, Seq<char>),
    ImageSaveFailed(Seq<char>, Seq<char>),
    WindowTooWide(u64, u64),
    SliceOutOfBounds(isize, isize),
    ImageTooLarge(usize, usize),
    UnexpectedReply,
}

impl View for ErrorTy {
    type V = Failure;

    open spec fn view(&self) -> Failure {
        match *self {
            ErrorTy::ListDirFailed(cause, path) => Failure::ListDirFailed(cause@, path@),
            ErrorTy::FailedToLoadNiftiObj(cause, path) => Failure::FailedToLoadNiftiObj(
                cause@,
                path@,
            ),
            ErrorTy::UnsupportedDimensionality(axes, name) => Failure::UnsupportedDimensionality(
                axes,
                name@,
            ),
            ErrorTy::MalformedVolume(name) => Failure::MalformedVolume(name@),
            ErrorTy::TryExistsFailed(cause, path) => Failure::TryExistsFailed(cause@, path@),
            ErrorTy::CreateDirAllFailed(cause, path) => Failure::CreateDirAllFailed(cause@, path@),
            ErrorTy::ImageSaveFailed(cause, path) => Failure::ImageSaveFailed(cause@, path@),
            ErrorTy::WindowTooWide(lo, hi) => Failure::WindowTooWide(lo, hi),
            ErrorTy::SliceOutOfBounds(z, t) => Failure::SliceOutOfBounds(z, t),
            ErrorTy::ImageTooLarge(width, height) => Failure::ImageTooLarge(width, height),
            ErrorTy::UnexpectedReply => Failure::UnexpectedReply,
        }
    }
}

} // verus!
