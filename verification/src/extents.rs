//! The axis extents of a volume: three or four of them in the file, always
//! four once loaded.

use arrayvec::ArrayVec;
use vstd::prelude::*;

use crate::error_ty::{ErrorTy, Failure};
use crate::{MAX_DIMS, PRIMARY_DIMS, SECONDARY_DIMS};

verus! {

/// `arrayvec::ArrayVec`, declared so that it can stand in a field. Nothing is
/// known of what is inside it but through `extents_of`.
#[verifier::external_type_specification]
#[verifier::external_body]
#[verifier::reject_recursive_types(T)]
pub struct ExArrayVec<T, const CAP: usize>(ArrayVec<T, CAP>);

/// The elements that an `ArrayVec` of extents holds, in the order in which
/// they were pushed.
pub uninterp spec fn extents_of(v: ArrayVec<isize, MAX_DIMS>) -> Seq<isize>;

/// `ArrayVec::new`: a vector that holds nothing yet.
#[verifier::external_body]
fn extents_new() -> (v: ArrayVec<isize, MAX_DIMS>)
    ensures
        extents_of(v) == Seq::<isize>::empty(),
{
    ArrayVec::new()
}

/// `ArrayVec::push`: the element is appended behind those already held. The
/// outside function panics on a full vector, which `requires` leaves out.
#[verifier::external_body]
fn extents_push(v: &mut ArrayVec<isize, MAX_DIMS>, extent: isize)
    requires
        extents_of(*old(v)).len() < MAX_DIMS,
    ensures
        extents_of(*final(v)) == extents_of(*old(v)).push(extent),
{
    v.push(extent)
}

/// Indexing an `ArrayVec`, which goes through `Deref` to the slice of the
/// elements held, in the order in which they were pushed. Out of range it
/// panics, which `requires` leaves out.
#[verifier::external_body]
fn extents_get(v: &ArrayVec<isize, MAX_DIMS>, axis: usize) -> (extent: isize)
    requires
        axis < extents_of(*v).len(),
    ensures
        extent == extents_of(*v)[axis as int],
{
    v[axis]
}

/// Whether a shape of this many axes is one that can be loaded.
pub open spec fn supported_dimensionality(axes: nat) -> bool {
    axes == 3 || axes == 4
}

/// The four extents that stand for a shape of three or four: a shape of
/// three gets a time axis of extent one.
pub open spec fn canonical_extents(shape: Seq<isize>) -> Seq<isize> {
    if shape.len() == 3 {
        shape.push(1isize)
    } else {
        shape
    }
}

/// Why a shape read from the file `name` cannot be brought to four extents,
/// if it cannot.
pub open spec fn shape_error(shape: Seq<isize>, name: Seq<char>) -> Option<Failure> {
    if supported_dimensionality(shape.len()) {
        None
    } else {
        Some(Failure::UnsupportedDimensionality(shape.len() as usize, name))
    }
}

/// Whether every extent is at least one.
pub open spec fn positive_extents(dims: Seq<isize>) -> bool {
    forall|axis: int| 0 <= axis < dims.len() ==> dims[axis] >= 1
}

/// How many voxels a grid of these four extents holds.
pub open spec fn voxel_count(dims: Seq<isize>) -> int {
    dims[0] * dims[1] * dims[2] * dims[3]
}

/// Where the voxel at `(x, y, z, t)` lies in the buffer of a grid of these
/// extents: the last axis runs fastest.
pub open spec fn voxel_index(dims: Seq<isize>, x: int, y: int, z: int, t: int) -> int {
    ((x * dims[1] + y) * dims[2] + z) * dims[3] + t
}

/// The extents of a loaded volume along its four axes: the two axes of a
/// slice, then depth, then time.
#[derive(Debug)]
pub struct VolumeDimensions {
    extents: ArrayVec<isize, MAX_DIMS>,
}

impl View for VolumeDimensions {
    type V = Seq<isize>;

    closed spec fn view(&self) -> Seq<isize> {
        extents_of(self.extents)
    }
}

impl VolumeDimensions {
    /// A descriptor always holds exactly four extents.
    #[verifier::type_invariant]
    pub open spec fn wf(&self) -> bool {
        self@.len() == MAX_DIMS
    }

    /// Brings a shape of three or four axes to four extents. Any other
    /// number of axes is rejected, with that number and the file's name.
    pub fn from_shape(shape: &[isize], file_name: &str) -> (r: Result<VolumeDimensions, ErrorTy>)
        ensures
            match r {
                Ok(dims) => {
                    &&& shape_error(shape@, file_name@) is None
                    &&& dims.wf()
                    &&& dims@ == canonical_extents(shape@)
                },
                Err(e) => shape_error(shape@, file_name@) == Some(e@),
            },
            shape@.len() == 3 ==> r is Ok && r->Ok_0@.len() == 4 && r->Ok_0@[3] == 1,
            shape@.len() != 3 && shape@.len() != 4 ==> r is Err && r->Err_0@
                == Failure::UnsupportedDimensionality(shape@.len() as usize, file_name@),
    {
        let len: usize = shape.len();
        if len != 3 && len != 4 {
            return Err(ErrorTy::UnsupportedDimensionality(len, file_name.to_owned()));
        }
        let mut extents = extents_new();
        let mut i: usize = 0;
        while i < 3
            invariant
                i <= 3,
                3 <= shape@.len(),
                extents_of(extents) == shape@.subrange(0, i as int),
            decreases 3 - i,
        {
            extents_push(&mut extents, shape[i]);
            i += 1;
        }
        let last: isize = if len == 3 { 1 } else { shape[3] };
        extents_push(&mut extents, last);
        Ok(VolumeDimensions { extents })
    }

    /// The extent along one axis.
    pub fn dim(&self, axis: usize) -> (extent: isize)
        requires
            axis < MAX_DIMS,
        ensures
            extent == self@[axis as int],
    {
        proof {
            use_type_invariant(self);
        }
        extents_get(&self.extents, axis)
    }

    /// The number of voxels of the grid, where every extent is at least one
    /// and that number fits the machine.
    pub fn checked_voxel_count(&self) -> (count: Option<usize>)
        ensures
            match count {
                Some(n) => positive_extents(self@) && n == voxel_count(self@),
                None => !positive_extents(self@) || voxel_count(self@) > usize::MAX,
            },
    {
        proof {
            use_type_invariant(self);
        }
        let nx: isize = self.dim(0);
        let ny: isize = self.dim(1);
        let nz: isize = self.dim(2);
        let nt: isize = self.dim(3);
        if nx < 1 || ny < 1 || nz < 1 || nt < 1 {
            return None;
        }
        let plane: usize = match (nx as usize).checked_mul(ny as usize) {
            Some(n) => n,
            None => {
                assert(nx * ny * nz * nt >= nx * ny) by (nonlinear_arith)
                    requires
                        nx >= 1,
                        ny >= 1,
                        nz >= 1,
                        nt >= 1,
                ;
                return None;
            },
        };
        let block: usize = match plane.checked_mul(nz as usize) {
            Some(n) => n,
            None => {
                assert(nx * ny * nz * nt >= nx * ny * nz) by (nonlinear_arith)
                    requires
                        nx >= 1,
                        ny >= 1,
                        nz >= 1,
                        nt >= 1,
                ;
                return None;
            },
        };
        block.checked_mul(nt as usize)
    }

    /// The extents of a slice: those of the first two axes.
    pub fn primary_dims(&self) -> (extents: [isize; PRIMARY_DIMS])
        ensures
            extents@ == self@.subrange(0, PRIMARY_DIMS as int),
    {
        let extents = [self.dim(0), self.dim(1)];
        proof {
            use_type_invariant(self);
        }
        extents
    }

    /// How many slices there are in depth, and how many volumes in time.
    pub fn secondary_dims(&self) -> (extents: [isize; SECONDARY_DIMS])
        ensures
            extents@ == self@.subrange(PRIMARY_DIMS as int, MAX_DIMS as int),
    {
        let extents = [self.dim(2), self.dim(3)];
        proof {
            use_type_invariant(self);
        }
        extents
    }
}

} // verus!
