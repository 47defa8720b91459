//! The conversion of a directory of volumes, step by step.
//!
//! Listing a directory, decoding a file, making a directory and storing a
//! raster are the work of others. The conversion decides what is asked of
//! them and in which order: it hands out one request at a time and takes
//! the reply to it. The volumes are taken in the order in which they were
//! listed; each is decoded, rescaled, and its slices are stored time step by
//! time step and, within one time step, depth by depth. The directory of a
//! volume is looked for, and made where it is missing, once: before the
//! first slice of the volume is stored. The first failure ends it all.

use vstd::arithmetic::div_mod::lemma_fundamental_div_mod_converse;
use vstd::prelude::*;

use crate::error_ty::{ErrorTy, Failure};
use crate::extents::canonical_extents;
use crate::nifti_image::{lemma_rescaled_volume_wf, load_error, Volume};
use crate::raster::{Picture, Raster};
use crate::rescaled_intensity_nifti_image::{
    slice_in_bounds, RescaledIntensityNiftiImage, RescaledVolume,
};
use crate::target_path::{joined, slice_file_name_of, join, Existence, TargetImageDir, TargetPath};

verus! {

/// Outside work that the conversion asks for, or the end of it.
#[derive(Debug)]
pub enum Request {
    /// List the entries of this directory.
    ListDir(String),
    /// Decode the volume in this file.
    Load(String),
    /// Find out whether this directory exists.
    TryExists(String),
    /// Make this directory, and those above it that are missing.
    CreateDirAll(String),
    /// Store this raster in this file.
    Save(String, Raster),
    /// Every volume has been converted.
    Done,
    /// The conversion has been given up.
    Fail(ErrorTy),
}

/// A request, with text as sequences of characters.
pub enum Asked {
    ListDir(Seq<char>),
    Load(Seq<char>),
    TryExists(Seq<char>),
    CreateDirAll(Seq<char>),
    Save(Seq<char>, Picture),
    Done,
    Fail(Failure),
}

impl View for Request {
    type V = Asked;

    open spec fn view(&self) -> Asked {
        match *self {
            Request::ListDir(path) => Asked::ListDir(path@),
            Request::Load(path) => Asked::Load(path@),
            Request::TryExists(path) => Asked::TryExists(path@),
            Request::CreateDirAll(path) => Asked::CreateDirAll(path@),
            Request::Save(path, image) => Asked::Save(path@, image@),
            Request::Done => Asked::Done,
            Request::Fail(error) => Asked::Fail(error@),
        }
    }
}

/// What came of the work that was asked for.
#[derive(Debug)]
pub enum Reply {
    /// The names of the entries of the directory, in the order of listing.
    Entries(Vec<String>),
    /// The shape of the volume, and its samples, the last axis running
    /// fastest.
    Volume(Vec<isize>, Vec<i64>),
    /// Whether the directory exists.
    Exists(bool),
    /// The directory has been made.
    Created,
    /// The raster has been stored.
    Saved,
    /// The work failed; this is what its doer said of it.
    Failed(String),
}

/// The names that a list of strings holds.
pub open spec fn names(entries: Seq<String>) -> Seq<Seq<char>> {
    Seq::new(entries.len(), |i: int| entries[i]@)
}

/// A reply, with text as sequences of characters.
pub enum Answer {
    Entries(Seq<Seq<char>>),
    Volume(Seq<isize>, Seq<i64>),
    Exists(bool),
    Created,
    Saved,
    Failed(Seq<char>),
}

impl View for Reply {
    type V = Answer;

    open spec fn view(&self) -> Answer {
        match *self {
            Reply::Entries(entries) => Answer::Entries(names(entries@)),
            Reply::Volume(shape, fdata) => Answer::Volume(shape@, fdata@),
            Reply::Exists(found) => Answer::Exists(found),
            Reply::Created => Answer::Created,
            Reply::Saved => Answer::Saved,
            Reply::Failed(cause) => Answer::Failed(cause@),
        }
    }
}

/// The work on one volume: which entry it is, the rescaled volume, and the
/// directory for its rasters.
pub struct Job {
    pub entries: Seq<Seq<char>>,
    pub next: int,
    pub image: RescaledVolume,
    pub target: Seq<char>,
    pub existence: Existence,
}

impl Job {
    /// The same work, with the directory known to exist.
    pub open spec fn found(self) -> Job {
        Job {
            entries: self.entries,
            next: self.next,
            image: self.image,
            target: self.target,
            existence: Existence::Exists,
        }
    }

    /// How many slices the volume has: one for each depth at each time.
    pub open spec fn slices(self) -> int {
        self.image.dims[2] * self.image.dims[3]
    }
}

/// How far a conversion has come: which reply it waits for.
pub enum Progress {
    /// The entries of the input directory.
    Listing,
    /// The volume of the entry `next`.
    Loading(Seq<Seq<char>>, int),
    /// Whether the directory of the volume exists.
    Probing(Job),
    /// That the directory of the volume has been made.
    Creating(Job),
    /// That the slice at this time and this depth has been stored.
    Saving(Job, int, int),
    /// None: the conversion is over.
    Finished,
}

/// What a conversion is: where it reads, where it writes, the window for
/// rescaling, and how far it has come.
pub struct Plan {
    pub nii_files: Seq<char>,
    pub png_stub: Seq<char>,
    pub minmax: Option<(u64, u64)>,
    pub progress: Progress,
}

impl Plan {
    /// The same conversion at another point of its way.
    pub open spec fn at(self, progress: Progress) -> Plan {
        Plan {
            nii_files: self.nii_files,
            png_stub: self.png_stub,
            minmax: self.minmax,
            progress,
        }
    }

    /// Whether a job belongs to this conversion: it is on one of the
    /// entries, its volume is sound, and its directory is the one planned
    /// for that entry.
    pub open spec fn admits(self, job: Job) -> bool {
        &&& 0 <= job.next < job.entries.len()
        &&& job.image.wf()
        &&& job.target == joined(self.png_stub, job.entries[job.next])
    }

    /// What holds of a conversion wherever it stands. Nothing is stored
    /// before the directory is known to exist, and only slices that the
    /// volume has are stored.
    pub open spec fn wf(self) -> bool {
        match self.progress {
            Progress::Listing => true,
            Progress::Loading(entries, next) => 0 <= next < entries.len(),
            Progress::Probing(job) => self.admits(job) && job.existence == Existence::Unknown,
            Progress::Creating(job) => self.admits(job) && job.existence == Existence::Unknown,
            Progress::Saving(job, t, z) => {
                &&& self.admits(job)
                &&& job.existence == Existence::Exists
                &&& 0 <= z < job.image.dims[2]
                &&& 0 <= t < job.image.dims[3]
            },
            Progress::Finished => true,
        }
    }

    /// Goes on to the entry `next`: asks for its volume, or is done where no
    /// entry is left.
    pub open spec fn load(self, entries: Seq<Seq<char>>, next: int) -> (Plan, Asked) {
        if 0 <= next < entries.len() {
            (
                self.at(Progress::Loading(entries, next)),
                Asked::Load(joined(self.nii_files, entries[next])),
            )
        } else {
            (self.at(Progress::Finished), Asked::Done)
        }
    }

    /// Asks for the slice at time `t` and depth `z` to be stored: the raster
    /// of the slice, in the file named after the depth.
    pub open spec fn save(self, job: Job, t: int, z: int) -> (Plan, Asked) {
        (
            self.at(Progress::Saving(job, t, z)),
            Asked::Save(
                joined(job.target, slice_file_name_of(z as nat)),
                job.image.plane(z, t).ubyte_rgb().transposed(),
            ),
        )
    }

    /// Gives the conversion up.
    pub open spec fn fail(self, failure: Failure) -> (Plan, Asked) {
        (self.at(Progress::Finished), Asked::Fail(failure))
    }

    /// Takes the volume that was decoded for the entry `next`: rejects it,
    /// or rescales it and asks whether its directory exists.
    pub open spec fn loaded(
        self,
        entries: Seq<Seq<char>>,
        next: int,
        shape: Seq<isize>,
        fdata: Seq<i64>,
    ) -> (Plan, Asked) {
        let path = joined(self.nii_files, entries[next]);
        match load_error(path, shape, fdata.len()) {
            Some(failure) => self.fail(failure),
            None => {
                let job = Job {
                    entries,
                    next,
                    image: (Volume { dims: canonical_extents(shape), samples: fdata }).rescaled(
                        self.minmax,
                    ),
                    target: joined(self.png_stub, entries[next]),
                    existence: Existence::Unknown,
                };
                (self.at(Progress::Probing(job)), Asked::TryExists(job.target))
            },
        }
    }

    /// Begins to store the slices of a volume whose directory exists.
    pub open spec fn begin(self, job: Job) -> (Plan, Asked) {
        self.save(job.found(), 0, 0)
    }

    /// Goes on from the slice at time `t` and depth `z`, which has been
    /// stored: to the next depth, or to the first depth of the next time
    /// step, or to the next entry.
    pub open spec fn saved(self, job: Job, t: int, z: int) -> (Plan, Asked) {
        if z + 1 < job.image.dims[2] {
            self.save(job, t, z + 1)
        } else if t + 1 < job.image.dims[3] {
            self.save(job, t + 1, 0)
        } else {
            self.load(job.entries, job.next + 1)
        }
    }

    /// The conversion after a reply, and what it asks for next.
    pub open spec fn step(self, answer: Answer) -> (Plan, Asked) {
        match (self.progress, answer) {
            (Progress::Listing, Answer::Entries(entries)) => self.load(entries, 0),
            (Progress::Listing, Answer::Failed(cause)) => self.fail(
                Failure::ListDirFailed(cause, self.nii_files),
            ),
            (Progress::Loading(entries, next), Answer::Volume(shape, fdata)) => self.loaded(
                entries,
                next,
                shape,
                fdata,
            ),
            (Progress::Loading(entries, next), Answer::Failed(cause)) => self.fail(
                Failure::FailedToLoadNiftiObj(cause, joined(self.nii_files, entries[next])),
            ),
            (Progress::Probing(job), Answer::Exists(true)) => self.begin(job),
            (Progress::Probing(job), Answer::Exists(false)) => (
                self.at(Progress::Creating(job)),
                Asked::CreateDirAll(job.target),
            ),
            (Progress::Probing(job), Answer::Failed(cause)) => self.fail(
                Failure::TryExistsFailed(cause, job.target),
            ),
            (Progress::Creating(job), Answer::Created) => self.begin(job),
            (Progress::Creating(job), Answer::Failed(cause)) => self.fail(
                Failure::CreateDirAllFailed(cause, job.target),
            ),
            (Progress::Saving(job, t, z), Answer::Saved) => self.saved(job, t, z),
            (Progress::Saving(job, t, z), Answer::Failed(cause)) => self.fail(
                Failure::ImageSaveFailed(cause, joined(job.target, slice_file_name_of(z as nat))),
            ),
            _ => self.fail(Failure::UnexpectedReply),
        }
    }
}

/// The place of a slice among the slices of its volume, in the order in
/// which they are stored: time step by time step, and depth by depth within
/// each.
pub open spec fn slice_rank(dims: Seq<isize>, t: int, z: int) -> int {
    t * dims[2] + z
}

/// The rank of a slice tells its time and its depth: time is the outer
/// order, depth the inner one.
pub proof fn lemma_rank_tells_slice(dims: Seq<isize>, t: int, z: int)
    requires
        0 <= z < dims[2],
    ensures
        slice_rank(dims, t, z) / (dims[2] as int) == t,
        slice_rank(dims, t, z) % (dims[2] as int) == z,
{
    lemma_fundamental_div_mod_converse(slice_rank(dims, t, z), dims[2] as int, t, z);
}

/// A step leaves a sound conversion sound. So at every point of a
/// conversion, the slice that is being stored is one that the volume has,
/// and the directory that takes it is known to exist.
pub proof fn lemma_step_preserves_wf(plan: Plan, answer: Answer)
    requires
        plan.wf(),
    ensures
        plan.step(answer).0.wf(),
{
    match (plan.progress, answer) {
        (Progress::Loading(entries, next), Answer::Volume(shape, fdata)) => {
            let path = joined(plan.nii_files, entries[next]);
            if load_error(path, shape, fdata.len()) is None {
                lemma_rescaled_volume_wf(
                    Volume { dims: canonical_extents(shape), samples: fdata },
                    plan.minmax,
                );
            }
        },
        _ => {},
    }
}

/// Nothing is stored before the directory is known to exist: storing is
/// asked for only once the directory was found or made, and it is made
/// only where it was looked for and not found.
pub proof fn lemma_directory_precedes_storing(plan: Plan, answer: Answer)
    requires
        plan.wf(),
    ensures
        plan.step(answer).1 is Save ==> {
            &&& plan.step(answer).0.progress matches Progress::Saving(job, _, _)
            &&& job.existence == Existence::Exists
            &&& (plan.progress is Probing && answer == Answer::Exists(true) || plan.progress
                is Creating && answer == Answer::Created || plan.progress is Saving && answer
                == Answer::Saved)
        },
        plan.step(answer).1 is CreateDirAll ==> plan.progress is Probing && answer
            == Answer::Exists(false),
        plan.step(answer).1 is TryExists ==> plan.progress is Loading && answer is Volume,
{
}

/// The first failure ends the conversion: once it was given up or is done,
/// the conversion is over, and whatever comes after that is out of turn.
pub proof fn lemma_failure_ends(plan: Plan, answer: Answer)
    ensures
        plan.step(answer).1 is Fail || plan.step(answer).1 is Done <==> plan.step(
            answer,
        ).0.progress is Finished,
        answer is Failed ==> plan.step(answer).1 is Fail,
        plan.progress is Finished ==> plan.step(answer) == plan.fail(Failure::UnexpectedReply),
{
}

/// The slices of a volume are stored in order: the first one stored is the
/// one at time 0 and depth 0; after each one comes the one of the next rank,
/// in the same directory; and the volume is left behind only after its last
/// slice.
pub proof fn lemma_slices_in_order(plan: Plan, answer: Answer)
    requires
        plan.wf(),
    ensures
        match (plan.progress, plan.step(answer).0.progress) {
            (Progress::Saving(job, t, z), Progress::Saving(then, next_t, next_z)) => {
                &&& then == job
                &&& slice_rank(job.image.dims, next_t, next_z) == slice_rank(job.image.dims, t, z) + 1
            },
            (Progress::Saving(job, t, z), _) => answer is Saved ==> slice_rank(
                job.image.dims,
                t,
                z,
            ) + 1 == job.image.dims[2] * job.image.dims[3],
            (_, Progress::Saving(then, next_t, next_z)) => slice_rank(then.image.dims, next_t, next_z) == 0,
            _ => true,
        },
{
    match plan.progress {
        Progress::Saving(job, t, z) => {
            let nz = job.image.dims[2] as int;
            let nt = job.image.dims[3] as int;
            assert((t + 1) * nz == t * nz + nz) by (nonlinear_arith);
            assert(nz * nt == nt * nz) by (nonlinear_arith);
        },
        _ => {
            if let Progress::Saving(then, next_t, next_z) = plan.step(answer).0.progress {
                assert(0 * then.image.dims[2] == 0) by (nonlinear_arith);
            }
        },
    }
}

/// The conversion `k` stored slices after it began to store the slices of a
/// volume, and what it asks for then.
pub open spec fn stored(plan: Plan, job: Job, k: nat) -> (Plan, Asked)
    decreases k,
{
    if k == 0 {
        plan.begin(job)
    } else {
        stored(plan, job, (k - 1) as nat).0.step(Answer::Saved)
    }
}

/// Every slice of a volume is stored, once, and in order: after `k` slices
/// have been stored, the slice at time `k / nz` and depth `k % nz` is asked
/// to be stored, `nz` being the number of depths, in the file named after
/// its depth; and when the last one has been stored, the next entry is
/// taken.
pub proof fn lemma_stores_every_slice(plan: Plan, job: Job, k: int)
    requires
        plan.admits(job),
        0 <= k < job.slices(),
    ensures
        ({
            let nz = job.image.dims[2] as int;
            let (then, asked) = stored(plan, job, k as nat);
            &&& then == plan.at(Progress::Saving(job.found(), k / nz, k % nz))
            &&& then.wf()
            &&& asked == Asked::Save(
                joined(job.target, slice_file_name_of((k % nz) as nat)),
                job.image.plane(k % nz, k / nz).ubyte_rgb().transposed(),
            )
            &&& k + 1 == job.slices() ==> then.step(Answer::Saved) == plan.load(
                job.entries,
                job.next + 1,
            )
        }),
    decreases k,
{
    let nz = job.image.dims[2] as int;
    let nt = job.image.dims[3] as int;
    assert(nz >= 1 && nt >= 1);
    if k == 0 {
        lemma_fundamental_div_mod_converse(0, nz, 0, 0);
    } else {
        assert(k - 1 < nz * nt);
        lemma_stores_every_slice(plan, job, k - 1);
        let t = (k - 1) / nz;
        let z = (k - 1) % nz;
        vstd::arithmetic::div_mod::lemma_fundamental_div_mod(k - 1, nz);
        assert(nz * t == t * nz) by (nonlinear_arith);
        assert((t + 1) * nz == t * nz + nz) by (nonlinear_arith);
        if z + 1 < nz {
            lemma_fundamental_div_mod_converse(k, nz, t, z + 1);
        } else {
            assert(t + 1 < nt) by (nonlinear_arith)
                requires
                    (t + 1) * nz == k,
                    k < nz * nt,
                    nz >= 1,
            ;
            lemma_fundamental_div_mod_converse(k, nz, t + 1, 0);
        }
    }
    let t = k / nz;
    let z = k % nz;
    vstd::arithmetic::div_mod::lemma_fundamental_div_mod(k, nz);
    vstd::arithmetic::div_mod::lemma_mod_bound(k, nz);
    assert(0 <= t < nt) by (nonlinear_arith)
        requires
            k == nz * t + z,
            0 <= z < nz,
            0 <= k < nz * nt,
    ;
    if k + 1 == nz * nt {
        assert(z + 1 == nz && t + 1 == nt) by (nonlinear_arith)
            requires
                k == nz * t + z,
                0 <= z < nz,
                0 <= t < nt,
                k + 1 == nz * nt,
        ;
    }
}

/// The volumes are taken in the order of listing: the first one asked for
/// is the first entry, each further one is the entry after the one whose
/// slices have just been stored, and the work that follows a decoded volume
/// is on the entry that was asked for.
pub proof fn lemma_volumes_in_order(plan: Plan, answer: Answer)
    requires
        plan.wf(),
    ensures
        match (plan.progress, plan.step(answer).0.progress) {
            (Progress::Listing, Progress::Loading(entries, next)) => {
                &&& answer == Answer::Entries(entries)
                &&& next == 0
            },
            (Progress::Saving(job, _, _), Progress::Loading(entries, next)) => {
                &&& entries == job.entries
                &&& next == job.next + 1
            },
            (_, Progress::Loading(_, _)) => false,
            (Progress::Loading(entries, next), Progress::Probing(job)) => {
                &&& job.entries == entries
                &&& job.next == next
            },
            (_, Progress::Probing(_)) => false,
            (Progress::Probing(job), Progress::Creating(then)) => then == job,
            (_, Progress::Creating(_)) => false,
            (Progress::Probing(job), Progress::Saving(then, _, _)) => {
                &&& then.entries == job.entries
                &&& then.next == job.next
                &&& then.image == job.image
                &&& then.target == job.target
            },
            (Progress::Creating(job), Progress::Saving(then, _, _)) => {
                &&& then.entries == job.entries
                &&& then.next == job.next
                &&& then.image == job.image
                &&& then.target == job.target
            },
            (Progress::Saving(job, _, _), Progress::Saving(then, _, _)) => then == job,
            (_, Progress::Saving(_, _, _)) => false,
            _ => true,
        },
{
}

/// The work on one volume.
#[derive(Debug)]
struct Work {
    entries: Vec<String>,
    next: usize,
    image: RescaledIntensityNiftiImage,
    target: TargetImageDir,
}

impl View for Work {
    type V = Job;

    closed spec fn view(&self) -> Job {
        Job {
            entries: names(self.entries@),
            next: self.next as int,
            image: self.image@,
            target: self.target.path@,
            existence: self.target.existence,
        }
    }
}

/// Which reply a conversion waits for, and what it holds meanwhile.
#[derive(Debug)]
enum Stage {
    Listing,
    Loading(Vec<String>, usize),
    Probing(Work),
    Creating(Work),
    Saving(Work, isize, isize),
    Finished,
}

impl View for Stage {
    type V = Progress;

    closed spec fn view(&self) -> Progress {
        match *self {
            Stage::Listing => Progress::Listing,
            Stage::Loading(entries, next) => Progress::Loading(names(entries@), next as int),
            Stage::Probing(work) => Progress::Probing(work@),
            Stage::Creating(work) => Progress::Creating(work@),
            Stage::Saving(work, t, z) => Progress::Saving(work@, t as int, z as int),
            Stage::Finished => Progress::Finished,
        }
    }
}

/// A conversion under way.
#[derive(Debug)]
pub struct Conversion {
    nii_files: String,
    png_stub: String,
    minmax: Option<(u64, u64)>,
    stage: Stage,
}

impl View for Conversion {
    type V = Plan;

    closed spec fn view(&self) -> Plan {
        Plan {
            nii_files: self.nii_files@,
            png_stub: self.png_stub@,
            minmax: self.minmax,
            progress: self.stage@,
        }
    }
}

/// The directory below which the rasters go where none is named.
pub open spec fn default_png_stub() -> Seq<char> {
    "slice"@
}

/// Begins the conversion of the volumes in the directory `nii_files`. Their
/// rasters go below `png_stub`, or below `slice` where none is named. The
/// intensities of each volume are rescaled with the window `minmax`, or
/// where there is none with the range that the volume itself covers. The
/// first thing asked for is the list of the entries of `nii_files`.
pub fn convert(nii_files: &str, png_stub: Option<&str>, minmax: Option<(u64, u64)>) -> (out: (
    Conversion,
    Request,
))
    ensures
        out.0.wf(),
        out.0@ == (Plan {
            nii_files: nii_files@,
            png_stub: match png_stub {
                Some(stub) => stub@,
                None => default_png_stub(),
            },
            minmax,
            progress: Progress::Listing,
        }),
        out.1@ == Asked::ListDir(nii_files@),
{
    let stub: String = match png_stub {
        Some(stub) => stub.to_owned(),
        None => "slice".to_owned(),
    };
    (
        Conversion { nii_files: nii_files.to_owned(), png_stub: stub, minmax, stage: Stage::Listing },
        Request::ListDir(nii_files.to_owned()),
    )
}

impl Conversion {
    /// What holds of a conversion wherever it stands.
    #[verifier::type_invariant]
    pub open spec fn wf(&self) -> bool {
        self@.wf()
    }

    /// Whether the conversion is over: nothing more is asked for.
    pub fn is_finished(&self) -> (over: bool)
        ensures
            over == (self@.progress is Finished),
    {
        match self.stage {
            Stage::Finished => true,
            _ => false,
        }
    }

    /// Gives the conversion up.
    fn fail(self, error: ErrorTy) -> (out: (Conversion, Request))
        ensures
            out.0.wf(),
            (out.0@, out.1@) == self@.fail(error@),
    {
        (
            Conversion {
                nii_files: self.nii_files,
                png_stub: self.png_stub,
                minmax: self.minmax,
                stage: Stage::Finished,
            },
            Request::Fail(error),
        )
    }

    /// Goes on to the entry `next`, if there is one.
    fn load(self, entries: Vec<String>, next: usize) -> (out: (Conversion, Request))
        ensures
            out.0.wf(),
            (out.0@, out.1@) == self@.load(names(entries@), next as int),
    {
        if next < entries.len() {
            let path: String = join(self.nii_files.as_str(), entries[next].as_str());
            (
                Conversion {
                    nii_files: self.nii_files,
                    png_stub: self.png_stub,
                    minmax: self.minmax,
                    stage: Stage::Loading(entries, next),
                },
                Request::Load(path),
            )
        } else {
            (
                Conversion {
                    nii_files: self.nii_files,
                    png_stub: self.png_stub,
                    minmax: self.minmax,
                    stage: Stage::Finished,
                },
                Request::Done,
            )
        }
    }

    /// Takes the volume that was decoded for the entry `next`.
    fn loaded(self, entries: Vec<String>, next: usize, shape: Vec<isize>, fdata: Vec<i64>) -> (out:
        (Conversion, Request))
        requires
            next < entries@.len(),
        ensures
            out.0.wf(),
            (out.0@, out.1@) == self@.loaded(names(entries@), next as int, shape@, fdata@),
    {
        let path: String = join(self.nii_files.as_str(), entries[next].as_str());
        match RescaledIntensityNiftiImage::new(path.as_str(), shape.as_slice(), fdata, self.minmax) {
            Err(error) => self.fail(error),
            Ok(image) => {
                let target: TargetImageDir = TargetPath::png_stub(
                    self.png_stub.as_str(),
                    entries[next].as_str(),
                );
                let ask: String = target.path.clone();
                (
                    Conversion {
                        nii_files: self.nii_files,
                        png_stub: self.png_stub,
                        minmax: self.minmax,
                        stage: Stage::Probing(Work { entries, next, image, target }),
                    },
                    Request::TryExists(ask),
                )
            },
        }
    }

    /// Asks for the slice at time `t` and depth `z` to be stored.
    fn save(self, work: Work, t: isize, z: isize) -> (out: (Conversion, Request))
        requires
            self@.admits(work@),
            work@.existence == Existence::Exists,
            0 <= z < work@.image.dims[2],
            0 <= t < work@.image.dims[3],
        ensures
            out.0.wf(),
            (out.0@, out.1@) == self@.save(work@, t as int, z as int),
    {
        let file: String = work.target.slice_file(z as usize);
        match work.image.slice([z, t]) {
            Ok(plane) => {
                let image: Raster = plane.as_rgb_image();
                (
                    Conversion {
                        nii_files: self.nii_files,
                        png_stub: self.png_stub,
                        minmax: self.minmax,
                        stage: Stage::Saving(work, t, z),
                    },
                    Request::Save(file, image),
                )
            },
            Err(error) => self.fail(error),
        }
    }

    /// Begins to store the slices of a volume whose directory exists.
    fn begin(self, work: Work) -> (out: (Conversion, Request))
        requires
            self@.admits(work@),
        ensures
            out.0.wf(),
            (out.0@, out.1@) == self@.begin(work@),
    {
        let Work { entries, next, image, target } = work;
        let found: TargetImageDir = TargetPath { path: target.path, existence: Existence::Exists };
        self.save(Work { entries, next, image, target: found }, 0, 0)
    }

    /// Goes on from the slice at time `t` and depth `z`, which was stored.
    fn saved(self, work: Work, t: isize, z: isize) -> (out: (Conversion, Request))
        requires
            self@.admits(work@),
            work@.existence == Existence::Exists,
            0 <= z < work@.image.dims[2],
            0 <= t < work@.image.dims[3],
        ensures
            out.0.wf(),
            (out.0@, out.1@) == self@.saved(work@, t as int, z as int),
    {
        let extents: [isize; 2] = work.image.secondary_dims();
        if z + 1 < extents[0] {
            self.save(work, t, z + 1)
        } else if t + 1 < extents[1] {
            self.save(work, t + 1, 0)
        } else {
            let Work { entries, next, .. } = work;
            assert(entries@.len() == entries.len());
            self.load(entries, next + 1)
        }
    }

    /// Takes the reply to what was asked for last, and says what is to be
    /// done next. A reply that answers another request than the last one,
    /// or any reply once the conversion is over, gives the conversion up.
    pub fn step(self, reply: Reply) -> (out: (Conversion, Request))
        ensures
            out.0.wf(),
            (out.0@, out.1@) == self@.step(reply@),
    {
        proof {
            use_type_invariant(&self);
        }
        let Conversion { nii_files, png_stub, minmax, stage } = self;
        let rest = Conversion { nii_files, png_stub, minmax, stage: Stage::Finished };
        match (stage, reply) {
            (Stage::Listing, Reply::Entries(entries)) => rest.load(entries, 0),
            (Stage::Listing, Reply::Failed(cause)) => {
                let path: String = rest.nii_files.clone();
                rest.fail(ErrorTy::ListDirFailed(cause, path))
            },
            (Stage::Loading(entries, next), Reply::Volume(shape, fdata)) => rest.loaded(
                entries,
                next,
                shape,
                fdata,
            ),
            (Stage::Loading(entries, next), Reply::Failed(cause)) => {
                let path: String = join(rest.nii_files.as_str(), entries[next].as_str());
                rest.fail(ErrorTy::FailedToLoadNiftiObj(cause, path))
            },
            (Stage::Probing(work), Reply::Exists(true)) => rest.begin(work),
            (Stage::Probing(work), Reply::Exists(false)) => {
                let path: String = work.target.path.clone();
                (
                    Conversion {
                        nii_files: rest.nii_files,
                        png_stub: rest.png_stub,
                        minmax: rest.minmax,
                        stage: Stage::Creating(work),
                    },
                    Request::CreateDirAll(path),
                )
            },
            (Stage::Probing(work), Reply::Failed(cause)) => {
                let path: String = work.target.path.clone();
                rest.fail(ErrorTy::TryExistsFailed(cause, path))
            },
            (Stage::Creating(work), Reply::Created) => rest.begin(work),
            (Stage::Creating(work), Reply::Failed(cause)) => {
                let path: String = work.target.path.clone();
                rest.fail(ErrorTy::CreateDirAllFailed(cause, path))
            },
            (Stage::Saving(work, t, z), Reply::Saved) => rest.saved(work, t, z),
            (Stage::Saving(work, t, z), Reply::Failed(cause)) => {
                let path: String = work.target.slice_file(z as usize);
                rest.fail(ErrorTy::ImageSaveFailed(cause, path))
            },
            _ => rest.fail(ErrorTy::UnexpectedReply),
        }
    }
}

} // verus!
