//! The boundary between the panel and its environment: the virtual rootfs
//! the filesystem natives read and write, and the simulated bend sensor.

use vstd::prelude::*;

verus! {

#[verifier::external_type_specification]
#[verifier::external_body]
pub struct ExIoError(std::io::Error);

/// Why a host call failed. The panel handles failure on every observed
/// path, so these are normal results.
#[derive(Debug)]
pub enum HostError {
    NotFound(String),
    Io(std::io::Error),
}

/// One directory entry as `_getDirectoryEntry` (5,320) reports it.
#[derive(Debug, PartialEq, Eq)]
pub struct DirEntry {
    pub name: String,
    pub is_dir: bool,
    pub is_dir_link: bool,
    pub is_file: bool,
}

/// The panel's `DIRECTORY_ENTRY_*` status codes.
#[derive(Debug, PartialEq, Eq)]
pub enum DirEntryResult {
    /// DIRECTORY_ENTRY_SUCCESS (1)
    Entry(DirEntry),
    /// DIRECTORY_ENTRY_INVALID_INDEX (0): clean end of listing.
    End,
    /// DIRECTORY_ENTRY_INVALID_PATH (-1)
    InvalidPath,
}

/// The status code the panel reads for a directory-entry result.
pub fn dir_entry_status(r: &DirEntryResult) -> (code: i32)
    ensures
        r matches DirEntryResult::Entry(_) ==> code == 1,
        r matches DirEntryResult::End ==> code == 0,
        r matches DirEntryResult::InvalidPath ==> code == -1,
{
    match r {
        DirEntryResult::Entry(_) => 1,
        DirEntryResult::End => 0,
        DirEntryResult::InvalidPath => -1,
    }
}

/// The virtual rootfs behind the filesystem natives. Implementations answer
/// from a fixtures tree or the real system; writes may land between two
/// reads, so nothing is promised of what a file read returns. A directory
/// listing is the one answer an implementation must keep stable from call
/// to call: `dir_entry` answers from the listing `dir_listing` names, which
/// nothing here checks of an implementation.
pub trait ChumbyFs {
    /// What a read of `path` gives, where the implementation models its
    /// files (`None`: not modelled, which is the default).
    open spec fn content_model(&self, path: Seq<char>) -> Option<Option<Seq<u8>>> {
        None
    }

    /// Whether a file exists at `path`, where the implementation models its
    /// files (`None`: not modelled, which is the default).
    open spec fn exists_model(&self, path: Seq<char>) -> Option<bool> {
        None
    }

    fn get_file(&self, path: &str) -> (r: Option<Vec<u8>>)
        ensures
            self.content_model(path@) matches Some(c) ==> c == match r {
                Some(b) => Some(b@),
                None => None,
            },
    ;

    fn put_file(&self, path: &str, data: &[u8]) -> Result<(), HostError>;

    fn file_exists(&self, path: &str) -> (r: bool)
        ensures
            self.exists_model(path@) matches Some(b) ==> r == b,
    ;

    fn file_size(&self, path: &str) -> Option<u64>;

    fn unlink(&self, path: &str) -> Result<(), HostError>;

    /// The listing the implementation serves for a directory: its answer
    /// at each index, which stays the same from call to call.
    spec fn dir_listing(&self, dir: &str, index: u32) -> DirEntryResult;

    /// Directory entry by index; the listing order must be stable call to
    /// call, since the panel iterates ascending indices across frames. An
    /// implementation answers from its listing, as `dir_listing` names it.
    fn dir_entry(&self, path: &str, index: u32) -> (r: DirEntryResult)
        ensures
            r == self.dir_listing(path, index),
    ;
}

/// The bend sensor (the squeezable top of the Chumby Classic): whether it
/// is held down, and whether a tap is queued for the next poll.
pub struct BendSensor {
    pub held: bool,
    pub tap: bool,
}

impl BendSensor {
    pub fn new() -> (s: BendSensor)
        ensures
            !s.held,
            !s.tap,
    {
        BendSensor { held: false, tap: false }
    }
}

/// The sensor after a tap was queued.
pub open spec fn tapped(s: BendSensor) -> BendSensor {
    BendSensor { held: s.held, tap: true }
}

/// What one poll reads, and the sensor after it: a queued tap reads pressed
/// once and is consumed; otherwise the held state reads.
pub open spec fn polled(s: BendSensor) -> (bool, BendSensor) {
    (s.tap || s.held, BendSensor { held: s.held, tap: false })
}

/// Hold or release the sensor.
pub fn set_bent(sensor: &mut BendSensor, bent: bool)
    ensures
        final(sensor).held == bent,
        final(sensor).tap == old(sensor).tap,
{
    sensor.held = bent;
}

/// Queue a bend tap: the next poll reads pressed, the one after the held
/// state.
pub fn tap_bend(sensor: &mut BendSensor)
    ensures
        *final(sensor) == tapped(*old(sensor)),
{
    sensor.tap = true;
}

/// Poll the sensor (`_bent`, once per frame).
pub fn bent(sensor: &mut BendSensor) -> (b: bool)
    ensures
        (b, *final(sensor)) == polled(*old(sensor)),
{
    let b = sensor.tap || sensor.held;
    sensor.tap = false;
    b
}

/// A tap yields exactly one press: the first poll after it reads pressed,
/// the next reads whatever the sensor is held at.
pub proof fn law_tap_is_one_press(s: BendSensor)
    ensures
        polled(tapped(s)).0,
        polled(polled(tapped(s)).1).0 == s.held,
        polled(polled(tapped(s)).1).1 == (BendSensor { held: s.held, tap: false }),
{
}

} // verus!
