//! A read-only NTFS metadata parser and stream reconstructor.
//!
//! Given a byte-addressable volume image, the library validates the boot
//! sector, decodes the Master File Table with fixup application, parses
//! resident and non-resident attributes (including sparse cluster runs),
//! resolves cross-entry attribute lists, selects display names by filename
//! namespace, links file nodes to their parents with orphan fallback, and
//! maps the unallocated regions of the volume from its bitmap.

use vstd::prelude::*;
use vstd::string::StringExecFns;

pub mod attribute;
pub mod attributecontent;
pub mod attributes;
pub mod bootsector;
pub mod bytes;
pub mod datetime;
pub mod error;
pub mod mft;
pub mod mftentry;
pub mod text;
pub mod vfile;
pub mod ntfs;
pub mod ntfsattributes;
pub mod runlist;
pub mod unallocated;

verus! {

/// Results of a completed volume scan; the scan reports its findings through
/// the produced nodes and link actions rather than through this value.
pub struct Results {}

/// Entry point marker for hosts that drive the parser as a plugin.
pub struct NtfsPlugin {}

impl NtfsPlugin {
    /// The name the parser registers under.
    pub fn name(&self) -> (r: String)
        ensures
            r@ == "ntfs"@,
    {
        String::from_str("ntfs")
    }
}

} // verus!
