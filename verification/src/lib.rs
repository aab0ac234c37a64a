//! Full-waveform laser-scanner records and their decomposition into discrete returns.
//!
//! A record is one laser shot: a handful of sample blocks, one per detector channel. This
//! library holds the rules that turn such a record into numbered targets: which detector each
//! channel is searched with, which block gives the time origin, in which order the returns
//! come out and how they are counted. The search for peaks itself is `peakbag`'s; everything
//! around it is proved against its contract.
//!
//! Two things are left to the caller, because they are done in floating point: making the
//! detectors from the numbers of a [`detector::Policy`], and projecting a
//! [`convert::Point`] into scanner coordinates. Reading the digitizer stream and writing the
//! point cloud are the caller's too.

use vstd::prelude::*;

pub mod convert;
pub mod detector;
pub mod error;
pub mod file;
pub mod session;
pub mod text;

verus! {

/// Container structure for information about the digitizer interface library.
#[derive(Debug)]
pub struct LibraryVersion {
    /// The library's major api version.
    pub api_major: u16,
    /// The library's minor api version.
    pub api_minor: u16,
    /// The library's build version.
    pub build_version: String,
    /// The library's build tag.
    pub build_tag: String,
}

} // verus!
