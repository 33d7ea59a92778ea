//! The private directory that receives a renderer's output.

use std::path::PathBuf;
use vstd::prelude::*;
use vstd::string::*;
use crate::text::{decimal, push_decimal};

verus! {

/// `std::path::PathBuf`, carried through unchanged.
#[verifier::external_type_specification]
#[verifier::external_body]
pub struct ExPathBuf(PathBuf);

/// A directory created for one renderer run; the caller removes it when the
/// run is over.
pub struct PrivateOutput(pub PathBuf);

impl PrivateOutput {
    /// The directory's path.
    pub fn path(&self) -> (path: &PathBuf)
        ensures
            *path == self.0,
    {
        &self.0
    }
}

/// The name of the private output directory of the run numbered `serial` in
/// process `pid`: `strata-preview-<pid>-<serial>`.
pub open spec fn private_output_dir_name(pid: u32, serial: u64) -> Seq<char> {
    "strata-preview-"@ + decimal(pid as nat) + "-"@ + decimal(serial as nat)
}

/// The name of the private output directory of a run.
pub fn private_output_name(pid: u32, serial: u64) -> (name: String)
    ensures
        name@ == private_output_dir_name(pid, serial),
{
    let mut name = String::from_str("strata-preview-");
    push_decimal(&mut name, pid as u64);
    name.append("-");
    push_decimal(&mut name, serial);
    name
}

} // verus!
