//! What the commands of the command line do.

use vstd::prelude::*;

pub mod audit;
pub mod doctor;
pub mod job;
pub mod log;
pub mod runtime;
pub mod server;

verus! {

/// The data directory: the one that is given, or else the one that the environment names,
/// or else the usual one.
pub fn choose_data_dir(given: Option<String>, setting: Option<String>) -> (r: String)
    ensures
        r@ == match given {
            Some(dir) => dir@,
            None => match setting {
                Some(dir) => dir@,
                None => ".kron"@,
            },
        },
{
    match given {
        Some(dir) => dir,
        None => match setting {
            Some(dir) => dir,
            None => ".kron".to_string(),
        },
    }
}

} // verus!
