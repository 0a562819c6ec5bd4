//! What the core decides about logging: the rotation policy handed to the
//! logging collaborator. Installing and rotating the sinks themselves is the
//! collaborator's work, outside this library.
use vstd::prelude::*;

use crate::config::LogRotation;

verus! {

/// Log rotation strategy, as the logging collaborator consumes it.
#[derive(Clone, Copy, Debug, PartialEq, Eq, Structural)]
pub enum Rotation {
    Daily,
    Hourly,
    Never,
}

/// The rotation policy a configured strategy stands for.
pub fn rotation_for(r: &LogRotation) -> (res: Rotation)
    ensures
        r == LogRotation::Daily ==> res == Rotation::Daily,
        r == LogRotation::Hourly ==> res == Rotation::Hourly,
        r == LogRotation::Never ==> res == Rotation::Never,
{
    match r {
        LogRotation::Daily => Rotation::Daily,
        LogRotation::Hourly => Rotation::Hourly,
        LogRotation::Never => Rotation::Never,
    }
}

} // verus!
