//! The order of a harness run, and which failed steps end it.

use vstd::prelude::*;
use crate::error::HarnessError;
use crate::peer_id::MAX_ATTEMPTS;

verus! {

/// Seconds to wait for the network to settle once every peer is up.
pub const STABILIZATION_WAIT_SECS: u64 = 60;

/// The steps of a run, in order.
#[derive(Debug, Clone, Copy, PartialEq, Eq, Structural)]
pub enum Stage {
    Cleanup,
    ImageBuild,
    BootstrapStart,
    PeerIdExtraction,
    ConfigRewrite,
    AllPeersStart,
    ConfigRestore,
    StabilizationWait,
    VerificationReport,
    Complete,
}

/// What follows a step.
#[derive(Debug, Clone, Copy, PartialEq, Eq, Structural)]
pub enum Advance {
    Next(Stage),
    Abort(HarnessError),
}

/// The step after `s`; a complete run stays complete.
pub open spec fn successor(s: Stage) -> Stage {
    match s {
        Stage::Cleanup => Stage::ImageBuild,
        Stage::ImageBuild => Stage::BootstrapStart,
        Stage::BootstrapStart => Stage::PeerIdExtraction,
        Stage::PeerIdExtraction => Stage::ConfigRewrite,
        Stage::ConfigRewrite => Stage::AllPeersStart,
        Stage::AllPeersStart => Stage::ConfigRestore,
        Stage::ConfigRestore => Stage::StabilizationWait,
        Stage::StabilizationWait => Stage::VerificationReport,
        Stage::VerificationReport => Stage::Complete,
        Stage::Complete => Stage::Complete,
    }
}

/// The error that ends the run when step `s` fails, for the steps whose
/// failure is fatal.
pub open spec fn fatal_error(s: Stage) -> Option<HarnessError> {
    match s {
        Stage::ImageBuild => Some(HarnessError::BuildFailed),
        Stage::BootstrapStart => Some(HarnessError::BootstrapStartFailed),
        Stage::PeerIdExtraction => Some(HarnessError::ExtractionTimeout { attempts: MAX_ATTEMPTS }),
        Stage::AllPeersStart => Some(HarnessError::PeerStartFailed),
        _ => None,
    }
}

/// Decides what follows `stage` once it has run and reported whether it
/// succeeded. A failed build, bootstrap start, extraction or peer start
/// ends the run; any other failure is only reported and the run goes on.
pub fn advance(stage: Stage, succeeded: bool) -> (r: Advance)
    ensures
        r == (if !succeeded && fatal_error(stage) is Some {
            Advance::Abort(fatal_error(stage)->0)
        } else {
            Advance::Next(successor(stage))
        }),
{
    if !succeeded {
        match stage {
            Stage::ImageBuild => return Advance::Abort(HarnessError::BuildFailed),
            Stage::BootstrapStart => return Advance::Abort(HarnessError::BootstrapStartFailed),
            Stage::PeerIdExtraction => {
                return Advance::Abort(HarnessError::ExtractionTimeout { attempts: MAX_ATTEMPTS });
            },
            Stage::AllPeersStart => return Advance::Abort(HarnessError::PeerStartFailed),
            _ => {},
        }
    }
    let next = match stage {
        Stage::Cleanup => Stage::ImageBuild,
        Stage::ImageBuild => Stage::BootstrapStart,
        Stage::BootstrapStart => Stage::PeerIdExtraction,
        Stage::PeerIdExtraction => Stage::ConfigRewrite,
        Stage::ConfigRewrite => Stage::AllPeersStart,
        Stage::AllPeersStart => Stage::ConfigRestore,
        Stage::ConfigRestore => Stage::StabilizationWait,
        Stage::StabilizationWait => Stage::VerificationReport,
        Stage::VerificationReport => Stage::Complete,
        Stage::Complete => Stage::Complete,
    };
    Advance::Next(next)
}

} // verus!
