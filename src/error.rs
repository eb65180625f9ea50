//! Fatal failures of a harness run.

use vstd::prelude::*;

verus! {

/// Why a run stops before its report.
#[derive(Debug, Clone, Copy, PartialEq, Eq, Structural)]
pub enum HarnessError {
    /// The image build reported failure.
    BuildFailed,
    /// The bootstrap node could not be started.
    BootstrapStartFailed,
    /// No peer identifier was found in the bootstrap node's logs after
    /// the given number of attempts.
    ExtractionTimeout { attempts: u32 },
    /// The peers could not be started.
    PeerStartFailed,
}

/// The diagnostic line for each failure.
pub open spec fn error_message(e: HarnessError) -> Seq<char> {
    match e {
        HarnessError::BuildFailed => "Build failed"@,
        HarnessError::BootstrapStartFailed => "Bootstrap start failed"@,
        HarnessError::ExtractionTimeout { .. } =>
            "Could not extract peer ID from bootstrap logs. Check container logs with: docker logs chiral-bootstrap"@,
        HarnessError::PeerStartFailed => "Peer start failed"@,
    }
}

impl HarnessError {
    /// The diagnostic line for this failure; a timeout names where the raw
    /// logs can be read.
    pub fn message(&self) -> (r: String)
        ensures
            r@ == error_message(*self),
    {
        match self {
            HarnessError::BuildFailed => String::from_str("Build failed"),
            HarnessError::BootstrapStartFailed => String::from_str("Bootstrap start failed"),
            HarnessError::ExtractionTimeout { .. } => String::from_str(
                "Could not extract peer ID from bootstrap logs. Check container logs with: docker logs chiral-bootstrap",
            ),
            HarnessError::PeerStartFailed => String::from_str("Peer start failed"),
        }
    }
}

} // verus!
