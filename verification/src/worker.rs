//! The stages that the collector worker goes through.
use crate::error::CollectorStartErrorKind;
use vstd::prelude::*;

verus! {

/// How long one poll of the ring buffer may wait, in milliseconds.
pub const POLL_INTERVAL_MILLIS: u64 = 100;

/// What the worker has to do next.
///
/// The first five stages set the worker up, in this order. It then polls the
/// ring buffer over and over, until it is told to finish.
#[derive(Clone, Copy, Debug, Eq, PartialEq, Structural)]
pub enum WorkerStage {
    /// Open the embedded BPF object.
    Open,
    /// Load the BPF object into the kernel.
    Load,
    /// Attach the BPF programs.
    Attach,
    /// Register the ring-buffer callback.
    AddRing,
    /// Build the ring-buffer consumer.
    BuildRing,
    /// Poll the ring buffer once.
    Poll,
    /// Release everything and stop.
    Finished,
}

impl WorkerStage {
    /// Whether the worker is still being set up.
    pub open spec fn is_setup(self) -> bool {
        !(self is Poll) && !(self is Finished)
    }

    /// The kind of startup error that a failure of this setup stage is.
    pub open spec fn failure_kind(self) -> CollectorStartErrorKind {
        match self {
            WorkerStage::Open => CollectorStartErrorKind::Open,
            WorkerStage::Load => CollectorStartErrorKind::Load,
            WorkerStage::Attach => CollectorStartErrorKind::Attach,
            _ => CollectorStartErrorKind::RingSetup,
        }
    }

    /// The setup stage after this one, which is not the last.
    pub open spec fn next_setup(self) -> WorkerStage
        recommends
            self.is_setup(),
            !(self is BuildRing),
    {
        match self {
            WorkerStage::Open => WorkerStage::Load,
            WorkerStage::Load => WorkerStage::Attach,
            WorkerStage::Attach => WorkerStage::AddRing,
            _ => WorkerStage::BuildRing,
        }
    }
}

} // verus!
