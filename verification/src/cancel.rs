//! Cooperative cancellation: a flag that an interrupt sets and nothing resets.

use vstd::prelude::*;

verus! {

/// What to tell the user about an interrupt.
#[derive(Clone, Copy, Debug, PartialEq, Eq, Structural)]
pub enum Notice {
    /// The first interrupt: no further files are started.
    Stopping,
    /// A later interrupt, while files that were started are finished. It is
    /// the `repeat`-th such interrupt, counted from 1.
    StillFinishing { repeat: usize },
}

/// The cancellation state of a run.
#[derive(Debug)]
pub struct CancellationFlag {
    cancelled: bool,
    interrupts: usize,
}

impl CancellationFlag {
    /// Whether the flag is set.
    pub closed spec fn spec_is_cancelled(&self) -> bool {
        self.cancelled
    }

    /// How many interrupts were taken in, as far as they can be counted.
    pub closed spec fn interrupts(&self) -> nat {
        self.interrupts as nat
    }

    /// What an interrupt is answered with, given the flag before it.
    pub open spec fn spec_notice(&self) -> Notice {
        if self.spec_is_cancelled() {
            Notice::StillFinishing { repeat: self.interrupts() as usize }
        } else {
            Notice::Stopping
        }
    }

    /// The flag at the start of a run: not set.
    pub fn new() -> (flag: CancellationFlag)
        ensures
            !flag.spec_is_cancelled(),
            flag.interrupts() == 0,
    {
        CancellationFlag { cancelled: false, interrupts: 0 }
    }

    /// Reads the flag.
    pub fn is_cancelled(&self) -> (r: bool)
        ensures
            r == self.spec_is_cancelled(),
    {
        self.cancelled
    }

    /// Takes in an interrupt. The flag is set afterwards, whatever it was;
    /// only the notice tells the first interrupt from those that follow.
    pub fn interrupt(&mut self) -> (notice: Notice)
        ensures
            final(self).spec_is_cancelled(),
            notice == old(self).spec_notice(),
            final(self).interrupts() == if old(self).interrupts() < usize::MAX {
                old(self).interrupts() + 1
            } else {
                old(self).interrupts()
            },
    {
        let notice = if self.cancelled {
            Notice::StillFinishing { repeat: self.interrupts }
        } else {
            Notice::Stopping
        };
        self.cancelled = true;
        if self.interrupts < usize::MAX {
            self.interrupts = self.interrupts + 1;
        }
        notice
    }
}

} // verus!
