//! Ghost model of what the controller holds as configuration.
//!
//! The model gives the register writes that the driver computes a meaning:
//! which lines they enable, how urgent and how routed each line is
//! afterwards.  It covers the registers that the driver programs and leaves
//! out what the hardware does on its own, such as pending and active
//! interrupts.

use crate::regs::{Register, RegWrite};
use vstd::prelude::*;

verus! {

/// Field `slot` of a configuration word: two bits per line, the lowest line
/// in the lowest bits.
pub open spec fn config_field(word: u32, slot: u32) -> u32 {
    (word >> (slot * 2) as u32) & 3
}

/// Whether a configuration field selects level-sensitive triggering: its
/// upper bit is clear.
pub open spec fn level_sensitive(field: u32) -> bool {
    field & 2 == 0
}

/// Configuration of the controller, by line.
#[verifier::ext_equal]
pub ghost struct Controller {
    /// Lines whose delivery is enabled.
    pub enabled: Set<u32>,
    /// Priority of each line; numerically lower is more urgent.
    pub priority: spec_fn(u32) -> u32,
    /// Cores that may receive each line, as a bit mask.
    pub target: spec_fn(u32) -> u32,
    /// Configuration field of each line.
    pub config: spec_fn(u32) -> u32,
    /// Acceptance threshold: a line is masked unless its priority is
    /// numerically below it.
    pub mask: u32,
}

impl Controller {
    /// The configuration after one register write.
    pub open spec fn write(self, w: RegWrite) -> Controller {
        match w.reg {
            Register::SetEnable => Controller {
                enabled: Set::new(|irq: u32| self.enabled.contains(irq) || w.enables(irq)),
                ..self
            },
            Register::ClearEnable => Controller {
                enabled: Set::new(|irq: u32| self.enabled.contains(irq) && !w.disables(irq)),
                ..self
            },
            Register::Priority => Controller {
                priority: |irq: u32|
                    if irq == w.index {
                        w.value
                    } else {
                        (self.priority)(irq)
                    },
                ..self
            },
            Register::Target => Controller {
                target: |irq: u32|
                    if irq == w.index {
                        w.value
                    } else {
                        (self.target)(irq)
                    },
                ..self
            },
            Register::Config => Controller {
                config: |irq: u32|
                    if irq / 16 == w.index {
                        config_field(w.value, irq % 16)
                    } else {
                        (self.config)(irq)
                    },
                ..self
            },
            Register::PriorityMask => Controller { mask: w.value, ..self },
            Register::SoftwareInterrupt | Register::Acknowledge | Register::EndOfInterrupt => self,
        }
    }

    /// The configuration after a sequence of register writes, performed
    /// first to last.
    pub open spec fn run(self, ws: Seq<RegWrite>) -> Controller
        decreases ws.len(),
    {
        if ws.len() == 0 {
            self
        } else {
            self.run(ws.drop_last()).write(ws.last())
        }
    }

    /// The configuration after an optional register write.
    pub open spec fn apply(self, w: Option<RegWrite>) -> Controller {
        match w {
            Some(w) => self.write(w),
            None => self,
        }
    }

    /// Whether the controller forwards line `irq` to a core when it fires:
    /// the line is enabled and passes the priority mask.
    pub open spec fn delivers(self, irq: u32) -> bool {
        self.enabled.contains(irq) && (self.priority)(irq) < self.mask
    }
}

/// Running two sequences one after the other is running their
/// concatenation.
pub proof fn lemma_run_concat(c: Controller, a: Seq<RegWrite>, b: Seq<RegWrite>)
    ensures
        c.run(a + b) == c.run(a).run(b),
    decreases b.len(),
{
    if b.len() == 0 {
        assert(a + b =~= a);
    } else {
        assert((a + b).drop_last() =~= a + b.drop_last());
        lemma_run_concat(c, a, b.drop_last());
    }
}

} // verus!
