//! Interrupt management core for a GIC-400 interrupt controller.
//!
//! The library holds every decision of the driver and none of its side
//! effects.  Each entry point computes the register accesses that the caller
//! must perform, in order, and the handlers that it must run; volatile memory
//! access, barriers, locking and the wait-for-interrupt instruction belong to
//! the caller.
//!
//! * [`regs`] is the register map and the encodings of single writes.
//! * [`model`] gives register writes a meaning, as a ghost model of the
//!   controller's configuration.
//! * [`boot`] computes the reset sequence.
//! * [`irq`] holds the handler registry and decides registration,
//!   software-generated interrupts and the per-core dispatch step.
//! * [`touch`] is the touchscreen driver that hangs on one interrupt line.

pub mod boot;
pub mod irq;
pub mod model;
pub mod regs;
pub mod touch;

pub use irq::{Dispatch, Fault, Irq};
pub use regs::{RegWrite, Register, IRQ_COUNT, SGI_COUNT, SPI_COUNT};
pub use touch::{Recognizer, Touch};
