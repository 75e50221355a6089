//! Register map of the distributor and CPU interface blocks.

use vstd::prelude::*;

verus! {

/// Number of shared peripheral lines wired to the controller.
pub const SPI_COUNT: usize = 192;

/// Lines below this id are banked per core: software-generated lines come
/// first, private peripheral lines after them.
pub const BANKED_COUNT: usize = 32;

/// Total number of interrupt lines.
pub const IRQ_COUNT: usize = SPI_COUNT + BANKED_COUNT;

/// Number of software-generated lines, which occupy the lowest ids.
pub const SGI_COUNT: u32 = 16;

/// Offset of the controller's register block from the peripheral base.
pub const GIC_OFFSET: usize = 0x384_0000;

/// Size in bytes of the window, counted from the controller's base, that
/// holds every register of the map.
pub const GIC_SPAN: usize = 0x3000;

/// A register, or a bank of equally shaped registers, of the controller.
#[derive(Clone, Copy, PartialEq, Eq, Debug, Structural)]
pub enum Register {
    /// Set-enable words: one bit per line, 32 lines per word.  Writing a set
    /// bit enables the line; clear bits leave their lines alone.
    SetEnable,
    /// Clear-enable words: one bit per line, 32 lines per word.  Writing a
    /// set bit disables the line; clear bits leave their lines alone.
    ClearEnable,
    /// Priority bytes: one per line, numerically lower is more urgent.
    Priority,
    /// Target bytes: one per line, a bit mask of the cores that may receive
    /// the line.  Only shared peripheral lines are routed globally.
    Target,
    /// Configuration words: two bits per line, 16 lines per word.
    Config,
    /// Software-generated interrupt control word.
    SoftwareInterrupt,
    /// Priority mask word of the CPU interface.
    PriorityMask,
    /// Acknowledge word of the CPU interface.
    Acknowledge,
    /// End-of-interrupt word of the CPU interface.
    EndOfInterrupt,
}

impl Register {
    /// Byte offset of the first entry from the controller's base.
    pub open spec fn spec_offset(self) -> usize {
        match self {
            Register::SetEnable => 0x1100,
            Register::ClearEnable => 0x1180,
            Register::Priority => 0x1400,
            Register::Target => 0x1800,
            Register::Config => 0x1C00,
            Register::SoftwareInterrupt => 0x1F00,
            Register::PriorityMask => 0x2004,
            Register::Acknowledge => 0x200C,
            Register::EndOfInterrupt => 0x2010,
        }
    }

    /// Width in bytes of one entry, which is also the width of an access.
    pub open spec fn spec_width(self) -> usize {
        match self {
            Register::Priority | Register::Target => 1,
            _ => 4,
        }
    }

    /// Number of entries in the bank.
    pub open spec fn spec_entries(self) -> usize {
        match self {
            Register::SetEnable | Register::ClearEnable => (IRQ_COUNT / 32) as usize,
            Register::Priority | Register::Target => IRQ_COUNT,
            Register::Config => (IRQ_COUNT / 16) as usize,
            _ => 1,
        }
    }

    /// Byte offset of entry `index` from the controller's base.
    pub open spec fn entry_offset(self, index: int) -> int {
        self.spec_offset() + index * self.spec_width()
    }

    /// Byte offset of the first entry from the controller's base.
    #[verifier::when_used_as_spec(spec_offset)]
    pub fn offset(self) -> (r: usize)
        ensures
            r == self.spec_offset(),
    {
        match self {
            Register::SetEnable => 0x1100,
            Register::ClearEnable => 0x1180,
            Register::Priority => 0x1400,
            Register::Target => 0x1800,
            Register::Config => 0x1C00,
            Register::SoftwareInterrupt => 0x1F00,
            Register::PriorityMask => 0x2004,
            Register::Acknowledge => 0x200C,
            Register::EndOfInterrupt => 0x2010,
        }
    }

    /// Width in bytes of one entry.
    #[verifier::when_used_as_spec(spec_width)]
    pub fn width(self) -> (r: usize)
        ensures
            r == self.spec_width(),
    {
        match self {
            Register::Priority | Register::Target => 1,
            _ => 4,
        }
    }

    /// Number of entries in the bank.
    #[verifier::when_used_as_spec(spec_entries)]
    pub fn entries(self) -> (r: usize)
        ensures
            r == self.spec_entries(),
    {
        match self {
            Register::SetEnable | Register::ClearEnable => IRQ_COUNT / 32,
            Register::Priority | Register::Target => IRQ_COUNT,
            Register::Config => IRQ_COUNT / 16,
            _ => 1,
        }
    }

    /// Address of entry `index`, given the address of the controller's base.
    pub fn address(self, base: usize, index: usize) -> (addr: usize)
        requires
            index < self.entries(),
            base + GIC_SPAN <= usize::MAX,
        ensures
            addr == base + self.entry_offset(index as int),
            addr + self.width() <= base + GIC_SPAN,
            base % 4 == 0 && self.width() == 4 ==> addr % 4 == 0,
    {
        proof {
            lemma_entry_offset(self, index as int);
        }
        base + self.offset() + index * self.width()
    }
}

/// The offset of an entry, by the width of its bank.
proof fn lemma_entry_offset(reg: Register, index: int)
    ensures
        reg.width() == 1 ==> reg.entry_offset(index) == reg.offset() + index,
        reg.width() == 4 ==> reg.entry_offset(index) == reg.offset() + 4 * index,
        reg.width() == 1 || reg.width() == 4,
{
    if reg.width() == 1 {
        assert(index * 1 == index);
    } else {
        assert(index * 4 == 4 * index);
    }
}

/// No two entries of the register map share a byte.
pub proof fn lemma_entries_are_disjoint(a: Register, i: int, b: Register, j: int)
    requires
        0 <= i < a.entries(),
        0 <= j < b.entries(),
        a != b || i != j,
    ensures
        a.entry_offset(i) + a.width() <= b.entry_offset(j) || b.entry_offset(j) + b.width()
            <= a.entry_offset(i),
{
    lemma_entry_offset(a, i);
    lemma_entry_offset(b, j);
}

/// One write to a register of the controller.
#[derive(Clone, Copy, PartialEq, Eq, Debug, Structural)]
pub struct RegWrite {
    /// Bank that is written.
    pub reg: Register,
    /// Entry within the bank.
    pub index: usize,
    /// Value written, in the low byte for a bank of bytes.
    pub value: u32,
}

/// Whether bit `n` of `word` is set.
pub open spec fn bit(word: u32, n: u32) -> bool {
    (word >> n) & 1 == 1
}

impl RegWrite {
    /// The write names an entry that exists and a value that fits it.
    pub open spec fn wf(self) -> bool {
        &&& self.index < self.reg.entries()
        &&& self.reg.width() == 1 ==> self.value <= 0xFF
    }

    /// Whether the write switches delivery of line `irq` on.
    pub open spec fn enables(self, irq: u32) -> bool {
        &&& self.reg == Register::SetEnable
        &&& self.index == irq / 32
        &&& bit(self.value, irq % 32)
    }

    /// Whether the write switches delivery of line `irq` off.
    pub open spec fn disables(self, irq: u32) -> bool {
        &&& self.reg == Register::ClearEnable
        &&& self.index == irq / 32
        &&& bit(self.value, irq % 32)
    }
}

/// The write that enables line `irq` and no other.
pub open spec fn spec_enable_line(irq: u32) -> RegWrite {
    RegWrite { reg: Register::SetEnable, index: (irq / 32) as usize, value: 1u32 << (irq % 32) }
}

/// The write that raises software-generated interrupt `irq` on every core:
/// all eight bits of the target list, the bit that addresses the cores'
/// current security state, and the id.
pub open spec fn spec_broadcast(irq: u32) -> RegWrite {
    RegWrite { reg: Register::SoftwareInterrupt, index: 0, value: 0xFF_8000u32 | irq }
}

/// The interrupt id in a value read from the acknowledge register: its low
/// ten bits.  The bits above name the sending core of a software-generated
/// interrupt.
pub open spec fn spec_ack_id(raw: u32) -> u32 {
    (raw % 1024) as u32
}

/// The write that retires the interrupt acknowledged as `raw`.
pub open spec fn spec_retire(raw: u32) -> RegWrite {
    RegWrite { reg: Register::EndOfInterrupt, index: 0, value: raw }
}

/// Builds the write that enables line `irq` and no other.
#[verifier::when_used_as_spec(spec_enable_line)]
pub fn enable_line(irq: u32) -> (w: RegWrite)
    requires
        irq < IRQ_COUNT,
    ensures
        w == spec_enable_line(irq),
        w.wf(),
{
    assert(irq & 0x1F == irq % 32) by (bit_vector);
    assert(irq >> 5 == irq / 32) by (bit_vector);
    let value: u32 = 0x1 << (irq & 0x1F);
    let index: u32 = irq >> 5;
    RegWrite { reg: Register::SetEnable, index: index as usize, value }
}

/// Builds the write that raises software-generated interrupt `irq` on every
/// core.
#[verifier::when_used_as_spec(spec_broadcast)]
pub fn broadcast(irq: u32) -> (w: RegWrite)
    requires
        irq < SGI_COUNT,
    ensures
        w == spec_broadcast(irq),
        w.value == 0xFF_8000 + irq,
        w.wf(),
{
    proof {
        lemma_broadcast_fields(irq);
    }
    RegWrite { reg: Register::SoftwareInterrupt, index: 0, value: 0xFF_8000 | irq }
}

/// Extracts the interrupt id from a value read from the acknowledge
/// register.
#[verifier::when_used_as_spec(spec_ack_id)]
pub fn ack_id(raw: u32) -> (irq: u32)
    ensures
        irq == spec_ack_id(raw),
{
    assert(raw & 0x3FF == raw % 1024) by (bit_vector);
    raw & 0x3FF
}

/// Builds the write that retires the interrupt acknowledged as `raw`.
#[verifier::when_used_as_spec(spec_retire)]
pub fn retire(raw: u32) -> (w: RegWrite)
    ensures
        w == spec_retire(raw),
        w.wf(),
{
    RegWrite { reg: Register::EndOfInterrupt, index: 0, value: raw }
}

/// Enabling a line sets the bit of that line and of no other.
pub proof fn lemma_enable_line_is_exact(irq: u32, other: u32)
    ensures
        enable_line(irq).enables(other) <==> other == irq,
        !enable_line(irq).disables(other),
{
    let a = irq % 32;
    let b = other % 32;
    assert(bit(1u32 << a, b) <==> a == b) by (bit_vector)
        requires
            a < 32,
            b < 32,
    ;
}

/// A broadcast names every core and the requested line: the id sits in the
/// low four bits, the target list in bits 16 to 23 is full, and the filter
/// in bits 24 and 25 selects delivery by target list.
pub proof fn lemma_broadcast_fields(irq: u32)
    requires
        irq < SGI_COUNT,
    ensures
        broadcast(irq).value & 0xF == irq,
        (broadcast(irq).value >> 16) & 0xFF == 0xFF,
        (broadcast(irq).value >> 24) & 0x3 == 0,
        broadcast(irq).value == 0xFF_8000 + irq,
{
    assert((0xFF_8000u32 | irq) & 0xF == irq) by (bit_vector)
        requires
            irq < 16,
    ;
    assert(((0xFF_8000u32 | irq) >> 16) & 0xFF == 0xFF) by (bit_vector)
        requires
            irq < 16,
    ;
    assert(((0xFF_8000u32 | irq) >> 24) & 0x3 == 0) by (bit_vector)
        requires
            irq < 16,
    ;
    assert((0xFF_8000u32 | irq) == 0xFF_8000 + irq) by (bit_vector)
        requires
            irq < 16,
    ;
}

} // verus!
