//! The reset sequence: the register writes that bring the controller into a
//! known, quiet state before any handler is registered.

use crate::model::{config_field, level_sensitive, lemma_run_concat, Controller};
use crate::regs::{bit, Register, RegWrite, BANKED_COUNT, IRQ_COUNT};
use vstd::prelude::*;

verus! {

/// Clear-enable word that disables all 32 lines of the word.
pub const DISABLE_ALL: u32 = 0xFFFF_FFFF;

/// Priority mask that accepts every priority a line can be given.
pub const ACCEPT_ALL: u32 = 0xFF;

/// Priority given to every line.  It lies below [`ACCEPT_ALL`], so the mask
/// lets every line pass.
pub const PRIORITY: u32 = 0x7F;

/// Configuration word that makes all 16 lines of the word level-sensitive.
pub const LEVEL_SENSITIVE: u32 = 0x5555_5555;

/// Target byte that routes a line to all cores.
pub const ALL_CORES: u32 = 0xFF;

/// `count` writes of `value` to consecutive entries of `reg`, starting at
/// entry `first`.
pub open spec fn uniform(reg: Register, first: int, count: int, value: u32) -> Seq<RegWrite> {
    Seq::new(count as nat, |i: int| RegWrite { reg, index: (first + i) as usize, value })
}

/// The reset sequence, in the order in which it must be performed:
/// disable every line; open the priority mask; give every line the same
/// priority; make every line level-sensitive; route every shared peripheral
/// line to all cores.
pub open spec fn reset_writes() -> Seq<RegWrite> {
    uniform(Register::ClearEnable, 0, IRQ_COUNT as int / 32, DISABLE_ALL)
        + uniform(Register::PriorityMask, 0, 1, ACCEPT_ALL)
        + uniform(Register::Priority, 0, IRQ_COUNT as int, PRIORITY)
        + uniform(Register::Config, 0, IRQ_COUNT as int / 16, LEVEL_SENSITIVE)
        + uniform(Register::Target, BANKED_COUNT as int, IRQ_COUNT - BANKED_COUNT, ALL_CORES)
}

/// Appends `count` writes of `value` to consecutive entries of `reg`.
fn fill(ws: &mut Vec<RegWrite>, reg: Register, first: usize, count: usize, value: u32)
    requires
        first + count <= reg.entries(),
        reg.width() == 1 ==> value <= 0xFF,
        forall|i: int| 0 <= i < old(ws)@.len() ==> (#[trigger] old(ws)@[i]).wf(),
    ensures
        final(ws)@ == old(ws)@ + uniform(reg, first as int, count as int, value),
        forall|i: int| 0 <= i < final(ws)@.len() ==> (#[trigger] final(ws)@[i]).wf(),
{
    let mut i: usize = 0;
    while i < count
        invariant
            i <= count,
            first + count <= reg.entries(),
            reg.width() == 1 ==> value <= 0xFF,
            ws@ == old(ws)@ + uniform(reg, first as int, i as int, value),
            forall|k: int| 0 <= k < ws@.len() ==> (#[trigger] ws@[k]).wf(),
        decreases count - i,
    {
        ws.push(RegWrite { reg, index: first + i, value });
        i += 1;
        assert(ws@ =~= old(ws)@ + uniform(reg, first as int, i as int, value));
    }
}

/// Computes the reset sequence.
pub fn reset_sequence() -> (ws: Vec<RegWrite>)
    ensures
        ws@ == reset_writes(),
        forall|i: int| 0 <= i < ws@.len() ==> (#[trigger] ws@[i]).wf(),
{
    let mut ws: Vec<RegWrite> = Vec::new();
    // Disable all IRQs.
    fill(&mut ws, Register::ClearEnable, 0, IRQ_COUNT / 32, DISABLE_ALL);
    // Set the minimum priority level (higher values correspond to lower
    // priority levels).
    fill(&mut ws, Register::PriorityMask, 0, 1, ACCEPT_ALL);
    // Raise the priority of every IRQ, as matching the lowest priority level
    // masks them.
    fill(&mut ws, Register::Priority, 0, IRQ_COUNT, PRIORITY);
    // Make all IRQs level triggered.
    fill(&mut ws, Register::Config, 0, IRQ_COUNT / 16, LEVEL_SENSITIVE);
    // Deliver all SPIs to all cores.
    fill(&mut ws, Register::Target, BANKED_COUNT, IRQ_COUNT - BANKED_COUNT, ALL_CORES);
    assert(ws@ =~= reset_writes());
    ws
}

/// Whether `c` is the quiet state that the reset sequence aims at, reached
/// from `before`: no line is enabled; the mask is open and every line's
/// priority passes it; every line is level-sensitive; every shared
/// peripheral line goes to all cores, and the routing of the banked lines is
/// as it was.
pub open spec fn quiet(c: Controller, before: Controller) -> bool {
    &&& c.mask == ACCEPT_ALL
    &&& forall|irq: u32|
        #![trigger c.enabled.contains(irq)]
        #![trigger c.delivers(irq)]
        #![trigger (c.priority)(irq)]
        #![trigger (c.config)(irq)]
        #![trigger (c.target)(irq)]
        irq < IRQ_COUNT ==> {
            &&& !c.enabled.contains(irq)
            &&& !c.delivers(irq)
            &&& (c.priority)(irq) == PRIORITY
            &&& (c.priority)(irq) < c.mask
            &&& level_sensitive((c.config)(irq))
            &&& irq >= BANKED_COUNT ==> (c.target)(irq) == ALL_CORES
            &&& irq < BANKED_COUNT ==> (c.target)(irq) == (before.target)(irq)
        }
}

/// A uniform sequence without its last write is the uniform sequence that is
/// one shorter.
proof fn lemma_uniform_step(reg: Register, first: int, count: int, value: u32)
    requires
        count > 0,
    ensures
        uniform(reg, first, count, value).drop_last() == uniform(reg, first, count - 1, value),
        uniform(reg, first, count, value).last() == (RegWrite {
            reg,
            index: (first + count - 1) as usize,
            value,
        }),
{
    assert(uniform(reg, first, count, value).drop_last() =~= uniform(
        reg,
        first,
        count - 1,
        value,
    ));
}

/// Disabling whole words switches off every line of those words and changes
/// nothing else.
proof fn lemma_run_disable(c: Controller, count: int)
    requires
        0 <= count <= IRQ_COUNT / 32,
    ensures
        ({
            let r = c.run(uniform(Register::ClearEnable, 0, count, DISABLE_ALL));
            &&& r == Controller { enabled: r.enabled, ..c }
            &&& forall|irq: u32|
                r.enabled.contains(irq) <==> c.enabled.contains(irq) && irq / 32 >= count
        }),
    decreases count,
{
    if count > 0 {
        lemma_uniform_step(Register::ClearEnable, 0, count, DISABLE_ALL);
        lemma_run_disable(c, count - 1);
        assert forall|n: u32| n < 32 implies bit(DISABLE_ALL, n) by {
            assert(bit(0xFFFF_FFFFu32, n)) by (bit_vector)
                requires
                    n < 32,
            ;
        }
        let r = c.run(uniform(Register::ClearEnable, 0, count, DISABLE_ALL));
        assert(r =~= Controller { enabled: r.enabled, ..c });
    }
}

/// Writing the priority mask sets the mask and changes nothing else.
proof fn lemma_run_mask(c: Controller, value: u32)
    ensures
        c.run(uniform(Register::PriorityMask, 0, 1, value)) == (Controller { mask: value, ..c }),
{
    lemma_uniform_step(Register::PriorityMask, 0, 1, value);
    let ws = uniform(Register::PriorityMask, 0, 1, value);
    assert(c.run(ws.drop_last()) == c);
}

/// Writing a run of priority bytes sets the priority of those lines and
/// changes nothing else.
proof fn lemma_run_priority(c: Controller, count: int, value: u32)
    requires
        0 <= count <= IRQ_COUNT,
    ensures
        ({
            let r = c.run(uniform(Register::Priority, 0, count, value));
            &&& r == Controller { priority: r.priority, ..c }
            &&& forall|irq: u32| irq < count ==> #[trigger] (r.priority)(irq) == value
        }),
    decreases count,
{
    if count > 0 {
        lemma_uniform_step(Register::Priority, 0, count, value);
        lemma_run_priority(c, count - 1, value);
        let r = c.run(uniform(Register::Priority, 0, count, value));
        assert(r =~= Controller { priority: r.priority, ..c });
    }
}

/// Writing a run of configuration words sets the fields of the lines of
/// those words and changes nothing else.
proof fn lemma_run_config(c: Controller, count: int, value: u32)
    requires
        0 <= count <= IRQ_COUNT / 16,
    ensures
        ({
            let r = c.run(uniform(Register::Config, 0, count, value));
            &&& r == Controller { config: r.config, ..c }
            &&& forall|irq: u32|
                irq / 16 < count ==> #[trigger] (r.config)(irq) == config_field(value, irq % 16)
        }),
    decreases count,
{
    if count > 0 {
        lemma_uniform_step(Register::Config, 0, count, value);
        lemma_run_config(c, count - 1, value);
        let r = c.run(uniform(Register::Config, 0, count, value));
        assert(r =~= Controller { config: r.config, ..c });
    }
}

/// Writing a run of target bytes routes those lines, leaves the routing of
/// every other line alone and changes nothing else.
proof fn lemma_run_target(c: Controller, first: int, count: int, value: u32)
    requires
        0 <= first,
        0 <= count,
        first + count <= IRQ_COUNT,
    ensures
        ({
            let r = c.run(uniform(Register::Target, first, count, value));
            &&& r == Controller { target: r.target, ..c }
            &&& forall|irq: u32|
                first <= irq < first + count ==> #[trigger] (r.target)(irq) == value
            &&& forall|irq: u32|
                !(first <= irq < first + count) ==> #[trigger] (r.target)(irq) == (c.target)(irq)
        }),
    decreases count,
{
    if count > 0 {
        lemma_uniform_step(Register::Target, first, count, value);
        lemma_run_target(c, first, count - 1, value);
        let r = c.run(uniform(Register::Target, first, count, value));
        assert(r =~= Controller { target: r.target, ..c });
    }
}

/// Whatever the controller held before, the reset sequence leaves it quiet.
pub proof fn lemma_reset_quiets(c: Controller)
    ensures
        quiet(c.run(reset_writes()), c),
{
    let disable = uniform(Register::ClearEnable, 0, IRQ_COUNT as int / 32, DISABLE_ALL);
    let mask = uniform(Register::PriorityMask, 0, 1, ACCEPT_ALL);
    let priority = uniform(Register::Priority, 0, IRQ_COUNT as int, PRIORITY);
    let config = uniform(Register::Config, 0, IRQ_COUNT as int / 16, LEVEL_SENSITIVE);
    let target = uniform(
        Register::Target,
        BANKED_COUNT as int,
        IRQ_COUNT - BANKED_COUNT,
        ALL_CORES,
    );
    let c1 = c.run(disable);
    let c2 = c1.run(mask);
    let c3 = c2.run(priority);
    let c4 = c3.run(config);
    let c5 = c4.run(target);
    lemma_run_concat(c, disable, mask);
    lemma_run_concat(c, disable + mask, priority);
    lemma_run_concat(c, disable + mask + priority, config);
    lemma_run_concat(c, disable + mask + priority + config, target);
    assert(c.run(reset_writes()) == c5);
    lemma_run_disable(c, IRQ_COUNT as int / 32);
    lemma_run_mask(c1, ACCEPT_ALL);
    lemma_run_priority(c2, IRQ_COUNT as int, PRIORITY);
    lemma_run_config(c3, IRQ_COUNT as int / 16, LEVEL_SENSITIVE);
    lemma_run_target(c4, BANKED_COUNT as int, IRQ_COUNT - BANKED_COUNT, ALL_CORES);
    assert forall|irq: u32| irq < IRQ_COUNT implies level_sensitive(
        #[trigger] (c5.config)(irq),
    ) by {
        let slot = irq % 16;
        assert(level_sensitive(config_field(LEVEL_SENSITIVE, slot))) by (bit_vector)
            requires
                slot < 16,
        ;
    }
}

/// The reset sequence, write by write: seven words that disable the lines,
/// the priority mask, a priority byte for each line, fourteen configuration
/// words, and a target byte for each shared peripheral line.
pub proof fn lemma_reset_layout(i: int)
    requires
        0 <= i < reset_writes().len(),
    ensures
        reset_writes().len() == 438,
        i < 7 ==> reset_writes()[i] == (RegWrite {
            reg: Register::ClearEnable,
            index: i as usize,
            value: DISABLE_ALL,
        }),
        i == 7 ==> reset_writes()[i] == (RegWrite {
            reg: Register::PriorityMask,
            index: 0,
            value: ACCEPT_ALL,
        }),
        8 <= i < 232 ==> reset_writes()[i] == (RegWrite {
            reg: Register::Priority,
            index: (i - 8) as usize,
            value: PRIORITY,
        }),
        232 <= i < 246 ==> reset_writes()[i] == (RegWrite {
            reg: Register::Config,
            index: (i - 232) as usize,
            value: LEVEL_SENSITIVE,
        }),
        246 <= i ==> reset_writes()[i] == (RegWrite {
            reg: Register::Target,
            index: (i - 246 + 32) as usize,
            value: ALL_CORES,
        }),
        reset_writes()[i].wf(),
{
    let disable = uniform(Register::ClearEnable, 0, IRQ_COUNT as int / 32, DISABLE_ALL);
    let mask = uniform(Register::PriorityMask, 0, 1, ACCEPT_ALL);
    let priority = uniform(Register::Priority, 0, IRQ_COUNT as int, PRIORITY);
    let config = uniform(Register::Config, 0, IRQ_COUNT as int / 16, LEVEL_SENSITIVE);
    let target = uniform(
        Register::Target,
        BANKED_COUNT as int,
        IRQ_COUNT - BANKED_COUNT,
        ALL_CORES,
    );
    assert(disable.len() == 7 && mask.len() == 1 && priority.len() == 224 && config.len() == 14
        && target.len() == 192);
    let head = disable + mask + priority + config;
    assert(reset_writes() == head + target);
    if i < 7 {
        assert(reset_writes()[i] == disable[i]);
    } else if i == 7 {
        assert(reset_writes()[i] == mask[i - 7]);
    } else if i < 232 {
        assert(reset_writes()[i] == priority[i - 8]);
    } else if i < 246 {
        assert(reset_writes()[i] == config[i - 232]);
    } else {
        assert(reset_writes()[i] == target[i - 246]);
    }
}

/// In the reset sequence the priority mask is opened before any line is
/// given its priority.
pub proof fn lemma_mask_opens_first(i: int, j: int)
    requires
        0 <= i < reset_writes().len(),
        0 <= j < reset_writes().len(),
        reset_writes()[i].reg == Register::PriorityMask,
        reset_writes()[j].reg == Register::Priority,
    ensures
        i < j,
{
    lemma_reset_layout(i);
    lemma_reset_layout(j);
}

} // verus!
