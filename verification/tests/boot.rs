use gic400::boot::{
    reset_sequence, ACCEPT_ALL, ALL_CORES, DISABLE_ALL, LEVEL_SENSITIVE, PRIORITY,
};
use gic400::irq::Irq;
use gic400::regs::{RegWrite, Register};

#[test]
fn reset_sequence_is_laid_out_in_order() {
    let ws = reset_sequence();
    assert_eq!(ws.len(), 7 + 1 + 224 + 14 + 192);
    for i in 0..7 {
        assert_eq!(ws[i], RegWrite { reg: Register::ClearEnable, index: i, value: 0xFFFF_FFFF });
    }
    assert_eq!(ws[7], RegWrite { reg: Register::PriorityMask, index: 0, value: 0xFF });
    for i in 0..224 {
        assert_eq!(ws[8 + i], RegWrite { reg: Register::Priority, index: i, value: 0x7F });
    }
    for i in 0..14 {
        assert_eq!(ws[232 + i], RegWrite { reg: Register::Config, index: i, value: 0x5555_5555 });
    }
    for i in 0..192 {
        assert_eq!(ws[246 + i], RegWrite { reg: Register::Target, index: 32 + i, value: 0xFF });
    }
}

#[test]
fn reset_constants_have_their_values() {
    assert_eq!(DISABLE_ALL, 0xFFFF_FFFF);
    assert_eq!(ACCEPT_ALL, 0xFF);
    assert_eq!(PRIORITY, 0x7F);
    assert_eq!(LEVEL_SENSITIVE, 0x5555_5555);
    assert_eq!(ALL_CORES, 0xFF);
    assert!(PRIORITY < ACCEPT_ALL);
}

#[test]
fn reset_sequence_opens_the_mask_before_it_sets_priorities() {
    let ws = reset_sequence();
    let mask = ws.iter().position(|w| w.reg == Register::PriorityMask).unwrap();
    let priority = ws.iter().position(|w| w.reg == Register::Priority).unwrap();
    assert!(mask < priority);
    assert_eq!(ws.iter().filter(|w| w.reg == Register::PriorityMask).count(), 1);
}

#[test]
fn reset_sequence_never_routes_banked_lines() {
    let ws = reset_sequence();
    assert!(ws.iter().all(|w| w.reg != Register::Target || w.index >= 32));
    assert!(ws.iter().all(|w| w.reg != Register::SetEnable));
    assert!(ws.iter().all(|w| w.reg != Register::SoftwareInterrupt));
    assert!(ws.iter().all(|w| w.reg != Register::EndOfInterrupt));
}

#[test]
fn reset_sequence_quiets_a_simulated_controller() {
    let mut enabled = [true; 224];
    let mut priority = [0u32; 224];
    let mut target = [0x01u32; 224];
    let mut level = [false; 224];
    let mut mask = 0u32;
    for w in reset_sequence() {
        match w.reg {
            Register::ClearEnable => {
                for bit in 0..32 {
                    if w.value >> bit & 1 == 1 {
                        enabled[w.index * 32 + bit] = false;
                    }
                }
            }
            Register::PriorityMask => mask = w.value,
            Register::Priority => priority[w.index] = w.value,
            Register::Target => target[w.index] = w.value,
            Register::Config => {
                for slot in 0..16 {
                    level[w.index * 16 + slot] = (w.value >> (2 * slot)) & 2 == 0;
                }
            }
            other => panic!("unexpected write to {:?}", other),
        }
    }
    assert_eq!(mask, 0xFF);
    for id in 0..224 {
        assert!(!enabled[id]);
        assert_eq!(priority[id], 0x7F);
        assert!(priority[id] < mask);
        assert!(level[id]);
        assert_eq!(target[id], if id < 32 { 0x01 } else { 0xFF });
    }
}

#[test]
fn new_driver_comes_with_the_reset_sequence() {
    let (irq, ws): (Irq<fn()>, Vec<RegWrite>) = Irq::new();
    assert_eq!(ws, reset_sequence());
    assert!(irq.lookup(0).is_none());
    assert!(irq.lookup(142).is_none());
}
