use gic400::irq::{Dispatch, Fault, Irq};
use gic400::regs::{RegWrite, Register, IRQ_COUNT};
use std::sync::atomic::{AtomicU32, Ordering};
use std::sync::{Mutex, RwLock};

type Tagged = fn() -> u32;

fn first() -> u32 {
    1
}

fn second() -> u32 {
    2
}

fn third() -> u32 {
    3
}

fn tags(list: &[Tagged]) -> Vec<u32> {
    list.iter().map(|handler| handler()).collect()
}

fn driver() -> Irq<Tagged> {
    Irq::new().0
}

#[test]
fn new_registry_is_empty() {
    let irq = driver();
    for id in 0..IRQ_COUNT as u32 {
        assert!(irq.lookup(id).is_none());
    }
}

#[test]
fn register_appends_and_keeps_earlier_handlers() {
    let mut irq = driver();
    irq.register(40, first);
    irq.register(40, second);
    let before = irq.lookup(40).unwrap();
    irq.register(40, third);
    let after = irq.lookup(40).unwrap();
    assert_eq!(tags(&before), vec![1, 2]);
    assert_eq!(tags(&after), vec![1, 2, 3]);
}

#[test]
fn register_keeps_duplicates() {
    let mut irq = driver();
    irq.register(7, first);
    irq.register(7, first);
    irq.register(7, second);
    irq.register(7, first);
    assert_eq!(tags(&irq.lookup(7).unwrap()), vec![1, 1, 2, 1]);
}

#[test]
fn register_leaves_other_lines_alone() {
    let mut irq = driver();
    irq.register(100, first);
    irq.register(101, second);
    irq.register(101, third);
    assert_eq!(tags(&irq.lookup(100).unwrap()), vec![1]);
    assert_eq!(tags(&irq.lookup(101).unwrap()), vec![2, 3]);
    assert!(irq.lookup(102).is_none());
}

#[test]
fn register_accepts_every_line() {
    let mut irq = driver();
    for id in 0..IRQ_COUNT as u32 {
        let enable = irq.register(id, first).unwrap();
        assert_eq!(enable.reg, Register::SetEnable);
        assert_eq!(enable.index, (id / 32) as usize);
        assert_eq!(enable.value, 1u32 << (id % 32));
    }
    for id in 0..IRQ_COUNT as u32 {
        assert_eq!(tags(&irq.lookup(id).unwrap()), vec![1]);
    }
}

static ORDER: Mutex<Vec<u32>> = Mutex::new(Vec::new());

fn log_one() {
    ORDER.lock().unwrap().push(1);
}

fn log_two() {
    ORDER.lock().unwrap().push(2);
}

#[test]
fn dispatch_runs_handlers_in_registration_order() {
    let mut irq: Irq<fn()> = Irq::new().0;
    irq.register(64, log_one);
    irq.register(64, log_two);
    match irq.dispatch(64) {
        Dispatch::Deliver { handlers, retire } => {
            for handler in handlers {
                handler();
            }
            assert_eq!(retire.value, 64);
        }
        other => panic!("unexpected step {:?}", other),
    }
    assert_eq!(*ORDER.lock().unwrap(), vec![1, 2]);
}

#[test]
fn first_registration_enables_the_line_once() {
    let mut irq = driver();
    assert_eq!(
        irq.register(33, first),
        Some(RegWrite { reg: Register::SetEnable, index: 1, value: 0b10 })
    );
    assert_eq!(irq.register(33, second), None);
    assert_eq!(irq.register(33, third), None);
    assert_eq!(
        irq.register(223, first),
        Some(RegWrite { reg: Register::SetEnable, index: 6, value: 0x8000_0000 })
    );
    assert_eq!(
        irq.register(0, first),
        Some(RegWrite { reg: Register::SetEnable, index: 0, value: 1 })
    );
}

#[test]
fn trigger_broadcasts_to_all_cores() {
    let irq = driver();
    for id in 0..16u32 {
        assert_eq!(
            irq.trigger(id),
            RegWrite { reg: Register::SoftwareInterrupt, index: 0, value: 0x00FF_8000 | id }
        );
        assert_eq!(irq.try_trigger(id), Ok(irq.trigger(id)));
    }
    assert_eq!(irq.trigger(9).value, 0x00FF_8009);
}

#[test]
fn trigger_outside_the_software_lines_is_a_fault() {
    let irq = driver();
    assert_eq!(irq.try_trigger(16), Err(Fault::NotSoftwareGenerated { irq: 16 }));
    assert_eq!(irq.try_trigger(142), Err(Fault::NotSoftwareGenerated { irq: 142 }));
    assert_eq!(irq.try_trigger(u32::MAX), Err(Fault::NotSoftwareGenerated { irq: u32::MAX }));
}

#[test]
fn register_out_of_range_is_a_fault_and_changes_nothing() {
    let mut irq = driver();
    irq.register(223, first);
    assert_eq!(irq.try_register(224, second), Err(Fault::OutOfRange { irq: 224 }));
    assert_eq!(irq.try_register(u32::MAX, second), Err(Fault::OutOfRange { irq: u32::MAX }));
    assert_eq!(irq.try_register(224 + 1024, second), Err(Fault::OutOfRange { irq: 1248 }));
    assert_eq!(tags(&irq.lookup(223).unwrap()), vec![1]);
    assert!(irq.lookup(224).is_none());
    assert_eq!(irq.dispatch(224), Dispatch::Idle);
    for id in 0..223u32 {
        assert!(irq.lookup(id).is_none());
    }
}

#[test]
fn try_register_in_range_registers() {
    let mut irq = driver();
    assert_eq!(
        irq.try_register(142, first),
        Ok(Some(RegWrite { reg: Register::SetEnable, index: 4, value: 1 << 14 }))
    );
    assert_eq!(irq.try_register(142, second), Ok(None));
    assert_eq!(tags(&irq.lookup(142).unwrap()), vec![1, 2]);
}

#[test]
fn spurious_acknowledge_goes_idle() {
    let mut irq = driver();
    irq.register(0, first);
    irq.register(223, first);
    assert_eq!(irq.dispatch(1023), Dispatch::Idle);
    assert_eq!(irq.dispatch(1022), Dispatch::Idle);
    assert_eq!(irq.dispatch(224), Dispatch::Idle);
    assert_eq!(irq.dispatch(0x3FF | (3 << 10)), Dispatch::Idle);
    assert_eq!(irq.dispatch(u32::MAX), Dispatch::Idle);
}

static TOUCHES: AtomicU32 = AtomicU32::new(0);

fn count_touch() {
    TOUCHES.fetch_add(1, Ordering::SeqCst);
}

#[test]
fn touch_interrupt_runs_its_handler_once_and_is_retired() {
    assert_eq!(IRQ_COUNT, 224);
    let mut irq: Irq<fn()> = Irq::new().0;
    irq.register(142, count_touch);
    let mut end_of_interrupt = None;
    match irq.dispatch(142) {
        Dispatch::Deliver { handlers, retire } => {
            for handler in handlers {
                handler();
            }
            assert_eq!(retire.reg, Register::EndOfInterrupt);
            assert_eq!(retire.index, 0);
            end_of_interrupt = Some(retire.value);
        }
        Dispatch::Idle => panic!("the interrupt was taken for a spurious one"),
        Dispatch::Unhandled { irq } => panic!("no handler for {}", irq),
    }
    assert_eq!(TOUCHES.load(Ordering::SeqCst), 1);
    assert_eq!(end_of_interrupt, Some(142));
    let list = irq.lookup(142).unwrap();
    assert_eq!(list.len(), 1);
    list[0]();
    assert_eq!(TOUCHES.load(Ordering::SeqCst), 2);
}

#[test]
fn registrations_through_one_lock_both_land() {
    let irq = RwLock::new(driver());
    let writers: [(u32, Tagged); 2] = [(50, first), (60, second)];
    for (id, handler) in writers {
        let mut guard = irq.write().unwrap();
        assert_eq!(guard.register(id, handler).map(|w| w.reg), Some(Register::SetEnable));
    }
    assert!(irq.read().unwrap().lookup(50).is_some());
    let irq = irq.into_inner().unwrap();
    assert_eq!(tags(&irq.lookup(50).unwrap()), vec![1]);
    assert_eq!(tags(&irq.lookup(60).unwrap()), vec![2]);
    for id in 0..IRQ_COUNT as u32 {
        assert_eq!(irq.lookup(id).is_some(), id == 50 || id == 60);
    }
}

#[test]
fn registrations_for_distinct_lines_commute() {
    let mut ab = driver();
    ab.register(50, first);
    ab.register(60, second);
    let mut ba = driver();
    ba.register(60, second);
    ba.register(50, first);
    for id in 0..IRQ_COUNT as u32 {
        let x = ab.lookup(id).map(|list| tags(&list));
        let y = ba.lookup(id).map(|list| tags(&list));
        assert_eq!(x, y);
    }
    assert_eq!(ab.lookup(50).map(|list| tags(&list)), Some(vec![1]));
    assert_eq!(ab.lookup(60).map(|list| tags(&list)), Some(vec![2]));
}

#[test]
fn unhandled_interrupt_is_reported_and_not_retired() {
    let mut irq = driver();
    irq.register(34, first);
    assert_eq!(irq.dispatch(33), Dispatch::Unhandled { irq: 33 });
    assert_eq!(irq.dispatch(0), Dispatch::Unhandled { irq: 0 });
    assert_eq!(irq.dispatch(223), Dispatch::Unhandled { irq: 223 });
    assert!(irq.lookup(33).is_none());
}

#[test]
fn sender_bits_are_stripped_for_lookup_and_kept_for_retirement() {
    let mut irq = driver();
    irq.register(5, first);
    let raw = (2 << 10) | 5;
    match irq.dispatch(raw) {
        Dispatch::Deliver { handlers, retire } => {
            assert_eq!(tags(&handlers), vec![1]);
            assert_eq!(
                retire,
                RegWrite { reg: Register::EndOfInterrupt, index: 0, value: 0x805 }
            );
        }
        other => panic!("unexpected step {:?}", other),
    }
    assert_eq!(irq.dispatch((7 << 10) | 6), Dispatch::Unhandled { irq: 6 });
}

#[test]
fn dispatch_hands_out_a_snapshot() {
    let mut irq = driver();
    irq.register(80, first);
    let step = irq.dispatch(80);
    irq.register(80, second);
    match step {
        Dispatch::Deliver { handlers, .. } => assert_eq!(tags(&handlers), vec![1]),
        other => panic!("unexpected step {:?}", other),
    }
    assert_eq!(tags(&irq.lookup(80).unwrap()), vec![1, 2]);
}
