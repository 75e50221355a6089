//! Handler registry, registration, software-generated interrupts and the
//! per-core dispatch step.

use crate::boot::{lemma_reset_quiets, quiet, reset_sequence, reset_writes, PRIORITY};
use crate::model::Controller;
use crate::regs::{
    ack_id, broadcast, enable_line, lemma_enable_line_is_exact, retire, RegWrite, IRQ_COUNT,
    SGI_COUNT,
};
use std::collections::BTreeMap;
use vstd::prelude::*;

verus! {

/// The handlers registered for `irq`, in the order of their registration;
/// none if the line was never registered.
pub open spec fn handlers_of<H>(registry: Map<u32, Seq<H>>, irq: u32) -> Seq<H> {
    if registry.contains_key(irq) {
        registry[irq]
    } else {
        Seq::empty()
    }
}

/// The registry after `handler` has been registered for `irq`: the list of
/// `irq` ends with `handler`, and nothing else has changed.
pub open spec fn registered<H>(registry: Map<u32, Seq<H>>, irq: u32, handler: H) -> Map<
    u32,
    Seq<H>,
> {
    registry.insert(irq, handlers_of(registry, irq).push(handler))
}

/// The hardware access that goes with a registration for `irq`: the line is
/// enabled when its first handler arrives, and never touched again.
pub open spec fn enabling<H>(registry: Map<u32, Seq<H>>, irq: u32) -> Option<RegWrite> {
    if registry.contains_key(irq) {
        None
    } else {
        Some(enable_line(irq))
    }
}

/// Every registered line exists and has at least one handler.
pub open spec fn well_formed<H>(registry: Map<u32, Seq<H>>) -> bool {
    forall|irq: u32| #[trigger]
        registry.contains_key(irq) ==> irq < IRQ_COUNT && registry[irq].len() > 0
}

/// A request that the driver cannot serve.  Each is a defect of the caller
/// or of the system's configuration, and the caller is expected to halt.
#[derive(Clone, Copy, PartialEq, Eq, Debug, Structural)]
pub enum Fault {
    /// A handler was offered for a line that does not exist.
    OutOfRange { irq: u32 },
    /// A software-generated interrupt was requested on a line that is not
    /// software-generated.
    NotSoftwareGenerated { irq: u32 },
}

/// What a core has to do after it has read the acknowledge register and
/// placed an acquire barrier behind the read.
///
/// A core runs the same cycle for ever: it acknowledges, which is the read;
/// it waits if nothing is pending; otherwise it dispatches to the handlers
/// and retires the interrupt.
#[derive(Debug, PartialEq, Eq)]
pub enum Dispatch<H> {
    /// Nothing is pending: unmask interrupts, wait for one, mask again and
    /// read the acknowledge register anew.
    Idle,
    /// An interrupt is active: run `handlers` in order on this core, place a
    /// release barrier behind them, then perform `retire`.
    Deliver { handlers: Vec<H>, retire: RegWrite },
    /// An interrupt is active on a line without handlers.  The system halts
    /// and the interrupt is not retired.
    Unhandled { irq: u32 },
}

/// A [`Dispatch`] with its handlers as a sequence.
pub ghost enum Plan<H> {
    /// Nothing is pending.
    Idle,
    /// The handlers to run, in order, and the write that retires the
    /// interrupt after them.
    Deliver { handlers: Seq<H>, retire: RegWrite },
    /// The line that fired without a handler.
    Unhandled { irq: u32 },
}

impl<H> View for Dispatch<H> {
    type V = Plan<H>;

    open spec fn view(&self) -> Plan<H> {
        match *self {
            Dispatch::Idle => Plan::Idle,
            Dispatch::Deliver { handlers, retire } => Plan::Deliver { handlers: handlers@, retire },
            Dispatch::Unhandled { irq } => Plan::Unhandled { irq },
        }
    }
}

/// What a core has to do with registry `registry` after the acknowledge
/// register has read `raw`.
pub open spec fn planned<H>(registry: Map<u32, Seq<H>>, raw: u32) -> Plan<H> {
    let irq = ack_id(raw);
    if irq >= IRQ_COUNT {
        Plan::Idle
    } else if registry.contains_key(irq) {
        Plan::Deliver { handlers: registry[irq], retire: retire(raw) }
    } else {
        Plan::Unhandled { irq }
    }
}

/// Interrupt driver: the registry of handlers, by line.
///
/// The type of a handler is left open because the driver never calls one.
/// It is meant to be a plain function pointer, which cannot capture state.
pub struct Irq<H> {
    /// Registered handlers.
    handlers: BTreeMap<u32, Vec<H>>,
}

impl<H> Irq<H> {
    /// The registry: for each registered line its handlers, in the order of
    /// their registration.
    pub closed spec fn view(&self) -> Map<u32, Seq<H>> {
        Map::new(|irq: u32| self.handlers@.contains_key(irq), |irq: u32| self.handlers@[irq]@)
    }

    #[verifier::type_invariant]
    spec fn inv(&self) -> bool {
        well_formed(self@)
    }
}

impl<H: Copy> Irq<H> {
    /// Creates a driver with an empty registry, together with the reset
    /// sequence that the caller must perform on the controller, first write
    /// to last, before the driver is used.
    pub fn new() -> (boot: (Self, Vec<RegWrite>))
        ensures
            boot.0@ == Map::<u32, Seq<H>>::empty(),
            boot.1@ == reset_writes(),
            forall|i: int| 0 <= i < boot.1@.len() ==> (#[trigger] boot.1@[i]).wf(),
    {
        let irq = Irq { handlers: BTreeMap::new() };
        assert(irq@ =~= Map::<u32, Seq<H>>::empty());
        (irq, reset_sequence())
    }

    /// Returns a copy of the handlers registered for `irq`, or `None` if the
    /// line was never registered.
    pub fn lookup(&self, irq: u32) -> (found: Option<Vec<H>>)
        ensures
            match found {
                Some(list) => self@.contains_key(irq) && list@ == self@[irq] && list@.len() > 0,
                None => !self@.contains_key(irq),
            },
    {
        proof {
            use_type_invariant(self);
        }
        match self.handlers.get(&irq) {
            Some(list) => {
                assert(self@.contains_key(irq) && self@[irq] == list@);
                let mut copy: Vec<H> = Vec::new();
                let mut i: usize = 0;
                while i < list.len()
                    invariant
                        i <= list.len(),
                        copy@ == list@.take(i as int),
                    decreases list.len() - i,
                {
                    copy.push(list[i]);
                    i += 1;
                    assert(copy@ =~= list@.take(i as int));
                }
                assert(copy@ =~= list@);
                Some(copy)
            },
            None => None,
        }
    }

    /// Registers a handler to be called when the specified IRQ is triggered.
    ///
    /// Returns the register write that the caller must perform: the one that
    /// enables the line if this is its first handler, none otherwise.  The
    /// exclusive borrow stands for the exclusive access that a registration
    /// needs; the caller's lock provides it.
    pub fn register(&mut self, irq: u32, handler: H) -> (enable: Option<RegWrite>)
        requires
            irq < IRQ_COUNT,
        ensures
            final(self)@ == registered(old(self)@, irq, handler),
            enable == enabling(old(self)@, irq),
            enable matches Some(w) ==> w.wf(),
            well_formed(final(self)@),
    {
        proof {
            use_type_invariant(&*self);
        }
        let mut handlers: BTreeMap<u32, Vec<H>> = BTreeMap::new();
        std::mem::swap(&mut handlers, &mut self.handlers);
        // If there's at least one handler for this IRQ, just add the new
        // handler without touching the controller's registers.
        let (mut list, enable) = match handlers.remove(&irq) {
            Some(list) => (list, None),
            None => (Vec::new(), Some(enable_line(irq))),
        };
        list.push(handler);
        handlers.insert(irq, list);
        proof {
            let next = registered(old(self)@, irq, handler);
            lemma_register_keeps_well_formed(old(self)@, irq, handler);
            assert(Map::new(|k: u32| handlers@.contains_key(k), |k: u32| handlers@[k]@) =~= next);
        }
        self.handlers = handlers;
        enable
    }

    /// Registers a handler for `irq` if the line exists.
    ///
    /// A line that does not exist is reported as a fault, and the registry
    /// stays as it was.
    pub fn try_register(&mut self, irq: u32, handler: H) -> (outcome: Result<
        Option<RegWrite>,
        Fault,
    >)
        ensures
            irq < IRQ_COUNT ==> outcome == Ok::<Option<RegWrite>, Fault>(
                enabling(old(self)@, irq),
            ) && final(self)@ == registered(old(self)@, irq, handler),
            irq >= IRQ_COUNT ==> outcome == Err::<Option<RegWrite>, Fault>(
                Fault::OutOfRange { irq },
            ) && final(self)@ == old(self)@,
            well_formed(final(self)@),
    {
        proof {
            use_type_invariant(&*self);
        }
        if irq as usize >= IRQ_COUNT {
            return Err(Fault::OutOfRange { irq });
        }
        Ok(self.register(irq, handler))
    }

    /// Raises the specified software-generated interrupt on all cores.
    ///
    /// Returns the register write that the caller must perform.
    pub fn trigger(&self, irq: u32) -> (write: RegWrite)
        requires
            irq < SGI_COUNT,
        ensures
            write == broadcast(irq),
            write.value == 0xFF_8000 + irq,
            write.wf(),
    {
        broadcast(irq)
    }

    /// Raises the specified interrupt on all cores if it is
    /// software-generated.
    ///
    /// Any other line is reported as a fault, and no register is to be
    /// written.
    pub fn try_trigger(&self, irq: u32) -> (outcome: Result<RegWrite, Fault>)
        ensures
            irq < SGI_COUNT ==> outcome == Ok::<RegWrite, Fault>(broadcast(irq)),
            irq >= SGI_COUNT ==> outcome == Err::<RegWrite, Fault>(
                Fault::NotSoftwareGenerated { irq },
            ),
    {
        if irq >= SGI_COUNT {
            return Err(Fault::NotSoftwareGenerated { irq });
        }
        Ok(self.trigger(irq))
    }

    /// Decides what a core does after the acknowledge register has read
    /// `raw`.
    ///
    /// The handlers are handed out as a copy, so that the caller can give up
    /// its shared access to the registry before it runs them, and a handler
    /// may itself register handlers.
    pub fn dispatch(&self, raw: u32) -> (step: Dispatch<H>)
        ensures
            step@ == planned(self@, raw),
            step@ matches Plan::Deliver { handlers, retire } ==> handlers.len() > 0 && retire.wf(),
            well_formed(self@),
    {
        proof {
            use_type_invariant(self);
        }
        let irq = ack_id(raw);
        if irq as usize >= IRQ_COUNT {
            return Dispatch::Idle;
        }
        match self.lookup(irq) {
            Some(handlers) => Dispatch::Deliver { handlers, retire: retire(raw) },
            None => Dispatch::Unhandled { irq },
        }
    }
}

/// Whether the controller agrees with a registry: a line is enabled if and
/// only if it has handlers, and the priority of every line passes the mask.
pub open spec fn tracks<H>(c: Controller, registry: Map<u32, Seq<H>>) -> bool {
    forall|irq: u32|
        #![trigger c.enabled.contains(irq)]
        #![trigger registry.contains_key(irq)]
        #![trigger c.delivers(irq)]
        irq < IRQ_COUNT ==> {
            &&& c.enabled.contains(irq) <==> registry.contains_key(irq)
            &&& (c.priority)(irq) < c.mask
        }
}

/// After a registration the list of the line ends with the new handler, the
/// handlers before it are the ones that were there, in their order, and the
/// list of every other line is as it was.
pub proof fn lemma_register_appends<H>(registry: Map<u32, Seq<H>>, irq: u32, handler: H)
    ensures
        registered(registry, irq, handler).contains_key(irq),
        registered(registry, irq, handler)[irq].last() == handler,
        registered(registry, irq, handler)[irq].drop_last() == handlers_of(registry, irq),
        forall|other: u32|
            other != irq ==> {
                &&& registered(registry, irq, handler).contains_key(other)
                    == registry.contains_key(other)
                &&& #[trigger] handlers_of(registered(registry, irq, handler), other)
                    == handlers_of(registry, other)
            },
{
    assert(handlers_of(registry, irq).push(handler).drop_last() =~= handlers_of(registry, irq));
}

/// A registration keeps the registry well formed.
pub proof fn lemma_register_keeps_well_formed<H>(registry: Map<u32, Seq<H>>, irq: u32, handler: H)
    requires
        well_formed(registry),
        irq < IRQ_COUNT,
    ensures
        well_formed(registered(registry, irq, handler)),
{
    let next = registered(registry, irq, handler);
    assert forall|k: u32| #[trigger] next.contains_key(k) implies k < IRQ_COUNT && next[k].len()
        > 0 by {
        if k != irq {
            assert(registry.contains_key(k));
        }
    }
}

/// Two handlers registered one after the other for the same line are
/// delivered in that order, after the handlers that were there before, and
/// the interrupt is retired with the value that was acknowledged.
pub proof fn lemma_dispatch_in_registration_order<H>(
    registry: Map<u32, Seq<H>>,
    irq: u32,
    first: H,
    second: H,
    raw: u32,
)
    requires
        irq < IRQ_COUNT,
        ack_id(raw) == irq,
    ensures
        planned(registered(registered(registry, irq, first), irq, second), raw) == (Plan::Deliver {
            handlers: handlers_of(registry, irq).push(first).push(second),
            retire: retire(raw),
        }),
{
}

/// The first registration for a line enables exactly that line; a second
/// registration for it writes no register.
pub proof fn lemma_enabled_once<H>(registry: Map<u32, Seq<H>>, irq: u32, first: H, second: H)
    requires
        !registry.contains_key(irq),
    ensures
        enabling(registry, irq) == Some(enable_line(irq)),
        forall|other: u32| enable_line(irq).enables(other) <==> other == irq,
        enabling(registered(registry, irq, first), irq) is None,
        enabling(registered(registered(registry, irq, first), irq, second), irq) is None,
{
    assert forall|other: u32| enable_line(irq).enables(other) <==> other == irq by {
        lemma_enable_line_is_exact(irq, other);
    }
}

/// If the controller agrees with the registry before a registration, it
/// agrees with it after the caller has performed the write that the
/// registration asks for; the lines that were enabled stay enabled.
pub proof fn lemma_register_keeps_track<H>(
    c: Controller,
    registry: Map<u32, Seq<H>>,
    irq: u32,
    handler: H,
)
    requires
        tracks(c, registry),
        irq < IRQ_COUNT,
    ensures
        tracks(c.apply(enabling(registry, irq)), registered(registry, irq, handler)),
        c.enabled.subset_of(c.apply(enabling(registry, irq)).enabled),
{
    let after = c.apply(enabling(registry, irq));
    let next = registered(registry, irq, handler);
    assert forall|other: u32| other < IRQ_COUNT implies {
        &&& #[trigger] after.enabled.contains(other) <==> next.contains_key(other)
        &&& (after.priority)(other) < after.mask
    } by {
        lemma_enable_line_is_exact(irq, other);
        assert(c.enabled.contains(other) <==> registry.contains_key(other));
        assert((c.priority)(other) < c.mask);
    }
    assert forall|other: u32| c.enabled.contains(other) implies after.enabled.contains(other) by {}
}

/// A controller that agrees with the registry forwards exactly the lines
/// that have handlers.
pub proof fn lemma_tracked_lines_are_delivered<H>(c: Controller, registry: Map<u32, Seq<H>>)
    requires
        tracks(c, registry),
    ensures
        forall|irq: u32|
            irq < IRQ_COUNT ==> (#[trigger] c.delivers(irq) <==> registry.contains_key(irq)),
{
    assert forall|irq: u32| irq < IRQ_COUNT implies (#[trigger] c.delivers(irq)
        <==> registry.contains_key(irq)) by {
        assert(c.enabled.contains(irq) <==> registry.contains_key(irq));
        assert((c.priority)(irq) < c.mask);
    }
}

/// Once the reset sequence has run, the controller is quiet and agrees with
/// the empty registry.
pub proof fn lemma_reset_tracks_empty<H>(c: Controller)
    ensures
        quiet(c.run(reset_writes()), c),
        tracks(c.run(reset_writes()), Map::<u32, Seq<H>>::empty()),
{
    lemma_reset_quiets(c);
    let after = c.run(reset_writes());
    let empty = Map::<u32, Seq<H>>::empty();
    assert forall|irq: u32| irq < IRQ_COUNT implies {
        &&& #[trigger] after.enabled.contains(irq) <==> empty.contains_key(irq)
        &&& (after.priority)(irq) < after.mask
    } by {
        assert(!after.enabled.contains(irq));
        assert((after.priority)(irq) == PRIORITY);
    }
}

/// A value without a pending interrupt leads to the idle wait, whatever the
/// registry holds: no handler is looked up and nothing is retired.
pub proof fn lemma_spurious_is_idle<H>(registry: Map<u32, Seq<H>>, raw: u32)
    requires
        ack_id(raw) >= IRQ_COUNT,
    ensures
        planned(registry, raw) == Plan::<H>::Idle,
{
}

/// Registrations for different lines do not disturb each other: in either
/// order they leave the same registry, which holds both handlers.
pub proof fn lemma_registrations_commute<H>(
    registry: Map<u32, Seq<H>>,
    a: u32,
    on_a: H,
    b: u32,
    on_b: H,
)
    requires
        a != b,
    ensures
        registered(registered(registry, a, on_a), b, on_b) == registered(
            registered(registry, b, on_b),
            a,
            on_a,
        ),
        handlers_of(registered(registered(registry, a, on_a), b, on_b), a) == handlers_of(
            registry,
            a,
        ).push(on_a),
        handlers_of(registered(registered(registry, a, on_a), b, on_b), b) == handlers_of(
            registry,
            b,
        ).push(on_b),
{
    assert(registered(registered(registry, a, on_a), b, on_b) =~= registered(
        registered(registry, b, on_b),
        a,
        on_a,
    ));
}

} // verus!
