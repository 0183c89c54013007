use vstd::prelude::*;
use vstd::string::StringSliceAdditionalSpecFns;
use crate::filter::{spec_enabled, FilterEntry};
use crate::level::Level;
use crate::memory;
use crate::serial;

verus! {

/// One step of a sink's record stream, tagged with the transaction that issued it.
pub enum Mark {
    Begin(nat),
    Text(nat),
    End(nat),
}

/// Lock and interrupt steps taken by the logging core, each tagged with its CPU.
pub enum SyncEvent {
    InterruptsSuspended(nat),
    LockAcquired(nat),
    LockReleased(nat),
    InterruptsRestored(nat),
}

/// Where a stream stands after `m`, given where it stood before.
pub open spec fn step(state: Option<Option<nat>>, m: Mark) -> Option<Option<nat>> {
    match (state, m) {
        (Some(None), Mark::Begin(t)) => Some(Some(t)),
        (Some(Some(t)), Mark::Text(u)) => if t == u {
            Some(Some(t))
        } else {
            None
        },
        (Some(Some(t)), Mark::End(u)) => if t == u {
            Some(None)
        } else {
            None
        },
        _ => None,
    }
}

/// Where a stream stands: `None` if it breaks the record grammar, `Some(None)` between
/// records, `Some(Some(t))` inside a record of transaction `t`. A well-formed stream is a
/// run of `Begin(t) Text(t)* End(t)` records, the last one possibly still open.
pub open spec fn stream_state(s: Seq<Mark>) -> Option<Option<nat>>
    decreases s.len(),
{
    if s.len() == 0 {
        Some(None)
    } else {
        step(stream_state(s.drop_last()), s.last())
    }
}

proof fn lemma_stream_push(s: Seq<Mark>, m: Mark)
    ensures
        stream_state(s.push(m)) == step(stream_state(s), m),
{
    assert(s.push(m).drop_last() =~= s);
}

/// A stream made only of complete records, none interleaved with another.
pub open spec fn records_closed(s: Seq<Mark>) -> bool {
    stream_state(s) == Some(None::<nat>)
}

/// A stream of complete records followed by the open record of transaction `t`.
pub open spec fn record_open(s: Seq<Mark>, t: nat) -> bool {
    stream_state(s) == Some(Some(t))
}

/// Transaction that issued a step.
pub open spec fn mark_id(m: Mark) -> nat {
    match m {
        Mark::Begin(t) => t,
        Mark::Text(t) => t,
        Mark::End(t) => t,
    }
}

/// Every step of `s` was issued by transaction `t` or an earlier one.
pub open spec fn ids_at_most(s: Seq<Mark>, t: nat) -> bool {
    forall|i: int| 0 <= i < s.len() ==> mark_id(#[trigger] s[i]) <= t
}

/// Records start in the order their transactions took the lock.
pub open spec fn begins_increasing(s: Seq<Mark>) -> bool {
    forall|i: int, j: int|
        0 <= i < j < s.len() && #[trigger] s[i] is Begin && #[trigger] s[j] is Begin ==> mark_id(s[i])
            < mark_id(s[j])
}

/// A stream whose steps go no later than transaction `t`, with records in lock order.
pub open spec fn ordered(s: Seq<Mark>, t: nat) -> bool {
    ids_at_most(s, t) && begins_increasing(s)
}

proof fn lemma_push_ordered(s: Seq<Mark>, m: Mark, t_old: nat, t_new: nat)
    requires
        ordered(s, t_old),
        mark_id(m) == t_new,
        t_old <= t_new,
        m is Begin ==> t_old < t_new,
    ensures
        ordered(s.push(m), t_new),
{
    let n = s.push(m);
    assert forall|i: int, j: int|
        0 <= i < j < n.len() && #[trigger] n[i] is Begin && #[trigger] n[j] is Begin implies mark_id(n[i])
        < mark_id(n[j]) by {
        if j < s.len() {
            assert(s[i] == n[i] && s[j] == n[j]);
        } else {
            assert(s[i] == n[i]);
            assert(mark_id(s[i]) <= t_old);
        }
    }
    assert forall|i: int| 0 <= i < n.len() implies mark_id(#[trigger] n[i]) <= t_new by {
        if i < s.len() {
            assert(s[i] == n[i]);
        }
    }
}

/// What a transaction asks of every active sink.
pub enum SinkOp<'a> {
    Start { timestamp: u64, level: Level, thread: u64, source: &'static str },
    Write(&'a str),
    End,
}

pub open spec fn mark_of(op: SinkOp, t: nat) -> Mark {
    match op {
        SinkOp::Start { .. } => Mark::Begin(t),
        SinkOp::Write(_) => Mark::Text(t),
        SinkOp::End => Mark::End(t),
    }
}

/// Console bytes produced by `op`.
pub open spec fn serial_text(op: SinkOp) -> Seq<u8> {
    match op {
        SinkOp::Start { timestamp, level, thread, source } => serial::start_text(
            timestamp,
            level,
            thread,
            source.spec_bytes(),
        ),
        SinkOp::Write(s) => s.spec_bytes(),
        SinkOp::End => serial::end_text(),
    }
}

/// Scrollback records after `op`.
pub open spec fn memory_step(
    old: Seq<memory::LogMessage>,
    new: Seq<memory::LogMessage>,
    op: SinkOp,
) -> bool {
    match op {
        SinkOp::Start { timestamp, level, source, .. } => memory::started(
            old,
            new,
            timestamp,
            level,
            source,
        ),
        SinkOp::Write(s) => memory::written(old, new, s.spec_bytes()),
        SinkOp::End => new == old,
    }
}

/// The set of sinks: the console always, the scrollback once attached. It is guarded as
/// a whole, so that one record appears in every sink at once.
pub struct Sinks {
    serial: serial::Sink,
    memory: Option<memory::Sink>,
    serial_marks: Ghost<Seq<Mark>>,
    memory_marks: Ghost<Seq<Mark>>,
}

impl Sinks {
    pub closed spec fn spec_serial(&self) -> Seq<u8> {
        self.serial@
    }

    pub closed spec fn has_memory(&self) -> bool {
        self.memory is Some
    }

    pub closed spec fn spec_memory(&self) -> Seq<memory::LogMessage> {
        match self.memory {
            Some(m) => m.spec_lines(),
            None => Seq::empty(),
        }
    }

    /// Record stream seen by the console.
    pub closed spec fn serial_stream(&self) -> Seq<Mark> {
        self.serial_marks@
    }

    /// Record stream seen by the scrollback since it was attached.
    pub closed spec fn memory_stream(&self) -> Seq<Mark> {
        self.memory_marks@
    }

    pub closed spec fn wf(&self) -> bool {
        &&& (self.memory matches Some(m) ==> m.wf())
        &&& (self.memory is None ==> self.memory_marks@ == Seq::<Mark>::empty())
    }

    /// Every active sink is between records.
    pub open spec fn all_closed(&self) -> bool {
        &&& records_closed(self.serial_stream())
        &&& records_closed(self.memory_stream())
    }

    /// Every stream's steps go no later than transaction `t`, records in lock order.
    pub open spec fn all_ordered(&self, t: nat) -> bool {
        &&& ordered(self.serial_stream(), t)
        &&& ordered(self.memory_stream(), t)
    }

    /// Every active sink is inside the record of transaction `t`.
    pub open spec fn all_open(&self, t: nat) -> bool {
        &&& record_open(self.serial_stream(), t)
        &&& (self.has_memory() ==> record_open(self.memory_stream(), t))
        &&& (!self.has_memory() ==> self.memory_stream() == Seq::<Mark>::empty())
    }

    pub fn new() -> (r: Sinks)
        ensures
            r.wf(),
            r.spec_serial() == Seq::<u8>::empty(),
            !r.has_memory(),
            r.serial_stream() == Seq::<Mark>::empty(),
            r.memory_stream() == Seq::<Mark>::empty(),
    {
        Sinks {
            serial: serial::Sink::new(),
            memory: None,
            serial_marks: Ghost(Seq::empty()),
            memory_marks: Ghost(Seq::empty()),
        }
    }

    /// Applies `op` to the console, then to the scrollback if it is attached; each
    /// active sink's stream gains the step, tagged with transaction `t`.
    pub fn foreach_mut(&mut self, op: &SinkOp, Ghost(t): Ghost<nat>)
        requires
            old(self).wf(),
        ensures
            final(self).wf(),
            final(self).spec_serial() == old(self).spec_serial() + serial_text(*op),
            final(self).has_memory() == old(self).has_memory(),
            old(self).has_memory() ==> memory_step(
                old(self).spec_memory(),
                final(self).spec_memory(),
                *op,
            ),
            final(self).serial_stream() == old(self).serial_stream().push(mark_of(*op, t)),
            old(self).has_memory() ==> final(self).memory_stream() == old(
                self,
            ).memory_stream().push(mark_of(*op, t)),
            !old(self).has_memory() ==> final(self).memory_stream() == old(self).memory_stream(),
    {
        match op {
            SinkOp::Start { timestamp, level, thread, source } => {
                self.serial.start(*timestamp, *level, *thread, source);
                match &mut self.memory {
                    Some(m) => m.start(*timestamp, *level, source),
                    None => {},
                }
            },
            SinkOp::Write(s) => {
                self.serial.write(s);
                match &mut self.memory {
                    Some(m) => m.write(s),
                    None => {},
                }
            },
            SinkOp::End => {
                self.serial.end();
                match &mut self.memory {
                    Some(m) => m.end(),
                    None => {},
                }
            },
        }
        proof {
            self.serial_marks@ = self.serial_marks@.push(mark_of(*op, t));
            if self.memory is Some {
                self.memory_marks@ = self.memory_marks@.push(mark_of(*op, t));
            }
        }
    }

    /// Attaches a scrollback sink unless one is attached already.
    pub fn attach_memory(&mut self)
        requires
            old(self).wf(),
            old(self).all_closed(),
        ensures
            final(self).wf(),
            final(self).all_closed(),
            final(self).has_memory(),
            final(self).spec_serial() == old(self).spec_serial(),
            final(self).serial_stream() == old(self).serial_stream(),
            old(self).has_memory() ==> final(self).spec_memory() == old(self).spec_memory(),
            old(self).has_memory() ==> final(self).memory_stream() == old(self).memory_stream(),
            !old(self).has_memory() ==> final(self).memory_stream() == Seq::<Mark>::empty(),
            !old(self).has_memory() ==> final(self).spec_memory() == Seq::<memory::LogMessage>::empty(),
    {
        if self.memory.is_none() {
            self.memory = Some(memory::Sink::new());
        }
    }

    /// Hands the console bytes collected so far to the caller.
    pub fn take_console_output(&mut self) -> (r: Vec<u8>)
        requires
            old(self).wf(),
        ensures
            final(self).wf(),
            r@ == old(self).spec_serial(),
            final(self).spec_serial() == Seq::<u8>::empty(),
            final(self).has_memory() == old(self).has_memory(),
            final(self).spec_memory() == old(self).spec_memory(),
            final(self).serial_stream() == old(self).serial_stream(),
            final(self).memory_stream() == old(self).memory_stream(),
    {
        self.serial.take_output()
    }

    /// The scrollback sink, if attached.
    pub fn memory(&self) -> (r: Option<&memory::Sink>)
        requires
            self.wf(),
        ensures
            r is Some == self.has_memory(),
            r matches Some(m) ==> m.wf() && m.spec_lines() == self.spec_memory(),
    {
        match &self.memory {
            Some(m) => Some(m),
            None => None,
        }
    }
}

/// Token of interrupts suspended on one CPU, holding whether they were enabled before.
pub struct HeldInterrupts {
    cpu: usize,
    was_enabled: bool,
}

impl HeldInterrupts {
    pub closed spec fn spec_cpu(&self) -> nat {
        self.cpu as nat
    }

    pub closed spec fn spec_was_enabled(&self) -> bool {
        self.was_enabled
    }
}

/// The logging core's shared state: the sink set behind its lock, and the interrupt
/// flag of every CPU. A transaction takes the sinks out while it holds the lock.
pub struct LogSystem {
    sinks: Option<Sinks>,
    holder: Option<usize>,
    irq_enabled: Vec<bool>,
    txn: Ghost<nat>,
    trace: Ghost<Seq<SyncEvent>>,
}

impl LogSystem {
    pub closed spec fn spec_cpus(&self) -> nat {
        self.irq_enabled@.len()
    }

    pub closed spec fn spec_irq_enabled(&self, cpu: nat) -> bool {
        self.irq_enabled@[cpu as int]
    }

    /// The CPU holding the sink-set lock, if any.
    pub closed spec fn spec_holder(&self) -> Option<nat> {
        match self.holder {
            Some(c) => Some(c as nat),
            None => None,
        }
    }

    /// The sinks, while nobody holds the lock.
    pub closed spec fn spec_sinks(&self) -> Sinks {
        self.sinks->0
    }

    /// Transaction id of the latest lock acquisition.
    pub closed spec fn spec_txn(&self) -> nat {
        self.txn@
    }

    /// Every lock and interrupt step taken so far, in order.
    pub closed spec fn spec_trace(&self) -> Seq<SyncEvent> {
        self.trace@
    }

    pub closed spec fn wf(&self) -> bool {
        &&& (self.sinks is Some <==> self.holder is None)
        &&& (self.holder matches Some(c) ==> c < self.irq_enabled@.len() && !self.irq_enabled@[c as int])
        &&& (self.sinks matches Some(s) ==> s.wf() && s.all_closed() && s.all_ordered(self.txn@))
    }

    /// Between transactions, every sink's stream consists of whole records of one
    /// transaction each, in the order the transactions took the lock.
    pub open spec fn records_partition(&self) -> bool {
        self.spec_holder() is None ==> {
            &&& self.spec_sinks().all_closed()
            &&& self.spec_sinks().all_ordered(self.spec_txn())
        }
    }

    /// Interrupts are off on the CPU that holds the lock.
    pub open spec fn holder_masked(&self) -> bool {
        self.spec_holder() matches Some(c) ==> c < self.spec_cpus() && !self.spec_irq_enabled(c)
    }

    /// Every CPU but `cpu` has the interrupt flag it has in `other` (all of them when
    /// `cpu` is no CPU).
    pub open spec fn others_unchanged(&self, other: &LogSystem, cpu: nat) -> bool {
        &&& self.spec_cpus() == other.spec_cpus()
        &&& forall|c: nat| c < self.spec_cpus() && c != cpu ==> #[trigger] self.spec_irq_enabled(c)
            == other.spec_irq_enabled(c)
    }

    /// A system of `cpus` CPUs with interrupts enabled, and only the console attached.
    pub fn new(cpus: usize) -> (r: LogSystem)
        ensures
            r.wf(),
            r.spec_cpus() == cpus,
            forall|c: nat| c < cpus ==> #[trigger] r.spec_irq_enabled(c),
            r.spec_holder() is None,
            r.spec_sinks().spec_serial() == Seq::<u8>::empty(),
            !r.spec_sinks().has_memory(),
            r.spec_trace() == Seq::<SyncEvent>::empty(),
    {
        let mut irq: Vec<bool> = Vec::new();
        let mut i: usize = 0;
        while i < cpus
            invariant
                i <= cpus,
                irq@.len() == i,
                forall|c: int| 0 <= c < i ==> #[trigger] irq@[c],
            decreases cpus - i,
        {
            irq.push(true);
            i = i + 1;
        }
        let sinks = Sinks::new();
        LogSystem {
            sinks: Some(sinks),
            holder: None,
            irq_enabled: irq,
            txn: Ghost(0),
            trace: Ghost(Seq::empty()),
        }
    }

    pub fn cpus(&self) -> (r: usize)
        ensures
            r == self.spec_cpus(),
    {
        self.irq_enabled.len()
    }

    pub fn interrupts_enabled(&self, cpu: usize) -> (r: bool)
        requires
            cpu < self.spec_cpus(),
        ensures
            r == self.spec_irq_enabled(cpu as nat),
    {
        self.irq_enabled[cpu]
    }

    /// The CPU holding the sink-set lock, if any.
    pub fn holder(&self) -> (r: Option<usize>)
        ensures
            r matches Some(c) ==> self.spec_holder() == Some(c as nat),
            r is None ==> self.spec_holder() is None,
    {
        self.holder
    }

    /// The sinks, unless a transaction holds them.
    pub fn sinks(&self) -> (r: Option<&Sinks>)
        requires
            self.wf(),
        ensures
            r is Some == (self.spec_holder() is None),
            r matches Some(s) ==> *s == self.spec_sinks() && s.wf(),
    {
        match &self.sinks {
            Some(s) => Some(s),
            None => None,
        }
    }

    /// Takes the console bytes collected so far; nothing while a transaction holds the
    /// sinks.
    pub fn take_console_output(&mut self) -> (r: Option<Vec<u8>>)
        requires
            old(self).wf(),
        ensures
            final(self).wf(),
            final(self).spec_holder() == old(self).spec_holder(),
            final(self).spec_trace() == old(self).spec_trace(),
            final(self).spec_txn() == old(self).spec_txn(),
            final(self).others_unchanged(old(self), old(self).spec_cpus()),
            old(self).spec_holder() is Some ==> r is None && *final(self) == *old(self),
            old(self).spec_holder() is None ==> {
                let (was, now) = (old(self).spec_sinks(), final(self).spec_sinks());
                &&& r matches Some(v) && v@ == was.spec_serial()
                &&& now.spec_serial() == Seq::<u8>::empty()
                &&& now.has_memory() == was.has_memory()
                &&& now.spec_memory() == was.spec_memory()
                &&& now.serial_stream() == was.serial_stream()
                &&& now.memory_stream() == was.memory_stream()
            },
    {
        match &mut self.sinks {
            Some(s) => Some(s.take_console_output()),
            None => None,
        }
    }

    /// Suspends interrupts on `cpu`.
    pub fn hold_interrupts(&mut self, cpu: usize) -> (h: HeldInterrupts)
        requires
            old(self).wf(),
            cpu < old(self).spec_cpus(),
        ensures
            final(self).wf(),
            h.spec_cpu() == cpu,
            h.spec_was_enabled() == old(self).spec_irq_enabled(cpu as nat),
            !final(self).spec_irq_enabled(cpu as nat),
            final(self).others_unchanged(old(self), cpu as nat),
            final(self).spec_holder() == old(self).spec_holder(),
            final(self).spec_sinks() == old(self).spec_sinks(),
            final(self).spec_txn() == old(self).spec_txn(),
            final(self).spec_trace() == old(self).spec_trace().push(
                SyncEvent::InterruptsSuspended(cpu as nat),
            ),
    {
        let was_enabled = self.irq_enabled[cpu];
        self.irq_enabled.set(cpu, false);
        proof {
            self.trace@ = self.trace@.push(SyncEvent::InterruptsSuspended(cpu as nat));
        }
        HeldInterrupts { cpu, was_enabled }
    }

    /// Restores the interrupt flag saved in `h`. The CPU must not hold the lock any
    /// more: an interrupt taken while it did could spin on that lock forever.
    pub fn release_interrupts(&mut self, h: HeldInterrupts)
        requires
            old(self).wf(),
            h.spec_cpu() < old(self).spec_cpus(),
            old(self).spec_holder() != Some(h.spec_cpu()),
        ensures
            final(self).wf(),
            final(self).spec_irq_enabled(h.spec_cpu()) == h.spec_was_enabled(),
            final(self).others_unchanged(old(self), h.spec_cpu()),
            final(self).spec_holder() == old(self).spec_holder(),
            final(self).spec_sinks() == old(self).spec_sinks(),
            final(self).spec_txn() == old(self).spec_txn(),
            final(self).spec_trace() == old(self).spec_trace().push(
                SyncEvent::InterruptsRestored(h.spec_cpu()),
            ),
    {
        self.irq_enabled.set(h.cpu, h.was_enabled);
        proof {
            self.trace@ = self.trace@.push(SyncEvent::InterruptsRestored(h.cpu as nat));
        }
    }

    /// Takes the sink-set lock for `cpu`, which has interrupts suspended, and hands out
    /// the sinks; `None` while another CPU holds it.
    pub fn try_lock(&mut self, cpu: usize) -> (r: Option<Sinks>)
        requires
            old(self).wf(),
            cpu < old(self).spec_cpus(),
            !old(self).spec_irq_enabled(cpu as nat),
            old(self).spec_holder() != Some(cpu as nat),
        ensures
            final(self).wf(),
            final(self).others_unchanged(old(self), old(self).spec_cpus()),
            old(self).spec_holder() is Some ==> r is None && *final(self) == *old(self),
            old(self).spec_holder() is None ==> {
                &&& r == Some(old(self).spec_sinks())
                &&& old(self).spec_sinks().wf()
                &&& old(self).spec_sinks().all_closed()
                &&& old(self).spec_sinks().all_ordered(old(self).spec_txn())
                &&& final(self).spec_holder() == Some(cpu as nat)
                &&& final(self).spec_txn() == old(self).spec_txn() + 1
                &&& final(self).spec_trace() == old(self).spec_trace().push(
                    SyncEvent::LockAcquired(cpu as nat),
                )
            },
    {
        if self.holder.is_some() {
            return None;
        }
        let s = self.sinks.take();
        self.holder = Some(cpu);
        proof {
            self.txn@ = self.txn@ + 1;
            self.trace@ = self.trace@.push(SyncEvent::LockAcquired(cpu as nat));
        }
        s
    }

    /// Puts the sinks back and releases the lock held by `cpu`.
    pub fn unlock(&mut self, cpu: usize, sinks: Sinks)
        requires
            old(self).wf(),
            old(self).spec_holder() == Some(cpu as nat),
            sinks.wf(),
            sinks.all_closed(),
            sinks.all_ordered(old(self).spec_txn()),
        ensures
            final(self).wf(),
            final(self).others_unchanged(old(self), old(self).spec_cpus()),
            final(self).spec_irq_enabled(cpu as nat) == old(self).spec_irq_enabled(cpu as nat),
            final(self).spec_holder() is None,
            final(self).spec_sinks() == sinks,
            final(self).spec_txn() == old(self).spec_txn(),
            final(self).spec_trace() == old(self).spec_trace().push(
                SyncEvent::LockReleased(cpu as nat),
            ),
    {
        self.sinks = Some(sinks);
        self.holder = None;
        proof {
            self.trace@ = self.trace@.push(SyncEvent::LockReleased(cpu as nat));
        }
    }
}

/// The sink-set lock, held by one CPU whose interrupts it suspended, before that CPU's
/// record starts. The record's timestamp is read while this is held.
pub struct LockedSinks {
    sinks: Sinks,
    irq: HeldInterrupts,
    txn: Ghost<nat>,
}

impl LockedSinks {
    pub closed spec fn spec_sinks(&self) -> Sinks {
        self.sinks
    }

    pub closed spec fn spec_cpu(&self) -> nat {
        self.irq.spec_cpu()
    }

    /// Whether interrupts were enabled before the lock suspended them.
    pub closed spec fn spec_was_enabled(&self) -> bool {
        self.irq.spec_was_enabled()
    }

    pub closed spec fn spec_txn(&self) -> nat {
        self.txn@
    }

    pub closed spec fn wf(&self) -> bool {
        &&& self.sinks.wf()
        &&& self.sinks.all_closed()
        &&& self.txn@ > 0
        &&& self.sinks.all_ordered((self.txn@ - 1) as nat)
    }

    /// Whether `sys` is the lock this holds.
    pub open spec fn holds(&self, sys: &LogSystem) -> bool {
        &&& sys.spec_holder() == Some(self.spec_cpu())
        &&& sys.spec_txn() == self.spec_txn()
        &&& self.spec_cpu() < sys.spec_cpus()
    }
}

impl LogSystem {
    /// Suspends interrupts on `cpu`, then takes the sink-set lock for it. `None`, with
    /// nothing changed, while another CPU holds the lock; the caller retries.
    pub fn lock_sinks(&mut self, cpu: usize) -> (r: Option<LockedSinks>)
        requires
            old(self).wf(),
            cpu < old(self).spec_cpus(),
            old(self).spec_holder() != Some(cpu as nat),
        ensures
            final(self).wf(),
            old(self).spec_holder() is Some ==> r is None && *final(self) == *old(self),
            old(self).spec_holder() is None ==> r is Some,
            r matches Some(l) ==> {
                &&& l.wf()
                &&& l.holds(&*final(self))
                &&& l.spec_cpu() == cpu
                &&& l.spec_sinks() == old(self).spec_sinks()
                &&& l.spec_was_enabled() == old(self).spec_irq_enabled(cpu as nat)
                &&& !final(self).spec_irq_enabled(cpu as nat)
                &&& final(self).others_unchanged(old(self), cpu as nat)
                &&& final(self).spec_trace() == old(self).spec_trace().push(
                    SyncEvent::InterruptsSuspended(cpu as nat),
                ).push(SyncEvent::LockAcquired(cpu as nat))
            },
    {
        if self.holder.is_some() {
            return None;
        }
        let irq = self.hold_interrupts(cpu);
        let locked = self.try_lock(cpu);
        match locked {
            Some(sinks) => Some(LockedSinks { sinks, irq, txn: Ghost(self.txn@) }),
            None => None,
        }
    }
}

/// One open log record: it holds the sink-set lock, with the sinks, and the token of
/// the interrupts it suspended. `finish` releases the lock before it restores
/// interrupts.
pub struct LoggingFormatter {
    sinks: Sinks,
    irq: HeldInterrupts,
    txn: Ghost<nat>,
}

impl LoggingFormatter {
    pub closed spec fn spec_sinks(&self) -> Sinks {
        self.sinks
    }

    pub closed spec fn spec_cpu(&self) -> nat {
        self.irq.spec_cpu()
    }

    /// Whether interrupts were enabled before this record suspended them.
    pub closed spec fn spec_was_enabled(&self) -> bool {
        self.irq.spec_was_enabled()
    }

    pub closed spec fn spec_txn(&self) -> nat {
        self.txn@
    }

    pub closed spec fn wf(&self) -> bool {
        &&& self.sinks.wf()
        &&& self.sinks.all_open(self.txn@)
        &&& self.sinks.all_ordered(self.txn@)
    }

    /// Whether `sys` is the lock this record holds.
    pub open spec fn holds(&self, sys: &LogSystem) -> bool {
        &&& sys.spec_holder() == Some(self.spec_cpu())
        &&& sys.spec_txn() == self.spec_txn()
        &&& self.spec_cpu() < sys.spec_cpus()
    }

    /// Starts a record under the held lock on every active sink; `timestamp` is read
    /// after the lock was taken.
    pub fn new(
        locked: LockedSinks,
        level: Level,
        modname: &'static str,
        timestamp: u64,
        thread: u64,
    ) -> (f: LoggingFormatter)
        requires
            locked.wf(),
        ensures
            f.wf(),
            f.spec_cpu() == locked.spec_cpu(),
            f.spec_was_enabled() == locked.spec_was_enabled(),
            f.spec_txn() == locked.spec_txn(),
            ({
                let op = (SinkOp::Start { timestamp, level, thread, source: modname });
                let (was, now) = (locked.spec_sinks(), f.spec_sinks());
                &&& now.spec_serial() == was.spec_serial() + serial_text(op)
                &&& now.has_memory() == was.has_memory()
                &&& (was.has_memory() ==> memory_step(was.spec_memory(), now.spec_memory(), op))
            }),
    {
        let LockedSinks { mut sinks, irq, txn } = locked;
        let ghost t = txn@;
        let op = SinkOp::Start { timestamp, level, thread, source: modname };
        let ghost before = sinks;
        sinks.foreach_mut(&op, txn);
        proof {
            lemma_stream_push(before.serial_stream(), Mark::Begin(t));
            lemma_stream_push(before.memory_stream(), Mark::Begin(t));
            lemma_push_ordered(before.serial_stream(), Mark::Begin(t), (t - 1) as nat, t);
            if before.has_memory() {
                lemma_push_ordered(before.memory_stream(), Mark::Begin(t), (t - 1) as nat, t);
            }
        }
        LoggingFormatter { sinks, irq, txn }
    }

    /// Appends a text fragment to the record on every active sink.
    pub fn write_str(&mut self, s: &str)
        requires
            old(self).wf(),
        ensures
            final(self).wf(),
            final(self).spec_cpu() == old(self).spec_cpu(),
            final(self).spec_was_enabled() == old(self).spec_was_enabled(),
            final(self).spec_txn() == old(self).spec_txn(),
            final(self).spec_sinks().spec_serial() == old(self).spec_sinks().spec_serial()
                + s.spec_bytes(),
            final(self).spec_sinks().has_memory() == old(self).spec_sinks().has_memory(),
            old(self).spec_sinks().has_memory() ==> memory::written(
                old(self).spec_sinks().spec_memory(),
                final(self).spec_sinks().spec_memory(),
                s.spec_bytes(),
            ),
    {
        let op = SinkOp::Write(s);
        let ghost before = self.sinks;
        self.sinks.foreach_mut(&op, self.txn);
        proof {
            lemma_stream_push(before.serial_stream(), Mark::Text(self.txn@));
            lemma_stream_push(before.memory_stream(), Mark::Text(self.txn@));
            lemma_push_ordered(before.serial_stream(), Mark::Text(self.txn@), self.txn@, self.txn@);
            if before.has_memory() {
                lemma_push_ordered(before.memory_stream(), Mark::Text(self.txn@), self.txn@, self.txn@);
            }
        }
    }

    /// Closes the record: ends it on every active sink, releases the sink-set lock and
    /// only then restores the interrupts it suspended.
    pub fn finish(self, sys: &mut LogSystem)
        requires
            old(sys).wf(),
            self.wf(),
            self.holds(&*old(sys)),
        ensures
            final(sys).wf(),
            final(sys).spec_holder() is None,
            final(sys).spec_irq_enabled(self.spec_cpu()) == self.spec_was_enabled(),
            final(sys).others_unchanged(old(sys), self.spec_cpu()),
            final(sys).spec_txn() == old(sys).spec_txn(),
            final(sys).spec_trace() == old(sys).spec_trace().push(
                SyncEvent::LockReleased(self.spec_cpu()),
            ).push(SyncEvent::InterruptsRestored(self.spec_cpu())),
            final(sys).spec_sinks().spec_serial() == self.spec_sinks().spec_serial()
                + serial::end_text(),
            final(sys).spec_sinks().has_memory() == self.spec_sinks().has_memory(),
            final(sys).spec_sinks().spec_memory() == self.spec_sinks().spec_memory(),
    {
        let LoggingFormatter { mut sinks, irq, txn } = self;
        let ghost before = sinks;
        sinks.foreach_mut(&SinkOp::End, txn);
        proof {
            lemma_stream_push(before.serial_stream(), Mark::End(txn@));
            lemma_stream_push(before.memory_stream(), Mark::End(txn@));
            lemma_push_ordered(before.serial_stream(), Mark::End(txn@), txn@, txn@);
            if before.has_memory() {
                lemma_push_ordered(before.memory_stream(), Mark::End(txn@), txn@, txn@);
            }
        }
        sys.unlock(irq.cpu, sinks);
        sys.release_interrupts(irq);
    }
}

/// Starts a record for `modname` at `level` under the held lock. The filter table
/// must let the record through: callers consult `enabled` before they take the lock.
pub fn getstream(
    locked: LockedSinks,
    level: Level,
    modname: &'static str,
    table: &[FilterEntry],
    timestamp: u64,
    thread: u64,
) -> (f: LoggingFormatter)
    requires
        locked.wf(),
        spec_enabled(level, modname.spec_bytes(), table@),
    ensures
        f.wf(),
        f.spec_cpu() == locked.spec_cpu(),
        f.spec_was_enabled() == locked.spec_was_enabled(),
        f.spec_txn() == locked.spec_txn(),
        f.spec_sinks().spec_serial() == locked.spec_sinks().spec_serial() + serial_text(
            (SinkOp::Start { timestamp, level, thread, source: modname }),
        ),
        f.spec_sinks().has_memory() == locked.spec_sinks().has_memory(),
        locked.spec_sinks().has_memory() ==> memory_step(
            locked.spec_sinks().spec_memory(),
            f.spec_sinks().spec_memory(),
            (SinkOp::Start { timestamp, level, thread, source: modname }),
        ),
{
    LoggingFormatter::new(locked, level, modname, timestamp, thread)
}

/// Attaches the scrollback sink, once: suspends interrupts on `cpu`, takes the lock,
/// attaches the sink unless one is there, releases the lock, then restores
/// interrupts. `false`, with nothing changed, while another CPU holds the lock.
pub fn start_memory_sink(sys: &mut LogSystem, cpu: usize) -> (r: bool)
    requires
        old(sys).wf(),
        cpu < old(sys).spec_cpus(),
        old(sys).spec_holder() != Some(cpu as nat),
    ensures
        final(sys).wf(),
        r == (old(sys).spec_holder() is None),
        !r ==> *final(sys) == *old(sys),
        r ==> {
            let (was, now) = (old(sys).spec_sinks(), final(sys).spec_sinks());
            &&& final(sys).spec_holder() is None
            &&& now.has_memory()
            &&& now.spec_serial() == was.spec_serial()
            &&& (was.has_memory() ==> now.spec_memory() == was.spec_memory())
            &&& (!was.has_memory() ==> now.spec_memory() == Seq::<memory::LogMessage>::empty())
            &&& final(sys).spec_irq_enabled(cpu as nat) == old(sys).spec_irq_enabled(cpu as nat)
            &&& final(sys).others_unchanged(old(sys), cpu as nat)
            &&& final(sys).spec_trace() == old(sys).spec_trace().push(
                SyncEvent::InterruptsSuspended(cpu as nat),
            ).push(SyncEvent::LockAcquired(cpu as nat)).push(
                SyncEvent::LockReleased(cpu as nat),
            ).push(SyncEvent::InterruptsRestored(cpu as nat))
        },
{
    if sys.holder.is_some() {
        return false;
    }
    let irq = sys.hold_interrupts(cpu);
    let locked = sys.try_lock(cpu);
    let mut sinks = match locked {
        Some(s) => s,
        None => {
            return false;
        },
    };
    sinks.attach_memory();
    sys.unlock(cpu, sinks);
    sys.release_interrupts(irq);
    true
}

/// Every state of the logging core reached through its operations keeps interrupts off
/// on the lock holder, and between transactions leaves every sink's stream as whole,
/// non-interleaved records, each of one transaction, in the order the transactions took
/// the lock.
pub proof fn lemma_wf_partitions_records(sys: &LogSystem)
    requires
        sys.wf(),
    ensures
        sys.records_partition(),
        sys.holder_masked(),
{
}

} // verus!
