use vstd::prelude::*;
use vstd::string::StringSliceAdditionalSpecFns;
use crate::level::Level;
use crate::ring::{lemma_pushed_all_keeps_newest, newest, pushed, pushed_all, RingBuf};

verus! {

/// Bytes of text that one scrollback record can hold; text beyond is dropped.
pub const LOG_DATA_LEN: usize = 160;

/// Number of records the scrollback keeps; older records are evicted.
pub const SCROLLBACK_LINES: usize = 256;

/// `old` extended by `s`, cut at `cap` bytes.
pub open spec fn truncated_append(old: Seq<u8>, s: Seq<u8>, cap: nat) -> Seq<u8> {
    let all = old + s;
    if all.len() <= cap {
        all
    } else {
        all.subrange(0, cap as int)
    }
}

/// `new` is `old` with one more record at the end, the oldest evicted when the
/// scrollback was full.
pub open spec fn opened(old: Seq<LogMessage>, new: Seq<LogMessage>) -> bool {
    &&& new.len() > 0
    &&& old.len() < SCROLLBACK_LINES ==> new.drop_last() == old
    &&& old.len() >= SCROLLBACK_LINES ==> new.drop_last() == old.drop_first()
}

/// Records after opening a new one with empty text: the oldest is evicted when
/// the scrollback was full.
pub open spec fn started(
    old: Seq<LogMessage>,
    new: Seq<LogMessage>,
    timestamp: u64,
    level: Level,
    source: &'static str,
) -> bool {
    &&& opened(old, new)
    &&& new.last().time == timestamp
    &&& new.last().level == level
    &&& new.last().source == source
    &&& new.last().data@ == Seq::<u8>::empty()
}

/// Records after appending `s` to the newest one, cut at its capacity; without a
/// record nothing changes.
pub open spec fn written(old: Seq<LogMessage>, new: Seq<LogMessage>, s: Seq<u8>) -> bool {
    if old.len() == 0 {
        new == old
    } else {
        &&& new.len() == old.len()
        &&& new.drop_last() == old.drop_last()
        &&& new.last().time == old.last().time
        &&& new.last().level == old.last().level
        &&& new.last().source == old.last().source
        &&& new.last().data@ == truncated_append(old.last().data@, s, LOG_DATA_LEN as nat)
    }
}

/// Text buffer of fixed capacity that silently drops what does not fit.
pub struct FixedString {
    bytes: Vec<u8>,
}

impl View for FixedString {
    type V = Seq<u8>;

    closed spec fn view(&self) -> Seq<u8> {
        self.bytes@
    }
}

impl FixedString {
    pub open spec fn wf(&self) -> bool {
        self@.len() <= LOG_DATA_LEN
    }

    pub fn new() -> (r: FixedString)
        ensures
            r@ == Seq::<u8>::empty(),
            r.wf(),
    {
        FixedString { bytes: Vec::new() }
    }

    /// Appends as much of `s` as fits in the remaining capacity.
    pub fn push_str(&mut self, s: &[u8])
        requires
            old(self).wf(),
        ensures
            final(self).wf(),
            final(self)@ == truncated_append(old(self)@, s@, LOG_DATA_LEN as nat),
    {
        let mut i: usize = 0;
        while i < s.len() && self.bytes.len() < LOG_DATA_LEN
            invariant
                i <= s@.len(),
                self.bytes@.len() <= LOG_DATA_LEN,
                self.bytes@ == old(self)@ + s@.subrange(0, i as int),
            decreases s@.len() - i,
        {
            self.bytes.push(s[i]);
            i = i + 1;
            assert(self.bytes@ =~= old(self)@ + s@.subrange(0, i as int));
        }
        assert(self@ =~= truncated_append(old(self)@, s@, LOG_DATA_LEN as nat));
    }

    pub fn as_bytes(&self) -> (r: &[u8])
        ensures
            r@ == self@,
    {
        self.bytes.as_slice()
    }
}

/// One scrollback record.
pub struct LogMessage {
    pub time: u64,
    pub level: Level,
    pub source: &'static str,
    pub data: FixedString,
}

/// The in-memory scrollback sink: a ring of the most recent records.
pub struct Sink {
    lines: RingBuf<LogMessage>,
}

impl Sink {
    pub closed spec fn spec_lines(&self) -> Seq<LogMessage> {
        self.lines@
    }

    pub closed spec fn wf(&self) -> bool {
        &&& self.lines.wf()
        &&& self.lines.spec_capacity() == SCROLLBACK_LINES
        &&& forall|i: int| 0 <= i < self.lines@.len() ==> (#[trigger] self.lines@[i]).data.wf()
    }

    pub fn new() -> (r: Sink)
        ensures
            r.wf(),
            r.spec_lines() == Seq::<LogMessage>::empty(),
    {
        Sink { lines: RingBuf::new(SCROLLBACK_LINES) }
    }

    /// Opens a new record with empty text, evicting the oldest one when the scrollback
    /// is full.
    pub fn start(&mut self, timestamp: u64, level: Level, source: &'static str)
        requires
            old(self).wf(),
        ensures
            final(self).wf(),
            started(old(self).spec_lines(), final(self).spec_lines(), timestamp, level, source),
    {
        let msg = LogMessage { time: timestamp, level, source, data: FixedString::new() };
        let _ = self.lines.push_back(msg);
        proof {
            assert(self.lines@.drop_last() =~= if old(self).lines@.len() < SCROLLBACK_LINES {
                old(self).lines@
            } else {
                old(self).lines@.drop_first()
            });
            assert forall|i: int| 0 <= i < self.lines@.len() implies (#[trigger] self.lines@[i]).data.wf() by {
                if i < self.lines@.len() - 1 {
                    if old(self).lines@.len() < SCROLLBACK_LINES {
                        assert(self.lines@[i] == old(self).lines@[i]);
                    } else {
                        assert(self.lines@[i] == old(self).lines@[i + 1]);
                    }
                }
            }
        }
    }

    /// Appends text to the newest record, dropping what does not fit; without a record
    /// nothing changes.
    pub fn write(&mut self, s: &str)
        requires
            old(self).wf(),
        ensures
            final(self).wf(),
            written(old(self).spec_lines(), final(self).spec_lines(), s.spec_bytes()),
    {
        if self.lines.len() == 0 {
            return;
        }
        let back = self.lines.back_mut();
        back.data.push_str(s.as_bytes());
        proof {
            assert(self.lines@.drop_last() =~= old(self).lines@.drop_last());
            assert forall|i: int| 0 <= i < self.lines@.len() implies (#[trigger] self.lines@[i]).data.wf() by {
                if i < self.lines@.len() - 1 {
                    assert(self.lines@[i] == old(self).lines@[i]);
                }
            }
        }
    }

    /// Records need no closing step.
    pub fn end(&mut self)
        ensures
            *final(self) == *old(self),
    {
    }

    pub fn line_count(&self) -> (r: usize)
        requires
            self.wf(),
        ensures
            r == self.spec_lines().len(),
            r <= SCROLLBACK_LINES,
    {
        self.lines.len()
    }

    /// The `i`-th oldest record.
    pub fn line(&self, i: usize) -> (r: &LogMessage)
        requires
            self.wf(),
            i < self.spec_lines().len(),
        ensures
            *r == self.spec_lines()[i as int],
            r.data@.len() <= LOG_DATA_LEN,
    {
        self.lines.get(i)
    }
}

/// The records opened along a run of scrollback states: the newest of each state after
/// the first.
pub open spec fn records_opened(states: Seq<Seq<LogMessage>>) -> Seq<LogMessage> {
    Seq::new((states.len() - 1) as nat, |i: int| states[i + 1].last())
}

proof fn lemma_states_are_pushes(states: Seq<Seq<LogMessage>>, k: int)
    requires
        states.len() > 0,
        states[0] == Seq::<LogMessage>::empty(),
        forall|i: int| 0 <= i < states.len() - 1 ==> opened(states[i], #[trigger] states[i + 1]),
        0 <= k < states.len(),
    ensures
        states[k] == pushed_all(records_opened(states).take(k), SCROLLBACK_LINES as nat),
        states[k].len() <= SCROLLBACK_LINES,
    decreases k,
{
    let recs = records_opened(states);
    if k == 0 {
        assert(recs.take(0) =~= Seq::<LogMessage>::empty());
    } else {
        lemma_states_are_pushes(states, k - 1);
        assert(recs.take(k).drop_last() =~= recs.take(k - 1));
        let j = k - 1;
        assert(opened(states[j], states[j + 1]));
        assert(states[k] =~= states[k].drop_last().push(states[k].last()));
        assert(states[k] == pushed(states[k - 1], recs[k - 1], SCROLLBACK_LINES as nat));
    }
}

/// Starting records one after another on an empty scrollback keeps exactly the newest
/// `SCROLLBACK_LINES` of them, oldest first: once more were started, it is full and its
/// oldest record is the `SCROLLBACK_LINES`-th most recent one started.
pub proof fn lemma_starts_keep_newest(states: Seq<Seq<LogMessage>>)
    requires
        states.len() > 0,
        states[0] == Seq::<LogMessage>::empty(),
        forall|i: int| 0 <= i < states.len() - 1 ==> opened(states[i], #[trigger] states[i + 1]),
    ensures
        states.last() == newest(records_opened(states), SCROLLBACK_LINES as nat),
        forall|i: int| 0 <= i < states.len() ==> #[trigger] states[i].len() <= SCROLLBACK_LINES,
        records_opened(states).len() > SCROLLBACK_LINES ==> {
            let recs = records_opened(states);
            &&& states.last().len() == SCROLLBACK_LINES
            &&& states.last()[0] == recs[recs.len() - SCROLLBACK_LINES]
        },
{
    let recs = records_opened(states);
    let n = states.len() - 1;
    lemma_states_are_pushes(states, n);
    assert(recs.take(n) =~= recs);
    lemma_pushed_all_keeps_newest(recs, SCROLLBACK_LINES as nat);
    assert(states.last() == states[n]);
    assert forall|i: int| 0 <= i < states.len() implies #[trigger] states[i].len() <= SCROLLBACK_LINES by {
        lemma_states_are_pushes(states, i);
    }
}

} // verus!
