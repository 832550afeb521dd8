//! Bounded FIFO experience-replay memory with uniform random sampling.

use vstd::prelude::*;
use crate::rng::random_below;

verus! {

/// The mathematical value of one stored transition.
pub ghost struct RecordV {
    pub state: Seq<i64>,
    pub action: int,
    pub reward: int,
    pub next_state: Seq<i64>,
    pub done: bool,
}

/// One unit of experience: the transition the agent lived through in one
/// environment step. Immutable once stored.
#[allow(non_camel_case_types)]
pub struct Memory_Record {
    pub state: Vec<i64>,
    pub action: usize,
    pub reward: i64,
    pub next_state: Vec<i64>,
    pub done: bool,
}

impl View for Memory_Record {
    type V = RecordV;

    open spec fn view(&self) -> RecordV {
        RecordV {
            state: self.state@,
            action: self.action as int,
            reward: self.reward as int,
            next_state: self.next_state@,
            done: self.done,
        }
    }
}

/// Copy a vector of scalars element by element.
pub(crate) fn copy_scalars(v: &Vec<i64>) -> (r: Vec<i64>)
    ensures
        r@ == v@,
{
    let mut r: Vec<i64> = Vec::new();
    let mut i: usize = 0;
    while i < v.len()
        invariant
            i <= v.len(),
            r@ == v@.subrange(0, i as int),
        decreases v.len() - i,
    {
        r.push(v[i]);
        i = i + 1;
    }
    proof {
        assert(r@ =~= v@);
    }
    r
}

impl Memory_Record {
    /// An owned copy holding the same transition.
    pub fn duplicate(&self) -> (r: Memory_Record)
        ensures
            r@ == self@,
    {
        Memory_Record {
            state: copy_scalars(&self.state),
            action: self.action,
            reward: self.reward,
            next_state: copy_scalars(&self.next_state),
            done: self.done,
        }
    }
}

/// What one `store_experience` call does to the stored sequence: append the
/// new record, then evict the single oldest one if the bound is exceeded.
pub open spec fn store_step(buf: Seq<RecordV>, r: RecordV, max: nat) -> Seq<RecordV> {
    let grown = buf.push(r);
    if grown.len() > max {
        grown.subrange(1, grown.len() as int)
    } else {
        grown
    }
}

/// The memory contents after storing a whole sequence of records, oldest
/// first, into a buffer.
pub open spec fn store_all(buf: Seq<RecordV>, rs: Seq<RecordV>, max: nat) -> Seq<RecordV>
    decreases rs.len(),
{
    if rs.len() == 0 {
        buf
    } else {
        store_all(store_step(buf, rs[0], max), rs.subrange(1, rs.len() as int), max)
    }
}

/// The mathematical values of a sequence of records.
pub open spec fn records_view(rs: Seq<Memory_Record>) -> Seq<RecordV> {
    Seq::new(rs.len(), |i: int| rs[i]@)
}

/// Whether a sequence of stored records holds the given one.
pub open spec fn contains_record(mem: Seq<RecordV>, rec: RecordV) -> bool {
    exists|j: int| 0 <= j < mem.len() && mem[j] == rec
}

/// Bounded FIFO collection of transitions.
pub struct DQNMemory {
    pub replay_buffer: Vec<Memory_Record>,
    pub max_size: usize,
}

impl View for DQNMemory {
    type V = Seq<RecordV>;

    open spec fn view(&self) -> Seq<RecordV> {
        Seq::new(self.replay_buffer.len() as nat, |i: int| self.replay_buffer[i]@)
    }
}

impl DQNMemory {
    /// The memory never holds more records than its capacity.
    pub open spec fn wf(&self) -> bool {
        self@.len() <= self.max_size
    }

    /// An empty memory with the given capacity.
    pub fn new(max_size: usize) -> (r: DQNMemory)
        ensures
            r@ == Seq::<RecordV>::empty(),
            r.max_size == max_size,
            r.wf(),
    {
        let r = DQNMemory { replay_buffer: Vec::new(), max_size };
        proof {
            assert(r@ =~= Seq::<RecordV>::empty());
        }
        r
    }

    /// Current record count.
    pub fn len(&self) -> (r: usize)
        ensures
            r == self@.len(),
    {
        self.replay_buffer.len()
    }

    /// Append a transition; if the capacity is now exceeded, evict the single
    /// oldest record. The capacity bound is re-established by every call.
    pub fn store_experience(
        &mut self,
        state: Vec<i64>,
        action: usize,
        reward: i64,
        next_state: Vec<i64>,
        done: bool,
    )
        requires
            old(self).wf(),
        ensures
            final(self)@ == store_step(
                old(self)@,
                RecordV {
                    state: state@,
                    action: action as int,
                    reward: reward as int,
                    next_state: next_state@,
                    done,
                },
                old(self).max_size as nat,
            ),
            final(self).max_size == old(self).max_size,
            final(self).wf(),
    {
        let ghost pre = self@;
        let record = Memory_Record { state, action, reward, next_state, done };
        self.replay_buffer.push(record);
        proof {
            assert(self@ =~= pre.push(
                RecordV {
                    state: record.state@,
                    action: record.action as int,
                    reward: record.reward as int,
                    next_state: record.next_state@,
                    done: record.done,
                },
            ));
        }
        let ghost grown = self@;
        if self.replay_buffer.len() > self.max_size {
            self.replay_buffer.remove(0);
            proof {
                assert(self@ =~= grown.subrange(1, grown.len() as int));
            }
        }
    }

    /// Draw `batch_size` records uniformly at random, with replacement:
    /// duplicates within one batch are possible and accepted. Every record
    /// handed out is one the memory holds.
    pub fn sample(&self, batch_size: usize) -> (r: Vec<Memory_Record>)
        requires
            self@.len() >= 1,
        ensures
            r@.len() == batch_size,
            forall|i: int| 0 <= i < r@.len() ==> contains_record(self@, #[trigger] r@[i]@),
    {
        let mut r: Vec<Memory_Record> = Vec::new();
        let mut k: usize = 0;
        while k < batch_size
            invariant
                k <= batch_size,
                r@.len() == k,
                self@.len() >= 1,
                self@.len() == self.replay_buffer.len(),
                forall|i: int| 0 <= i < r@.len() ==> contains_record(self@, #[trigger] r@[i]@),
            decreases batch_size - k,
        {
            let idx = random_below(self.replay_buffer.len() as u64) as usize;
            r.push(self.replay_buffer[idx].duplicate());
            proof {
                assert(0 <= idx < self@.len() && self@[idx as int] == r@[k as int]@);
            }
            k = k + 1;
        }
        r
    }
}

/// Bounded memory: starting from any buffer within its capacity, a sequence
/// of stores leaves at most `max` records, and they are exactly the most
/// recent `max` of all records ever seen, in their original relative order.
pub proof fn lemma_store_all_bounded(buf: Seq<RecordV>, rs: Seq<RecordV>, max: nat)
    requires
        buf.len() <= max,
    ensures
        store_all(buf, rs, max) == {
            let seen = buf + rs;
            if seen.len() > max {
                seen.subrange(seen.len() - max, seen.len() as int)
            } else {
                seen
            }
        },
        store_all(buf, rs, max).len() <= max,
    decreases rs.len(),
{
    let seen = buf + rs;
    if rs.len() == 0 {
        assert(seen =~= buf);
        if seen.len() > max {
            assert(seen.subrange(seen.len() - max, seen.len() as int) =~= buf);
        }
    } else {
        let stepped = store_step(buf, rs[0], max);
        assert(stepped.len() <= max);
        lemma_store_all_bounded(stepped, rs.subrange(1, rs.len() as int), max);
        let seen_tail = stepped + rs.subrange(1, rs.len() as int);
        if buf.len() + 1 > max {
            assert(seen_tail =~= seen.subrange(1, seen.len() as int));
            if seen_tail.len() > max {
                assert(seen_tail.subrange(seen_tail.len() - max, seen_tail.len() as int)
                    =~= seen.subrange(seen.len() - max, seen.len() as int));
            } else {
                if seen.len() > max {
                    assert(seen.subrange(seen.len() - max, seen.len() as int) =~= seen_tail);
                }
            }
        } else {
            assert(seen_tail =~= seen);
        }
    }
}

/// The memory as shipped: every run starts empty, so after any sequence of
/// stores the memory holds the most recent `max` records in order.
pub proof fn lemma_memory_bounded(rs: Seq<RecordV>, max: nat)
    ensures
        store_all(Seq::<RecordV>::empty(), rs, max).len() <= max,
        rs.len() > max ==> store_all(Seq::<RecordV>::empty(), rs, max)
            == rs.subrange(rs.len() - max, rs.len() as int),
        rs.len() <= max ==> store_all(Seq::<RecordV>::empty(), rs, max) == rs,
{
    lemma_store_all_bounded(Seq::<RecordV>::empty(), rs, max);
    assert(Seq::<RecordV>::empty() + rs =~= rs);
}

} // verus!
