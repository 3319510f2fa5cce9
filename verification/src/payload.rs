//! Readings buffered between deliveries, and the count of failed attempts.

use vstd::prelude::*;

verus! {

/// One sensor reading: what was measured, when, and the measurement taken
/// alongside it.
#[derive(Clone, Copy, Debug, PartialEq, Eq, Structural)]
pub struct Reading {
    pub value: u32,
    pub timestamp: u32,
    pub auxiliary: u32,
}

/// A push that found the payload full. It hands the reading back.
#[derive(Clone, Copy, Debug, PartialEq, Eq, Structural)]
pub struct CapacityError {
    pub rejected: Reading,
}

/// What a payload holds, as mathematics: the readings in the order they were
/// pushed, the bound on their number, and the timeouts since the last delivery.
#[verifier::ext_equal]
pub struct PayloadModel {
    pub readings: Seq<Reading>,
    pub capacity: nat,
    pub timeouts: nat,
}

impl PayloadModel {
    /// No readings, no timeouts.
    pub open spec fn empty(capacity: nat) -> PayloadModel {
        PayloadModel { readings: Seq::empty(), capacity, timeouts: 0 }
    }

    /// The readings fit the capacity.
    pub open spec fn wf(self) -> bool {
        self.readings.len() <= self.capacity
    }

    /// There is no room for another reading.
    pub open spec fn is_full(self) -> bool {
        self.readings.len() >= self.capacity
    }

    /// The payload after a push: the reading goes to the end if there is room,
    /// and nothing changes if there is none.
    pub open spec fn push(self, reading: Reading) -> PayloadModel {
        if self.is_full() {
            self
        } else {
            PayloadModel { readings: self.readings.push(reading), ..self }
        }
    }

    /// The payload after pushing `readings` one by one, first to last.
    pub open spec fn push_all(self, readings: Seq<Reading>) -> PayloadModel
        decreases readings.len(),
    {
        if readings.len() == 0 {
            self
        } else {
            self.push_all(readings.drop_last()).push(readings.last())
        }
    }

    /// The payload after a transmission that ran out of time: one more
    /// timeout, the readings kept for the next attempt.
    pub open spec fn timed_out(self) -> PayloadModel {
        PayloadModel { timeouts: self.timeouts + 1, ..self }
    }

    /// The payload after a confirmed transmission: nothing left to send and
    /// no timeouts on record.
    pub open spec fn delivered(self) -> PayloadModel {
        PayloadModel { readings: Seq::empty(), timeouts: 0, ..self }
    }
}

/// A bounded, ordered buffer of readings with a timeout counter.
pub struct Payload {
    readings: Vec<Reading>,
    capacity: usize,
    timeouts: u32,
}

impl View for Payload {
    type V = PayloadModel;

    closed spec fn view(&self) -> PayloadModel {
        PayloadModel {
            readings: self.readings@,
            capacity: self.capacity as nat,
            timeouts: self.timeouts as nat,
        }
    }
}

impl Payload {
    #[verifier::type_invariant]
    spec fn within_capacity(&self) -> bool {
        self.readings@.len() <= self.capacity
    }

    /// An empty payload that will take up to `capacity` readings.
    pub fn new(capacity: usize) -> (payload: Payload)
        ensures
            payload@ == PayloadModel::empty(capacity as nat),
    {
        Payload { readings: Vec::new(), capacity, timeouts: 0 }
    }

    /// The most readings the payload will hold.
    pub fn capacity(&self) -> (capacity: usize)
        ensures
            capacity == self@.capacity,
    {
        self.capacity
    }

    /// The number of readings held, never more than the capacity.
    pub fn len(&self) -> (len: usize)
        ensures
            len == self@.readings.len(),
            self@.wf(),
    {
        proof {
            use_type_invariant(self);
        }
        self.readings.len()
    }

    /// Whether no reading is held.
    pub fn is_empty(&self) -> (empty: bool)
        ensures
            empty <==> self@.readings.len() == 0,
    {
        self.readings.len() == 0
    }

    /// Whether a push would be refused.
    pub fn is_full(&self) -> (full: bool)
        ensures
            full == self@.is_full(),
    {
        self.readings.len() >= self.capacity
    }

    /// The transmissions that ran out of time since the last delivery.
    pub fn timeouts(&self) -> (timeouts: u32)
        ensures
            timeouts == self@.timeouts,
    {
        self.timeouts
    }

    /// The readings held, oldest first.
    pub fn readings(&self) -> (readings: &[Reading])
        ensures
            readings@ == self@.readings,
    {
        self.readings.as_slice()
    }

    /// Appends a reading, or refuses it when the payload is full. A refused
    /// push changes nothing and returns the reading in the error.
    pub fn push(&mut self, reading: Reading) -> (result: Result<(), CapacityError>)
        ensures
            final(self)@ == old(self)@.push(reading),
            result is Ok <==> !old(self)@.is_full(),
            result matches Err(error) ==> error.rejected == reading,
    {
        if self.readings.len() >= self.capacity {
            Err(CapacityError { rejected: reading })
        } else {
            // The buffer is lent out for the push, so that it is whole again
            // before anything else can look at the payload.
            let mut readings: Vec<Reading> = Vec::new();
            core::mem::swap(&mut self.readings, &mut readings);
            readings.push(reading);
            core::mem::swap(&mut self.readings, &mut readings);
            Ok(())
        }
    }

    /// Counts one transmission that ran out of time. The readings stay.
    pub fn record_timeout(&mut self)
        requires
            old(self)@.timeouts < u32::MAX,
        ensures
            final(self)@ == old(self)@.timed_out(),
    {
        proof {
            use_type_invariant(&*self);
        }
        self.timeouts = self.timeouts + 1;
    }

    /// Empties the payload and zeroes the counter after a confirmed
    /// transmission.
    pub fn mark_delivered(&mut self)
        ensures
            final(self)@ == old(self)@.delivered(),
    {
        self.readings = Vec::new();
        self.timeouts = 0;
    }
}

/// Pushing a run of readings into an empty payload keeps the first
/// `capacity` of them, in their order, and drops the rest.
pub proof fn lemma_push_all_keeps_prefix(capacity: nat, readings: Seq<Reading>)
    ensures
        PayloadModel::empty(capacity).push_all(readings) == (PayloadModel {
            readings: readings.take(
                if readings.len() <= capacity {
                    readings.len() as int
                } else {
                    capacity as int
                },
            ),
            capacity,
            timeouts: 0,
        }),
    decreases readings.len(),
{
    if readings.len() > 0 {
        let earlier = readings.drop_last();
        lemma_push_all_keeps_prefix(capacity, earlier);
        if earlier.len() < capacity {
            assert(earlier.take(earlier.len() as int).push(readings.last()) =~= readings.take(
                readings.len() as int,
            ));
        } else {
            assert(earlier.take(capacity as int) =~= readings.take(capacity as int));
        }
    } else {
        assert(readings.take(0) =~= Seq::<Reading>::empty());
    }
}

/// The capacity is exact. Of `capacity + 1` readings pushed into an empty
/// payload, each of the first `capacity` finds room and is kept in order; the
/// last finds the payload full and leaves it as it was.
pub proof fn law_capacity_is_exact(capacity: nat, readings: Seq<Reading>)
    requires
        readings.len() == capacity + 1,
    ensures
        forall|k: int|
            0 <= k < capacity ==> !(#[trigger] PayloadModel::empty(capacity).push_all(
                readings.take(k),
            )).is_full(),
        PayloadModel::empty(capacity).push_all(readings.take(capacity as int)).readings
            == readings.take(capacity as int),
        PayloadModel::empty(capacity).push_all(readings.take(capacity as int)).is_full(),
        PayloadModel::empty(capacity).push_all(readings) == PayloadModel::empty(
            capacity,
        ).push_all(readings.take(capacity as int)),
{
    assert forall|k: int| 0 <= k < capacity implies !(#[trigger] PayloadModel::empty(
        capacity,
    ).push_all(readings.take(k))).is_full() by {
        lemma_push_all_keeps_prefix(capacity, readings.take(k));
    }
    lemma_push_all_keeps_prefix(capacity, readings.take(capacity as int));
    assert(readings.take(capacity as int).take(capacity as int) =~= readings.take(
        capacity as int,
    ));
    lemma_push_all_keeps_prefix(capacity, readings);
}

} // verus!
