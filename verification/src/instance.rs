//! The instance registry: the placed copies of each model and the size of
//! the buffer that mirrors them on the graphics device.

use vstd::prelude::*;
use crate::bytes::{bytes_of_words, words_to_bytes};
use crate::model::Model;

verus! {

/// One placed copy of a model: a position (x, y, z) and a rotation
/// quaternion (x, y, z, w). Each component is the bit pattern of a
/// single-precision number; the library stores these words and never
/// computes with them.
#[derive(Clone, Copy, Debug)]
pub struct ModelInstance {
    pub position: [u32; 3],
    pub rotation: [u32; 4],
}

/// The bit pattern of the single-precision number one.
pub const ONE: u32 = 0x3f80_0000;

/// The instance is the identity instance: it stands at the origin, and its
/// rotation is the unit quaternion that turns nothing (x, y and z are zero,
/// w is one).
pub open spec fn is_identity_instance(instance: ModelInstance) -> bool {
    &&& instance.position@ == seq![0u32, 0u32, 0u32]
    &&& instance.rotation@ == seq![0u32, 0u32, 0u32, ONE]
}

impl Default for ModelInstance {
    /// The identity instance, which a model without instances is drawn
    /// with.
    fn default() -> (instance: Self)
        ensures
            is_identity_instance(instance),
    {
        let instance = ModelInstance { position: [0, 0, 0], rotation: [0, 0, 0, ONE] };
        assert(instance.position@ =~= seq![0u32, 0u32, 0u32]);
        assert(instance.rotation@ =~= seq![0u32, 0u32, 0u32, ONE]);
        instance
    }
}

/// The transform of one instance as it lies in the instance buffer: a four
/// by four matrix, column after column, sixteen words in all. Each word is
/// the bit pattern of a single-precision number.
#[derive(Clone, Copy, Debug)]
pub struct InstanceRaw(pub [[u32; 4]; 4]);

/// The sixteen words of the identity matrix: one on the diagonal, zero
/// elsewhere.
pub open spec fn identity_words() -> Seq<u32> {
    Seq::new(
        16,
        |i: int|
            if i % 5 == 0 {
                ONE
            } else {
                0u32
            },
    )
}

impl Default for InstanceRaw {
    /// The identity matrix: the transform that leaves a model where it is.
    fn default() -> (raw: Self)
        ensures
            raw_words(raw) == identity_words(),
    {
        let raw = InstanceRaw([[ONE, 0, 0, 0], [0, ONE, 0, 0], [0, 0, ONE, 0], [0, 0, 0, ONE]]);
        assert(raw_words(raw) =~= identity_words());
        raw
    }
}

/// The sixteen words of a transform, column after column.
pub open spec fn raw_words(raw: InstanceRaw) -> Seq<u32> {
    raw.0@[0]@ + raw.0@[1]@ + raw.0@[2]@ + raw.0@[3]@
}

/// The words of an instance buffer that holds the given transforms in
/// order.
pub open spec fn instance_buffer_words(raws: Seq<InstanceRaw>) -> Seq<u32>
    decreases raws.len(),
{
    if raws.len() == 0 {
        Seq::empty()
    } else {
        instance_buffer_words(raws.drop_last()) + raw_words(raws.last())
    }
}

/// An instance buffer has sixteen words for each transform.
pub proof fn lemma_instance_buffer_len(raws: Seq<InstanceRaw>)
    ensures
        instance_buffer_words(raws).len() == 16 * raws.len(),
    decreases raws.len(),
{
    if raws.len() > 0 {
        lemma_instance_buffer_len(raws.drop_last());
    }
}

/// The words of an instance buffer that holds the given transforms in
/// order, sixteen for each.
pub fn instance_words(raws: &Vec<InstanceRaw>) -> (words: Vec<u32>)
    ensures
        words@ == instance_buffer_words(raws@),
{
    let mut words: Vec<u32> = Vec::new();
    let mut i: usize = 0;
    while i < raws.len()
        invariant
            i <= raws.len(),
            words@ == instance_buffer_words(raws@.take(i as int)),
        decreases raws.len() - i,
    {
        let raw = &raws[i];
        let ghost before = words@;
        let mut column: usize = 0;
        while column < 4
            invariant
                column <= 4,
                *raw == raws@[i as int],
                words@.len() == before.len() + 4 * column,
                forall|k: int| 0 <= k < before.len() ==> words@[k] == before[k],
                forall|k: int|
                    0 <= k < 4 * column ==> words@[before.len() + k] == raw_words(*raw)[k],
            decreases 4 - column,
        {
            let cells = &raw.0[column];
            words.push(cells[0]);
            words.push(cells[1]);
            words.push(cells[2]);
            words.push(cells[3]);
            column += 1;
        }
        proof {
            let next = raws@.take(i + 1);
            assert(next.drop_last() =~= raws@.take(i as int));
            assert(next.last() == *raw);
            assert(words@ =~= before + raw_words(*raw));
        }
        i += 1;
    }
    assert(raws@.take(raws@.len() as int) =~= raws@);
    words
}

/// The bytes of an instance buffer that holds the given transforms in
/// order: sixty-four for each.
pub fn instance_buffer_contents(raws: &Vec<InstanceRaw>) -> (bytes: Vec<u8>)
    ensures
        bytes_of_words(bytes@, instance_buffer_words(raws@)),
        bytes@.len() == 64 * raws@.len(),
{
    proof {
        lemma_instance_buffer_len(raws@);
    }
    let words = instance_words(raws);
    words_to_bytes(&words)
}

/// The instance buffer of one model, as far as the registry needs to know
/// it: the number of instance slots it was allocated with.
#[derive(Clone, Copy, Debug, PartialEq, Eq, Structural)]
pub struct InstanceBuffer {
    pub capacity: usize,
}

/// What has to be done to a model's instance buffer before the next draw.
#[derive(Clone, Copy, Debug, PartialEq, Eq, Structural)]
pub enum BufferAction {
    /// The model has no instances: its buffer, if it has one, is left alone.
    Keep,
    /// The model has no buffer yet: allocate one of exactly `slots` instance
    /// slots and fill it with the current instances.
    Create { slots: usize },
    /// The buffer is too small: release it, allocate one of exactly `slots`
    /// instance slots and fill it with the current instances.
    Grow { slots: usize },
    /// The buffer is large enough: write the `slots` current instances into
    /// it, from the byte offset `offset` on, and leave the rest of it as it
    /// is.
    Write { offset: u64, slots: usize },
}

/// The action for a model with `count` instances whose buffer has the given
/// capacity, if it has a buffer.
pub open spec fn sync_action(count: nat, capacity: Option<nat>) -> BufferAction {
    if count == 0 {
        BufferAction::Keep
    } else {
        match capacity {
            None => BufferAction::Create { slots: count as usize },
            Some(slots) => if count > slots {
                BufferAction::Grow { slots: count as usize }
            } else {
                BufferAction::Write { offset: 0, slots: count as usize }
            },
        }
    }
}

/// The capacity of the buffer once the action for `count` instances has
/// been carried out.
pub open spec fn capacity_after(count: nat, capacity: Option<nat>) -> Option<nat> {
    if count == 0 {
        capacity
    } else {
        match capacity {
            None => Some(count),
            Some(slots) => if count > slots {
                Some(count)
            } else {
                Some(slots)
            },
        }
    }
}

/// The action allocates a buffer.
pub open spec fn allocates(action: BufferAction) -> bool {
    action is Create || action is Grow
}

/// A buffer of the given capacity, if there is one, holds `count` instances.
pub open spec fn holds(capacity: Option<nat>, count: nat) -> bool {
    count > 0 ==> capacity is Some && capacity->0 >= count
}

/// The capacity after one synchronisation per frame, for the instance
/// counts of consecutive frames.
pub open spec fn capacity_after_frames(capacity: Option<nat>, counts: Seq<nat>) -> Option<nat>
    decreases counts.len(),
{
    if counts.len() == 0 {
        capacity
    } else {
        capacity_after(counts.last(), capacity_after_frames(capacity, counts.drop_last()))
    }
}

/// The model `after` is the model `before` once `action` has been decided
/// for it: the action is the one for its instances and its buffer, the
/// buffer has the capacity that the action leaves it with and holds the
/// instances, and the model and its instances are as they were.
pub open spec fn synced_from(
    before: InstancedModel,
    after: InstancedModel,
    action: BufferAction,
) -> bool {
    &&& action == sync_action(before.instance_count(), before.capacity())
    &&& after.capacity() == capacity_after(before.instance_count(), before.capacity())
    &&& after.model == before.model
    &&& after.instances == before.instances
    &&& after.synced()
}

/// The largest of the capacity that a buffer starts with, if there is one,
/// and the instance counts of the frames so far.
pub open spec fn peak(capacity: Option<nat>, counts: Seq<nat>) -> nat
    decreases counts.len(),
{
    if counts.len() == 0 {
        match capacity {
            Some(slots) => slots,
            None => 0,
        }
    } else {
        let earlier = peak(capacity, counts.drop_last());
        if counts.last() > earlier {
            counts.last()
        } else {
            earlier
        }
    }
}

/// After any number of frames the buffer has as many slots as the largest
/// instance count so far asked for, or as it started with if that is more;
/// there is still no buffer only where there was none and no frame had an
/// instance.
pub proof fn lemma_capacity_is_peak(capacity: Option<nat>, counts: Seq<nat>)
    ensures
        capacity_after_frames(capacity, counts) == if capacity is None && peak(capacity, counts)
            == 0 {
            None::<nat>
        } else {
            Some(peak(capacity, counts))
        },
    decreases counts.len(),
{
    if counts.len() > 0 {
        lemma_capacity_is_peak(capacity, counts.drop_last());
    }
}

/// Buffers only grow: whatever the instance counts of the following frames,
/// a buffer stays, and never has fewer slots than before.
pub proof fn lemma_capacity_never_shrinks(capacity: Option<nat>, counts: Seq<nat>, more: Seq<nat>)
    ensures
        capacity_after_frames(capacity, counts) matches Some(slots) ==> capacity_after_frames(
            capacity,
            counts + more,
        ) matches Some(later) && later >= slots,
    decreases more.len(),
{
    if more.len() == 0 {
        assert(counts + more =~= counts);
    } else {
        lemma_capacity_never_shrinks(capacity, counts, more.drop_last());
        assert((counts + more).drop_last() =~= counts + more.drop_last());
        assert((counts + more).last() == more.last());
    }
}

/// A buffer is allocated in exactly those frames whose instance count is
/// above every count before it and above the capacity at the start: never
/// when the count stays the same or drops.
pub proof fn lemma_allocation_only_on_new_peak(capacity: Option<nat>, counts: Seq<nat>, frame: int)
    requires
        0 <= frame < counts.len(),
    ensures
        allocates(sync_action(counts[frame], capacity_after_frames(capacity, counts.take(frame))))
            <==> counts[frame] > peak(capacity, counts.take(frame)),
        !allocates(sync_action(counts[frame], capacity_after_frames(capacity, counts.take(frame))))
            ==> capacity_after_frames(capacity, counts.take(frame + 1)) == capacity_after_frames(
            capacity,
            counts.take(frame),
        ),
{
    lemma_capacity_is_peak(capacity, counts.take(frame));
    assert(counts.take(frame + 1).drop_last() =~= counts.take(frame));
    assert(counts.take(frame + 1).last() == counts[frame]);
}

/// A model together with its instances and its instance buffer. A model
/// without instances, or with an empty list of them, is drawn once, with the
/// shared single instance.
pub struct InstancedModel {
    pub model: Model,
    pub instances: Option<Vec<ModelInstance>>,
    pub instance_buffer: Option<InstanceBuffer>,
}

impl InstancedModel {
    /// The number of instances that the model is registered with.
    pub open spec fn instance_count(&self) -> nat {
        match self.instances {
            Some(instances) => instances@.len(),
            None => 0,
        }
    }

    /// The capacity of the instance buffer, if the model has one.
    pub open spec fn capacity(&self) -> Option<nat> {
        match self.instance_buffer {
            Some(buffer) => Some(buffer.capacity as nat),
            None => None,
        }
    }

    /// The instance buffer holds the current instances.
    pub open spec fn synced(&self) -> bool {
        holds(self.capacity(), self.instance_count())
    }

    /// Registers a model for drawing, without instances and without a
    /// buffer.
    pub fn new(model: Model) -> (registered: InstancedModel)
        ensures
            registered == (InstancedModel { model, instances: None, instance_buffer: None }),
    {
        InstancedModel { model, instances: None, instance_buffer: None }
    }

    /// The number of instances that the model is registered with.
    pub fn count(&self) -> (count: usize)
        ensures
            count == self.instance_count(),
    {
        match &self.instances {
            Some(instances) => instances.len(),
            None => 0,
        }
    }

    /// True when the instance buffer holds the current instances.
    pub fn is_synced(&self) -> (synced: bool)
        ensures
            synced == self.synced(),
    {
        let count: usize = self.count();
        match self.instance_buffer {
            Some(buffer) => count <= buffer.capacity,
            None => count == 0,
        }
    }

    /// Decides what has to be done to the instance buffer so that it holds
    /// the current instances, and takes note of the capacity it will then
    /// have. A buffer is allocated only where there is none yet or where it
    /// is too small, with exactly as many slots as there are instances; it
    /// is never made smaller. A buffer that is large enough is written from
    /// its start.
    pub fn sync(&mut self) -> (action: BufferAction)
        ensures
            synced_from(*old(self), *final(self), action),
    {
        let count: usize = self.count();
        if count == 0 {
            return BufferAction::Keep;
        }
        match self.instance_buffer {
            None => {
                self.instance_buffer = Some(InstanceBuffer { capacity: count });
                BufferAction::Create { slots: count }
            },
            Some(buffer) => {
                if count > buffer.capacity {
                    self.instance_buffer = Some(InstanceBuffer { capacity: count });
                    BufferAction::Grow { slots: count }
                } else {
                    BufferAction::Write { offset: 0, slots: count }
                }
            },
        }
    }
}

impl From<Model> for InstancedModel {
    fn from(model: Model) -> (registered: InstancedModel) {
        InstancedModel::new(model)
    }
}

impl vstd::std_specs::convert::FromSpecImpl<Model> for InstancedModel {
    open spec fn obeys_from_spec() -> bool {
        true
    }

    open spec fn from_spec(model: Model) -> InstancedModel {
        InstancedModel { model, instances: None, instance_buffer: None }
    }
}

} // verus!
