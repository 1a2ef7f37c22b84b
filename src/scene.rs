//! The device registry of the RF fabric, and the routing of RF frames.
use vstd::prelude::*;

use crate::rf::BROADCAST;

verus! {

/// Number of device slots.
pub const MAX_DEVICES: usize = 16;

/// Errors of the registry.
#[derive(Clone, Copy, Debug, PartialEq, Eq, Structural)]
pub enum SceneError {
    /// Every slot holds a device.
    Full,
}

/// Whether the device in slot `i` gets a frame from `sender` to `receiver`.
pub open spec fn is_recipient<D>(slots: Seq<Option<D>>, sender: u16, receiver: u16, i: int) -> bool {
    &&& 0 <= i < slots.len()
    &&& slots[i] is Some
    &&& i != sender
    &&& receiver == BROADCAST || i == receiver
}

/// `r` lists, in increasing order, the slots that get a frame from
/// `sender` to `receiver`.
pub open spec fn recipients_spec<D>(slots: Seq<Option<D>>, sender: u16, receiver: u16, r: Seq<u16>) -> bool {
    &&& forall|k: int| 0 <= k < r.len() ==> is_recipient(slots, sender, receiver, #[trigger] r[k] as int)
    &&& forall|k: int, l: int| 0 <= k < l < r.len() ==> #[trigger] r[k] < #[trigger] r[l]
    &&& forall|i: int| #[trigger] is_recipient(slots, sender, receiver, i) ==> r.contains(i as u16)
}

/// The peers of `sender`: every occupied slot but its own.
pub open spec fn peers<D>(slots: Seq<Option<D>>, sender: u16) -> Set<u16> {
    Set::new(|i: u16| (i as int) < slots.len() && slots[i as int] is Some && i != sender)
}

/// A broadcast from `sender` reaches each of its peers exactly once.
pub proof fn lemma_broadcast_fan_out<D>(slots: Seq<Option<D>>, sender: u16, r: Seq<u16>)
    requires
        slots.len() == MAX_DEVICES,
        recipients_spec(slots, sender, BROADCAST, r),
    ensures
        r.no_duplicates(),
        r.to_set() == peers(slots, sender),
        r.len() == peers(slots, sender).len(),
{
    assert(r.no_duplicates()) by {
        assert forall|k: int, l: int| 0 <= k < r.len() && 0 <= l < r.len() && k != l implies r[k]
            != r[l] by {
            if k < l {
                assert(r[k] < r[l]);
            } else {
                assert(r[l] < r[k]);
            }
        }
    }
    assert forall|i: u16| #[trigger] r.to_set().contains(i) <==> peers(slots, sender).contains(i) by {
        if peers(slots, sender).contains(i) {
            assert(is_recipient(slots, sender, BROADCAST, i as int));
        }
        if r.to_set().contains(i) {
            let k = choose|k: int| 0 <= k < r.len() && r[k] == i;
            assert(is_recipient(slots, sender, BROADCAST, r[k] as int));
        }
    }
    assert(r.to_set() =~= peers(slots, sender));
    r.unique_seq_to_set();
}

/// A fixed set of device slots; a device's slot is its identifier.
pub struct Scene<D> {
    devices: Vec<Option<D>>,
}

impl<D> Scene<D> {
    pub closed spec fn slots(&self) -> Seq<Option<D>> {
        self.devices@
    }

    pub open spec fn wf(&self) -> bool {
        self.slots().len() == MAX_DEVICES
    }

    /// A scene with every slot empty.
    pub fn new() -> (r: Scene<D>)
        ensures
            r.wf(),
            forall|i: int| 0 <= i < MAX_DEVICES ==> #[trigger] r.slots()[i] is None,
    {
        let mut devices: Vec<Option<D>> = Vec::new();
        let mut i: usize = 0;
        while i < MAX_DEVICES
            invariant
                i <= MAX_DEVICES,
                devices@.len() == i,
                forall|j: int| 0 <= j < i ==> #[trigger] devices@[j] is None,
            decreases MAX_DEVICES - i,
        {
            devices.push(None);
            i = i + 1;
        }
        Scene { devices }
    }

    /// Installs the device that `builder` makes for the lowest free slot,
    /// and returns that slot.
    pub fn add_device<F: FnOnce(u16) -> D>(&mut self, builder: F) -> (r: Result<u16, SceneError>)
        requires
            old(self).wf(),
            forall|id: u16| builder.requires((id,)),
        ensures
            final(self).wf(),
            match r {
                Ok(id) => {
                    &&& id < MAX_DEVICES
                    &&& old(self).slots()[id as int] is None
                    &&& forall|j: int| 0 <= j < id ==> #[trigger] old(self).slots()[j] is Some
                    &&& final(self).slots()[id as int] matches Some(d) && builder.ensures((id,), d)
                    &&& final(self).slots() == old(self).slots().update(
                        id as int,
                        final(self).slots()[id as int],
                    )
                },
                Err(e) => {
                    &&& e == SceneError::Full
                    &&& forall|j: int| 0 <= j < MAX_DEVICES ==> #[trigger] old(self).slots()[j] is Some
                    &&& final(self).slots() == old(self).slots()
                },
            },
    {
        let mut id: usize = 0;
        while id < MAX_DEVICES
            invariant
                self.devices@.len() == MAX_DEVICES,
                self.devices@ == old(self).devices@,
                id <= MAX_DEVICES,
                forall|j: int| 0 <= j < id ==> #[trigger] self.devices@[j] is Some,
            ensures
                id == MAX_DEVICES || self.devices@[id as int] is None,
            decreases MAX_DEVICES - id,
        {
            if self.devices[id].is_none() {
                break;
            }
            id = id + 1;
        }
        if id == MAX_DEVICES {
            return Err(SceneError::Full);
        }
        let device = builder(id as u16);
        self.devices.set(id, Some(device));
        Ok(id as u16)
    }

    /// Takes the device out of slot `id`, which is then free.
    pub fn take_device(&mut self, id: usize) -> (r: Option<D>)
        requires
            old(self).wf(),
            id < MAX_DEVICES,
        ensures
            final(self).wf(),
            r == old(self).slots()[id as int],
            final(self).slots() == old(self).slots().update(id as int, None),
    {
        let mut r: Option<D> = None;
        std::mem::swap(&mut r, &mut self.devices[id]);
        r
    }

    /// Puts a device back into the free slot `id`.
    pub fn put_device(&mut self, id: usize, device: D)
        requires
            old(self).wf(),
            id < MAX_DEVICES,
            old(self).slots()[id as int] is None,
        ensures
            final(self).wf(),
            final(self).slots() == old(self).slots().update(id as int, Some(device)),
    {
        self.devices.set(id, Some(device));
    }

    /// Whether slot `id` holds a device.
    pub fn is_occupied(&self, id: usize) -> (r: bool)
        requires
            self.wf(),
            id < MAX_DEVICES,
        ensures
            r == self.slots()[id as int] is Some,
    {
        self.devices[id].is_some()
    }

    /// The device in slot `id`, if any.
    pub fn device(&self, id: usize) -> (r: Option<&D>)
        requires
            self.wf(),
            id < MAX_DEVICES,
        ensures
            r is Some == self.slots()[id as int] is Some,
            r matches Some(d) ==> self.slots()[id as int] == Some(*d),
    {
        self.devices[id].as_ref()
    }

    /// The slots that a frame from `sender` to `receiver` goes to: every
    /// occupied slot but the sender's, restricted to `receiver` unless it
    /// is the broadcast identifier; in increasing order.
    pub fn recipients(&self, sender: u16, receiver: u16) -> (r: Vec<u16>)
        requires
            self.wf(),
        ensures
            recipients_spec(self.slots(), sender, receiver, r@),
    {
        let mut r: Vec<u16> = Vec::new();
        let mut i: usize = 0;
        while i < MAX_DEVICES
            invariant
                self.wf(),
                i <= MAX_DEVICES,
                forall|k: int| 0 <= k < r@.len() ==> is_recipient(self.slots(), sender, receiver, #[trigger] r@[k] as int),
                forall|k: int| 0 <= k < r@.len() ==> #[trigger] r@[k] < i,
                forall|k: int, l: int| 0 <= k < l < r@.len() ==> #[trigger] r@[k] < #[trigger] r@[l],
                forall|j: int| 0 <= j < i && #[trigger] is_recipient(self.slots(), sender, receiver, j) ==> r@.contains(j as u16),
            decreases MAX_DEVICES - i,
        {
            let id = i as u16;
            if id != sender && (receiver == BROADCAST || receiver == id) && self.devices[i].is_some() {
                let ghost r0 = r@;
                r.push(id);
                assert forall|j: int| 0 <= j < i && #[trigger] is_recipient(self.slots(), sender, receiver, j) implies r@.contains(j as u16) by {
                    let k = choose|k: int| 0 <= k < r0.len() && r0[k] == j as u16;
                    assert(r@[k] == j as u16);
                }
                assert(r@[r@.len() - 1] == id);
            }
            i = i + 1;
        }
        r
    }
}

} // verus!
