use vstd::prelude::*;
use crate::descriptor::{GlobalStateAudioFFTDescriptor, DescriptorId};
use crate::component::{GlobalStateAudioFFT, FFTResult};

verus! {

/// One registry slot: a descriptor, the number of strong handles outstanding,
/// and the component itself while at least one handle lives.  A slot with no
/// handles keeps only the descriptor, like a weak reference that can no
/// longer be upgraded; asking for its component re-creates it cold.
pub struct GlobalStateComponent {
    pub descriptor: GlobalStateAudioFFTDescriptor,
    pub strong_count: usize,
    pub component: Option<GlobalStateAudioFFT>,
}

impl GlobalStateComponent {
    /// The component is present exactly while handles are outstanding, and
    /// belongs to this slot's descriptor.
    pub open spec fn wf(self) -> bool {
        &&& self.descriptor.wf()
        &&& (self.strong_count > 0 <==> self.component is Some)
        &&& match self.component {
            Some(c) => c.wf() && c.descriptor == self.descriptor,
            None => true,
        }
    }

    /// Whether a handle could still be obtained without re-creating the
    /// component.
    pub open spec fn live(self) -> bool {
        self.strong_count > 0
    }

    /// A slot holding no component yet, like a weak reference made dead.
    pub fn new(descriptor: GlobalStateAudioFFTDescriptor) -> (r: GlobalStateComponent)
        requires
            descriptor.wf(),
        ensures
            r.wf(),
            !r.live(),
            r.descriptor == descriptor,
    {
        GlobalStateComponent { descriptor, strong_count: 0, component: None }
    }

    /// Takes one strong handle on the slot's component, constructing the
    /// component cold when none is alive (the upgrade-or-create step of a
    /// request).
    pub fn get_component(&mut self)
        requires
            old(self).wf(),
            old(self).strong_count < usize::MAX,
        ensures
            final(self).wf(),
            final(self).live(),
            final(self).descriptor == old(self).descriptor,
            final(self).strong_count == old(self).strong_count + 1,
            old(self).live() ==> final(self).component == old(self).component,
            !old(self).live() ==> match final(self).component {
                Some(c) => c.mutable.is_cold() && c.descriptor == old(self).descriptor,
                None => false,
            },
    {
        if self.strong_count == 0 {
            self.component = Some(GlobalStateAudioFFT::create(&self.descriptor));
        }
        self.strong_count = self.strong_count + 1;
    }

    /// Whether a strong handle could be obtained without re-creating the
    /// component (whether an upgrade would succeed).
    pub fn try_get_component(&self) -> (r: bool)
        ensures
            r == self.live(),
    {
        self.strong_count > 0
    }

    /// Gives one strong handle back.  With the last one gone the component is
    /// destroyed: a later request for the descriptor starts cold.
    pub fn release(&mut self)
        requires
            old(self).wf(),
            old(self).live(),
        ensures
            final(self).wf(),
            final(self).descriptor == old(self).descriptor,
            final(self).strong_count == old(self).strong_count - 1,
            final(self).live() ==> final(self).component == old(self).component,
            !final(self).live() ==> final(self).component is None,
    {
        self.strong_count = self.strong_count - 1;
        if self.strong_count == 0 {
            self.component = None;
        }
    }

    /// Hands one audio chunk to the held component.
    pub fn process_audio_data(
        &mut self,
        samples: &Vec<num_complex::Complex32>,
        samples_per_frame: usize,
        framerate_numerator: usize,
        framerate_denominator: usize,
    )
        requires
            old(self).wf(),
            old(self).live(),
            old(self).component matches Some(c) && c.process_requires(
                samples@,
                samples_per_frame,
            ),
        ensures
            final(self).wf(),
            final(self).descriptor == old(self).descriptor,
            final(self).strong_count == old(self).strong_count,
            old(self).component matches Some(pre) && final(self).component matches Some(post)
                && GlobalStateAudioFFT::process_ensures(pre, post, samples@, samples_per_frame),
    {
        match &mut self.component {
            Some(component) => component.process_audio_data(
                samples,
                samples_per_frame,
                framerate_numerator,
                framerate_denominator,
            ),
            None => {
                proof {
                    assert(false);
                }
            },
        }
    }

    /// Pulls the held component's latest result and schedules the next batch.
    pub fn retrieve_result(&mut self) -> (r: Option<FFTResult>)
        requires
            old(self).wf(),
            old(self).live(),
        ensures
            final(self).wf(),
            final(self).descriptor == old(self).descriptor,
            final(self).strong_count == old(self).strong_count,
            old(self).component matches Some(pre) && final(self).component matches Some(post)
                && GlobalStateAudioFFT::retrieve_ensures(pre, post, r),
    {
        match &mut self.component {
            Some(component) => component.retrieve_result(),
            None => {
                proof {
                    assert(false);
                }
                None
            },
        }
    }
}

/// The first slot whose descriptor has the given identity, scanning from the
/// front.
pub open spec fn find_entry(entries: Seq<GlobalStateComponent>, id: DescriptorId) -> Option<
    GlobalStateComponent,
>
    decreases entries.len(),
{
    if entries.len() == 0 {
        None
    } else if entries[0].descriptor.id() == id {
        Some(entries[0])
    } else {
        find_entry(entries.drop_first(), id)
    }
}

/// Appending a slot changes lookups only for its own identity, and only where
/// nothing was found before.
proof fn lemma_find_entry_push(entries: Seq<GlobalStateComponent>, entry: GlobalStateComponent, id: DescriptorId)
    ensures
        find_entry(entries.push(entry), id) == match find_entry(entries, id) {
            Some(found) => Some(found),
            None => if entry.descriptor.id() == id {
                Some(entry)
            } else {
                None
            },
        },
    decreases entries.len(),
{
    if entries.len() == 0 {
        assert(entries.push(entry)[0] == entry);
        assert(entries.push(entry).drop_first() =~= Seq::<GlobalStateComponent>::empty());
        if entry.descriptor.id() != id {
            assert(find_entry(entries.push(entry), id) == find_entry(
                Seq::<GlobalStateComponent>::empty(),
                id,
            ));
        }
    } else {
        assert(entries.push(entry)[0] == entries[0]);
        assert(entries.push(entry).drop_first() =~= entries.drop_first().push(entry));
        lemma_find_entry_push(entries.drop_first(), entry, id);
        if entries[0].descriptor.id() == id {
            assert(find_entry(entries.push(entry), id) == Some(entries[0]));
            assert(find_entry(entries, id) == Some(entries[0]));
        } else {
            assert(find_entry(entries.push(entry), id) == find_entry(
                entries.drop_first().push(entry),
                id,
            ));
            assert(find_entry(entries, id) == find_entry(entries.drop_first(), id));
        }
    }
}

/// A lookup finds the slot at a given index when no earlier slot shares its
/// identity.
proof fn lemma_find_entry_at_index(entries: Seq<GlobalStateComponent>, i: int, id: DescriptorId)
    requires
        0 <= i < entries.len(),
        entries[i].descriptor.id() == id,
        forall|j: int| 0 <= j < i ==> (#[trigger] entries[j]).descriptor.id() != id,
    ensures
        find_entry(entries, id) == Some(entries[i]),
    decreases i,
{
    if i == 0 {
    } else {
        assert(entries.drop_first()[i - 1] == entries[i]);
        assert(forall|j: int| 0 <= j < i - 1 ==> (#[trigger] entries.drop_first()[j])
            == entries[j + 1]);
        lemma_find_entry_at_index(entries.drop_first(), i - 1, id);
    }
}

/// A lookup finds nothing exactly when no slot has the identity.
proof fn lemma_find_entry_absent(entries: Seq<GlobalStateComponent>, id: DescriptorId)
    ensures
        (find_entry(entries, id) is None) <==> (forall|j: int|
            0 <= j < entries.len() ==> (#[trigger] entries[j]).descriptor.id() != id),
    decreases entries.len(),
{
    if entries.len() > 0 {
        lemma_find_entry_absent(entries.drop_first(), id);
        assert(forall|j: int| 0 <= j < entries.drop_first().len() ==> (
        #[trigger] entries.drop_first()[j]) == entries[j + 1]);
        if entries[0].descriptor.id() != id && find_entry(entries.drop_first(), id) is None {
            assert(forall|j: int| 1 <= j < entries.len() ==> (#[trigger] entries[j])
                == entries.drop_first()[j - 1]);
        }
    }
}

/// What a lookup finds is a slot of the sequence with the asked identity.
proof fn lemma_find_entry_found(entries: Seq<GlobalStateComponent>, id: DescriptorId)
    ensures
        match find_entry(entries, id) {
            Some(found) => found.descriptor.id() == id && exists|j: int|
                0 <= j < entries.len() && entries[j] == found,
            None => true,
        },
    decreases entries.len(),
{
    if entries.len() > 0 && entries[0].descriptor.id() != id {
        lemma_find_entry_found(entries.drop_first(), id);
        match find_entry(entries.drop_first(), id) {
            Some(found) => {
                let j = choose|j: int|
                    0 <= j < entries.drop_first().len() && entries.drop_first()[j] == found;
                assert(entries[j + 1] == found);
            },
            None => {},
        }
    }
}

/// Replacing the one slot that carries an identity changes lookups only for
/// that identity, when identities are pairwise distinct.
proof fn lemma_find_entry_update(
    entries: Seq<GlobalStateComponent>,
    i: int,
    entry: GlobalStateComponent,
    id: DescriptorId,
)
    requires
        0 <= i < entries.len(),
        entry.descriptor.id() == entries[i].descriptor.id(),
        forall|j1: int, j2: int| 0 <= j1 < j2 < entries.len() ==> (
        #[trigger] entries[j1]).descriptor.id() != (#[trigger] entries[j2]).descriptor.id(),
    ensures
        find_entry(entries.update(i, entry), id) == if entries[i].descriptor.id() == id {
            Some(entry)
        } else {
            find_entry(entries, id)
        },
    decreases i,
{
    let updated = entries.update(i, entry);
    if i == 0 {
        if entries[0].descriptor.id() != id {
            assert(updated.drop_first() =~= entries.drop_first());
        }
    } else {
        assert(updated[0] == entries[0]);
        assert(updated.drop_first() =~= entries.drop_first().update(i - 1, entry));
        assert(forall|j: int| 0 <= j < entries.drop_first().len() ==> (
        #[trigger] entries.drop_first()[j]) == entries[j + 1]);
        lemma_find_entry_update(entries.drop_first(), i - 1, entry, id);
        if entries[0].descriptor.id() == id {
            assert(entries[i].descriptor.id() != id);
        }
    }
}

/// The deduplicating registry of analysis components: one slot per distinct
/// descriptor, each component shared by every consumer that requested its
/// descriptor, created lazily and destroyed when its last handle is released.
pub struct GlobalState {
    pub audio_ffts: Vec<GlobalStateComponent>,
}

impl Default for GlobalState {
    fn default() -> (r: GlobalState)
        ensures
            r.wf(),
            forall|id: DescriptorId| r.entry(id) is None,
    {
        GlobalState::new()
    }
}

impl GlobalState {
    /// Every slot is well formed and no two slots share a descriptor
    /// identity, so at most one component lives per distinct descriptor.
    pub open spec fn wf(self) -> bool {
        &&& forall|i: int| 0 <= i < self.audio_ffts@.len() ==> (#[trigger] self.audio_ffts@[i]).wf()
        &&& forall|i: int, j: int|
            0 <= i < j < self.audio_ffts@.len() ==> (#[trigger] self.audio_ffts@[i]).descriptor.id()
                != (#[trigger] self.audio_ffts@[j]).descriptor.id()
    }

    /// The slot for a descriptor identity, if any.
    pub open spec fn entry(self, id: DescriptorId) -> Option<GlobalStateComponent> {
        find_entry(self.audio_ffts@, id)
    }

    pub fn new() -> (r: GlobalState)
        ensures
            r.wf(),
            forall|id: DescriptorId| r.entry(id) is None,
    {
        let r = GlobalState { audio_ffts: Vec::new() };
        proof {
            assert(forall|id: DescriptorId| find_entry(r.audio_ffts@, id) is None);
        }
        r
    }

    /// Law: a well-formed registry never holds two slots for one descriptor
    /// identity, so consumers requesting equal descriptors are always served
    /// one shared component, never separate instances.
    pub proof fn lemma_one_slot_per_descriptor(self, i: int, j: int)
        requires
            self.wf(),
            0 <= i < self.audio_ffts@.len(),
            0 <= j < self.audio_ffts@.len(),
            self.audio_ffts@[i].descriptor.id() == self.audio_ffts@[j].descriptor.id(),
        ensures
            i == j,
    {
    }

    /// The position of the slot for this descriptor, if any.
    fn lookup(&self, descriptor: &GlobalStateAudioFFTDescriptor) -> (r: Option<usize>)
        requires
            self.wf(),
        ensures
            match r {
                Some(i) => i < self.audio_ffts@.len() && self.audio_ffts@[i as int].descriptor.id()
                    == descriptor.id() && self.entry(descriptor.id()) == Some(
                    self.audio_ffts@[i as int],
                ),
                None => self.entry(descriptor.id()) is None,
            },
    {
        let len = self.audio_ffts.len();
        let mut i: usize = 0;
        while i < len
            invariant
                i <= len,
                len == self.audio_ffts@.len(),
                forall|j: int| 0 <= j < i ==> (#[trigger] self.audio_ffts@[j]).descriptor.id()
                    != descriptor.id(),
            decreases len - i,
        {
            if self.audio_ffts[i].descriptor.same_key(descriptor) {
                proof {
                    lemma_find_entry_at_index(self.audio_ffts@, i as int, descriptor.id());
                }
                return Some(i);
            }
            i = i + 1;
        }
        proof {
            lemma_find_entry_absent(self.audio_ffts@, descriptor.id());
        }
        None
    }

    /// Removes every slot whose component is gone (no handle outstanding), so
    /// the registry does not grow without bound across reloads.  Live slots
    /// keep their state; a later request for a pruned descriptor starts cold
    /// either way.
    fn prune_dead(&mut self)
        requires
            old(self).wf(),
        ensures
            final(self).wf(),
            forall|id: DescriptorId| #[trigger] find_entry(final(self).audio_ffts@, id) == match
                find_entry(old(self).audio_ffts@, id) {
                Some(found) => if found.live() {
                    Some(found)
                } else {
                    None
                },
                None => None,
            },
    {
        let mut remaining: Vec<GlobalStateComponent> = Vec::new();
        core::mem::swap(&mut remaining, &mut self.audio_ffts);
        let ghost orig = remaining@;
        let mut kept: Vec<GlobalStateComponent> = Vec::new();
        let ghost k: int = 0;
        while remaining.len() > 0
            invariant
                0 <= k <= orig.len(),
                k == orig.len() - remaining@.len(),
                remaining@ == orig.skip(k),
                forall|j: int| 0 <= j < orig.len() ==> (#[trigger] orig[j]).wf(),
                forall|j1: int, j2: int| 0 <= j1 < j2 < orig.len() ==> (
                #[trigger] orig[j1]).descriptor.id() != (#[trigger] orig[j2]).descriptor.id(),
                forall|j: int| 0 <= j < kept@.len() ==> (#[trigger] kept@[j]).wf()
                    && kept@[j].live(),
                forall|j: int| 0 <= j < kept@.len() ==> exists|m: int|
                    0 <= m < k && #[trigger] kept@[j] == orig[m],
                forall|j1: int, j2: int| 0 <= j1 < j2 < kept@.len() ==> (
                #[trigger] kept@[j1]).descriptor.id() != (#[trigger] kept@[j2]).descriptor.id(),
                forall|id: DescriptorId| #[trigger] find_entry(kept@, id) == match find_entry(
                    orig.take(k),
                    id,
                ) {
                    Some(found) => if found.live() {
                        Some(found)
                    } else {
                        None
                    },
                    None => None,
                },
            decreases remaining@.len(),
        {
            let ghost kept_before = kept@;
            let entry = remaining.remove(0);
            proof {
                assert(entry == orig[k]);
                assert(orig.skip(k).remove(0) =~= orig.skip(k + 1));
                assert(orig.take(k + 1) =~= orig.take(k).push(orig[k]));
                // The processed prefix cannot hold this identity.
                lemma_find_entry_found(orig.take(k), orig[k].descriptor.id());
                assert(forall|m: int| 0 <= m < k ==> #[trigger] orig.take(k)[m] == orig[m]);
                assert(find_entry(orig.take(k), orig[k].descriptor.id()) is None) by {
                    match find_entry(orig.take(k), orig[k].descriptor.id()) {
                        Some(found) => {
                            let m = choose|m: int|
                                0 <= m < orig.take(k).len() && orig.take(k)[m] == found;
                            assert(orig[m].descriptor.id() == orig[k].descriptor.id());
                            assert(false);
                        },
                        None => {},
                    }
                }
                // Nor can the kept slots.
                assert(forall|j: int| 0 <= j < kept_before.len() ==> (
                #[trigger] kept_before[j]).descriptor.id() != orig[k].descriptor.id());
                lemma_find_entry_absent(kept_before, orig[k].descriptor.id());
            }
            if entry.try_get_component() {
                kept.push(entry);
                proof {
                    assert forall|id: DescriptorId| #[trigger] find_entry(kept@, id) == match
                        find_entry(orig.take(k + 1), id) {
                        Some(found) => if found.live() {
                            Some(found)
                        } else {
                            None
                        },
                        None => None,
                    } by {
                        lemma_find_entry_push(kept_before, entry, id);
                        lemma_find_entry_push(orig.take(k), orig[k], id);
                    }
                }
            } else {
                proof {
                    assert forall|id: DescriptorId| #[trigger] find_entry(kept@, id) == match
                        find_entry(orig.take(k + 1), id) {
                        Some(found) => if found.live() {
                            Some(found)
                        } else {
                            None
                        },
                        None => None,
                    } by {
                        lemma_find_entry_push(orig.take(k), orig[k], id);
                    }
                }
            }
            proof {
                k = k + 1;
            }
        }
        proof {
            assert(orig.take(k) =~= orig);
        }
        self.audio_ffts = kept;
    }

    /// Serves a consumer a shared handle on the component for this
    /// descriptor: the slot's component when one is alive, a revived cold
    /// component in the existing slot, or a fresh slot (pruning dead ones on
    /// the way).  At most one component ever lives per distinct descriptor,
    /// so every requester of the same descriptor shares one instance.
    pub fn request_audio_fft(&mut self, descriptor: &GlobalStateAudioFFTDescriptor)
        requires
            old(self).wf(),
            descriptor.wf(),
            match old(self).entry(descriptor.id()) {
                Some(found) => found.strong_count < usize::MAX,
                None => true,
            },
        ensures
            final(self).wf(),
            match final(self).entry(descriptor.id()) {
                Some(now) => {
                    &&& now.live()
                    &&& match old(self).entry(descriptor.id()) {
                        Some(before) => {
                            &&& now.descriptor == before.descriptor
                            &&& now.strong_count == before.strong_count + 1
                            &&& (before.live() ==> now.component == before.component)
                            &&& (!before.live() ==> match now.component {
                                Some(c) => c.mutable.is_cold() && c.descriptor
                                    == before.descriptor,
                                None => false,
                            })
                        },
                        None => {
                            &&& now.descriptor == *descriptor
                            &&& now.strong_count == 1
                            &&& match now.component {
                                Some(c) => c.mutable.is_cold() && c.descriptor == *descriptor,
                                None => false,
                            }
                        },
                    }
                },
                None => false,
            },
            forall|id: DescriptorId| id != descriptor.id() ==> match (
                #[trigger] find_entry(old(self).audio_ffts@, id),
                find_entry(final(self).audio_ffts@, id),
            ) {
                (Some(before), Some(now)) => now == before,
                (Some(before), None) => !before.live(),
                (None, None) => true,
                (None, Some(_)) => false,
            },
            old(self).entry(descriptor.id()) is None ==> forall|id: DescriptorId|
                id != descriptor.id() ==> match #[trigger] find_entry(
                    final(self).audio_ffts@,
                    id,
                ) {
                    Some(now) => now.live(),
                    None => true,
                },
    {
        let ghost pre = self.audio_ffts@;
        match self.lookup(descriptor) {
            Some(i) => {
                let slot = &mut self.audio_ffts[i];
                slot.get_component();
                proof {
                    let now = self.audio_ffts@[i as int];
                    assert(self.audio_ffts@ == pre.update(i as int, now));
                    assert forall|id: DescriptorId| #[trigger] find_entry(self.audio_ffts@, id)
                        == if pre[i as int].descriptor.id() == id {
                        Some(now)
                    } else {
                        find_entry(pre, id)
                    } by {
                        lemma_find_entry_update(pre, i as int, now, id);
                    }
                }
            },
            None => {
                self.prune_dead();
                let ghost pruned = self.audio_ffts@;
                let mut slot = GlobalStateComponent::new(*descriptor);
                slot.get_component();
                self.audio_ffts.push(slot);
                proof {
                    let added = self.audio_ffts@[self.audio_ffts@.len() - 1];
                    assert forall|id: DescriptorId| #[trigger] find_entry(self.audio_ffts@, id)
                        == match find_entry(pruned, id) {
                        Some(found) => Some(found),
                        None => if added.descriptor.id() == id {
                            Some(added)
                        } else {
                            None
                        },
                    } by {
                        lemma_find_entry_push(pruned, added, id);
                    }
                    // No pruned slot holds the new identity, so identities
                    // stay pairwise distinct.
                    lemma_find_entry_absent(pruned, descriptor.id());
                }
            },
        }
    }

    /// Gives one strong handle on this descriptor's component back.  With the
    /// last one released the component is destroyed; its slot stays until the
    /// next insertion prunes it.
    pub fn release_audio_fft(&mut self, descriptor: &GlobalStateAudioFFTDescriptor)
        requires
            old(self).wf(),
            match old(self).entry(descriptor.id()) {
                Some(found) => found.live(),
                None => false,
            },
        ensures
            final(self).wf(),
            match (old(self).entry(descriptor.id()), final(self).entry(descriptor.id())) {
                (Some(before), Some(now)) => {
                    &&& now.descriptor == before.descriptor
                    &&& now.strong_count == before.strong_count - 1
                    &&& (now.live() ==> now.component == before.component)
                    &&& (!now.live() ==> now.component is None)
                },
                _ => false,
            },
            forall|id: DescriptorId| id != descriptor.id() ==> #[trigger] find_entry(
                final(self).audio_ffts@,
                id,
            ) == find_entry(old(self).audio_ffts@, id),
    {
        let ghost pre = self.audio_ffts@;
        match self.lookup(descriptor) {
            Some(i) => {
                let slot = &mut self.audio_ffts[i];
                slot.release();
                proof {
                    let now = self.audio_ffts@[i as int];
                    assert(self.audio_ffts@ == pre.update(i as int, now));
                    assert forall|id: DescriptorId| #[trigger] find_entry(self.audio_ffts@, id)
                        == if pre[i as int].descriptor.id() == id {
                        Some(now)
                    } else {
                        find_entry(pre, id)
                    } by {
                        lemma_find_entry_update(pre, i as int, now, id);
                    }
                }
            },
            None => {
                proof {
                    assert(false);
                }
            },
        }
    }

    /// Hands one audio chunk to the component registered for this descriptor.
    pub fn process_audio_data(
        &mut self,
        descriptor: &GlobalStateAudioFFTDescriptor,
        samples: &Vec<num_complex::Complex32>,
        samples_per_frame: usize,
        framerate_numerator: usize,
        framerate_denominator: usize,
    )
        requires
            old(self).wf(),
            match old(self).entry(descriptor.id()) {
                Some(found) => found.live() && match found.component {
                    Some(c) => c.process_requires(samples@, samples_per_frame),
                    None => false,
                },
                None => false,
            },
        ensures
            final(self).wf(),
            match (old(self).entry(descriptor.id()), final(self).entry(descriptor.id())) {
                (Some(before), Some(now)) => {
                    &&& now.descriptor == before.descriptor
                    &&& now.strong_count == before.strong_count
                    &&& match (before.component, now.component) {
                        (Some(pre_c), Some(post_c)) => GlobalStateAudioFFT::process_ensures(
                            pre_c,
                            post_c,
                            samples@,
                            samples_per_frame,
                        ),
                        _ => false,
                    }
                },
                _ => false,
            },
            forall|id: DescriptorId| id != descriptor.id() ==> #[trigger] find_entry(
                final(self).audio_ffts@,
                id,
            ) == find_entry(old(self).audio_ffts@, id),
    {
        let ghost pre = self.audio_ffts@;
        match self.lookup(descriptor) {
            Some(i) => {
                let slot = &mut self.audio_ffts[i];
                slot.process_audio_data(
                    samples,
                    samples_per_frame,
                    framerate_numerator,
                    framerate_denominator,
                );
                proof {
                    let now = self.audio_ffts@[i as int];
                    assert(self.audio_ffts@ == pre.update(i as int, now));
                    assert forall|id: DescriptorId| #[trigger] find_entry(self.audio_ffts@, id)
                        == if pre[i as int].descriptor.id() == id {
                        Some(now)
                    } else {
                        find_entry(pre, id)
                    } by {
                        lemma_find_entry_update(pre, i as int, now, id);
                    }
                }
            },
            None => {
                proof {
                    assert(false);
                }
            },
        }
    }

    /// Pulls the latest result of the component registered for this
    /// descriptor and schedules its next batch.
    pub fn retrieve_result(&mut self, descriptor: &GlobalStateAudioFFTDescriptor) -> (r: Option<
        FFTResult,
    >)
        requires
            old(self).wf(),
            match old(self).entry(descriptor.id()) {
                Some(found) => found.live(),
                None => false,
            },
        ensures
            final(self).wf(),
            match (old(self).entry(descriptor.id()), final(self).entry(descriptor.id())) {
                (Some(before), Some(now)) => {
                    &&& now.descriptor == before.descriptor
                    &&& now.strong_count == before.strong_count
                    &&& match (before.component, now.component) {
                        (Some(pre_c), Some(post_c)) => GlobalStateAudioFFT::retrieve_ensures(
                            pre_c,
                            post_c,
                            r,
                        ),
                        _ => false,
                    }
                },
                _ => false,
            },
            forall|id: DescriptorId| id != descriptor.id() ==> #[trigger] find_entry(
                final(self).audio_ffts@,
                id,
            ) == find_entry(old(self).audio_ffts@, id),
    {
        let ghost pre = self.audio_ffts@;
        match self.lookup(descriptor) {
            Some(i) => {
                let slot = &mut self.audio_ffts[i];
                let r = slot.retrieve_result();
                proof {
                    let now = self.audio_ffts@[i as int];
                    assert(self.audio_ffts@ == pre.update(i as int, now));
                    assert forall|id: DescriptorId| #[trigger] find_entry(self.audio_ffts@, id)
                        == if pre[i as int].descriptor.id() == id {
                        Some(now)
                    } else {
                        find_entry(pre, id)
                    } by {
                        lemma_find_entry_update(pre, i as int, now, id);
                    }
                }
                r
            },
            None => {
                proof {
                    assert(false);
                }
                None
            },
        }
    }
}

} // verus!
