use vstd::prelude::*;
use crate::connection::Connection;
use crate::rack::Rack;

verus! {

/// The number of profile slots.
pub const SLOT_COUNT: usize = 8;

/// The value stored under `key` in a list of settings: that of the last
/// entry with that key, if any.
pub open spec fn setting_in(settings: Seq<(String, u64)>, key: Seq<char>) -> Option<u64>
    decreases settings.len(),
{
    if settings.len() == 0 {
        None
    } else if settings.last().0@ == key {
        Some(settings.last().1)
    } else {
        setting_in(settings.drop_last(), key)
    }
}

/// The entries of a list of settings whose key is not `key`, in order.
pub open spec fn without_setting(settings: Seq<(String, u64)>, key: Seq<char>) -> Seq<(String, u64)>
    decreases settings.len(),
{
    if settings.len() == 0 {
        settings
    } else if settings.last().0@ == key {
        without_setting(settings.drop_last(), key)
    } else {
        without_setting(settings.drop_last(), key).push(settings.last())
    }
}

proof fn lemma_without_setting(settings: Seq<(String, u64)>, key: Seq<char>, other: Seq<char>)
    requires
        other != key,
    ensures
        setting_in(without_setting(settings, key), other) == setting_in(settings, other),
        setting_in(without_setting(settings, key), key) is None,
    decreases settings.len(),
{
    if settings.len() > 0 {
        lemma_without_setting(settings.drop_last(), key, other);
        let w = without_setting(settings.drop_last(), key);
        if settings.last().0@ != key {
            assert(w.push(settings.last()).drop_last() == w);
        }
    }
}

proof fn lemma_without_absent_setting(settings: Seq<(String, u64)>, key: Seq<char>)
    requires
        setting_in(settings, key) is None,
    ensures
        without_setting(settings, key) == settings,
    decreases settings.len(),
{
    if settings.len() > 0 {
        lemma_without_absent_setting(settings.drop_last(), key);
        assert(settings.drop_last().push(settings.last()) == settings);
    }
}

/// A saved profile: a snapshot of racks and connections, and global settings
/// held as keyed numbers.
#[derive(Debug)]
pub struct Profile {
    pub name: String,
    pub racks: Vec<Rack>,
    pub connections: Vec<Connection>,
    pub global_settings: Vec<(String, u64)>,
}

impl Profile {
    /// An empty profile with the given name.
    pub fn new(name: String) -> (p: Profile)
        ensures
            p.name == name,
            p.racks@.len() == 0,
            p.connections@.len() == 0,
            p.global_settings@.len() == 0,
    {
        Profile { name, racks: Vec::new(), connections: Vec::new(), global_settings: Vec::new() }
    }

    /// The global setting stored under `key`.
    pub fn setting(&self, key: &str) -> (r: Option<u64>)
        ensures
            r == setting_in(self.global_settings@, key@),
    {
        let k = String::from_str(key);
        let mut i = self.global_settings.len();
        assert(self.global_settings@.take(i as int) == self.global_settings@);
        while i > 0
            invariant
                i <= self.global_settings@.len(),
                k@ == key@,
                setting_in(self.global_settings@, key@) == setting_in(
                    self.global_settings@.take(i as int),
                    key@,
                ),
            decreases i,
        {
            let entry = &self.global_settings[i - 1];
            assert(self.global_settings@.take(i as int).drop_last()
                == self.global_settings@.take(i - 1));
            if entry.0 == k {
                return Some(entry.1);
            }
            i = i - 1;
        }
        None
    }

    /// Stores `value` under `key`, replacing any value stored there before.
    pub fn set_setting(&mut self, key: &str, value: u64)
        ensures
            final(self).name == old(self).name,
            final(self).racks@ == old(self).racks@,
            final(self).connections@ == old(self).connections@,
            final(self).global_settings@.len() == without_setting(
                old(self).global_settings@,
                key@,
            ).len() + 1,
            final(self).global_settings@.drop_last() == without_setting(
                old(self).global_settings@,
                key@,
            ),
            final(self).global_settings@.last().0@ == key@,
            final(self).global_settings@.last().1 == value,
            setting_in(final(self).global_settings@, key@) == Some(value),
            setting_in(old(self).global_settings@, key@) is None ==> final(self).global_settings@.len()
                == old(self).global_settings@.len() + 1,
            forall|other: Seq<char>|
                other != key@ ==> setting_in(final(self).global_settings@, other) == setting_in(
                    old(self).global_settings@,
                    other,
                ),
    {
        let k = String::from_str(key);
        let ghost old_settings = self.global_settings@;
        let mut kept: Vec<(String, u64)> = Vec::new();
        let n = self.global_settings.len();
        for i in 0..n
            invariant
                n == self.global_settings@.len(),
                self.global_settings@ == old_settings,
                k@ == key@,
                kept@ == without_setting(old_settings.take(i as int), key@),
        {
            let entry = &self.global_settings[i];
            assert(old_settings.take(i + 1).drop_last() == old_settings.take(i as int));
            if !(entry.0 == k) {
                kept.push((entry.0.clone(), entry.1));
            }
        }
        assert(old_settings.take(n as int) == old_settings);
        kept.push((k, value));
        self.global_settings = kept;
        proof {
            let w = without_setting(old_settings, key@);
            assert(self.global_settings@.drop_last() == w);
            if setting_in(old_settings, key@) is None {
                lemma_without_absent_setting(old_settings, key@);
            }
            assert forall|other: Seq<char>| other != key@ implies setting_in(
                self.global_settings@,
                other,
            ) == setting_in(old_settings, other) by {
                lemma_without_setting(old_settings, key@, other);
            }
        }
    }
}

/// The slots after saving `p` into `slot`: slots from `SLOT_COUNT` on are
/// never written.
pub open spec fn slots_after_save(slots: Seq<Option<Profile>>, slot: int, p: Profile) -> Seq<
    Option<Profile>,
> {
    if slot < SLOT_COUNT {
        slots.update(slot, Some(p))
    } else {
        slots
    }
}

/// The slots after clearing `slot`.
pub open spec fn slots_after_clear(slots: Seq<Option<Profile>>, slot: int) -> Seq<Option<Profile>> {
    if slot < SLOT_COUNT {
        slots.update(slot, None)
    } else {
        slots
    }
}

/// The profile that `slot` holds, if it is a slot and holds one.
pub open spec fn profile_in(slots: Seq<Option<Profile>>, slot: int) -> Option<Profile> {
    if 0 <= slot < slots.len() {
        slots[slot]
    } else {
        None
    }
}

/// Eight profile slots.
#[derive(Debug)]
pub struct ProfileManager {
    pub slots: Vec<Option<Profile>>,
}

impl ProfileManager {
    /// Eight empty slots.
    pub fn new() -> (m: ProfileManager)
        ensures
            m.slots@.len() == SLOT_COUNT,
            forall|i: int| 0 <= i < SLOT_COUNT ==> #[trigger] m.slots@[i] is None,
    {
        let mut slots: Vec<Option<Profile>> = Vec::new();
        for i in 0..SLOT_COUNT
            invariant
                slots@.len() == i,
                forall|k: int| 0 <= k < i ==> #[trigger] slots@[k] is None,
        {
            slots.push(None);
        }
        ProfileManager { slots }
    }

    /// Stores `profile` in `slot`; a slot number from `SLOT_COUNT` on is ignored.
    pub fn save(&mut self, slot: usize, profile: Profile)
        requires
            slot < SLOT_COUNT ==> slot < old(self).slots@.len(),
        ensures
            final(self).slots@ == slots_after_save(old(self).slots@, slot as int, profile),
    {
        if slot < SLOT_COUNT {
            self.slots.set(slot, Some(profile));
        }
    }

    /// The profile held in `slot`, if any.
    pub fn load(&self, slot: usize) -> (r: Option<&Profile>)
        ensures
            match r {
                Some(p) => profile_in(self.slots@, slot as int) == Some(*p),
                None => profile_in(self.slots@, slot as int) is None,
            },
    {
        if slot < self.slots.len() {
            self.slots[slot].as_ref()
        } else {
            None
        }
    }

    /// Empties `slot`; a slot number from `SLOT_COUNT` on is ignored.
    pub fn clear_slot(&mut self, slot: usize)
        requires
            slot < SLOT_COUNT ==> slot < old(self).slots@.len(),
        ensures
            final(self).slots@ == slots_after_clear(old(self).slots@, slot as int),
    {
        if slot < SLOT_COUNT {
            self.slots.set(slot, None);
        }
    }
}

/// Loading a slot after saving a profile into it gives that profile.
pub proof fn lemma_load_after_save(slots: Seq<Option<Profile>>, slot: int, p: Profile)
    requires
        0 <= slot < SLOT_COUNT,
        slot < slots.len(),
    ensures
        profile_in(slots_after_save(slots, slot, p), slot) == Some(p),
{
}

/// Saving into one slot leaves every other slot as it was.
pub proof fn lemma_save_keeps_other_slots(
    slots: Seq<Option<Profile>>,
    slot: int,
    other: int,
    p: Profile,
)
    requires
        0 <= slot < slots.len(),
        slot != other,
    ensures
        profile_in(slots_after_save(slots, slot, p), other) == profile_in(slots, other),
{
}

/// A cleared slot holds no profile.
pub proof fn lemma_load_after_clear(slots: Seq<Option<Profile>>, slot: int)
    requires
        0 <= slot < SLOT_COUNT,
        slot < slots.len(),
    ensures
        profile_in(slots_after_clear(slots, slot), slot) is None,
{
}

} // verus!
