use vstd::prelude::*;
use crate::connection::{Connection, ConnectionType, duplicate_connections};
use crate::network::NetworkStream;
use crate::profile::{
    Profile, ProfileManager, SLOT_COUNT, profile_in, setting_in,
};
use crate::rack::{Channel, Rack, RackId, duplicate_racks, rack_label, lemma_rack_label_injective, same_rack};
use crate::recorder::{AudioRecorder, RecorderView};
use crate::resampler::Resampler;

verus! {

/// No two racks hold the same identifier.
pub open spec fn racks_unique(racks: Seq<Rack>) -> bool {
    forall|i: int, j: int|
        0 <= i < racks.len() && 0 <= j < racks.len() && i != j ==> racks[i].id != racks[j].id
}

pub open spec fn has_rack_id(racks: Seq<Rack>, id: RackId) -> bool {
    exists|i: int| 0 <= i < racks.len() && racks[i].id == id
}

pub open spec fn rack_id_index(racks: Seq<Rack>, id: RackId) -> int {
    choose|i: int| 0 <= i < racks.len() && racks[i].id == id
}

/// The racks after adding `rack`: it takes the place of the rack with its
/// identifier, if there is one, and comes last otherwise.
pub open spec fn racks_after_add(racks: Seq<Rack>, rack: Rack) -> Seq<Rack> {
    if has_rack_id(racks, rack.id) {
        racks.update(rack_id_index(racks, rack.id), rack)
    } else {
        racks.push(rack)
    }
}

pub open spec fn has_rack_named(racks: Seq<Rack>, name: Seq<char>) -> bool {
    exists|i: int| 0 <= i < racks.len() && rack_label(racks[i].id) == name
}

pub open spec fn rack_named_index(racks: Seq<Rack>, name: Seq<char>) -> int {
    choose|i: int| 0 <= i < racks.len() && rack_label(racks[i].id) == name
}

/// The racks after removing the one labelled `name`, if there is one.
pub open spec fn racks_after_remove(racks: Seq<Rack>, name: Seq<char>) -> Seq<Rack> {
    if has_rack_named(racks, name) {
        racks.remove(rack_named_index(racks, name))
    } else {
        racks
    }
}

/// The connections that do not leave channel `channel` of the rack named `rack`.
pub open spec fn connections_without(conns: Seq<Connection>, rack: Seq<char>, channel: u32) -> Seq<
    Connection,
>
    decreases conns.len(),
{
    if conns.len() == 0 {
        conns
    } else {
        let w = connections_without(conns.drop_last(), rack, channel);
        let c = conns.last();
        if c.source_rack@ == rack && c.source_channel == channel {
            w
        } else {
            w.push(c)
        }
    }
}

/// How a route moves samples.
#[derive(Debug, Clone, Copy, PartialEq, Eq, Structural)]
pub enum RouteKind {
    /// Input sample `source`, times the gain, is added to output sample
    /// `dest` after that sample is raised to at least zero; the level of the
    /// source channel sees input sample `source`.
    Single { source: usize, dest: usize },
    /// Each of the first `count` input samples, times the gain, is added to
    /// the output sample at the same index; the level of the source channel
    /// sees each of them in turn.
    Spread { count: usize },
}

/// One step of mixing the input into the output.
#[derive(Debug)]
pub struct Route {
    pub kind: RouteKind,
    /// Label of the rack whose channel level this route feeds.
    pub source_rack: String,
    pub source_channel: u32,
    /// IEEE-754 bit pattern of the gain (the source channel's level).
    pub gain_bits: u32,
}

/// What to do with one buffer of input samples.
#[derive(Debug)]
pub enum RoutePlan {
    /// The engine is stopped: the input is the output, nothing else happens.
    Bypass,
    /// No connection is active: the input is the output after the output
    /// normalisation, and the level of input channel `i` sees sample `i`.
    Passthrough,
    /// The output holds `num_channels` samples, zero at first; the routes
    /// are applied in order, then the output normalisation.
    Mix { num_channels: usize, routes: Vec<Route> },
}

/// The route that a connection gives for an input of `input_len` samples:
/// none unless it is active, both racks exist, both channels exist and are
/// active; none for a `Null` connection or, for a one-to-one connection,
/// when its source channel lies beyond the input.
pub open spec fn route_for(racks: Seq<Rack>, c: Connection, input_len: int) -> Option<Route> {
    if !c.is_active || !has_rack_named(racks, c.source_rack@) || !has_rack_named(
        racks,
        c.dest_rack@,
    ) {
        None
    } else {
        let s = racks[rack_named_index(racks, c.source_rack@)];
        let d = racks[rack_named_index(racks, c.dest_rack@)];
        if c.source_channel >= s.channels@.len() || c.dest_channel >= d.channels@.len() {
            None
        } else {
            let sc = s.channels@[c.source_channel as int];
            let dc = d.channels@[c.dest_channel as int];
            if !sc.is_active || !dc.is_active {
                None
            } else {
                match c.connection_type {
                    ConnectionType::Null => None,
                    ConnectionType::MultiClient => Some(
                        Route {
                            kind: RouteKind::Spread { count: input_len as usize },
                            source_rack: c.source_rack,
                            source_channel: c.source_channel,
                            gain_bits: sc.level_bits,
                        },
                    ),
                    _ => if c.source_channel < input_len {
                        Some(
                            Route {
                                kind: RouteKind::Single {
                                    source: c.source_channel as usize,
                                    dest: c.dest_channel as usize,
                                },
                                source_rack: c.source_rack,
                                source_channel: c.source_channel,
                                gain_bits: sc.level_bits,
                            },
                        )
                    } else {
                        None
                    },
                }
            }
        }
    }
}

/// The routes of all connections, in the order of the connections.
pub open spec fn routes_for(racks: Seq<Rack>, conns: Seq<Connection>, input_len: int) -> Seq<Route>
    decreases conns.len(),
{
    if conns.len() == 0 {
        Seq::empty()
    } else {
        let prev = routes_for(racks, conns.drop_last(), input_len);
        match route_for(racks, conns.last(), input_len) {
            Some(r) => prev.push(r),
            None => prev,
        }
    }
}

pub open spec fn any_active(conns: Seq<Connection>) -> bool {
    exists|i: int| 0 <= i < conns.len() && conns[i].is_active
}

/// `v` as a `u32` when present, `current` otherwise.
pub open spec fn restored_u32(current: u32, v: Option<u64>) -> u32 {
    match v {
        Some(x) => x as u32,
        None => current,
    }
}

/// `v` as a `u16` when present, `current` otherwise.
pub open spec fn restored_u16(current: u16, v: Option<u64>) -> u16 {
    match v {
        Some(x) => x as u16,
        None => current,
    }
}

/// Channel `c` at level `bits`.
pub open spec fn channel_with_level(c: Channel, bits: u32) -> Channel {
    Channel { level_bits: bits, ..c }
}

/// `new` is rack `old` whose first channels take the levels `levels`, one
/// each, as far as both go.
pub open spec fn rack_with_levels(old: Rack, new: Rack, levels: Seq<u32>) -> bool {
    &&& new.id == old.id
    &&& new.channels@.len() == old.channels@.len()
    &&& forall|i: int|
        0 <= i < old.channels@.len() ==> #[trigger] new.channels@[i] == (if i < levels.len() {
            channel_with_level(old.channels@[i], levels[i])
        } else {
            old.channels@[i]
        })
}

/// The name under which network audio looks up the rack whose channel
/// levels it sets. Racks are found by their labels, and no label is this
/// name (see `lemma_no_rack_is_network_in`), so network audio sets no level.
pub open spec fn network_in_name() -> Seq<char> {
    "network-in"@
}

/// `new` are the racks `old` after network audio `levels` arrived:
/// non-empty audio sets the levels of the rack named `network-in`, if there
/// is one; every other rack stays as it was.
pub open spec fn racks_after_network(old: Seq<Rack>, new: Seq<Rack>, levels: Seq<u32>) -> bool {
    if levels.len() > 0 && has_rack_named(old, network_in_name()) {
        let k = rack_named_index(old, network_in_name());
        &&& new.len() == old.len()
        &&& forall|j: int| 0 <= j < old.len() && j != k ==> new[j] == old[j]
        &&& rack_with_levels(old[k], new[k], levels)
    } else {
        new == old
    }
}

/// The state of an engine.
pub struct EngineView {
    pub racks: Seq<Rack>,
    pub connections: Seq<Connection>,
    pub slots: Seq<Option<Profile>>,
    pub network_streams: Seq<NetworkStream>,
    pub sample_rate: u32,
    pub bit_depth: u32,
    pub channels: u16,
    pub is_running: bool,
    pub resampler: (u32, u32, usize),
    pub recorder: RecorderView,
}

/// Every profile in `slots` holds racks with distinct identifiers.
pub open spec fn stored_racks_unique(slots: Seq<Option<Profile>>) -> bool {
    forall|k: int|
        0 <= k < slots.len() ==> (#[trigger] slots[k] matches Some(p) ==> racks_unique(p.racks@))
}

/// An engine state that its operations keep.
pub open spec fn engine_wf(e: EngineView) -> bool {
    racks_unique(e.racks) && e.slots.len() == SLOT_COUNT && stored_racks_unique(e.slots)
}

/// `p` is what saving under `name` in state `e` stores: the racks, the
/// connections, and exactly the settings `sample_rate`, `bit_depth` and
/// `channels`.
pub open spec fn profile_snapshot(p: Profile, e: EngineView, name: Seq<char>) -> bool {
    &&& p.name@ == name
    &&& p.racks@.len() == e.racks.len()
    &&& forall|i: int| 0 <= i < e.racks.len() ==> same_rack(#[trigger] p.racks@[i], e.racks[i])
    &&& p.connections@ == e.connections
    &&& p.global_settings@.len() == 3
    &&& setting_in(p.global_settings@, "sample_rate"@) == Some(e.sample_rate as u64)
    &&& setting_in(p.global_settings@, "bit_depth"@) == Some(e.bit_depth as u64)
    &&& setting_in(p.global_settings@, "channels"@) == Some(e.channels as u64)
}

/// What `save_profile(slot, name)` does, from state `old` to state `new`,
/// answering `saved`.
pub open spec fn save_profile_post(
    old: EngineView,
    new: EngineView,
    slot: int,
    name: Seq<char>,
    saved: bool,
) -> bool {
    &&& saved == (slot < SLOT_COUNT)
    &&& new == EngineView { slots: new.slots, ..old }
    &&& if slot < SLOT_COUNT {
        &&& new.slots.len() == old.slots.len()
        &&& forall|k: int| 0 <= k < old.slots.len() && k != slot ==> new.slots[k] == old.slots[k]
        &&& new.slots[slot] matches Some(p) && profile_snapshot(p, old, name)
    } else {
        new.slots == old.slots
    }
}

/// What `load_profile(slot)` does, from state `old` to state `new`,
/// answering `loaded`: a stored profile restores its racks (same
/// identifiers and channels, in order) and its connections, and those of the
/// three settings that it holds, cut to the setting's width.
pub open spec fn load_profile_post(old: EngineView, new: EngineView, slot: int, loaded: bool) -> bool {
    match profile_in(old.slots, slot) {
        Some(p) => {
            &&& loaded
            &&& new.racks.len() == p.racks@.len()
            &&& forall|i: int| 0 <= i < p.racks@.len() ==> same_rack(#[trigger] new.racks[i], p.racks@[i])
            &&& new == EngineView {
                racks: new.racks,
                connections: p.connections@,
                sample_rate: restored_u32(old.sample_rate, setting_in(p.global_settings@, "sample_rate"@)),
                bit_depth: restored_u32(old.bit_depth, setting_in(p.global_settings@, "bit_depth"@)),
                channels: restored_u16(old.channels, setting_in(p.global_settings@, "channels"@)),
                ..old
            }
        },
        None => !loaded && new == old,
    }
}

/// The routing engine: racks, connections, settings, profiles, network
/// stream settings and the recorder's state. It decides what happens to each
/// buffer of samples; the caller does the arithmetic on the samples.
pub struct AudioEngine {
    racks: Vec<Rack>,
    connections: Vec<Connection>,
    resampler: Resampler,
    profile_manager: ProfileManager,
    network_streams: Vec<NetworkStream>,
    sample_rate: u32,
    bit_depth: u32,
    channels: u16,
    is_running: bool,
    recorder: AudioRecorder,
}

impl View for AudioEngine {
    type V = EngineView;

    closed spec fn view(&self) -> EngineView {
        EngineView {
            racks: self.racks@,
            connections: self.connections@,
            slots: self.profile_manager.slots@,
            network_streams: self.network_streams@,
            sample_rate: self.sample_rate,
            bit_depth: self.bit_depth,
            channels: self.channels,
            is_running: self.is_running,
            resampler: self.resampler@,
            recorder: self.recorder@,
        }
    }
}

/// No rack is named `network-in`: network audio never changes a rack.
pub proof fn lemma_no_rack_is_network_in(racks: Seq<Rack>)
    ensures
        !has_rack_named(racks, network_in_name()),
{
    reveal_strlit("network-in");
    reveal_strlit("ASIO Driver IN");
    reveal_strlit("ASIO Driver OUT/MIX");
    reveal_strlit("ASIO Host IN/MIX");
    reveal_strlit("Network IN");
    reveal_strlit("Network OUT");
    reveal_strlit("Looper IN");
    reveal_strlit("Looper OUT");
    reveal_strlit("WDM IN");
    reveal_strlit("Mix OUT");
    assert forall|i: int| 0 <= i < racks.len() implies rack_label(racks[i].id)
        != network_in_name() by {
        if rack_label(racks[i].id) == network_in_name() {
            assert(rack_label(racks[i].id).len() == network_in_name().len());
            assert(rack_label(racks[i].id)[0] == network_in_name()[0]);
        }
    }
}

proof fn lemma_setting_keys_distinct()
    ensures
        "sample_rate"@ != "bit_depth"@,
        "sample_rate"@ != "channels"@,
        "bit_depth"@ != "channels"@,
{
    reveal_strlit("sample_rate");
    reveal_strlit("bit_depth");
    reveal_strlit("channels");
    assert("sample_rate"@.len() != "bit_depth"@.len());
    assert("sample_rate"@.len() != "channels"@.len());
    assert("bit_depth"@[0] != "channels"@[0]);
}

impl AudioEngine {
    /// The operations of the engine keep this.
    pub open spec fn wf(&self) -> bool {
        engine_wf(self@)
    }

    /// A stopped engine with no racks, connections or network streams, eight
    /// empty profile slots, a resampler from `sample_rate` to itself, and a
    /// recorder writing to `recordings` that does not record.
    pub fn new(sample_rate: u32, bit_depth: u32, channels: u16) -> (e: AudioEngine)
        ensures
            e.wf(),
            e@.racks.len() == 0,
            e@.connections.len() == 0,
            forall|i: int| 0 <= i < SLOT_COUNT ==> #[trigger] e@.slots[i] is None,
            e@.network_streams.len() == 0,
            e@.sample_rate == sample_rate,
            e@.bit_depth == bit_depth,
            e@.channels == channels,
            !e@.is_running,
            e@.resampler == (sample_rate, sample_rate, channels as usize),
            e@.recorder.output_dir == "recordings"@,
            !e@.recorder.is_recording,
            e@.recorder.sample_rate == sample_rate,
            e@.recorder.bit_depth == bit_depth,
            e@.recorder.channels == channels,
    {
        AudioEngine {
            racks: Vec::new(),
            connections: Vec::new(),
            resampler: Resampler::new(sample_rate, sample_rate, channels as usize),
            profile_manager: ProfileManager::new(),
            network_streams: Vec::new(),
            sample_rate,
            bit_depth,
            channels,
            is_running: false,
            recorder: AudioRecorder::new(
                String::from_str("recordings"),
                sample_rate,
                bit_depth,
                channels,
            ),
        }
    }

    fn rack_index_of(&self, id: RackId) -> (r: Option<usize>)
        requires
            racks_unique(self.racks@),
        ensures
            match r {
                Some(i) => has_rack_id(self.racks@, id) && i == rack_id_index(self.racks@, id),
                None => !has_rack_id(self.racks@, id),
            },
    {
        let n = self.racks.len();
        for i in 0..n
            invariant
                n == self.racks@.len(),
                racks_unique(self.racks@),
                forall|k: int| 0 <= k < i ==> self.racks@[k].id != id,
        {
            if self.racks[i].id == id {
                assert(has_rack_id(self.racks@, id));
                let ghost j = rack_id_index(self.racks@, id);
                assert(0 <= j < self.racks@.len() && self.racks@[j].id == id);
                assert(self.racks@[i as int].id == self.racks@[j].id);
                assert(i == j);
                return Some(i);
            }
        }
        None
    }

    fn rack_index_named(&self, name: &String) -> (r: Option<usize>)
        requires
            racks_unique(self.racks@),
        ensures
            match r {
                Some(i) => has_rack_named(self.racks@, name@) && i == rack_named_index(
                    self.racks@,
                    name@,
                ),
                None => !has_rack_named(self.racks@, name@),
            },
    {
        let n = self.racks.len();
        for i in 0..n
            invariant
                n == self.racks@.len(),
                racks_unique(self.racks@),
                forall|k: int| 0 <= k < i ==> rack_label(self.racks@[k].id) != name@,
        {
            let label = self.racks[i].id.to_string();
            if label == *name {
                assert(has_rack_named(self.racks@, name@));
                let ghost j = rack_named_index(self.racks@, name@);
                assert(0 <= j < self.racks@.len() && rack_label(self.racks@[j].id) == name@);
                proof {
                    lemma_rack_label_injective(self.racks@[i as int].id, self.racks@[j].id);
                }
                assert(self.racks@[i as int].id == self.racks@[j].id);
                assert(i == j);
                return Some(i);
            }
        }
        None
    }

    /// Adds a rack; it replaces the rack with the same identifier, if any.
    pub fn add_rack(&mut self, rack: Rack)
        requires
            old(self).wf(),
        ensures
            final(self).wf(),
            final(self)@ == (EngineView { racks: racks_after_add(old(self)@.racks, rack), ..old(self)@ }),
    {
        match self.rack_index_of(rack.id) {
            Some(i) => {
                self.racks.set(i, rack);
            },
            None => {
                self.racks.push(rack);
            },
        }
    }

    /// Removes the rack labelled `rack_id`, if there is one.
    pub fn remove_rack(&mut self, rack_id: &str)
        requires
            old(self).wf(),
        ensures
            final(self).wf(),
            final(self)@ == (EngineView {
                racks: racks_after_remove(old(self)@.racks, rack_id@),
                ..old(self)@
            }),
    {
        let name = String::from_str(rack_id);
        match self.rack_index_named(&name) {
            Some(i) => {
                let _removed = self.racks.remove(i);
            },
            None => {},
        }
    }

    /// Appends a connection.
    pub fn add_connection(&mut self, connection: Connection)
        requires
            old(self).wf(),
        ensures
            final(self).wf(),
            final(self)@ == (EngineView {
                connections: old(self)@.connections.push(connection),
                ..old(self)@
            }),
    {
        self.connections.push(connection);
    }

    /// Removes every connection that leaves channel `source_channel` of the
    /// rack named `source_rack`; the others keep their order.
    pub fn remove_connection(&mut self, source_rack: &str, source_channel: u32)
        requires
            old(self).wf(),
        ensures
            final(self).wf(),
            final(self)@ == (EngineView {
                connections: connections_without(
                    old(self)@.connections,
                    source_rack@,
                    source_channel,
                ),
                ..old(self)@
            }),
    {
        let name = String::from_str(source_rack);
        let ghost old_conns = self.connections@;
        let mut kept: Vec<Connection> = Vec::new();
        let n = self.connections.len();
        for i in 0..n
            invariant
                n == self.connections@.len(),
                self.connections@ == old_conns,
                name@ == source_rack@,
                kept@ == connections_without(old_conns.take(i as int), source_rack@, source_channel),
        {
            let c = &self.connections[i];
            assert(old_conns.take(i + 1).drop_last() == old_conns.take(i as int));
            if !(c.source_rack == name && c.source_channel == source_channel) {
                kept.push(c.duplicate());
            }
        }
        assert(old_conns.take(n as int) == old_conns);
        self.connections = kept;
    }

    pub fn get_connections(&self) -> (r: &[Connection])
        ensures
            r@ == self@.connections,
    {
        self.connections.as_slice()
    }

    pub fn get_racks(&self) -> (r: &[Rack])
        ensures
            r@ == self@.racks,
    {
        self.racks.as_slice()
    }
}

impl AudioEngine {
    /// Saves the racks, the connections and the sample rate, bit depth and
    /// channel count under `name` in `slot`; a slot number from
    /// `SLOT_COUNT` on stores nothing and answers `false`.
    pub fn save_profile(&mut self, slot: usize, name: &str) -> (saved: bool)
        requires
            old(self).wf(),
        ensures
            final(self).wf(),
            save_profile_post(old(self)@, final(self)@, slot as int, name@, saved),
    {
        let mut profile = Profile::new(String::from_str(name));
        profile.racks = duplicate_racks(&self.racks);
        profile.connections = duplicate_connections(&self.connections);
        proof {
            lemma_setting_keys_distinct();
        }
        profile.set_setting("sample_rate", self.sample_rate as u64);
        profile.set_setting("bit_depth", self.bit_depth as u64);
        profile.set_setting("channels", self.channels as u64);
        let ghost p = profile;
        assert(racks_unique(p.racks@)) by {
            assert forall|i: int, j: int|
                0 <= i < p.racks@.len() && 0 <= j < p.racks@.len() && i != j implies p.racks@[i].id
                != p.racks@[j].id by {
                assert(same_rack(p.racks@[i], old(self)@.racks[i]));
                assert(same_rack(p.racks@[j], old(self)@.racks[j]));
            }
        }
        assert(p.name@ == name@);
        assert(p.connections@ == old(self)@.connections);
        assert(p.global_settings@.len() == 3);
        assert(setting_in(p.global_settings@, "sample_rate"@) == Some(old(self)@.sample_rate as u64));
        assert(setting_in(p.global_settings@, "bit_depth"@) == Some(old(self)@.bit_depth as u64));
        assert(profile_snapshot(p, old(self)@, name@));
        self.profile_manager.save(slot, profile);
        slot < SLOT_COUNT
    }

    /// Restores, from the profile in `slot`, its racks and connections and
    /// those of the sample rate, bit depth and channel count that it holds;
    /// `false` when the slot holds no profile.
    pub fn load_profile(&mut self, slot: usize) -> (loaded: bool)
        requires
            old(self).wf(),
        ensures
            final(self).wf(),
            load_profile_post(old(self)@, final(self)@, slot as int, loaded),
    {
        match self.profile_manager.load(slot) {
            Some(profile) => {
                proof {
                    assert(old(self)@.slots[slot as int] == Some(*profile));
                }
                self.racks = duplicate_racks(&profile.racks);
                self.connections = duplicate_connections(&profile.connections);
                if let Some(rate) = profile.setting("sample_rate") {
                    self.sample_rate = rate as u32;
                }
                if let Some(depth) = profile.setting("bit_depth") {
                    self.bit_depth = depth as u32;
                }
                if let Some(count) = profile.setting("channels") {
                    self.channels = count as u16;
                }
                true
            },
            None => false,
        }
    }
}

impl AudioEngine {
    /// Keeps `stream` as the only network stream when it could be started
    /// (`started`); with no network stream otherwise. The streams that ran
    /// before are to be stopped by the caller first.
    pub fn add_network_stream(&mut self, stream: NetworkStream, started: bool)
        requires
            old(self).wf(),
        ensures
            final(self).wf(),
            final(self)@ == (EngineView {
                network_streams: if started { seq![stream] } else { Seq::empty() },
                ..old(self)@
            }),
    {
        self.network_streams.clear();
        if started {
            self.network_streams.push(stream);
        }
        assert(self.network_streams@ =~= (if started { seq![stream] } else { Seq::empty() }));
    }

    pub fn get_network_streams(&self) -> (r: &[NetworkStream])
        ensures
            r@ == self@.network_streams,
    {
        self.network_streams.as_slice()
    }

    /// Forgets every network stream.
    pub fn clear_network_streams(&mut self)
        requires
            old(self).wf(),
        ensures
            final(self).wf(),
            final(self)@ == (EngineView { network_streams: Seq::empty(), ..old(self)@ }),
    {
        self.network_streams.clear();
    }

    /// Starts the engine; starting a running engine changes nothing.
    pub fn start(&mut self)
        requires
            old(self).wf(),
        ensures
            final(self).wf(),
            final(self)@ == (EngineView { is_running: true, ..old(self)@ }),
    {
        if self.is_running {
            return;
        }
        self.is_running = true;
    }

    /// Stops the engine; stopping a stopped engine changes nothing.
    pub fn stop(&mut self)
        requires
            old(self).wf(),
        ensures
            final(self).wf(),
            final(self)@ == (EngineView { is_running: false, ..old(self)@ }),
    {
        if !self.is_running {
            return;
        }
        self.is_running = false;
    }

    pub fn is_running(&self) -> (r: bool)
        ensures
            r == self@.is_running,
    {
        self.is_running
    }

    /// Sets the sample rate; the resampler then converts from it to itself.
    pub fn set_sample_rate(&mut self, sample_rate: u32)
        requires
            old(self).wf(),
        ensures
            final(self).wf(),
            final(self)@ == (EngineView {
                sample_rate,
                resampler: (sample_rate, sample_rate, old(self)@.channels as usize),
                ..old(self)@
            }),
    {
        self.sample_rate = sample_rate;
        self.resampler = Resampler::new(sample_rate, sample_rate, self.channels as usize);
    }

    pub fn get_sample_rate(&self) -> (r: u32)
        ensures
            r == self@.sample_rate,
    {
        self.sample_rate
    }

    pub fn get_bit_depth(&self) -> (r: u32)
        ensures
            r == self@.bit_depth,
    {
        self.bit_depth
    }

    pub fn set_bit_depth(&mut self, bit_depth: u32)
        requires
            old(self).wf(),
        ensures
            final(self).wf(),
            final(self)@ == (EngineView { bit_depth, ..old(self)@ }),
    {
        self.bit_depth = bit_depth;
    }

    pub fn get_channel_count(&self) -> (r: u16)
        ensures
            r == self@.channels,
    {
        self.channels
    }

    pub fn get_resampler(&self) -> (r: &Resampler)
        ensures
            r@ == self@.resampler,
    {
        &self.resampler
    }

    /// Starts the recorder (see [`AudioRecorder::start_recording`]): the
    /// caller opens the recording file only when the recorder does not
    /// record yet, and says whether it could.
    pub fn start_recording(&mut self, file_opened: bool) -> (started: bool)
        requires
            old(self).wf(),
        ensures
            final(self).wf(),
            started == (!old(self)@.recorder.is_recording && file_opened),
            final(self)@ == (EngineView {
                recorder: RecorderView {
                    is_recording: old(self)@.recorder.is_recording || file_opened,
                    ..old(self)@.recorder
                },
                ..old(self)@
            }),
    {
        self.recorder.start_recording(file_opened)
    }

    /// Stops the recorder; `false` when it was not recording.
    pub fn stop_recording(&mut self) -> (stopped: bool)
        requires
            old(self).wf(),
        ensures
            final(self).wf(),
            stopped == old(self)@.recorder.is_recording,
            final(self)@ == (EngineView {
                recorder: RecorderView { is_recording: false, ..old(self)@.recorder },
                ..old(self)@
            }),
    {
        self.recorder.stop_recording()
    }

    pub fn is_recording(&self) -> (r: bool)
        ensures
            r == self@.recorder.is_recording,
    {
        self.recorder.is_recording()
    }

    pub fn get_recording_output_dir(&self) -> (d: String)
        ensures
            d@ == self@.recorder.output_dir,
    {
        self.recorder.get_output_dir()
    }

    pub fn get_recorder(&self) -> (r: &AudioRecorder)
        ensures
            r@ == self@.recorder,
    {
        &self.recorder
    }
}

impl AudioEngine {
    fn route_for_connection(&self, c: &Connection, input_len: usize) -> (r: Option<Route>)
        requires
            racks_unique(self.racks@),
        ensures
            r == route_for(self.racks@, *c, input_len as int),
    {
        if !c.is_active {
            return None;
        }
        let si = match self.rack_index_named(&c.source_rack) {
            Some(i) => i,
            None => {
                return None;
            },
        };
        let di = match self.rack_index_named(&c.dest_rack) {
            Some(i) => i,
            None => {
                return None;
            },
        };
        let src = c.source_channel as usize;
        let dst = c.dest_channel as usize;
        if src >= self.racks[si].channels.len() {
            return None;
        }
        if dst >= self.racks[di].channels.len() {
            return None;
        }
        let sc = &self.racks[si].channels[src];
        let dc = &self.racks[di].channels[dst];
        if !sc.is_active || !dc.is_active {
            return None;
        }
        match c.connection_type {
            ConnectionType::Null => None,
            ConnectionType::MultiClient => Some(
                Route {
                    kind: RouteKind::Spread { count: input_len },
                    source_rack: c.source_rack.clone(),
                    source_channel: c.source_channel,
                    gain_bits: sc.level_bits,
                },
            ),
            _ => {
                if src < input_len {
                    Some(
                        Route {
                            kind: RouteKind::Single { source: src, dest: dst },
                            source_rack: c.source_rack.clone(),
                            source_channel: c.source_channel,
                            gain_bits: sc.level_bits,
                        },
                    )
                } else {
                    None
                }
            },
        }
    }

    /// The routes of the connections for an input of `input_len` samples.
    pub fn routes(&self, input_len: usize) -> (routes: Vec<Route>)
        requires
            self.wf(),
        ensures
            routes@ == routes_for(self@.racks, self@.connections, input_len as int),
    {
        let mut routes: Vec<Route> = Vec::new();
        let n = self.connections.len();
        for i in 0..n
            invariant
                n == self.connections@.len(),
                racks_unique(self.racks@),
                routes@ == routes_for(self.racks@, self.connections@.take(i as int), input_len as int),
        {
            assert(self.connections@.take(i + 1).drop_last() == self.connections@.take(i as int));
            match self.route_for_connection(&self.connections[i], input_len) {
                Some(r) => {
                    routes.push(r);
                },
                None => {},
            }
        }
        assert(self.connections@.take(n as int) == self.connections@);
        routes
    }

    fn has_active_connection(&self) -> (r: bool)
        ensures
            r == any_active(self@.connections),
    {
        let n = self.connections.len();
        for i in 0..n
            invariant
                n == self.connections@.len(),
                forall|k: int| 0 <= k < i ==> !self.connections@[k].is_active,
        {
            if self.connections[i].is_active {
                return true;
            }
        }
        false
    }

    /// Sets the levels of the channels of the rack named `network-in` from
    /// non-empty network audio (see [`racks_after_network`]).
    fn apply_network_levels(&mut self, levels: &[u32])
        requires
            old(self).wf(),
        ensures
            final(self).wf(),
            final(self)@ == (EngineView { racks: final(self)@.racks, ..old(self)@ }),
            racks_after_network(old(self)@.racks, final(self)@.racks, levels@),
    {
        if levels.len() == 0 {
            return;
        }
        let name = String::from_str("network-in");
        match self.rack_index_named(&name) {
            Some(idx) => {
                let ghost before = self.racks@;
                let ghost old_rack = self.racks@[idx as int];
                let mut rack = self.racks.remove(idx);
                let count = if levels.len() < rack.channels.len() {
                    levels.len()
                } else {
                    rack.channels.len()
                };
                for i in 0..count
                    invariant
                        count <= levels@.len(),
                        count == levels@.len() || count == old_rack.channels@.len(),
                        count <= old_rack.channels@.len(),
                        rack.id == old_rack.id,
                        rack.channels@.len() == old_rack.channels@.len(),
                        forall|j: int|
                            0 <= j < old_rack.channels@.len() ==> #[trigger] rack.channels@[j] == (if j
                                < i {
                                channel_with_level(old_rack.channels@[j], levels@[j])
                            } else {
                                old_rack.channels@[j]
                            }),
                {
                    let mut ch = rack.channels[i].duplicate();
                    ch.level_bits = levels[i];
                    rack.channels.set(i, ch);
                }
                assert(rack_with_levels(old_rack, rack, levels@));
                self.racks.insert(idx, rack);
                assert(self.racks@ =~= before.update(idx as int, rack));
                assert(racks_unique(self.racks@)) by {
                    assert forall|i: int, j: int|
                        0 <= i < self.racks@.len() && 0 <= j < self.racks@.len() && i != j implies self.racks@[i].id
                        != self.racks@[j].id by {
                        assert(self.racks@[i].id == before[i].id);
                        assert(self.racks@[j].id == before[j].id);
                    }
                }
            },
            None => {},
        }
    }

    /// Decides what happens to one buffer of `input_len` input samples, the
    /// network audio (as bit patterns) being `network_levels`. A stopped
    /// engine bypasses. A running one first sets the levels of the rack
    /// named `network-in` from non-empty network audio (no rack carries that
    /// label, so no rack changes), then passes the input through when no
    /// connection is active, and mixes along the routes of the connections
    /// into `max(input_len, channels)` samples otherwise.
    pub fn route_audio(&mut self, input_len: usize, network_levels: &[u32]) -> (plan: RoutePlan)
        requires
            old(self).wf(),
        ensures
            final(self).wf(),
            final(self)@ == old(self)@,
            !old(self)@.is_running ==> plan is Bypass,
            old(self)@.is_running ==> racks_after_network(
                old(self)@.racks,
                final(self)@.racks,
                network_levels@,
            ),
            old(self)@.is_running && !any_active(old(self)@.connections) ==> plan is Passthrough,
            old(self)@.is_running && any_active(old(self)@.connections) ==> match plan {
                RoutePlan::Mix { num_channels, routes } => {
                    &&& num_channels == (if input_len >= old(self)@.channels {
                        input_len
                    } else {
                        old(self)@.channels as usize
                    })
                    &&& routes@ == routes_for(
                        old(self)@.racks,
                        old(self)@.connections,
                        input_len as int,
                    )
                },
                _ => false,
            },
    {
        if !self.is_running {
            return RoutePlan::Bypass;
        }
        proof {
            lemma_no_rack_is_network_in(self.racks@);
        }
        self.apply_network_levels(network_levels);
        if !self.has_active_connection() {
            return RoutePlan::Passthrough;
        }
        let channels = self.channels as usize;
        let num_channels = if input_len >= channels {
            input_len
        } else {
            channels
        };
        RoutePlan::Mix { num_channels, routes: self.routes(input_len) }
    }
}

/// A profile slot gives back the configuration saved into it: the racks
/// (same identifiers and channels, in order), the connections, the sample
/// rate, bit depth and channel count, whatever else happened in between as
/// long as the slots stayed as they were.
pub proof fn lemma_load_restores_saved_configuration(
    e0: EngineView,
    e1: EngineView,
    e2: EngineView,
    e3: EngineView,
    slot: int,
    name: Seq<char>,
    saved: bool,
    loaded: bool,
)
    requires
        engine_wf(e0),
        0 <= slot < SLOT_COUNT,
        save_profile_post(e0, e1, slot, name, saved),
        e2.slots == e1.slots,
        load_profile_post(e2, e3, slot, loaded),
    ensures
        saved,
        loaded,
        e3.sample_rate == e0.sample_rate,
        e3.bit_depth == e0.bit_depth,
        e3.channels == e0.channels,
        e3.connections == e0.connections,
        e3.racks.len() == e0.racks.len(),
        forall|i: int| 0 <= i < e0.racks.len() ==> same_rack(#[trigger] e3.racks[i], e0.racks[i]),
{
    let p = e1.slots[slot]->Some_0;
    assert(profile_in(e2.slots, slot) == Some(p));
    assert forall|i: int| 0 <= i < e0.racks.len() implies same_rack(#[trigger] e3.racks[i], e0.racks[i]) by {
        assert(same_rack(e3.racks[i], p.racks@[i]));
        assert(same_rack(p.racks@[i], e0.racks[i]));
    }
}

/// Loading a slot that holds no profile answers `false` and changes nothing.
pub proof fn lemma_load_empty_slot(e0: EngineView, e1: EngineView, slot: int, loaded: bool)
    requires
        profile_in(e0.slots, slot) is None,
        load_profile_post(e0, e1, slot, loaded),
    ensures
        !loaded,
        e1 == e0,
{
}

/// After adding a rack, looking up its label finds that rack, and the
/// lookup of every other label finds what it found before; identifiers stay
/// unique.
pub proof fn lemma_add_rack_then_lookup(racks: Seq<Rack>, rack: Rack, other: Seq<char>)
    requires
        racks_unique(racks),
        other != rack_label(rack.id),
    ensures
        racks_unique(racks_after_add(racks, rack)),
        has_rack_named(racks_after_add(racks, rack), rack_label(rack.id)),
        racks_after_add(racks, rack)[rack_named_index(racks_after_add(racks, rack), rack_label(rack.id))]
            == rack,
        has_rack_named(racks_after_add(racks, rack), other) == has_rack_named(racks, other),
        has_rack_named(racks, other) ==> racks_after_add(racks, rack)[rack_named_index(
            racks_after_add(racks, rack),
            other,
        )] == racks[rack_named_index(racks, other)],
{
    let after = racks_after_add(racks, rack);
    let label = rack_label(rack.id);
    let pos = if has_rack_id(racks, rack.id) {
        rack_id_index(racks, rack.id)
    } else {
        racks.len() as int
    };
    assert(after[pos] == rack);
    assert(has_rack_named(after, label));
    let j = rack_named_index(after, label);
    lemma_rack_label_injective(after[j].id, rack.id);
    assert(j == pos);
    if has_rack_named(after, other) {
        let k = rack_named_index(after, other);
        assert(k != pos);
        assert(0 <= k < racks.len() && racks[k] == after[k]);
        assert(has_rack_named(racks, other));
    }
    if has_rack_named(racks, other) {
        let k = rack_named_index(racks, other);
        assert(k != pos);
        assert(after[k] == racks[k]);
        assert(has_rack_named(after, other));
        let k2 = rack_named_index(after, other);
        lemma_rack_label_injective(after[k2].id, after[k].id);
        assert(k2 == k);
    }
}

/// After removing the rack labelled `name`, no rack carries that label.
pub proof fn lemma_remove_rack_then_absent(racks: Seq<Rack>, name: Seq<char>)
    requires
        racks_unique(racks),
    ensures
        racks_unique(racks_after_remove(racks, name)),
        !has_rack_named(racks_after_remove(racks, name), name),
{
    if has_rack_named(racks, name) {
        let i = rack_named_index(racks, name);
        let after = racks.remove(i);
        assert forall|k: int| 0 <= k < after.len() implies rack_label(after[k].id) != name by {
            let k0 = if k < i { k } else { k + 1 };
            assert(after[k] == racks[k0]);
            lemma_rack_label_injective(racks[k0].id, racks[i].id);
        }
    }
}

/// After `remove_connection(rack, channel)` no connection leaves that
/// channel of that rack, and every other connection is kept, in order.
pub proof fn lemma_remove_connection_exact(conns: Seq<Connection>, rack: Seq<char>, channel: u32)
    ensures
        forall|k: int|
            0 <= k < connections_without(conns, rack, channel).len() ==> !(
            #[trigger] connections_without(conns, rack, channel)[k].source_rack@ == rack
                && connections_without(conns, rack, channel)[k].source_channel == channel),
        (forall|k: int|
            0 <= k < conns.len() ==> !(#[trigger] conns[k].source_rack@ == rack
                && conns[k].source_channel == channel)) ==> connections_without(conns, rack, channel)
            == conns,
    decreases conns.len(),
{
    if conns.len() > 0 {
        lemma_remove_connection_exact(conns.drop_last(), rack, channel);
        if forall|k: int|
            0 <= k < conns.len() ==> !(#[trigger] conns[k].source_rack@ == rack
                && conns[k].source_channel == channel) {
            assert(forall|k: int|
                0 <= k < conns.drop_last().len() ==> !(#[trigger] conns.drop_last()[k].source_rack@
                    == rack && conns.drop_last()[k].source_channel == channel));
            assert(conns.drop_last().push(conns.last()) == conns);
        }
    }
}

/// Route `r` moves audio for connection `c` over racks `racks` and an input
/// of `input_len` samples: `c` is active and not `Null`; its source rack
/// exists and has its source channel; `r` names that source and carries the
/// level of that source channel as its gain; and `r` takes input sample
/// `source_channel` into output sample `dest_channel`, or, for a
/// multi-client connection, spreads the whole input.
pub open spec fn route_serves(racks: Seq<Rack>, c: Connection, r: Route, input_len: int) -> bool {
    &&& c.is_active
    &&& c.connection_type != ConnectionType::Null
    &&& r.source_rack == c.source_rack
    &&& r.source_channel == c.source_channel
    &&& exists|j: int|
        0 <= j < racks.len() && rack_label(#[trigger] racks[j].id) == c.source_rack@
            && c.source_channel < racks[j].channels@.len() && r.gain_bits
            == racks[j].channels@[c.source_channel as int].level_bits
    &&& if c.connection_type == ConnectionType::MultiClient {
        r.kind == RouteKind::Spread { count: input_len as usize }
    } else {
        &&& c.source_channel < input_len
        &&& r.kind == RouteKind::Single {
            source: c.source_channel as usize,
            dest: c.dest_channel as usize,
        }
    }
}

proof fn lemma_route_for_serves(racks: Seq<Rack>, c: Connection, input_len: int)
    ensures
        route_for(racks, c, input_len) matches Some(r) ==> route_serves(racks, c, r, input_len),
{
    if route_for(racks, c, input_len) is Some {
        let j = rack_named_index(racks, c.source_rack@);
        assert(0 <= j < racks.len() && rack_label(racks[j].id) == c.source_rack@);
    }
}

/// Each route of a buffer serves one connection, in connection order: the
/// gain of a route is the level of its connection's source channel, whatever
/// the destination channel's level.
pub proof fn lemma_routes_serve_connections(racks: Seq<Rack>, conns: Seq<Connection>, input_len: int)
    ensures
        forall|i: int|
            #![trigger routes_for(racks, conns, input_len)[i]]
            0 <= i < routes_for(racks, conns, input_len).len() ==> exists|k: int|
                0 <= k < conns.len() && route_serves(
                    racks,
                    #[trigger] conns[k],
                    routes_for(racks, conns, input_len)[i],
                    input_len,
                ),
    decreases conns.len(),
{
    if conns.len() > 0 {
        let prev_conns = conns.drop_last();
        lemma_routes_serve_connections(racks, prev_conns, input_len);
        lemma_route_for_serves(racks, conns.last(), input_len);
        let rs = routes_for(racks, conns, input_len);
        let prev = routes_for(racks, prev_conns, input_len);
        assert forall|i: int| #![trigger rs[i]] 0 <= i < rs.len() implies exists|k: int|
            0 <= k < conns.len() && route_serves(racks, #[trigger] conns[k], rs[i], input_len) by {
            if i < prev.len() {
                assert(rs[i] == prev[i]);
                let k = choose|k: int|
                    0 <= k < prev_conns.len() && route_serves(
                        racks,
                        #[trigger] prev_conns[k],
                        prev[i],
                        input_len,
                    );
                assert(conns[k] == prev_conns[k]);
            } else {
                assert(conns[conns.len() - 1] == conns.last());
            }
        }
    }
}

/// A connection whose racks and channels exist and are active, that is not
/// `Null`, and (unless multi-client) whose source channel lies within the
/// input, gives a route, and that route carries the level of its source
/// channel.
pub proof fn lemma_routable_connection_routes(racks: Seq<Rack>, c: Connection, input_len: int)
    requires
        racks_unique(racks),
        c.is_active,
        c.connection_type != ConnectionType::Null,
        c.connection_type != ConnectionType::MultiClient ==> c.source_channel < input_len,
        exists|s: int| 0 <= s < racks.len() && rack_label(#[trigger] racks[s].id) == c.source_rack@
            && c.source_channel < racks[s].channels@.len()
            && racks[s].channels@[c.source_channel as int].is_active,
        exists|d: int| 0 <= d < racks.len() && rack_label(#[trigger] racks[d].id) == c.dest_rack@
            && c.dest_channel < racks[d].channels@.len()
            && racks[d].channels@[c.dest_channel as int].is_active,
    ensures
        route_for(racks, c, input_len) matches Some(r) && route_serves(racks, c, r, input_len),
{
    let s = choose|s: int| 0 <= s < racks.len() && rack_label(#[trigger] racks[s].id) == c.source_rack@
        && c.source_channel < racks[s].channels@.len()
        && racks[s].channels@[c.source_channel as int].is_active;
    let d = choose|d: int| 0 <= d < racks.len() && rack_label(#[trigger] racks[d].id) == c.dest_rack@
        && c.dest_channel < racks[d].channels@.len()
        && racks[d].channels@[c.dest_channel as int].is_active;
    assert(has_rack_named(racks, c.source_rack@));
    assert(has_rack_named(racks, c.dest_rack@));
    let si = rack_named_index(racks, c.source_rack@);
    let di = rack_named_index(racks, c.dest_rack@);
    lemma_rack_label_injective(racks[si].id, racks[s].id);
    lemma_rack_label_injective(racks[di].id, racks[d].id);
    assert(si == s);
    assert(di == d);
    lemma_route_for_serves(racks, c, input_len);
}

/// Removing the rack labelled `name` takes out that one rack and keeps
/// every other rack, in order; without such a rack nothing changes.
pub proof fn lemma_remove_rack_keeps_others(racks: Seq<Rack>, name: Seq<char>)
    requires
        racks_unique(racks),
    ensures
        !has_rack_named(racks, name) ==> racks_after_remove(racks, name) == racks,
        has_rack_named(racks, name) ==> {
            &&& racks_after_remove(racks, name).len() == racks.len() - 1
            &&& exists|k: int|
                0 <= k < racks.len() && rack_label(racks[k].id) == name && forall|a: int|
                    0 <= a < racks.len() - 1 ==> #[trigger] racks_after_remove(racks, name)[a]
                        == racks[if a < k {
                        a
                    } else {
                        a + 1
                    }]
        },
        forall|i: int|
            0 <= i < racks.len() && rack_label(racks[i].id) != name ==> exists|a: int|
                0 <= a < racks_after_remove(racks, name).len()
                    && #[trigger] racks_after_remove(racks, name)[a] == racks[i],
{
    let after = racks_after_remove(racks, name);
    if has_rack_named(racks, name) {
        let k = rack_named_index(racks, name);
        assert forall|a: int| 0 <= a < racks.len() - 1 implies #[trigger] after[a] == racks[if a < k {
            a
        } else {
            a + 1
        }] by {}
        assert forall|i: int| 0 <= i < racks.len() && rack_label(racks[i].id) != name implies exists|a: int|
            0 <= a < after.len() && #[trigger] after[a] == racks[i] by {
            let a = if i < k { i } else { i - 1 };
            assert(after[a] == racks[i]);
        }
    } else {
        assert forall|i: int| 0 <= i < racks.len() && rack_label(racks[i].id) != name implies exists|a: int|
            0 <= a < after.len() && #[trigger] after[a] == racks[i] by {
            assert(after[i] == racks[i]);
        }
    }
}

} // verus!
