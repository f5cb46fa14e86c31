use vstd::prelude::*;
use crate::connection::{Connection, ConnectionType, connection_type_label, connection_type_named};
use crate::engine::{AudioEngine, EngineView, connections_without, lemma_remove_connection_exact};
use crate::network::NetworkStream;
use crate::rack::{Channel, Rack, RackId, rack_label};

verus! {

/// A connection as the user interface shows it.
#[derive(Debug)]
pub struct ConnectionState {
    pub source_rack: String,
    pub source_channel: u32,
    pub dest_rack: String,
    pub dest_channel: u32,
    pub connection_type: String,
    pub is_active: bool,
}

/// The format the engine runs at.
#[derive(Debug)]
pub struct EngineConfig {
    pub sample_rate: u32,
    pub bit_depth: u32,
    pub channels: u16,
}

/// Whether the engine runs, and its format.
#[derive(Debug)]
pub struct EngineStatus {
    pub is_running: bool,
    pub sample_rate: u32,
    pub bit_depth: u32,
    pub channels: u16,
}

/// Where the network stream goes and whether it runs.
#[derive(Debug)]
pub struct NetworkStreamConfig {
    pub host: String,
    pub port: u16,
    pub is_active: bool,
}

/// Whether the recorder records, and where it writes.
#[derive(Debug)]
pub struct RecordingStatus {
    pub is_recording: bool,
    pub output_dir: String,
}

/// `s` shows connection `c`.
pub open spec fn shows_connection(s: ConnectionState, c: Connection) -> bool {
    &&& s.source_rack@ == c.source_rack@
    &&& s.source_channel == c.source_channel
    &&& s.dest_rack@ == c.dest_rack@
    &&& s.dest_channel == c.dest_channel
    &&& s.connection_type@ == connection_type_label(c.connection_type)
    &&& s.is_active == c.is_active
}

/// How connection `c` is shown.
pub fn connection_state(c: &Connection) -> (s: ConnectionState)
    ensures
        shows_connection(s, *c),
{
    ConnectionState {
        source_rack: c.source_rack.clone(),
        source_channel: c.source_channel,
        dest_rack: c.dest_rack.clone(),
        dest_channel: c.dest_channel,
        connection_type: c.connection_type.to_string(),
        is_active: c.is_active,
    }
}

/// How the engine's connections are shown, in their order.
pub fn connection_states(engine: &AudioEngine) -> (r: Vec<ConnectionState>)
    ensures
        r@.len() == engine@.connections.len(),
        forall|i: int| 0 <= i < r@.len() ==> shows_connection(#[trigger] r@[i], engine@.connections[i]),
{
    let conns = engine.get_connections();
    let mut r: Vec<ConnectionState> = Vec::new();
    for i in 0..conns.len()
        invariant
            conns@ == engine@.connections,
            r@.len() == i,
            forall|k: int| 0 <= k < i ==> shows_connection(#[trigger] r@[k], conns@[k]),
    {
        r.push(connection_state(&conns[i]));
    }
    r
}

pub fn engine_config(engine: &AudioEngine) -> (c: EngineConfig)
    ensures
        c.sample_rate == engine@.sample_rate,
        c.bit_depth == engine@.bit_depth,
        c.channels == engine@.channels,
{
    EngineConfig {
        sample_rate: engine.get_sample_rate(),
        bit_depth: engine.get_bit_depth(),
        channels: engine.get_channel_count(),
    }
}

pub fn engine_status(engine: &AudioEngine) -> (s: EngineStatus)
    ensures
        s.is_running == engine@.is_running,
        s.sample_rate == engine@.sample_rate,
        s.bit_depth == engine@.bit_depth,
        s.channels == engine@.channels,
{
    EngineStatus {
        is_running: engine.is_running(),
        sample_rate: engine.get_sample_rate(),
        bit_depth: engine.get_bit_depth(),
        channels: engine.get_channel_count(),
    }
}

/// The first network stream of the engine, or, when it has none, a stream
/// to 127.0.0.1 port 6997 that does not run.
pub fn network_stream_config(engine: &AudioEngine) -> (c: NetworkStreamConfig)
    ensures
        engine@.network_streams.len() > 0 ==> {
            &&& c.host@ == engine@.network_streams[0].host@
            &&& c.port == engine@.network_streams[0].port
            &&& c.is_active == engine@.network_streams[0].is_active
        },
        engine@.network_streams.len() == 0 ==> {
            &&& c.host@ == "127.0.0.1"@
            &&& c.port == 6997
            &&& !c.is_active
        },
{
    let streams = engine.get_network_streams();
    let stream = if streams.len() > 0 {
        streams[0].duplicate()
    } else {
        NetworkStream::new(String::from_str("127.0.0.1"), 6997)
    };
    NetworkStreamConfig { host: stream.host, port: stream.port, is_active: stream.is_active }
}

pub fn recording_status(engine: &AudioEngine) -> (s: RecordingStatus)
    ensures
        s.is_recording == engine@.recorder.is_recording,
        s.output_dir@ == engine@.recorder.output_dir,
{
    RecordingStatus {
        is_recording: engine.is_recording(),
        output_dir: engine.get_recording_output_dir(),
    }
}

/// The racks that stand for ASIO drivers.
pub open spec fn is_driver_rack(id: RackId) -> bool {
    id == RackId::AsioDriverIn || id == RackId::AsioDriverOutMix || id == RackId::AsioHostInMix
}

/// The labels of the driver racks, in rack order.
pub open spec fn driver_labels(racks: Seq<Rack>) -> Seq<Seq<char>>
    decreases racks.len(),
{
    if racks.len() == 0 {
        Seq::empty()
    } else if is_driver_rack(racks.last().id) {
        driver_labels(racks.drop_last()).push(rack_label(racks.last().id))
    } else {
        driver_labels(racks.drop_last())
    }
}

/// The labels of the engine's driver racks, in rack order.
pub fn available_drivers(engine: &AudioEngine) -> (r: Vec<String>)
    ensures
        r@.map_values(|s: String| s@) == driver_labels(engine@.racks),
{
    let racks = engine.get_racks();
    let mut r: Vec<String> = Vec::new();
    for i in 0..racks.len()
        invariant
            racks@ == engine@.racks,
            r@.map_values(|s: String| s@) == driver_labels(racks@.take(i as int)),
    {
        assert(racks@.take(i + 1).drop_last() == racks@.take(i as int));
        let id = racks[i].id;
        if id == RackId::AsioDriverIn || id == RackId::AsioDriverOutMix || id
            == RackId::AsioHostInMix {
            let ghost before = r@;
            r.push(id.to_string());
            assert(r@.map_values(|s: String| s@) == before.map_values(|s: String| s@).push(
                rack_label(id),
            ));
        }
    }
    assert(racks@.take(racks@.len() as int) == racks@);
    r
}

/// An active connection asked for by the user; the type is read by
/// [`ConnectionType::from_name`].
pub fn connection_request(
    source_rack: String,
    source_channel: u32,
    dest_rack: String,
    dest_channel: u32,
    connection_type: &str,
) -> (c: Connection)
    ensures
        c.source_rack == source_rack,
        c.source_channel == source_channel,
        c.dest_rack == dest_rack,
        c.dest_channel == dest_channel,
        c.connection_type == connection_type_named(connection_type@),
        c.is_active,
{
    Connection {
        source_rack,
        source_channel,
        dest_rack,
        dest_channel,
        connection_type: ConnectionType::from_name(connection_type),
        is_active: true,
    }
}

/// `c` joins channel `sc` of the rack named `sr` to channel `dc` of the rack
/// named `dr`.
pub open spec fn joins(c: Connection, sr: Seq<char>, sc: u32, dr: Seq<char>, dc: u32) -> bool {
    c.source_rack@ == sr && c.source_channel == sc && c.dest_rack@ == dr && c.dest_channel == dc
}

/// The first connection that joins those channels, if any.
pub open spec fn first_joining(conns: Seq<Connection>, sr: Seq<char>, sc: u32, dr: Seq<char>, dc: u32) -> Option<
    Connection,
>
    decreases conns.len(),
{
    if conns.len() == 0 {
        None
    } else if joins(conns[0], sr, sc, dr, dc) {
        Some(conns[0])
    } else {
        first_joining(conns.drop_first(), sr, sc, dr, dc)
    }
}

/// `c` with its active flag flipped.
pub open spec fn toggled(c: Connection) -> Connection {
    Connection { is_active: !c.is_active, ..c }
}

fn find_joining(conns: &[Connection], sr: &String, sc: u32, dr: &String, dc: u32) -> (r: Option<
    Connection,
>)
    ensures
        r == first_joining(conns@, sr@, sc, dr@, dc),
{
    let n = conns.len();
    assert(conns@.skip(0) == conns@);
    for i in 0..n
        invariant
            n == conns@.len(),
            first_joining(conns@, sr@, sc, dr@, dc) == first_joining(conns@.skip(i as int), sr@, sc, dr@, dc),
    {
        let c = &conns[i];
        assert(conns@.skip(i as int)[0] == conns@[i as int]);
        assert(conns@.skip(i as int).drop_first() == conns@.skip(i + 1));
        if c.source_rack == *sr && c.source_channel == sc && c.dest_rack == *dr && c.dest_channel
            == dc {
            return Some(c.duplicate());
        }
    }
    assert(conns@.skip(n as int).len() == 0);
    None
}

/// Flips the first connection that joins channel `source_channel` of
/// `source_rack` to channel `dest_channel` of `dest_rack`: every connection
/// leaving that source channel is removed, and the flipped one is appended.
/// Without such a connection nothing changes.
pub fn toggle_connection(
    engine: &mut AudioEngine,
    source_rack: &str,
    source_channel: u32,
    dest_rack: &str,
    dest_channel: u32,
)
    requires
        old(engine).wf(),
    ensures
        final(engine).wf(),
        match first_joining(old(engine)@.connections, source_rack@, source_channel, dest_rack@, dest_channel) {
            Some(c) => final(engine)@ == (EngineView {
                connections: connections_without(
                    old(engine)@.connections,
                    source_rack@,
                    source_channel,
                ).push(toggled(c)),
                ..old(engine)@
            }),
            None => final(engine)@ == old(engine)@,
        },
{
    let sr = String::from_str(source_rack);
    let dr = String::from_str(dest_rack);
    let found = find_joining(engine.get_connections(), &sr, source_channel, &dr, dest_channel);
    match found {
        Some(conn) => {
            let mut updated = conn;
            updated.is_active = !updated.is_active;
            engine.remove_connection(source_rack, source_channel);
            engine.add_connection(updated);
        },
        None => {},
    }
}

proof fn lemma_first_joining_none(s: Seq<Connection>, sr: Seq<char>, sc: u32, dr: Seq<char>, dc: u32)
    requires
        forall|k: int| 0 <= k < s.len() ==> !joins(#[trigger] s[k], sr, sc, dr, dc),
    ensures
        first_joining(s, sr, sc, dr, dc) is None,
    decreases s.len(),
{
    if s.len() > 0 {
        assert(!joins(s[0], sr, sc, dr, dc));
        assert forall|k: int| 0 <= k < s.drop_first().len() implies !joins(
            #[trigger] s.drop_first()[k],
            sr,
            sc,
            dr,
            dc,
        ) by {
            assert(s.drop_first()[k] == s[k + 1]);
        }
        lemma_first_joining_none(s.drop_first(), sr, sc, dr, dc);
    }
}

proof fn lemma_first_joining_push(s: Seq<Connection>, x: Connection, sr: Seq<char>, sc: u32, dr: Seq<char>, dc: u32)
    requires
        first_joining(s, sr, sc, dr, dc) is None,
        joins(x, sr, sc, dr, dc),
    ensures
        first_joining(s.push(x), sr, sc, dr, dc) == Some(x),
    decreases s.len(),
{
    if s.len() > 0 {
        assert(s.push(x)[0] == s[0]);
        assert(s.push(x).drop_first() == s.drop_first().push(x));
        lemma_first_joining_push(s.drop_first(), x, sr, sc, dr, dc);
    } else {
        assert(s.push(x)[0] == x);
    }
}

/// Toggling the same connection twice gives it back its active flag; it
/// then comes last, after the connections that leave other channels.
pub proof fn lemma_toggle_twice(conns: Seq<Connection>, sr: Seq<char>, sc: u32, dr: Seq<char>, dc: u32)
    requires
        first_joining(conns, sr, sc, dr, dc) is Some,
    ensures
        ({
            let c = first_joining(conns, sr, sc, dr, dc)->Some_0;
            let once = connections_without(conns, sr, sc).push(toggled(c));
            &&& first_joining(once, sr, sc, dr, dc) == Some(toggled(c))
            &&& connections_without(once, sr, sc).push(toggled(toggled(c)))
                == connections_without(conns, sr, sc).push(c)
        }),
{
    let c = first_joining(conns, sr, sc, dr, dc)->Some_0;
    lemma_first_joining_is_joining(conns, sr, sc, dr, dc);
    let w = connections_without(conns, sr, sc);
    lemma_remove_connection_exact(conns, sr, sc);
    assert forall|k: int| 0 <= k < w.len() implies !joins(#[trigger] w[k], sr, sc, dr, dc) by {
        assert(!(w[k].source_rack@ == sr && w[k].source_channel == sc));
    }
    lemma_first_joining_none(w, sr, sc, dr, dc);
    lemma_first_joining_push(w, toggled(c), sr, sc, dr, dc);
    let once = w.push(toggled(c));
    assert(once.drop_last() == w);
    lemma_remove_connection_exact(w, sr, sc);
    assert(connections_without(once, sr, sc) == connections_without(w, sr, sc));
    assert(toggled(toggled(c)) == c);
}

proof fn lemma_first_joining_is_joining(conns: Seq<Connection>, sr: Seq<char>, sc: u32, dr: Seq<char>, dc: u32)
    ensures
        first_joining(conns, sr, sc, dr, dc) matches Some(c) ==> joins(c, sr, sc, dr, dc),
    decreases conns.len(),
{
    if conns.len() > 0 && !joins(conns[0], sr, sc, dr, dc) {
        lemma_first_joining_is_joining(conns.drop_first(), sr, sc, dr, dc);
    }
}

/// A channel as the user interface shows it; `level_bits` and `peak_bits`
/// are the bit patterns of its RMS and peak levels.
#[derive(Debug)]
pub struct ChannelState {
    pub id: u32,
    pub name: String,
    pub active: bool,
    pub level_bits: u32,
    pub peak_bits: u32,
}

/// A rack as the user interface shows it.
#[derive(Debug)]
pub struct RackState {
    pub id: String,
    pub name: String,
    pub channels: Vec<ChannelState>,
}

/// The (RMS, peak) level bits of channel `channel` of the rack labelled
/// `rack`: those of the first entry for it, zero (the bits of 0.0) when
/// there is none.
pub open spec fn level_of(levels: Seq<(String, u32, u32, u32)>, rack: Seq<char>, channel: u32) -> (
    u32,
    u32,
)
    decreases levels.len(),
{
    if levels.len() == 0 {
        (0u32, 0u32)
    } else if levels[0].0@ == rack && levels[0].1 == channel {
        (levels[0].2, levels[0].3)
    } else {
        level_of(levels.drop_first(), rack, channel)
    }
}

/// `s` shows channel `c` at levels `level`.
pub open spec fn shows_channel(s: ChannelState, c: Channel, level: (u32, u32)) -> bool {
    &&& s.id == c.id.0
    &&& s.name@ == c.name@
    &&& s.active == c.is_active
    &&& s.level_bits == level.0
    &&& s.peak_bits == level.1
}

/// `r` shows `rack`, its channel `j` at the levels kept for (label, `j`).
pub open spec fn shows_rack(r: RackState, rack: Rack, levels: Seq<(String, u32, u32, u32)>) -> bool {
    &&& r.id@ == rack_label(rack.id)
    &&& r.name@ == rack_label(rack.id)
    &&& r.channels@.len() == rack.channels@.len()
    &&& forall|j: int|
        0 <= j < rack.channels@.len() ==> shows_channel(
            #[trigger] r.channels@[j],
            rack.channels@[j],
            level_of(levels, rack_label(rack.id), j as u32),
        )
}

fn find_level(levels: &[(String, u32, u32, u32)], rack: &String, channel: u32) -> (r: (u32, u32))
    ensures
        r == level_of(levels@, rack@, channel),
{
    let n = levels.len();
    assert(levels@.skip(0) == levels@);
    for i in 0..n
        invariant
            n == levels@.len(),
            level_of(levels@, rack@, channel) == level_of(levels@.skip(i as int), rack@, channel),
    {
        assert(levels@.skip(i as int)[0] == levels@[i as int]);
        assert(levels@.skip(i as int).drop_first() == levels@.skip(i + 1));
        let entry = &levels[i];
        if entry.0 == *rack && entry.1 == channel {
            return (entry.2, entry.3);
        }
    }
    assert(levels@.skip(n as int).len() == 0);
    (0, 0)
}

/// How the engine's racks are shown, in rack order, with the levels kept
/// as (rack label, channel index, RMS bits, peak bits).
pub fn rack_states(engine: &AudioEngine, levels: &[(String, u32, u32, u32)]) -> (r: Vec<RackState>)
    ensures
        r@.len() == engine@.racks.len(),
        forall|i: int| 0 <= i < r@.len() ==> shows_rack(#[trigger] r@[i], engine@.racks[i], levels@),
{
    let racks = engine.get_racks();
    let mut r: Vec<RackState> = Vec::new();
    for i in 0..racks.len()
        invariant
            racks@ == engine@.racks,
            r@.len() == i,
            forall|k: int| 0 <= k < i ==> shows_rack(#[trigger] r@[k], racks@[k], levels@),
    {
        let rack = &racks[i];
        let label = rack.id.to_string();
        let mut channels: Vec<ChannelState> = Vec::new();
        for j in 0..rack.channels.len()
            invariant
                label@ == rack_label(rack.id),
                channels@.len() == j,
                forall|k: int|
                    0 <= k < j ==> shows_channel(
                        #[trigger] channels@[k],
                        rack.channels@[k],
                        level_of(levels@, rack_label(rack.id), k as u32),
                    ),
        {
            let ch = &rack.channels[j];
            let (rms, peak) = find_level(levels, &label, j as u32);
            channels.push(
                ChannelState {
                    id: ch.id.0,
                    name: ch.name.clone(),
                    active: ch.is_active,
                    level_bits: rms,
                    peak_bits: peak,
                },
            );
        }
        r.push(RackState { id: label.clone(), name: label, channels });
    }
    r
}

/// Toggling picks the first connection whose source rack, source channel,
/// destination rack and destination channel are all the requested ones;
/// when no connection has all four, it picks none.
pub proof fn lemma_toggle_picks_requested_connection(
    conns: Seq<Connection>,
    sr: Seq<char>,
    sc: u32,
    dr: Seq<char>,
    dc: u32,
)
    ensures
        first_joining(conns, sr, sc, dr, dc) matches Some(c) ==> exists|k: int|
            0 <= k < conns.len() && #[trigger] conns[k] == c && c.source_rack@ == sr
                && c.source_channel == sc && c.dest_rack@ == dr && c.dest_channel == dc
                && forall|j: int|
                0 <= j < k ==> !(conns[j].source_rack@ == sr && conns[j].source_channel == sc
                    && conns[j].dest_rack@ == dr && conns[j].dest_channel == dc),
        (exists|k: int|
            0 <= k < conns.len() && (#[trigger] conns[k]).source_rack@ == sr && conns[k].source_channel
                == sc && conns[k].dest_rack@ == dr && conns[k].dest_channel == dc) ==> first_joining(
            conns,
            sr,
            sc,
            dr,
            dc,
        ) is Some,
    decreases conns.len(),
{
    if conns.len() > 0 {
        let rest = conns.drop_first();
        lemma_toggle_picks_requested_connection(rest, sr, sc, dr, dc);
        if !joins(conns[0], sr, sc, dr, dc) {
            if first_joining(rest, sr, sc, dr, dc) is Some {
                let c = first_joining(rest, sr, sc, dr, dc)->Some_0;
                let k = choose|k: int|
                    0 <= k < rest.len() && #[trigger] rest[k] == c && c.source_rack@ == sr
                        && c.source_channel == sc && c.dest_rack@ == dr && c.dest_channel == dc
                        && forall|j: int|
                        0 <= j < k ==> !(rest[j].source_rack@ == sr && rest[j].source_channel == sc
                            && rest[j].dest_rack@ == dr && rest[j].dest_channel == dc);
                assert(conns[k + 1] == c);
                assert forall|j: int| 0 <= j < k + 1 implies !(conns[j].source_rack@ == sr
                    && conns[j].source_channel == sc && conns[j].dest_rack@ == dr
                    && conns[j].dest_channel == dc) by {
                    if j > 0 {
                        assert(conns[j] == rest[j - 1]);
                    }
                }
            }
            if exists|k: int|
                0 <= k < conns.len() && (#[trigger] conns[k]).source_rack@ == sr
                    && conns[k].source_channel == sc && conns[k].dest_rack@ == dr
                    && conns[k].dest_channel == dc {
                let k = choose|k: int|
                    0 <= k < conns.len() && (#[trigger] conns[k]).source_rack@ == sr
                        && conns[k].source_channel == sc && conns[k].dest_rack@ == dr
                        && conns[k].dest_channel == dc;
                assert(k > 0);
                assert(rest[k - 1] == conns[k]);
            }
        } else {
            assert(conns[0] == conns[0]);
        }
    }
}

} // verus!
