use asiobridge_core::connection::{Connection, ConnectionType};
use asiobridge_core::control::{
    available_drivers, connection_request, connection_states, engine_config, engine_status,
    network_stream_config, rack_states, recording_status, toggle_connection,
};
use asiobridge_core::engine::AudioEngine;
use asiobridge_core::network::NetworkStream;
use asiobridge_core::rack::{Channel, ChannelId, Rack, RackId};

fn engine_with_racks() -> AudioEngine {
    let mut e = AudioEngine::new(48000, 16, 4);
    for id in [RackId::MixOut, RackId::AsioHostInMix, RackId::WdmIn, RackId::AsioDriverIn] {
        e.add_rack(Rack::new(id, Vec::new()));
    }
    e
}

#[test]
fn drivers_in_rack_order() {
    let e = engine_with_racks();
    assert_eq!(available_drivers(&e), vec!["ASIO Host IN/MIX".to_string(), "ASIO Driver IN".to_string()]);
}

#[test]
fn status_views() {
    let mut e = engine_with_racks();
    e.start();
    let c = engine_config(&e);
    assert_eq!((c.sample_rate, c.bit_depth, c.channels), (48000, 16, 4));
    let s = engine_status(&e);
    assert_eq!((s.is_running, s.sample_rate, s.bit_depth, s.channels), (true, 48000, 16, 4));
    let r = recording_status(&e);
    assert!(!r.is_recording);
    assert_eq!(r.output_dir, "recordings");
    let n = network_stream_config(&e);
    assert_eq!((n.host.as_str(), n.port, n.is_active), ("127.0.0.1", 6997, false));
    e.add_network_stream(NetworkStream::new("10.1.1.1".to_string(), 9000), true);
    let n = network_stream_config(&e);
    assert_eq!((n.host.as_str(), n.port, n.is_active), ("10.1.1.1", 9000, false));
}

#[test]
fn connection_requests_and_states() {
    let mut e = engine_with_racks();
    e.add_connection(connection_request("Mix OUT".to_string(), 1, "WDM IN".to_string(), 2, "MultiClient"));
    e.add_connection(connection_request("Mix OUT".to_string(), 2, "WDM IN".to_string(), 3, "Nope"));
    let states = connection_states(&e);
    assert_eq!(states.len(), 2);
    assert_eq!(states[0].connection_type, "Multi-Client");
    assert_eq!(states[1].connection_type, "Direct");
    assert!(states[0].is_active);
    assert_eq!(states[1].dest_channel, 3);
}

#[test]
fn toggle_moves_flipped_connection_last() {
    let mut e = engine_with_racks();
    let c = |sc: u32, dc: u32| Connection {
        source_rack: "A".to_string(),
        source_channel: sc,
        dest_rack: "B".to_string(),
        dest_channel: dc,
        connection_type: ConnectionType::Vst,
        is_active: true,
    };
    e.add_connection(c(0, 0));
    e.add_connection(c(1, 1));
    e.add_connection(c(0, 5));
    toggle_connection(&mut e, "A", 0, "B", 5);
    let conns = e.get_connections();
    assert_eq!(conns.len(), 2);
    assert_eq!((conns[0].source_channel, conns[0].is_active), (1, true));
    assert_eq!((conns[1].dest_channel, conns[1].is_active), (5, false));
    toggle_connection(&mut e, "A", 7, "B", 5);
    assert_eq!(e.get_connections().len(), 2);
}

#[test]
fn toggle_twice_restores_flag() {
    let mut e = engine_with_racks();
    e.add_connection(connection_request("A".to_string(), 0, "B".to_string(), 1, "Vst"));
    e.add_connection(connection_request("A".to_string(), 2, "B".to_string(), 1, "Vst"));
    toggle_connection(&mut e, "A", 0, "B", 1);
    assert!(!e.get_connections()[1].is_active);
    toggle_connection(&mut e, "A", 0, "B", 1);
    let conns = e.get_connections();
    assert_eq!(conns.len(), 2);
    assert_eq!(conns[0].source_channel, 2);
    assert_eq!((conns[1].source_channel, conns[1].is_active), (0, true));
}

#[test]
fn rack_states_with_levels() {
    let mut e = AudioEngine::new(48000, 16, 4);
    let ch = |i: u32, active: bool| Channel {
        id: ChannelId(i + 10),
        name: format!("IN {}", i + 1),
        sample_rate: 48000,
        bit_depth: 16,
        is_active: active,
        level_bits: 0,
    };
    e.add_rack(Rack::new(RackId::AsioDriverIn, vec![ch(0, true), ch(1, false)]));
    let levels = vec![
        ("ASIO Driver IN".to_string(), 1u32, 0.5f32.to_bits(), 0.75f32.to_bits()),
        ("ASIO Driver IN".to_string(), 1u32, 9, 9),
        ("Mix OUT".to_string(), 0u32, 7, 7),
    ];
    let states = rack_states(&e, &levels);
    assert_eq!(states.len(), 1);
    assert_eq!(states[0].id, "ASIO Driver IN");
    assert_eq!(states[0].name, "ASIO Driver IN");
    assert_eq!(states[0].channels[0].id, 10);
    assert_eq!(states[0].channels[0].name, "IN 1");
    assert!(states[0].channels[0].active);
    assert_eq!((states[0].channels[0].level_bits, states[0].channels[0].peak_bits), (0, 0));
    assert!(!states[0].channels[1].active);
    assert_eq!(states[0].channels[1].level_bits, 0.5f32.to_bits());
    assert_eq!(states[0].channels[1].peak_bits, 0.75f32.to_bits());
}
