use asiobridge_core::connection::{Connection, ConnectionType};
use asiobridge_core::engine::{AudioEngine, RouteKind, RoutePlan};
use asiobridge_core::network::NetworkStream;
use asiobridge_core::rack::{Channel, ChannelId, Rack, RackId};

fn create_test_engine() -> AudioEngine {
    AudioEngine::new(44100, 24, 2)
}

fn create_test_rack(id: RackId, channel_count: usize) -> Rack {
    Rack::new(
        id,
        (0..channel_count)
            .map(|i| Channel {
                id: ChannelId(i as u32),
                name: format!("Ch {}", i),
                sample_rate: 44100,
                bit_depth: 24,
                is_active: true,
                level_bits: 1.0f32.to_bits(),
            })
            .collect(),
    )
}

fn connection(source: &str, sc: u32, dest: &str, dc: u32, t: ConnectionType, active: bool) -> Connection {
    Connection {
        source_rack: source.to_string(),
        source_channel: sc,
        dest_rack: dest.to_string(),
        dest_channel: dc,
        connection_type: t,
        is_active: active,
    }
}

fn bits(samples: &[f32]) -> Vec<u32> {
    samples.iter().map(|s| s.to_bits()).collect()
}

#[test]
fn test_engine_create() {
    let engine = create_test_engine();
    assert!(!engine.is_running());
    assert_eq!(engine.get_sample_rate(), 44100);
    assert_eq!(engine.get_bit_depth(), 24);
    assert_eq!(engine.get_channel_count(), 2);
}

#[test]
fn test_engine_start_stop() {
    let mut engine = create_test_engine();
    engine.start();
    assert!(engine.is_running());
    engine.stop();
    assert!(!engine.is_running());
}

#[test]
fn test_engine_double_start() {
    let mut engine = create_test_engine();
    engine.start();
    engine.start();
    assert!(engine.is_running());
}

#[test]
fn test_sample_rate_change() {
    let mut engine = create_test_engine();
    engine.set_sample_rate(48000);
    assert_eq!(engine.get_sample_rate(), 48000);
}

#[test]
fn test_bit_depth_change() {
    let mut engine = create_test_engine();
    engine.set_bit_depth(16);
    assert_eq!(engine.get_bit_depth(), 16);
}

#[test]
fn test_process_audio_stopped() {
    let mut engine = create_test_engine();
    let input = vec![0.5f32, 0.3];
    let plan = engine.route_audio(input.len(), &[]);
    assert!(matches!(plan, RoutePlan::Bypass));
}

#[test]
fn test_process_audio_running() {
    let mut engine = create_test_engine();
    engine.start();
    let input = vec![0.5f32, 0.3];
    let plan = engine.route_audio(input.len(), &[]);
    assert!(matches!(plan, RoutePlan::Passthrough));
}

#[test]
fn test_level_tracking() {
    let mut engine = create_test_engine();
    engine.start();
    engine.add_rack(create_test_rack(RackId::AsioDriverIn, 2));
    engine.add_rack(create_test_rack(RackId::MixOut, 2));
    engine.add_connection(connection("ASIO Driver IN", 0, "Mix OUT", 0, ConnectionType::Direct, true));
    for _ in 0..100 {
        match engine.route_audio(2, &[]) {
            RoutePlan::Mix { num_channels, routes } => {
                assert_eq!(num_channels, 2);
                assert_eq!(routes.len(), 1);
                assert_eq!(routes[0].source_rack, "ASIO Driver IN");
                assert_eq!(routes[0].source_channel, 0);
                assert_eq!(routes[0].kind, RouteKind::Single { source: 0, dest: 0 });
                assert_eq!(routes[0].gain_bits, 1.0f32.to_bits());
            }
            _ => panic!("expected a mix"),
        }
    }
}

#[test]
fn test_recording_start_stop() {
    let mut engine = create_test_engine();
    assert!(!engine.is_recording());
    assert!(engine.start_recording(true));
    assert!(engine.is_recording());
    assert!(engine.stop_recording());
    assert!(!engine.is_recording());
}

#[test]
fn test_recording_double_start() {
    let mut engine = create_test_engine();
    assert!(engine.start_recording(true));
    assert!(!engine.start_recording(true));
}

#[test]
fn recording_refused_when_file_cannot_be_opened() {
    let mut engine = create_test_engine();
    assert!(!engine.start_recording(false));
    assert!(!engine.is_recording());
    assert!(!engine.stop_recording());
    assert_eq!(engine.get_recording_output_dir(), "recordings");
}

#[test]
fn new_engine_has_no_racks_or_connections() {
    let engine = create_test_engine();
    assert!(engine.get_racks().is_empty());
    assert!(engine.get_connections().is_empty());
    assert!(engine.get_network_streams().is_empty());
    let r = engine.get_resampler();
    assert_eq!((r.from_rate(), r.to_rate(), r.channels()), (44100, 44100, 2));
}

#[test]
fn sample_rate_change_rebuilds_resampler() {
    let mut engine = create_test_engine();
    engine.set_sample_rate(96000);
    let r = engine.get_resampler();
    assert_eq!((r.from_rate(), r.to_rate(), r.channels()), (96000, 96000, 2));
}

#[test]
fn add_rack_replaces_same_id() {
    let mut engine = create_test_engine();
    engine.add_rack(create_test_rack(RackId::WdmIn, 2));
    engine.add_rack(create_test_rack(RackId::MixOut, 1));
    engine.add_rack(create_test_rack(RackId::WdmIn, 5));
    assert_eq!(engine.get_racks().len(), 2);
    assert_eq!(engine.get_racks()[0].id, RackId::WdmIn);
    assert_eq!(engine.get_racks()[0].channel_count(), 5);
}

#[test]
fn remove_rack_by_label() {
    let mut engine = create_test_engine();
    engine.add_rack(create_test_rack(RackId::WdmIn, 2));
    engine.add_rack(create_test_rack(RackId::MixOut, 1));
    engine.remove_rack("wdm-in");
    assert_eq!(engine.get_racks().len(), 2);
    engine.remove_rack("WDM IN");
    assert_eq!(engine.get_racks().len(), 1);
    assert_eq!(engine.get_racks()[0].id, RackId::MixOut);
}

#[test]
fn remove_connection_removes_all_from_source() {
    let mut engine = create_test_engine();
    engine.add_connection(connection("A", 0, "B", 0, ConnectionType::Direct, true));
    engine.add_connection(connection("A", 1, "B", 1, ConnectionType::Direct, true));
    engine.add_connection(connection("A", 0, "C", 3, ConnectionType::Wdm, false));
    engine.remove_connection("A", 0);
    let conns = engine.get_connections();
    assert_eq!(conns.len(), 1);
    assert_eq!(conns[0].source_channel, 1);
}

#[test]
fn profile_save_and_load_restores_settings() {
    let mut engine = create_test_engine();
    engine.add_rack(create_test_rack(RackId::MixOut, 2));
    assert!(engine.save_profile(3, "live"));
    engine.set_sample_rate(48000);
    engine.set_bit_depth(16);
    assert!(engine.load_profile(3));
    assert_eq!(engine.get_sample_rate(), 44100);
    assert_eq!(engine.get_bit_depth(), 24);
    assert_eq!(engine.get_channel_count(), 2);
    assert_eq!(engine.get_racks().len(), 1);
}

#[test]
fn profile_slots_out_of_range_and_empty() {
    let mut engine = create_test_engine();
    assert!(!engine.save_profile(8, "nowhere"));
    assert!(!engine.load_profile(8));
    assert!(!engine.load_profile(0));
    engine.set_sample_rate(22050);
    assert!(!engine.load_profile(0));
    assert_eq!(engine.get_sample_rate(), 22050);
}

#[test]
fn network_streams_kept_only_when_started() {
    let mut engine = create_test_engine();
    engine.add_network_stream(NetworkStream::new("10.0.0.2".to_string(), 7000), true);
    assert_eq!(engine.get_network_streams().len(), 1);
    assert_eq!(engine.get_network_streams()[0].port, 7000);
    engine.add_network_stream(NetworkStream::new("10.0.0.3".to_string(), 7001), false);
    assert!(engine.get_network_streams().is_empty());
    engine.add_network_stream(NetworkStream::new("10.0.0.4".to_string(), 7002), true);
    engine.clear_network_streams();
    assert!(engine.get_network_streams().is_empty());
}

#[test]
fn inactive_connections_pass_input_through() {
    let mut engine = create_test_engine();
    engine.start();
    engine.add_rack(create_test_rack(RackId::AsioDriverIn, 2));
    engine.add_connection(connection("ASIO Driver IN", 0, "ASIO Driver IN", 1, ConnectionType::Direct, false));
    assert!(matches!(engine.route_audio(2, &[]), RoutePlan::Passthrough));
}

#[test]
fn routes_skip_missing_racks_channels_and_null() {
    let mut engine = create_test_engine();
    engine.start();
    engine.add_rack(create_test_rack(RackId::AsioDriverIn, 2));
    engine.add_rack(create_test_rack(RackId::MixOut, 4));
    let mut quiet = create_test_rack(RackId::WdmIn, 2);
    quiet.channels[1].is_active = false;
    engine.add_rack(quiet);
    engine.add_connection(connection("Nowhere", 0, "Mix OUT", 0, ConnectionType::Direct, true));
    engine.add_connection(connection("ASIO Driver IN", 5, "Mix OUT", 0, ConnectionType::Direct, true));
    engine.add_connection(connection("ASIO Driver IN", 0, "Mix OUT", 9, ConnectionType::Direct, true));
    engine.add_connection(connection("WDM IN", 1, "Mix OUT", 0, ConnectionType::Direct, true));
    engine.add_connection(connection("ASIO Driver IN", 0, "Mix OUT", 0, ConnectionType::Null, true));
    engine.add_connection(connection("ASIO Driver IN", 1, "Mix OUT", 3, ConnectionType::Midi, true));
    engine.add_connection(connection("WDM IN", 0, "Mix OUT", 2, ConnectionType::MultiClient, true));
    match engine.route_audio(1, &bits(&[0.25])) {
        RoutePlan::Mix { num_channels, routes } => {
            assert_eq!(num_channels, 2);
            assert_eq!(routes.len(), 1);
            assert_eq!(routes[0].source_rack, "WDM IN");
            assert_eq!(routes[0].kind, RouteKind::Spread { count: 1 });
        }
        _ => panic!("expected a mix"),
    }
    match engine.route_audio(3, &[]) {
        RoutePlan::Mix { num_channels, routes } => {
            assert_eq!(num_channels, 3);
            assert_eq!(routes.len(), 2);
            assert_eq!(routes[0].kind, RouteKind::Single { source: 1, dest: 3 });
            assert_eq!(routes[1].kind, RouteKind::Spread { count: 3 });
        }
        _ => panic!("expected a mix"),
    }
}

#[test]
fn network_audio_leaves_levels_unchanged() {
    let mut engine = create_test_engine();
    engine.add_rack(create_test_rack(RackId::NetworkIn, 3));
    engine.add_rack(create_test_rack(RackId::MixOut, 2));
    engine.start();
    engine.add_connection(connection("Network IN", 1, "Mix OUT", 0, ConnectionType::Direct, true));
    match engine.route_audio(2, &bits(&[0.1, 0.2])) {
        RoutePlan::Mix { routes, .. } => {
            assert_eq!(routes.len(), 1);
            assert_eq!(routes[0].gain_bits, 1.0f32.to_bits());
        }
        _ => panic!("expected a mix"),
    }
    for ch in engine.get_racks()[0].channels.iter() {
        assert_eq!(ch.level_bits, 1.0f32.to_bits());
    }
}

#[test]
fn profile_load_restores_racks_and_connections() {
    let mut engine = create_test_engine();
    engine.add_rack(create_test_rack(RackId::MixOut, 2));
    engine.add_connection(connection("A", 0, "B", 0, ConnectionType::Direct, true));
    assert!(engine.save_profile(1, "one"));
    engine.add_connection(connection("C", 1, "D", 1, ConnectionType::Vst, true));
    engine.remove_rack("Mix OUT");
    engine.add_rack(create_test_rack(RackId::WdmIn, 4));
    assert!(engine.load_profile(1));
    assert_eq!(engine.get_connections().len(), 1);
    assert_eq!(engine.get_connections()[0].source_rack, "A");
    assert_eq!(engine.get_racks().len(), 1);
    assert_eq!(engine.get_racks()[0].id, RackId::MixOut);
    assert_eq!(engine.get_racks()[0].channel_count(), 2);
}
