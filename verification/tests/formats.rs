use asiobridge_core::devices::{device_name_matches, input_device_label, output_device_label};
use asiobridge_core::connection::ConnectionType;
use asiobridge_core::network::{
    decode_packet, encode_packet, pick_network_audio, send_interval_micros, NetworkStream,
};
use asiobridge_core::profile::{Profile, ProfileManager};
use asiobridge_core::rack::RackId;
use asiobridge_core::recorder::AudioRecorder;
use asiobridge_core::resampler::Resampler;
use asiobridge_core::sample_ring::SampleRing;

#[test]
fn packet_layout_and_round_trip() {
    let samples = vec![0.5f32.to_bits(), (-0.25f32).to_bits(), 7];
    let p = encode_packet(&samples);
    assert_eq!(p.len(), 16);
    assert_eq!(&p[0..4], &[3, 0, 0, 0]);
    assert_eq!(&p[4..8], &0.5f32.to_le_bytes());
    assert_eq!(&p[12..16], &[7, 0, 0, 0]);
    assert_eq!(decode_packet(&p), Some(samples));
}

#[test]
fn packet_trailing_bytes_ignored() {
    let mut p = encode_packet(&[1, 2]);
    p.extend_from_slice(&[9, 9, 9]);
    assert_eq!(decode_packet(&p), Some(vec![1, 2]));
}

#[test]
fn packets_refused() {
    assert_eq!(decode_packet(&[1, 0, 0]), None);
    assert_eq!(decode_packet(&encode_packet(&[])), None);
    let mut big = vec![0u8; 4];
    big[0..4].copy_from_slice(&32769u32.to_le_bytes());
    big.extend(std::iter::repeat(0u8).take(32769 * 4));
    assert_eq!(decode_packet(&big), None);
    let short = [2u8, 0, 0, 0, 1, 2, 3, 4, 5];
    assert_eq!(decode_packet(&short), None);
    let max = vec![5u32; 32768];
    assert_eq!(decode_packet(&encode_packet(&max)), Some(max));
}

#[test]
fn send_interval_values() {
    assert_eq!(send_interval_micros(44100, 2), 100);
    assert_eq!(send_interval_micros(1000, 2), 500);
    assert_eq!(send_interval_micros(8000, 1), 125);
    assert_eq!(send_interval_micros(1, 1), 1_000_000);
}

#[test]
fn network_stream_defaults_and_activation() {
    let s = NetworkStream::new("127.0.0.1".to_string(), 6997);
    assert_eq!((s.sample_rate, s.bit_depth, s.channels, s.is_active), (44100, 24, 2, false));
    let a = s.activated(48000, 8);
    assert_eq!(a.host, "127.0.0.1");
    assert_eq!((a.port, a.sample_rate, a.bit_depth, a.channels, a.is_active), (6997, 48000, 24, 8, true));
}

#[test]
fn network_audio_first_non_empty() {
    assert_eq!(pick_network_audio(&[vec![], vec![3, 4], vec![5]]), vec![3, 4]);
    assert_eq!(pick_network_audio(&[vec![], vec![]]), Vec::<u32>::new());
}

#[test]
fn ring_fifo_and_overflow() {
    let mut r = SampleRing::new(3);
    assert_eq!(r.push_samples(&[1, 2]), 2);
    assert_eq!(r.push_samples(&[3, 4, 5]), 1);
    assert_eq!(r.pop_samples(2), vec![1, 2]);
    assert_eq!(r.pop_samples(3), vec![3, 0, 0]);
    assert_eq!(r.push_samples(&[6]), 1);
    assert_eq!(r.pop_samples(1), vec![6]);
}

#[test]
fn recorder_file_name() {
    let r = AudioRecorder::new("out".to_string(), 48000, 24, 8);
    assert_eq!(r.file_name("20240101_120000"), "recording_8ch_48000hz_20240101_120000.flac");
    let n = r.next_file_name().unwrap();
    assert!(n.starts_with("recording_8ch_48000hz_") && n.ends_with(".flac"));
    assert_eq!(n.len(), "recording_8ch_48000hz_".len() + 15 + ".flac".len());
    assert_eq!(r.file_name_at(0), Some("recording_8ch_48000hz_19700101_000000.flac".to_string()));
    assert_eq!(r.file_name_at(1_700_000_000), Some("recording_8ch_48000hz_20231114_221320.flac".to_string()));
    assert_eq!(r.file_name_at(u64::MAX), None);
    assert_eq!(r.file_name_at(i64::MAX as u64), None);
}

#[test]
fn resampler_settings() {
    let r = Resampler::default();
    assert_eq!((r.from_rate(), r.to_rate(), r.channels()), (44100, 44100, 2));
    assert!(r.passes_through(10));
    let r = Resampler::new(44100, 48000, 2);
    assert!(!r.passes_through(10));
    assert!(r.passes_through(0));
}

#[test]
fn connection_type_labels_and_names() {
    assert_eq!(ConnectionType::Wdm.to_string(), "WDM");
    assert_eq!(ConnectionType::MultiClient.to_string(), "Multi-Client");
    assert_eq!(ConnectionType::Midi.to_string(), "MIDI");
    assert_eq!(ConnectionType::from_name("Wdm"), ConnectionType::Wdm);
    assert_eq!(ConnectionType::from_name("MultiClient"), ConnectionType::MultiClient);
    assert_eq!(ConnectionType::from_name("WDM"), ConnectionType::Direct);
    assert_eq!(ConnectionType::from_name("bogus"), ConnectionType::Direct);
}

#[test]
fn rack_labels() {
    assert_eq!(RackId::AsioDriverOutMix.to_string(), "ASIO Driver OUT/MIX");
    assert_eq!(RackId::LooperIn.to_string(), "Looper IN");
    assert_eq!(RackId::MixOut.to_string(), "Mix OUT");
}

#[test]
fn profile_manager_slots() {
    let mut m = ProfileManager::new();
    assert_eq!(m.slots.len(), 8);
    m.save(2, Profile::new("a".to_string()));
    m.save(8, Profile::new("ignored".to_string()));
    assert_eq!(m.load(2).map(|p| p.name.clone()), Some("a".to_string()));
    assert!(m.load(3).is_none());
    assert!(m.load(100).is_none());
    m.clear_slot(2);
    assert!(m.load(2).is_none());
}

#[test]
fn profile_settings_replace() {
    let mut p = Profile::new("p".to_string());
    p.set_setting("sample_rate", 1);
    p.set_setting("channels", 2);
    p.set_setting("sample_rate", 3);
    assert_eq!(p.global_settings.len(), 2);
    assert_eq!(p.setting("sample_rate"), Some(3));
    assert_eq!(p.setting("channels"), Some(2));
    assert_eq!(p.setting("bit_depth"), None);
}

#[test]
fn device_labels_and_matching() {
    let label = input_device_label("USB Mic");
    assert_eq!(label, "Input: USB Mic");
    assert_eq!(output_device_label("Speakers"), "Output: Speakers");
    assert!(device_name_matches(&label, "USB Mic"));
    assert!(device_name_matches("Speakers", "Speakers"));
    assert!(!device_name_matches("USB Mic 2", "USB Mic"));
    assert!(!device_name_matches("Mic", "USB Mic"));
}
