use vstd::prelude::*;
use vstd::bytes::{
    spec_u32_from_le_bytes, spec_u32_to_le_bytes, u32_from_le_bytes, u32_to_le_bytes,
    lemma_auto_spec_u32_to_from_le_bytes,
};

verus! {

/// The most samples that one packet may carry.
pub const MAX_PACKET_SAMPLES: usize = 32768;

/// The length in bytes of a packet's header (the sample count).
pub const PACKET_HEADER_LEN: usize = 4;

/// Settings of a UDP audio stream between two bridge instances.
#[derive(Debug)]
pub struct NetworkStream {
    pub host: String,
    pub port: u16,
    pub sample_rate: u32,
    pub bit_depth: u32,
    pub channels: u16,
    pub is_active: bool,
}

impl NetworkStream {
    /// A stream to `host:port` at 44100 Hz, 24 bit, 2 channels, not active.
    pub fn new(host: String, port: u16) -> (s: NetworkStream)
        ensures
            s.host == host,
            s.port == port,
            s.sample_rate == 44100,
            s.bit_depth == 24,
            s.channels == 2,
            !s.is_active,
    {
        NetworkStream { host, port, sample_rate: 44100, bit_depth: 24, channels: 2, is_active: false }
    }

    /// The settings of this stream once it runs at `sample_rate` with
    /// `channels` channels: same host, port and bit depth, and active.
    pub fn activated(&self, sample_rate: u32, channels: u16) -> (s: NetworkStream)
        ensures
            s.host == self.host,
            s.port == self.port,
            s.sample_rate == sample_rate,
            s.bit_depth == self.bit_depth,
            s.channels == channels,
            s.is_active,
    {
        NetworkStream {
            host: self.host.clone(),
            port: self.port,
            sample_rate,
            bit_depth: self.bit_depth,
            channels,
            is_active: true,
        }
    }

    /// An equal copy of these settings.
    pub fn duplicate(&self) -> (s: NetworkStream)
        ensures
            s == *self,
    {
        NetworkStream {
            host: self.host.clone(),
            port: self.port,
            sample_rate: self.sample_rate,
            bit_depth: self.bit_depth,
            channels: self.channels,
            is_active: self.is_active,
        }
    }
}

/// The pause in microseconds between two packets that a sender sends:
/// one million divided by the sample rate, then by the channel count, and
/// never less than 100.
pub open spec fn send_interval_spec(sample_rate: u32, channels: u16) -> u64 {
    let q = (1_000_000u64 / (sample_rate as u64)) / (channels as u64);
    if q < 100 { 100 } else { q as u64 }
}

/// See [`send_interval_spec`]. Both divisors must be non-zero.
pub fn send_interval_micros(sample_rate: u32, channels: u16) -> (us: u64)
    requires
        sample_rate > 0,
        channels > 0,
    ensures
        us == send_interval_spec(sample_rate, channels),
        us >= 100,
{
    let q = 1_000_000u64 / (sample_rate as u64) / (channels as u64);
    if q < 100 { 100 } else { q }
}

/// The little-endian bytes of each sample, one after the other.
pub open spec fn samples_bytes(s: Seq<u32>) -> Seq<u8>
    decreases s.len(),
{
    if s.len() == 0 {
        Seq::empty()
    } else {
        samples_bytes(s.drop_last()) + spec_u32_to_le_bytes(s.last())
    }
}

/// A packet: the sample count as a little-endian `u32` (the count taken
/// modulo 2^32), then the samples' bit patterns, each little-endian.
pub open spec fn encode_packet_spec(s: Seq<u32>) -> Seq<u8> {
    spec_u32_to_le_bytes(s.len() as u32) + samples_bytes(s)
}

/// The sample count that a packet's header announces.
pub open spec fn packet_count(p: Seq<u8>) -> u32 {
    spec_u32_from_le_bytes(p.subrange(0, 4))
}

/// The sample at index `i` of a packet's payload.
pub open spec fn packet_sample(p: Seq<u8>, i: int) -> u32 {
    spec_u32_from_le_bytes(p.subrange(4 + 4 * i, 8 + 4 * i))
}

/// What a receiver takes from a datagram: nothing when it is shorter than a
/// header, announces no sample or more than `MAX_PACKET_SAMPLES`, or is
/// shorter than the samples it announces; otherwise the announced samples
/// (bytes after them are ignored).
pub open spec fn decode_packet_spec(p: Seq<u8>) -> Option<Seq<u32>> {
    if p.len() < 4 {
        None
    } else {
        let n = packet_count(p);
        if n == 0 || n > MAX_PACKET_SAMPLES || p.len() < 4 + 4 * n {
            None
        } else {
            Some(Seq::new(n as nat, |i: int| packet_sample(p, i)))
        }
    }
}

proof fn lemma_samples_bytes(s: Seq<u32>)
    ensures
        samples_bytes(s).len() == 4 * s.len(),
        forall|i: int|
            0 <= i < s.len() ==> #[trigger] samples_bytes(s).subrange(4 * i, 4 * i + 4)
                == spec_u32_to_le_bytes(s[i]),
    decreases s.len(),
{
    lemma_auto_spec_u32_to_from_le_bytes();
    if s.len() > 0 {
        let p = s.drop_last();
        lemma_samples_bytes(p);
        let b = samples_bytes(s);
        assert forall|i: int| 0 <= i < s.len() implies #[trigger] b.subrange(4 * i, 4 * i + 4)
            == spec_u32_to_le_bytes(s[i]) by {
            if i < p.len() {
                assert(b.subrange(4 * i, 4 * i + 4) == samples_bytes(p).subrange(4 * i, 4 * i + 4));
            } else {
                assert(b.subrange(4 * i, 4 * i + 4) == spec_u32_to_le_bytes(s.last()));
            }
        }
    }
}

/// Builds the packet that carries `samples` (see [`encode_packet_spec`]).
pub fn encode_packet(samples: &[u32]) -> (p: Vec<u8>)
    ensures
        p@ == encode_packet_spec(samples@),
{
    proof {
        lemma_auto_spec_u32_to_from_le_bytes();
    }
    let n = samples.len();
    let mut out = u32_to_le_bytes(n as u32);
    for i in 0..n
        invariant
            n == samples@.len(),
            out@ == spec_u32_to_le_bytes(n as u32) + samples_bytes(samples@.take(i as int)),
    {
        let mut b = u32_to_le_bytes(samples[i]);
        out.append(&mut b);
        assert(samples@.take(i + 1).drop_last() == samples@.take(i as int));
    }
    assert(samples@.take(n as int) == samples@);
    out
}

/// Reads the samples of a received datagram (see [`decode_packet_spec`]).
pub fn decode_packet(packet: &[u8]) -> (r: Option<Vec<u32>>)
    ensures
        r is Some == decode_packet_spec(packet@) is Some,
        r matches Some(v) ==> v@ == decode_packet_spec(packet@).unwrap(),
{
    if packet.len() < PACKET_HEADER_LEN {
        return None;
    }
    let count = u32_from_le_bytes(&packet[0..4]);
    if count == 0 || count as usize > MAX_PACKET_SAMPLES {
        return None;
    }
    let n = count as usize;
    if packet.len() < PACKET_HEADER_LEN + n * 4 {
        return None;
    }
    let mut out: Vec<u32> = Vec::new();
    for i in 0..n
        invariant
            n == count,
            n <= MAX_PACKET_SAMPLES,
            packet@.len() >= 4 + 4 * n,
            out@.len() == i,
            forall|k: int| 0 <= k < i ==> #[trigger] out@[k] == packet_sample(packet@, k),
    {
        let start = PACKET_HEADER_LEN + 4 * i;
        let x = u32_from_le_bytes(&packet[start..start + 4]);
        out.push(x);
    }
    assert(out@ =~= Seq::new(n as nat, |i: int| packet_sample(packet@, i)));
    Some(out)
}

/// A packet built from between one and `MAX_PACKET_SAMPLES` samples reads
/// back as exactly those samples.
pub proof fn lemma_packet_round_trip(s: Seq<u32>)
    requires
        1 <= s.len() <= MAX_PACKET_SAMPLES,
    ensures
        encode_packet_spec(s).len() == 4 + 4 * s.len(),
        decode_packet_spec(encode_packet_spec(s)) == Some(s),
{
    lemma_auto_spec_u32_to_from_le_bytes();
    lemma_samples_bytes(s);
    let p = encode_packet_spec(s);
    let h = spec_u32_to_le_bytes(s.len() as u32);
    assert(p.subrange(0, 4) == h);
    assert((s.len() as u32) == s.len());
    assert(packet_count(p) == s.len());
    assert forall|i: int| 0 <= i < s.len() implies packet_sample(p, i) == s[i] by {
        assert(p.subrange(4 + 4 * i, 8 + 4 * i) == samples_bytes(s).subrange(4 * i, 4 * i + 4));
    }
    assert(Seq::new(s.len() as nat, |i: int| packet_sample(p, i)) =~= s);
}

/// A packet whose sample list is empty or longer than `MAX_PACKET_SAMPLES`
/// samples is refused by a receiver.
pub proof fn lemma_packet_refused_sizes(s: Seq<u32>)
    requires
        s.len() == 0 || (MAX_PACKET_SAMPLES < s.len() <= u32::MAX),
    ensures
        decode_packet_spec(encode_packet_spec(s)) is None,
{
    lemma_auto_spec_u32_to_from_le_bytes();
    lemma_samples_bytes(s);
    let p = encode_packet_spec(s);
    assert(p.subrange(0, 4) == spec_u32_to_le_bytes(s.len() as u32));
    assert((s.len() as u32) == s.len());
}

/// The audio of the first stream that has any: the first non-empty list, or
/// an empty list when all are empty.
pub open spec fn first_audio(audios: Seq<Vec<u32>>) -> Seq<u32>
    decreases audios.len(),
{
    if audios.len() == 0 {
        Seq::empty()
    } else if audios[0]@.len() > 0 {
        audios[0]@
    } else {
        first_audio(audios.drop_first())
    }
}

/// Picks the network audio among what each running stream received (see
/// [`first_audio`]).
pub fn pick_network_audio(audios: &[Vec<u32>]) -> (r: Vec<u32>)
    ensures
        r@ == first_audio(audios@),
{
    let n = audios.len();
    assert(audios@.skip(0) == audios@);
    for i in 0..n
        invariant
            n == audios@.len(),
            first_audio(audios@) == first_audio(audios@.skip(i as int)),
    {
        assert(audios@.skip(i as int)[0] == audios@[i as int]);
        assert(audios@.skip(i as int).drop_first() == audios@.skip(i + 1));
        if audios[i].len() > 0 {
            return audios[i].clone();
        }
    }
    Vec::new()
}

} // verus!
