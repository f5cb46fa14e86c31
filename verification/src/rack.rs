use vstd::prelude::*;

verus! {

/// Identifier of a rack.
#[derive(Debug, Clone, Copy, PartialEq, Eq, Structural, Hash)]
pub enum RackId {
    AsioDriverIn,
    AsioDriverOutMix,
    AsioHostInMix,
    NetworkIn,
    NetworkOut,
    LooperIn,
    LooperOut,
    WdmIn,
    MixOut,
}

/// Identifier of a channel within a rack.
#[derive(Debug, Clone, Copy, PartialEq, Eq, Structural, Hash)]
pub struct ChannelId(pub u32);

/// The label of a rack; racks are looked up by this label.
pub open spec fn rack_label(id: RackId) -> Seq<char> {
    match id {
        RackId::AsioDriverIn => "ASIO Driver IN"@,
        RackId::AsioDriverOutMix => "ASIO Driver OUT/MIX"@,
        RackId::AsioHostInMix => "ASIO Host IN/MIX"@,
        RackId::NetworkIn => "Network IN"@,
        RackId::NetworkOut => "Network OUT"@,
        RackId::LooperIn => "Looper IN"@,
        RackId::LooperOut => "Looper OUT"@,
        RackId::WdmIn => "WDM IN"@,
        RackId::MixOut => "Mix OUT"@,
    }
}

/// No two racks share a label.
pub proof fn lemma_rack_label_injective(a: RackId, b: RackId)
    ensures
        rack_label(a) == rack_label(b) ==> a == b,
{
    reveal_strlit("ASIO Driver IN");
    reveal_strlit("ASIO Driver OUT/MIX");
    reveal_strlit("ASIO Host IN/MIX");
    reveal_strlit("Network IN");
    reveal_strlit("Network OUT");
    reveal_strlit("Looper IN");
    reveal_strlit("Looper OUT");
    reveal_strlit("WDM IN");
    reveal_strlit("Mix OUT");
    if rack_label(a) == rack_label(b) {
        assert(rack_label(a).len() == rack_label(b).len());
        assert(rack_label(a)[0] == rack_label(b)[0]);
    }
}

impl RackId {
    /// The label of this rack ("ASIO Driver IN", "Mix OUT", ...).
    pub fn to_string(&self) -> (s: String)
        ensures
            s@ == rack_label(*self),
    {
        match self {
            RackId::AsioDriverIn => String::from_str("ASIO Driver IN"),
            RackId::AsioDriverOutMix => String::from_str("ASIO Driver OUT/MIX"),
            RackId::AsioHostInMix => String::from_str("ASIO Host IN/MIX"),
            RackId::NetworkIn => String::from_str("Network IN"),
            RackId::NetworkOut => String::from_str("Network OUT"),
            RackId::LooperIn => String::from_str("Looper IN"),
            RackId::LooperOut => String::from_str("Looper OUT"),
            RackId::WdmIn => String::from_str("WDM IN"),
            RackId::MixOut => String::from_str("Mix OUT"),
        }
    }
}

/// A channel of a rack. `level_bits` is the IEEE-754 bit pattern of the
/// channel's level, which is the gain applied to what it sends.
#[derive(Debug)]
pub struct Channel {
    pub id: ChannelId,
    pub name: String,
    pub sample_rate: u32,
    pub bit_depth: u32,
    pub is_active: bool,
    pub level_bits: u32,
}

impl Channel {
    /// An equal copy of this channel.
    pub fn duplicate(&self) -> (c: Channel)
        ensures
            c == *self,
    {
        Channel {
            id: self.id,
            name: self.name.clone(),
            sample_rate: self.sample_rate,
            bit_depth: self.bit_depth,
            is_active: self.is_active,
            level_bits: self.level_bits,
        }
    }
}

/// A rack is a processing unit with channels.
#[derive(Debug)]
pub struct Rack {
    pub id: RackId,
    pub channels: Vec<Channel>,
}

impl Rack {
    pub fn new(id: RackId, channels: Vec<Channel>) -> (r: Rack)
        ensures
            r.id == id,
            r.channels@ == channels@,
    {
        Rack { id, channels }
    }

    pub fn channel_count(&self) -> (n: usize)
        ensures
            n == self.channels@.len(),
    {
        self.channels.len()
    }

    /// A copy of this rack with the same identifier and equal channels.
    pub fn duplicate(&self) -> (r: Rack)
        ensures
            r.id == self.id,
            r.channels@ == self.channels@,
    {
        let mut channels: Vec<Channel> = Vec::new();
        let n = self.channels.len();
        for i in 0..n
            invariant
                n == self.channels@.len(),
                channels@ == self.channels@.take(i as int),
        {
            channels.push(self.channels[i].duplicate());
            assert(self.channels@.take(i + 1) == self.channels@.take(i as int).push(
                self.channels@[i as int],
            ));
        }
        assert(self.channels@.take(n as int) == self.channels@);
        Rack { id: self.id, channels }
    }
}

/// Two racks hold the same identifier and equal channels.
pub open spec fn same_rack(a: Rack, b: Rack) -> bool {
    a.id == b.id && a.channels@ == b.channels@
}

/// A copy of a list of racks, each with the same identifier and equal channels.
pub fn duplicate_racks(racks: &Vec<Rack>) -> (r: Vec<Rack>)
    ensures
        r@.len() == racks@.len(),
        forall|i: int| 0 <= i < racks@.len() ==> same_rack(#[trigger] r@[i], racks@[i]),
{
    let mut r: Vec<Rack> = Vec::new();
    let n = racks.len();
    for i in 0..n
        invariant
            n == racks@.len(),
            r@.len() == i,
            forall|k: int| 0 <= k < i ==> same_rack(#[trigger] r@[k], racks@[k]),
    {
        r.push(racks[i].duplicate());
    }
    r
}

} // verus!
