use vstd::prelude::*;

verus! {

/// Types of audio connections between sources and destinations.
#[derive(Debug, Clone, Copy, PartialEq, Eq, Structural)]
pub enum ConnectionType {
    Direct,
    Network,
    Wdm,
    Null,
    MultiClient,
    Vst,
    Midi,
}

/// The label under which a connection type is shown.
pub open spec fn connection_type_label(t: ConnectionType) -> Seq<char> {
    match t {
        ConnectionType::Direct => "Direct"@,
        ConnectionType::Network => "Network"@,
        ConnectionType::Wdm => "WDM"@,
        ConnectionType::Null => "Null"@,
        ConnectionType::MultiClient => "Multi-Client"@,
        ConnectionType::Vst => "VST"@,
        ConnectionType::Midi => "MIDI"@,
    }
}

/// The connection type named by a variant name; any other text names `Direct`.
pub open spec fn connection_type_named(name: Seq<char>) -> ConnectionType {
    if name == "Direct"@ {
        ConnectionType::Direct
    } else if name == "Network"@ {
        ConnectionType::Network
    } else if name == "Wdm"@ {
        ConnectionType::Wdm
    } else if name == "Null"@ {
        ConnectionType::Null
    } else if name == "MultiClient"@ {
        ConnectionType::MultiClient
    } else if name == "Vst"@ {
        ConnectionType::Vst
    } else if name == "Midi"@ {
        ConnectionType::Midi
    } else {
        ConnectionType::Direct
    }
}

/// The name of each connection type's variant, as the user interface asks
/// for it.
pub open spec fn variant_name(t: ConnectionType) -> Seq<char> {
    match t {
        ConnectionType::Direct => "Direct"@,
        ConnectionType::Network => "Network"@,
        ConnectionType::Wdm => "Wdm"@,
        ConnectionType::Null => "Null"@,
        ConnectionType::MultiClient => "MultiClient"@,
        ConnectionType::Vst => "Vst"@,
        ConnectionType::Midi => "Midi"@,
    }
}

/// Reading the name of a variant gives that variant, and any text that
/// names no variant gives `Direct`.
pub proof fn lemma_named_type_is_that_variant(t: ConnectionType, other: Seq<char>)
    ensures
        connection_type_named(variant_name(t)) == t,
        (forall|u: ConnectionType| other != #[trigger] variant_name(u)) ==> connection_type_named(other)
            == ConnectionType::Direct,
{
    reveal_strlit("Direct");
    reveal_strlit("Network");
    reveal_strlit("Wdm");
    reveal_strlit("Null");
    reveal_strlit("MultiClient");
    reveal_strlit("Vst");
    reveal_strlit("Midi");
    assert("Wdm"@[0] != "Vst"@[0]);
    assert("Null"@[0] != "Midi"@[0]);
    assert("Direct"@.len() != "Network"@.len());
    match t {
        ConnectionType::Direct => {},
        ConnectionType::Network => {
            assert("Network"@ != "Direct"@);
        },
        ConnectionType::Wdm => {
            assert("Wdm"@ != "Direct"@);
            assert("Wdm"@ != "Network"@);
        },
        ConnectionType::Null => {
            assert("Null"@ != "Direct"@);
            assert("Null"@ != "Network"@);
            assert("Null"@ != "Wdm"@);
        },
        ConnectionType::MultiClient => {
            assert("MultiClient"@ != "Direct"@);
            assert("MultiClient"@ != "Network"@);
            assert("MultiClient"@ != "Wdm"@);
            assert("MultiClient"@ != "Null"@);
        },
        ConnectionType::Vst => {
            assert("Vst"@ != "Direct"@);
            assert("Vst"@ != "Network"@);
            assert("Vst"@ != "Wdm"@);
            assert("Vst"@ != "Null"@);
            assert("Vst"@ != "MultiClient"@);
        },
        ConnectionType::Midi => {
            assert("Midi"@ != "Direct"@);
            assert("Midi"@ != "Network"@);
            assert("Midi"@ != "Wdm"@);
            assert("Midi"@ != "Null"@);
            assert("Midi"@.len() != "MultiClient"@.len());
            assert("Midi"@ != "MultiClient"@);
            assert("Midi"@ != "Vst"@);
        },
    }
    if forall|u: ConnectionType| other != #[trigger] variant_name(u) {
        assert(other != variant_name(ConnectionType::Direct));
        assert(other != variant_name(ConnectionType::Network));
        assert(other != variant_name(ConnectionType::Wdm));
        assert(other != variant_name(ConnectionType::Null));
        assert(other != variant_name(ConnectionType::MultiClient));
        assert(other != variant_name(ConnectionType::Vst));
        assert(other != variant_name(ConnectionType::Midi));
    }
}

fn text_is(s: &String, literal: &str) -> (r: bool)
    ensures
        r == (s@ == literal@),
{
    let other = String::from_str(literal);
    *s == other
}

impl ConnectionType {
    /// The label of this connection type ("Direct", "WDM", "Multi-Client", ...).
    pub fn to_string(&self) -> (s: String)
        ensures
            s@ == connection_type_label(*self),
    {
        match self {
            ConnectionType::Direct => String::from_str("Direct"),
            ConnectionType::Network => String::from_str("Network"),
            ConnectionType::Wdm => String::from_str("WDM"),
            ConnectionType::Null => String::from_str("Null"),
            ConnectionType::MultiClient => String::from_str("Multi-Client"),
            ConnectionType::Vst => String::from_str("VST"),
            ConnectionType::Midi => String::from_str("MIDI"),
        }
    }

    /// Reads a connection type from its variant name ("Direct", "Wdm",
    /// "MultiClient", ...); any other text gives `Direct`.
    pub fn from_name(name: &str) -> (t: ConnectionType)
        ensures
            t == connection_type_named(name@),
    {
        let s = String::from_str(name);
        if text_is(&s, "Direct") {
            ConnectionType::Direct
        } else if text_is(&s, "Network") {
            ConnectionType::Network
        } else if text_is(&s, "Wdm") {
            ConnectionType::Wdm
        } else if text_is(&s, "Null") {
            ConnectionType::Null
        } else if text_is(&s, "MultiClient") {
            ConnectionType::MultiClient
        } else if text_is(&s, "Vst") {
            ConnectionType::Vst
        } else if text_is(&s, "Midi") {
            ConnectionType::Midi
        } else {
            ConnectionType::Direct
        }
    }
}

/// A connection routes audio from a channel of a source rack to a channel of
/// a destination rack. Racks are named by their labels.
#[derive(Debug)]
pub struct Connection {
    pub source_rack: String,
    pub source_channel: u32,
    pub dest_rack: String,
    pub dest_channel: u32,
    pub connection_type: ConnectionType,
    pub is_active: bool,
}

impl Connection {
    /// An equal copy of this connection.
    pub fn duplicate(&self) -> (c: Connection)
        ensures
            c == *self,
    {
        Connection {
            source_rack: self.source_rack.clone(),
            source_channel: self.source_channel,
            dest_rack: self.dest_rack.clone(),
            dest_channel: self.dest_channel,
            connection_type: self.connection_type,
            is_active: self.is_active,
        }
    }
}

/// An equal copy of a list of connections.
pub fn duplicate_connections(conns: &Vec<Connection>) -> (r: Vec<Connection>)
    ensures
        r@ == conns@,
{
    let mut r: Vec<Connection> = Vec::new();
    let n = conns.len();
    for i in 0..n
        invariant
            n == conns@.len(),
            r@ == conns@.take(i as int),
    {
        r.push(conns[i].duplicate());
        assert(conns@.take(i + 1) == conns@.take(i as int).push(conns@[i as int]));
    }
    assert(conns@.take(n as int) == conns@);
    r
}

} // verus!
