//! The tunnel descriptor: the immutable input of one enable request, with
//! its interface block, peer block and routing rule sets. The mathematical
//! view of each part is a struct of character sequences.

use vstd::prelude::*;

verus! {

/// Interface block of a tunnel descriptor.
#[allow(non_snake_case)]
pub struct Interface {
    pub ipv4Address: String,
    pub ipv6Address: String,
    pub port: String,
    pub privateKey: String,
    pub dns: String,
    pub mtu: String,
}

/// View of an [`Interface`].
#[allow(non_snake_case)]
pub struct InterfaceView {
    pub ipv4Address: Seq<char>,
    pub ipv6Address: Seq<char>,
    pub port: Seq<char>,
    pub privateKey: Seq<char>,
    pub dns: Seq<char>,
    pub mtu: Seq<char>,
}

impl View for Interface {
    type V = InterfaceView;

    open spec fn view(&self) -> InterfaceView {
        InterfaceView {
            ipv4Address: self.ipv4Address@,
            ipv6Address: self.ipv6Address@,
            port: self.port@,
            privateKey: self.privateKey@,
            dns: self.dns@,
            mtu: self.mtu@,
        }
    }
}

/// Peer block of a tunnel descriptor.
#[allow(non_snake_case)]
pub struct Peer {
    pub endpoint: String,
    pub port: String,
    pub publicKey: String,
    pub persistentKeepalive: String,
    pub presharedKey: String,
}

/// View of a [`Peer`].
#[allow(non_snake_case)]
pub struct PeerView {
    pub endpoint: Seq<char>,
    pub port: Seq<char>,
    pub publicKey: Seq<char>,
    pub persistentKeepalive: Seq<char>,
    pub presharedKey: Seq<char>,
}

impl View for Peer {
    type V = PeerView;

    open spec fn view(&self) -> PeerView {
        PeerView {
            endpoint: self.endpoint@,
            port: self.port@,
            publicKey: self.publicKey@,
            persistentKeepalive: self.persistentKeepalive@,
            presharedKey: self.presharedKey@,
        }
    }
}

/// Apps, folders and IP ranges routed through the tunnel.
#[allow(non_snake_case)]
pub struct Allowed {
    pub apps: String,
    pub folders: String,
    pub ipAddresses: String,
}

/// View of an [`Allowed`] rule set.
#[allow(non_snake_case)]
pub struct AllowedView {
    pub apps: Seq<char>,
    pub folders: Seq<char>,
    pub ipAddresses: Seq<char>,
}

impl View for Allowed {
    type V = AllowedView;

    open spec fn view(&self) -> AllowedView {
        AllowedView {
            apps: self.apps@,
            folders: self.folders@,
            ipAddresses: self.ipAddresses@,
        }
    }
}

/// Apps, folders and IP ranges kept out of the tunnel.
#[allow(non_snake_case)]
pub struct Disallowed {
    pub apps: String,
    pub folders: String,
    pub ipAddresses: String,
}

/// View of a [`Disallowed`] rule set.
#[allow(non_snake_case)]
pub struct DisallowedView {
    pub apps: Seq<char>,
    pub folders: Seq<char>,
    pub ipAddresses: Seq<char>,
}

impl View for Disallowed {
    type V = DisallowedView;

    open spec fn view(&self) -> DisallowedView {
        DisallowedView {
            apps: self.apps@,
            folders: self.folders@,
            ipAddresses: self.ipAddresses@,
        }
    }
}

/// The two rule sets of a tunnel descriptor.
pub struct Rules {
    pub allowed: Allowed,
    pub disallowed: Disallowed,
}

/// View of a [`Rules`] pair.
pub struct RulesView {
    pub allowed: AllowedView,
    pub disallowed: DisallowedView,
}

impl View for Rules {
    type V = RulesView;

    open spec fn view(&self) -> RulesView {
        RulesView { allowed: self.allowed@, disallowed: self.disallowed@ }
    }
}

/// A tunnel descriptor: everything one enable request needs.
pub struct Tunnel {
    pub id: String,
    pub name: String,
    pub interface: Interface,
    pub peer: Peer,
    pub rules: Rules,
}

/// View of a [`Tunnel`].
pub struct TunnelView {
    pub id: Seq<char>,
    pub name: Seq<char>,
    pub interface: InterfaceView,
    pub peer: PeerView,
    pub rules: RulesView,
}

impl View for Tunnel {
    type V = TunnelView;

    open spec fn view(&self) -> TunnelView {
        TunnelView {
            id: self.id@,
            name: self.name@,
            interface: self.interface@,
            peer: self.peer@,
            rules: self.rules@,
        }
    }
}

} // verus!
