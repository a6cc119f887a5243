//! Network protocols used between and inside validator deployments.

use vstd::prelude::*;

verus! {

/// Network protocol in use.
#[derive(Clone, Copy, Debug, PartialEq, Eq, Structural)]
pub enum Network {
    Grpc,
    Grpcs,
    Tcp,
    Udp,
}

/// Network protocol in use outside and inside a deployment.
#[derive(Clone, Copy, Debug)]
pub struct NetworkConfig {
    /// The internal network (e.g. proxy to validator).
    pub internal: Network,
    /// The external network (e.g. proxy to the exterior).
    pub external: Network,
}

/// The configuration fragment naming the protocol.
pub open spec fn toml_text(n: Network) -> Seq<char> {
    match n {
        Network::Grpc => "{ Grpc = \"ClearText\" }"@,
        Network::Grpcs => "{ Grpc = \"Tls\" }"@,
        Network::Tcp => "{ Simple = \"Tcp\" }"@,
        Network::Udp => "{ Simple = \"Udp\" }"@,
    }
}

/// The short name of the protocol.
pub open spec fn short_name(n: Network) -> Seq<char> {
    match n {
        Network::Grpc => "grpc"@,
        Network::Grpcs => "grpcs"@,
        Network::Tcp => "tcp"@,
        Network::Udp => "udp"@,
    }
}

/// The same protocol without transport encryption.
pub open spec fn without_tls(n: Network) -> Network {
    match n {
        Network::Grpcs => Network::Grpc,
        _ => n,
    }
}

/// The host name under which a local node is reached.
pub open spec fn localhost_name(n: Network) -> Seq<char> {
    match n {
        Network::Grpc | Network::Grpcs => "localhost"@,
        Network::Tcp | Network::Udp => "127.0.0.1"@,
    }
}

/// The protocol schema used in a node address.
pub open spec fn schema_name(n: Network) -> Seq<char> {
    match n {
        Network::Grpc | Network::Grpcs => "grpc"@,
        Network::Tcp => "tcp"@,
        Network::Udp => "udp"@,
    }
}

impl Network {
    /// Returns the configuration fragment that selects this protocol.
    pub fn toml(&self) -> (r: &'static str)
        ensures
            r@ == toml_text(*self),
    {
        match self {
            Network::Grpc => "{ Grpc = \"ClearText\" }",
            Network::Grpcs => "{ Grpc = \"Tls\" }",
            Network::Tcp => "{ Simple = \"Tcp\" }",
            Network::Udp => "{ Simple = \"Udp\" }",
        }
    }

    /// Returns the short name of this protocol.
    pub fn short(&self) -> (r: &'static str)
        ensures
            r@ == short_name(*self),
    {
        match self {
            Network::Grpc => "grpc",
            Network::Grpcs => "grpcs",
            Network::Tcp => "tcp",
            Network::Udp => "udp",
        }
    }

    /// Returns the same protocol with transport encryption removed.
    pub fn drop_tls(&self) -> (r: Self)
        ensures
            r == without_tls(*self),
    {
        match self {
            Network::Grpc => Network::Grpc,
            Network::Grpcs => Network::Grpc,
            Network::Tcp => Network::Tcp,
            Network::Udp => Network::Udp,
        }
    }

    /// Returns the host name under which a local node is reached.
    pub fn localhost(&self) -> (r: &'static str)
        ensures
            r@ == localhost_name(*self),
    {
        match self {
            Network::Grpc | Network::Grpcs => "localhost",
            Network::Tcp | Network::Udp => "127.0.0.1",
        }
    }

    /// Returns the protocol schema to use in the node address tuple.
    pub fn schema(&self) -> (r: &'static str)
        ensures
            r@ == schema_name(*self),
    {
        match self {
            Network::Grpc | Network::Grpcs => "grpc",
            Network::Tcp => "tcp",
            Network::Udp => "udp",
        }
    }
}

} // verus!
