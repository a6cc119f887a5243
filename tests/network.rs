use linera_messaging::network::{Network, NetworkConfig};

#[test]
fn short_names() {
    assert_eq!(Network::Grpc.short(), "grpc");
    assert_eq!(Network::Grpcs.short(), "grpcs");
    assert_eq!(Network::Tcp.short(), "tcp");
    assert_eq!(Network::Udp.short(), "udp");
}

#[test]
fn drop_tls_removes_encryption_only() {
    assert_eq!(Network::Grpcs.drop_tls(), Network::Grpc);
    assert_eq!(Network::Grpc.drop_tls(), Network::Grpc);
    assert_eq!(Network::Tcp.drop_tls(), Network::Tcp);
    assert_eq!(Network::Udp.drop_tls(), Network::Udp);
}

#[test]
fn localhost_names() {
    assert_eq!(Network::Grpc.localhost(), "localhost");
    assert_eq!(Network::Grpcs.localhost(), "localhost");
    assert_eq!(Network::Tcp.localhost(), "127.0.0.1");
    assert_eq!(Network::Udp.localhost(), "127.0.0.1");
}

#[test]
fn schema_names() {
    assert_eq!(Network::Grpc.schema(), "grpc");
    assert_eq!(Network::Grpcs.schema(), "grpc");
    assert_eq!(Network::Tcp.schema(), "tcp");
    assert_eq!(Network::Udp.schema(), "udp");
}

#[test]
fn toml_fragments() {
    assert_eq!(Network::Grpc.toml(), "{ Grpc = \"ClearText\" }");
    assert_eq!(Network::Grpcs.toml(), "{ Grpc = \"Tls\" }");
    assert_eq!(Network::Tcp.toml(), "{ Simple = \"Tcp\" }");
    assert_eq!(Network::Udp.toml(), "{ Simple = \"Udp\" }");
}

#[test]
fn network_config_holds_both_sides() {
    let config = NetworkConfig { internal: Network::Grpc, external: Network::Grpcs };
    assert_eq!(config.internal.short(), "grpc");
    assert_eq!(config.external.drop_tls(), config.internal);
}
