use rpc_core::config::RpcConfig;
use rpc_core::config_builder::{RpcConfigBuilder, TcpConfigBuilder};
use rpc_core::rpc::Rpc;

#[test]
fn tcp_config_builder() {
    let mut b = TcpConfigBuilder::new();
    b.auto_pack(true);
    b.enable_ipv6(true);
    b.max_body_size(4096);
    b.max_send_buffer_size(8192);
    b.socket_send_buffer_size(1111);
    b.socket_recv_buffer_size(2222);
    let config = b.build();
    assert!(config.auto_pack);
    assert!(config.enable_ipv6);
    assert_eq!(config.max_body_size, 4096);
    assert_eq!(config.max_send_buffer_size, 8192);
    assert_eq!(config.socket_send_buffer_size, 1111);
    assert_eq!(config.socket_recv_buffer_size, 2222);
}

#[test]
fn tcp_config_init_caps_unlimited_body() {
    let mut b = TcpConfigBuilder::new();
    b.max_body_size(u32::MAX);
    let mut config = b.build();
    config.init();
    assert_eq!(config.max_body_size, 1024);

    let mut b = TcpConfigBuilder::new();
    b.auto_pack(true);
    b.max_body_size(u32::MAX);
    let mut config = b.build();
    config.init();
    assert_eq!(config.max_body_size, u32::MAX);
}

#[test]
fn rpc_config_builder() {
    let config: RpcConfig = RpcConfigBuilder::new()
        .rpc(Some(Rpc::new(None)))
        .ping_interval_ms(500)
        .pong_timeout_ms(1000)
        .enable_ipv6(false)
        .max_body_size(77)
        .max_send_buffer_size(88)
        .socket_send_buffer_size(99)
        .socket_recv_buffer_size(111)
        .build();
    assert!(config.rpc.is_some());
    assert_eq!(config.ping_interval_ms, 500);
    assert_eq!(config.pong_timeout_ms, 1000);
    assert_eq!(config.max_body_size, 77);

    let tcp = config.to_tcp_config();
    assert!(tcp.auto_pack);
    assert_eq!(tcp.max_body_size, 77);
    assert_eq!(tcp.max_send_buffer_size, 88);
    assert_eq!(tcp.socket_send_buffer_size, 99);
    assert_eq!(tcp.socket_recv_buffer_size, 111);
}
