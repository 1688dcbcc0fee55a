//! Plain configuration records for transport glue built around the engine.

use vstd::prelude::*;

use crate::rpc::Rpc;

verus! {

/// Settings of a raw TCP endpoint.
#[derive(Clone, Copy)]
pub struct TcpConfig {
    /// Prefix each package with a four-byte little-endian length.
    pub auto_pack: bool,
    pub enable_ipv6: bool,
    pub max_body_size: u32,
    pub max_send_buffer_size: u32,
    pub socket_send_buffer_size: u32,
    pub socket_recv_buffer_size: u32,
}

impl TcpConfig {
    /// All features off, all sizes zero.
    pub fn new() -> (r: TcpConfig)
        ensures
            !r.auto_pack,
            !r.enable_ipv6,
            r.max_body_size == 0,
            r.max_send_buffer_size == 0,
            r.socket_send_buffer_size == 0,
            r.socket_recv_buffer_size == 0,
    {
        TcpConfig {
            auto_pack: false,
            enable_ipv6: false,
            max_body_size: 0,
            max_send_buffer_size: 0,
            socket_send_buffer_size: 0,
            socket_recv_buffer_size: 0,
        }
    }

    /// Settle the body-size bound: without auto-packing, an unlimited body
    /// size falls back to a small default.
    pub fn init(&mut self)
        ensures
            *final(self) == (TcpConfig {
                max_body_size: (if !old(self).auto_pack && old(self).max_body_size == u32::MAX {
                    1024
                } else {
                    old(self).max_body_size
                }),
                ..*old(self)
            }),
    {
        if !self.auto_pack && self.max_body_size == u32::MAX {
            self.max_body_size = 1024;
        }
    }
}

/// Settings of an engine-carrying client or server endpoint.
pub struct RpcConfig {
    /// The engine the endpoint drives, when the caller supplies one.
    pub rpc: Option<Rpc>,
    pub ping_interval_ms: u32,
    pub pong_timeout_ms: u32,
    pub enable_ipv6: bool,
    pub max_body_size: u32,
    pub max_send_buffer_size: u32,
    pub socket_send_buffer_size: u32,
    pub socket_recv_buffer_size: u32,
}

impl RpcConfig {
    /// The TCP settings this endpoint implies; engine traffic is always
    /// auto-packed.
    pub fn to_tcp_config(&self) -> (r: TcpConfig)
        ensures
            r.auto_pack,
            r.enable_ipv6 == self.enable_ipv6,
            r.max_body_size == self.max_body_size,
            r.max_send_buffer_size == self.max_send_buffer_size,
            r.socket_send_buffer_size == self.socket_send_buffer_size,
            r.socket_recv_buffer_size == self.socket_recv_buffer_size,
    {
        TcpConfig {
            auto_pack: true,
            enable_ipv6: self.enable_ipv6,
            max_body_size: self.max_body_size,
            max_send_buffer_size: self.max_send_buffer_size,
            socket_send_buffer_size: self.socket_send_buffer_size,
            socket_recv_buffer_size: self.socket_recv_buffer_size,
        }
    }
}

} // verus!
