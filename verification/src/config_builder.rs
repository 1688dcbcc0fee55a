//! Builders for the configuration records.

use vstd::prelude::*;

use crate::config::{RpcConfig, TcpConfig};
use crate::rpc::Rpc;

verus! {

/// Builder for [`TcpConfig`].
pub struct TcpConfigBuilder {
    pub auto_pack: bool,
    pub enable_ipv6: bool,
    pub max_body_size: u32,
    pub max_send_buffer_size: u32,
    pub socket_send_buffer_size: u32,
    pub socket_recv_buffer_size: u32,
}

impl TcpConfigBuilder {
    /// All features off, all sizes zero.
    pub fn new() -> (r: TcpConfigBuilder)
        ensures
            !r.auto_pack,
            !r.enable_ipv6,
            r.max_body_size == 0,
            r.max_send_buffer_size == 0,
            r.socket_send_buffer_size == 0,
            r.socket_recv_buffer_size == 0,
    {
        TcpConfigBuilder {
            auto_pack: false,
            enable_ipv6: false,
            max_body_size: 0,
            max_send_buffer_size: 0,
            socket_send_buffer_size: 0,
            socket_recv_buffer_size: 0,
        }
    }

    pub fn auto_pack(&mut self, auto_pack: bool)
        ensures
            *final(self) == (TcpConfigBuilder { auto_pack: auto_pack, ..*old(self) }),
    {
        self.auto_pack = auto_pack;
    }

    pub fn enable_ipv6(&mut self, enable_ipv6: bool)
        ensures
            *final(self) == (TcpConfigBuilder { enable_ipv6: enable_ipv6, ..*old(self) }),
    {
        self.enable_ipv6 = enable_ipv6;
    }

    pub fn max_body_size(&mut self, max_body_size: u32)
        ensures
            *final(self) == (TcpConfigBuilder { max_body_size: max_body_size, ..*old(self) }),
    {
        self.max_body_size = max_body_size;
    }

    pub fn max_send_buffer_size(&mut self, max_send_buffer_size: u32)
        ensures
            *final(self) == (TcpConfigBuilder {
                max_send_buffer_size: max_send_buffer_size,
                ..*old(self)
            }),
    {
        self.max_send_buffer_size = max_send_buffer_size;
    }

    pub fn socket_send_buffer_size(&mut self, socket_send_buffer_size: u32)
        ensures
            *final(self) == (TcpConfigBuilder {
                socket_send_buffer_size: socket_send_buffer_size,
                ..*old(self)
            }),
    {
        self.socket_send_buffer_size = socket_send_buffer_size;
    }

    pub fn socket_recv_buffer_size(&mut self, socket_recv_buffer_size: u32)
        ensures
            *final(self) == (TcpConfigBuilder {
                socket_recv_buffer_size: socket_recv_buffer_size,
                ..*old(self)
            }),
    {
        self.socket_recv_buffer_size = socket_recv_buffer_size;
    }

    /// The settings gathered so far.
    pub fn build(&self) -> (r: TcpConfig)
        ensures
            r.auto_pack == self.auto_pack,
            r.enable_ipv6 == self.enable_ipv6,
            r.max_body_size == self.max_body_size,
            r.max_send_buffer_size == self.max_send_buffer_size,
            r.socket_send_buffer_size == self.socket_send_buffer_size,
            r.socket_recv_buffer_size == self.socket_recv_buffer_size,
    {
        TcpConfig {
            auto_pack: self.auto_pack,
            enable_ipv6: self.enable_ipv6,
            max_body_size: self.max_body_size,
            max_send_buffer_size: self.max_send_buffer_size,
            socket_send_buffer_size: self.socket_send_buffer_size,
            socket_recv_buffer_size: self.socket_recv_buffer_size,
        }
    }
}

/// Builder for [`RpcConfig`], moved through its steps.
pub struct RpcConfigBuilder {
    pub rpc: Option<Rpc>,
    pub ping_interval_ms: u32,
    pub pong_timeout_ms: u32,
    pub enable_ipv6: bool,
    pub max_body_size: u32,
    pub max_send_buffer_size: u32,
    pub socket_send_buffer_size: u32,
    pub socket_recv_buffer_size: u32,
}

impl RpcConfigBuilder {
    /// No engine, all intervals and sizes zero.
    pub fn new() -> (r: RpcConfigBuilder)
        ensures
            r.rpc is None,
            r.ping_interval_ms == 0,
            r.pong_timeout_ms == 0,
            !r.enable_ipv6,
            r.max_body_size == 0,
            r.max_send_buffer_size == 0,
            r.socket_send_buffer_size == 0,
            r.socket_recv_buffer_size == 0,
    {
        RpcConfigBuilder {
            rpc: None,
            ping_interval_ms: 0,
            pong_timeout_ms: 0,
            enable_ipv6: false,
            max_body_size: 0,
            max_send_buffer_size: 0,
            socket_send_buffer_size: 0,
            socket_recv_buffer_size: 0,
        }
    }

    pub fn rpc(self, rpc: Option<Rpc>) -> (r: RpcConfigBuilder)
        ensures
            r == (RpcConfigBuilder { rpc: rpc, ..self }),
    {
        RpcConfigBuilder { rpc, ..self }
    }

    pub fn ping_interval_ms(self, ping_interval_ms: u32) -> (r: RpcConfigBuilder)
        ensures
            r == (RpcConfigBuilder { ping_interval_ms: ping_interval_ms, ..self }),
    {
        RpcConfigBuilder { ping_interval_ms, ..self }
    }

    pub fn pong_timeout_ms(self, pong_timeout_ms: u32) -> (r: RpcConfigBuilder)
        ensures
            r == (RpcConfigBuilder { pong_timeout_ms: pong_timeout_ms, ..self }),
    {
        RpcConfigBuilder { pong_timeout_ms, ..self }
    }

    pub fn enable_ipv6(self, enable_ipv6: bool) -> (r: RpcConfigBuilder)
        ensures
            r == (RpcConfigBuilder { enable_ipv6: enable_ipv6, ..self }),
    {
        RpcConfigBuilder { enable_ipv6, ..self }
    }

    pub fn max_body_size(self, max_body_size: u32) -> (r: RpcConfigBuilder)
        ensures
            r == (RpcConfigBuilder { max_body_size: max_body_size, ..self }),
    {
        RpcConfigBuilder { max_body_size, ..self }
    }

    pub fn max_send_buffer_size(self, max_send_buffer_size: u32) -> (r: RpcConfigBuilder)
        ensures
            r == (RpcConfigBuilder { max_send_buffer_size: max_send_buffer_size, ..self }),
    {
        RpcConfigBuilder { max_send_buffer_size, ..self }
    }

    pub fn socket_send_buffer_size(self, socket_send_buffer_size: u32) -> (r: RpcConfigBuilder)
        ensures
            r == (RpcConfigBuilder {
                socket_send_buffer_size: socket_send_buffer_size,
                ..self
            }),
    {
        RpcConfigBuilder { socket_send_buffer_size, ..self }
    }

    pub fn socket_recv_buffer_size(self, socket_recv_buffer_size: u32) -> (r: RpcConfigBuilder)
        ensures
            r == (RpcConfigBuilder {
                socket_recv_buffer_size: socket_recv_buffer_size,
                ..self
            }),
    {
        RpcConfigBuilder { socket_recv_buffer_size, ..self }
    }

    /// The settings gathered so far, engine included.
    pub fn build(self) -> (r: RpcConfig)
        ensures
            r.rpc == self.rpc,
            r.ping_interval_ms == self.ping_interval_ms,
            r.pong_timeout_ms == self.pong_timeout_ms,
            r.enable_ipv6 == self.enable_ipv6,
            r.max_body_size == self.max_body_size,
            r.max_send_buffer_size == self.max_send_buffer_size,
            r.socket_send_buffer_size == self.socket_send_buffer_size,
            r.socket_recv_buffer_size == self.socket_recv_buffer_size,
    {
        RpcConfig {
            rpc: self.rpc,
            ping_interval_ms: self.ping_interval_ms,
            pong_timeout_ms: self.pong_timeout_ms,
            enable_ipv6: self.enable_ipv6,
            max_body_size: self.max_body_size,
            max_send_buffer_size: self.max_send_buffer_size,
            socket_send_buffer_size: self.socket_send_buffer_size,
            socket_recv_buffer_size: self.socket_recv_buffer_size,
        }
    }
}

} // verus!
