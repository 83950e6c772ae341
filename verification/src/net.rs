//! The multiplayer server's protocol settings and its lobby of connected
//! players.
//!
//! Channel settings are described here with plain values; the application
//! turns them into the networking library's configuration.
use vstd::prelude::*;
use std::collections::HashMap;

verus! {

broadcast use vstd::std_specs::hash::group_hash_axioms;

/// The protocol's identifier, shared by server and clients.
pub const PROTOCOL_ID: u64 = 7;

/// The channels on which clients send to the server.
#[derive(PartialEq, Eq, Structural, Debug, Clone, Copy)]
pub enum ClientChannel {
    Input,
    Command,
}

/// The channels on which the server sends to clients.
#[derive(PartialEq, Eq, Structural, Debug, Clone, Copy)]
pub enum ServerChannel {
    ServerMessages,
    NetworkedEntities,
}

/// The wire identifier of a client channel: commands 0, input 1.
pub open spec fn client_channel_id(channel: ClientChannel) -> u8 {
    match channel {
        ClientChannel::Command => 0,
        ClientChannel::Input => 1,
    }
}

/// The wire identifier of a server channel: networked entities 0, server
/// messages 1.
pub open spec fn server_channel_id(channel: ServerChannel) -> u8 {
    match channel {
        ServerChannel::NetworkedEntities => 0,
        ServerChannel::ServerMessages => 1,
    }
}

impl From<ClientChannel> for u8 {
    fn from(channel_id: ClientChannel) -> (r: u8) {
        match channel_id {
            ClientChannel::Command => 0,
            ClientChannel::Input => 1,
        }
    }
}

impl vstd::std_specs::convert::FromSpecImpl<ClientChannel> for u8 {
    open spec fn obeys_from_spec() -> bool {
        true
    }

    open spec fn from_spec(v: ClientChannel) -> u8 {
        client_channel_id(v)
    }
}

impl From<ServerChannel> for u8 {
    fn from(channel_id: ServerChannel) -> (r: u8) {
        match channel_id {
            ServerChannel::NetworkedEntities => 0,
            ServerChannel::ServerMessages => 1,
        }
    }
}

impl vstd::std_specs::convert::FromSpecImpl<ServerChannel> for u8 {
    open spec fn obeys_from_spec() -> bool {
        true
    }

    open spec fn from_spec(v: ServerChannel) -> u8 {
        server_channel_id(v)
    }
}

/// How a channel delivers its messages.
#[derive(PartialEq, Eq, Structural, Debug, Clone, Copy)]
pub enum SendKind {
    Unreliable,
    /// Delivered, in order; a message not acknowledged within
    /// `resend_time_ms` milliseconds is sent again.
    ReliableOrdered { resend_time_ms: u64 },
}

/// The settings of one channel.
#[derive(PartialEq, Eq, Structural, Debug, Clone, Copy)]
pub struct ChannelSpec {
    pub channel_id: u8,
    pub max_memory_usage_bytes: usize,
    pub send_type: SendKind,
}

/// The settings of a connection.
pub struct ConnectionSpec {
    pub available_bytes_per_tick: u64,
    pub client_channels_config: Vec<ChannelSpec>,
    pub server_channels_config: Vec<ChannelSpec>,
}

/// The client channels' settings: the input channel, then the command
/// channel, both reliable and ordered, resent at once, with 5 MiB of memory
/// each.
pub open spec fn spec_client_channels() -> Seq<ChannelSpec> {
    seq![
        ChannelSpec {
            channel_id: client_channel_id(ClientChannel::Input),
            max_memory_usage_bytes: 5242880usize,
            send_type: SendKind::ReliableOrdered { resend_time_ms: 0 },
        },
        ChannelSpec {
            channel_id: client_channel_id(ClientChannel::Command),
            max_memory_usage_bytes: 5242880usize,
            send_type: SendKind::ReliableOrdered { resend_time_ms: 0 },
        },
    ]
}

/// The server channels' settings: networked entities unreliable, server
/// messages reliable and ordered with a resend after 200 ms, 10 MiB of memory
/// each.
pub open spec fn spec_server_channels() -> Seq<ChannelSpec> {
    seq![
        ChannelSpec {
            channel_id: server_channel_id(ServerChannel::NetworkedEntities),
            max_memory_usage_bytes: 10485760usize,
            send_type: SendKind::Unreliable,
        },
        ChannelSpec {
            channel_id: server_channel_id(ServerChannel::ServerMessages),
            max_memory_usage_bytes: 10485760usize,
            send_type: SendKind::ReliableOrdered { resend_time_ms: 200 },
        },
    ]
}

impl ClientChannel {
    /// The settings of the client channels.
    pub fn channels_config() -> (r: Vec<ChannelSpec>)
        ensures
            r@ == spec_client_channels(),
    {
        let r = vec![
            ChannelSpec {
                channel_id: ClientChannel::Input.into(),
                max_memory_usage_bytes: 5 * 1024 * 1024,
                send_type: SendKind::ReliableOrdered { resend_time_ms: 0 },
            },
            ChannelSpec {
                channel_id: ClientChannel::Command.into(),
                max_memory_usage_bytes: 5 * 1024 * 1024,
                send_type: SendKind::ReliableOrdered { resend_time_ms: 0 },
            },
        ];
        assert(r@ =~= spec_client_channels());
        r
    }
}

impl ServerChannel {
    /// The settings of the server channels.
    pub fn channels_config() -> (r: Vec<ChannelSpec>)
        ensures
            r@ == spec_server_channels(),
    {
        let r = vec![
            ChannelSpec {
                channel_id: ServerChannel::NetworkedEntities.into(),
                max_memory_usage_bytes: 10 * 1024 * 1024,
                send_type: SendKind::Unreliable,
            },
            ChannelSpec {
                channel_id: ServerChannel::ServerMessages.into(),
                max_memory_usage_bytes: 10 * 1024 * 1024,
                send_type: SendKind::ReliableOrdered { resend_time_ms: 200 },
            },
        ];
        assert(r@ =~= spec_server_channels());
        r
    }
}

/// The connection settings: 1 MiB per tick, and the two sides' channels.
pub fn connection_config() -> (r: ConnectionSpec)
    ensures
        r.available_bytes_per_tick == 1024 * 1024,
        r.client_channels_config@ == spec_client_channels(),
        r.server_channels_config@ == spec_server_channels(),
{
    ConnectionSpec {
        available_bytes_per_tick: 1024 * 1024,
        client_channels_config: ClientChannel::channels_config(),
        server_channels_config: ServerChannel::channels_config(),
    }
}

/// On each side, every channel's settings carry its own wire identifier, and
/// no two channels share one.
pub proof fn lemma_channel_ids_distinct()
    ensures
        forall|a: ClientChannel, b: ClientChannel| a != b ==> client_channel_id(a) != client_channel_id(b),
        forall|a: ServerChannel, b: ServerChannel| a != b ==> server_channel_id(a) != server_channel_id(b),
        spec_client_channels()[0].channel_id != spec_client_channels()[1].channel_id,
        spec_server_channels()[0].channel_id != spec_server_channels()[1].channel_id,
{
}

/// The address the server listens on: the one configured in the environment,
/// else `127.0.0.1:5000`.
pub fn server_socket_addr(configured: Option<String>) -> (r: String)
    ensures
        r@ == match configured {
            Some(addr) => addr@,
            None => "127.0.0.1:5000"@,
        },
{
    match configured {
        Some(addr) => addr,
        None => String::from_str("127.0.0.1:5000"),
    }
}

/// The connected players: each client's identifier mapped to its car (the
/// car's entity, in its bit form).
pub struct ServerLobby {
    pub players: HashMap<u64, u64>,
}

impl ServerLobby {
    /// A lobby with nobody in it.
    pub fn new() -> (r: Self)
        ensures
            r.players@ == Map::<u64, u64>::empty(),
    {
        ServerLobby { players: HashMap::new() }
    }

    /// Records that `client_id` now drives the car `entity`; gives back the
    /// car it drove before, if any.
    pub fn player_connected(&mut self, client_id: u64, entity: u64) -> (r: Option<u64>)
        ensures
            final(self).players@ == old(self).players@.insert(client_id, entity),
            r == (if old(self).players@.contains_key(client_id) {
                Some(old(self).players@[client_id])
            } else {
                None
            }),
    {
        self.players.insert(client_id, entity)
    }

    /// Forgets `client_id`; gives back the car it drove, which the server
    /// then takes out of the world.
    pub fn player_disconnected(&mut self, client_id: u64) -> (r: Option<u64>)
        ensures
            final(self).players@ == old(self).players@.remove(client_id),
            r == (if old(self).players@.contains_key(client_id) {
                Some(old(self).players@[client_id])
            } else {
                None
            }),
    {
        self.players.remove(&client_id)
    }

    /// The car that `client_id` drives, to which its input goes.
    pub fn player_entity(&self, client_id: u64) -> (r: Option<u64>)
        ensures
            r == (if self.players@.contains_key(client_id) {
                Some(self.players@[client_id])
            } else {
                None
            }),
    {
        match self.players.get(&client_id) {
            Some(e) => Some(*e),
            None => None,
        }
    }
}

/// A connected player's car is found under its client's identifier until the
/// client disconnects; other clients' cars are not affected; after the
/// disconnection the client has no car.
pub proof fn lemma_lobby_connect_disconnect(players: Map<u64, u64>, client_id: u64, entity: u64, other: u64)
    requires
        other != client_id,
    ensures
        players.insert(client_id, entity).contains_key(client_id),
        players.insert(client_id, entity)[client_id] == entity,
        players.insert(client_id, entity).contains_key(other) == players.contains_key(other),
        players.contains_key(other) ==> players.insert(client_id, entity)[other] == players[other],
        !players.insert(client_id, entity).remove(client_id).contains_key(client_id),
        players.remove(client_id).contains_key(other) == players.contains_key(other),
{
}

} // verus!
