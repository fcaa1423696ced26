//! The wire packet model: the tagged union of every message exchanged
//! between peers and the relay server, and the plain value types it carries.
//!
//! Message ids are 128-bit values, timestamps are milliseconds as `u64`,
//! and audio samples travel as the 32-bit wire words of their samples, so
//! that the codec is portable across byte order.
use vstd::prelude::*;

verus! {

/// The privilege level of an account and of the session it authenticates.
#[derive(Clone, Copy, PartialEq, Eq, Structural, Debug)]
pub enum Role {
    User,
    Admin,
}

/// A moderation command an admin can aim at a named user.
#[derive(Clone, Copy, PartialEq, Eq, Structural, Debug)]
pub enum AdminActionType {
    Kick,
    Ban,
    Mute,
    Unmute,
}

/// One member of a channel as shown in a membership snapshot.
#[derive(Clone, PartialEq, Debug)]
pub struct UserInfo {
    pub username: String,
    pub role: Role,
    pub is_muted: bool,
    pub status: String,
    pub nick_color: String,
}

/// One channel of a membership snapshot together with its current members.
#[derive(Clone, PartialEq, Debug)]
pub struct ChannelMembers {
    pub channel: String,
    pub members: Vec<UserInfo>,
}

/// The mathematical twin of a `UserInfo`.
#[verifier::ext_equal]
pub struct UserInfoV {
    pub username: Seq<char>,
    pub role: Role,
    pub is_muted: bool,
    pub status: Seq<char>,
    pub nick_color: Seq<char>,
}

impl DeepView for UserInfo {
    type V = UserInfoV;

    open spec fn deep_view(&self) -> UserInfoV {
        UserInfoV {
            username: self.username@,
            role: self.role,
            is_muted: self.is_muted,
            status: self.status@,
            nick_color: self.nick_color@,
        }
    }
}

/// The mathematical twin of a `ChannelMembers`.
#[verifier::ext_equal]
pub struct ChannelMembersV {
    pub channel: Seq<char>,
    pub members: Seq<UserInfoV>,
}

impl DeepView for ChannelMembers {
    type V = ChannelMembersV;

    open spec fn deep_view(&self) -> ChannelMembersV {
        ChannelMembersV { channel: self.channel@, members: self.members.deep_view() }
    }
}

/// One replayed record of a history response: a past chat, direct or file
/// message, or a reaction aimed at one of them.
#[derive(Clone, PartialEq, Debug)]
pub enum HistoryEntry {
    Chat { id: u128, username: String, message: Vec<u8>, timestamp: u64 },
    Private { id: u128, from: String, to: String, message: Vec<u8>, timestamp: u64 },
    File {
        id: u128,
        from: String,
        to: Option<String>,
        filename: String,
        data: Vec<u8>,
        is_image: bool,
        timestamp: u64,
    },
    Reaction { msg_id: u128, from: String, emoji: String },
}

/// The mathematical twin of a `HistoryEntry`: the same shape over `Seq`
/// values, so that contracts can speak of entry contents extensionally.
#[verifier::ext_equal]
pub enum EntryV {
    Chat { id: u128, username: Seq<char>, message: Seq<u8>, timestamp: u64 },
    Private { id: u128, from: Seq<char>, to: Seq<char>, message: Seq<u8>, timestamp: u64 },
    File {
        id: u128,
        from: Seq<char>,
        to: Option<Seq<char>>,
        filename: Seq<char>,
        data: Seq<u8>,
        is_image: bool,
        timestamp: u64,
    },
    Reaction { msg_id: u128, from: Seq<char>, emoji: Seq<char> },
}

impl EntryV {
    /// The timestamp a history response is ordered by; reactions carry none
    /// and are placed after every timestamped record.
    pub open spec fn spec_timestamp(self) -> Option<u64> {
        match self {
            EntryV::Chat { timestamp, .. } => Some(timestamp),
            EntryV::Private { timestamp, .. } => Some(timestamp),
            EntryV::File { timestamp, .. } => Some(timestamp),
            EntryV::Reaction { .. } => None,
        }
    }
}

impl DeepView for HistoryEntry {
    type V = EntryV;

    open spec fn deep_view(&self) -> EntryV {
        match self {
            HistoryEntry::Chat { id, username, message, timestamp } => EntryV::Chat {
                id: *id,
                username: username@,
                message: message@,
                timestamp: *timestamp,
            },
            HistoryEntry::Private { id, from, to, message, timestamp } => EntryV::Private {
                id: *id,
                from: from@,
                to: to@,
                message: message@,
                timestamp: *timestamp,
            },
            HistoryEntry::File { id, from, to, filename, data, is_image, timestamp } => (
            EntryV::File {
                id: *id,
                from: from@,
                to: to.deep_view(),
                filename: filename@,
                data: data@,
                is_image: *is_image,
                timestamp: *timestamp,
            }),
            HistoryEntry::Reaction { msg_id, from, emoji } => EntryV::Reaction {
                msg_id: *msg_id,
                from: from@,
                emoji: emoji@,
            },
        }
    }
}

/// Every message of the wire protocol. A packet is one datagram: large
/// payloads are pre-chunked by the sender (`FileStart` / `FileChunk`),
/// never fragmented by the transport.
#[derive(Clone, PartialEq, Debug)]
pub enum NetworkPacket {
    /// First packet from a new address; opens an unauthenticated session.
    Handshake { username: String },
    /// Create an account. The reply is an `AuthResponse`.
    Register { username: String, password: String },
    /// Authenticate the session. The reply is an `AuthResponse`.
    Login { username: String, password: String },
    /// Server verdict on `Register` or `Login`; role, status and color are
    /// carried only on a successful login.
    AuthResponse {
        success: bool,
        message: String,
        role: Option<Role>,
        status: Option<String>,
        nick_color: Option<String>,
    },
    /// One frame of audio samples, tagged with the sending user.
    Audio { username: String, data: Vec<u32> },
    /// A channel chat message with an opaque body.
    ChatMessage { id: u128, username: String, message: Vec<u8>, timestamp: u64 },
    /// Liveness of the sender's keyboard, relayed to the channel.
    TypingStatus { username: String, is_typing: bool },
    /// Move the session into an existing channel.
    JoinChannel(String),
    /// Idempotently add a durable channel.
    CreateChannel(String),
    /// Full membership snapshot of every channel.
    UsersUpdate(Vec<ChannelMembers>),
    /// A direct message to one named recipient.
    PrivateMessage { id: u128, from: String, to: String, message: Vec<u8>, timestamp: u64 },
    /// Announces a chunked file transfer and opens a reassembly slot.
    FileStart {
        id: u128,
        from: String,
        to: Option<String>,
        filename: String,
        total_chunks: u32,
        is_image: bool,
        timestamp: u64,
    },
    /// One chunk of an announced transfer.
    FileChunk { id: u128, chunk_index: u32, data: Vec<u8> },
    /// A fully reassembled file, as replayed in history.
    FileMessage {
        id: u128,
        from: String,
        to: Option<String>,
        filename: String,
        data: Vec<u8>,
        is_image: bool,
        timestamp: u64,
    },
    /// An emoji aimed at an earlier message id.
    Reaction { msg_id: u128, from: String, emoji: String },
    /// Ask for the recent records of a channel.
    RequestChatHistory { channel: String },
    /// Reply to `RequestChatHistory`.
    ChatHistory(Vec<HistoryEntry>),
    /// Ask for the recent records exchanged with one named user.
    RequestDirectHistory { target: String },
    /// Reply to `RequestDirectHistory`.
    DirectHistory(Vec<HistoryEntry>),
    /// A moderation command; honored only from an admin session.
    AdminAction { target: String, action: AdminActionType },
    /// Ask for a user's avatar and bio.
    RequestProfile(String),
    /// Carries a user's avatar and bio, as a request or a broadcast.
    ProfileUpdate { username: String, avatar_url: String, bio: String },
    /// Sets the sender's status text and nickname color.
    UpdateProfile { status: String, nick_color: String },
    /// Refreshes the sender's liveness and nothing else.
    Ping,
}

/// The mathematical twin of a `NetworkPacket`: the same shape over `Seq`
/// values, so that the codec and the relay contracts can pin a packet's
/// contents extensionally.
#[verifier::ext_equal]
pub enum PacketV {
    Handshake { username: Seq<char> },
    Register { username: Seq<char>, password: Seq<char> },
    Login { username: Seq<char>, password: Seq<char> },
    AuthResponse {
        success: bool,
        message: Seq<char>,
        role: Option<Role>,
        status: Option<Seq<char>>,
        nick_color: Option<Seq<char>>,
    },
    Audio { username: Seq<char>, data: Seq<u32> },
    ChatMessage { id: u128, username: Seq<char>, message: Seq<u8>, timestamp: u64 },
    TypingStatus { username: Seq<char>, is_typing: bool },
    JoinChannel(Seq<char>),
    CreateChannel(Seq<char>),
    UsersUpdate(Seq<ChannelMembersV>),
    PrivateMessage { id: u128, from: Seq<char>, to: Seq<char>, message: Seq<u8>, timestamp: u64 },
    FileStart {
        id: u128,
        from: Seq<char>,
        to: Option<Seq<char>>,
        filename: Seq<char>,
        total_chunks: u32,
        is_image: bool,
        timestamp: u64,
    },
    FileChunk { id: u128, chunk_index: u32, data: Seq<u8> },
    FileMessage {
        id: u128,
        from: Seq<char>,
        to: Option<Seq<char>>,
        filename: Seq<char>,
        data: Seq<u8>,
        is_image: bool,
        timestamp: u64,
    },
    Reaction { msg_id: u128, from: Seq<char>, emoji: Seq<char> },
    RequestChatHistory { channel: Seq<char> },
    ChatHistory(Seq<EntryV>),
    RequestDirectHistory { target: Seq<char> },
    DirectHistory(Seq<EntryV>),
    AdminAction { target: Seq<char>, action: AdminActionType },
    RequestProfile(Seq<char>),
    ProfileUpdate { username: Seq<char>, avatar_url: Seq<char>, bio: Seq<char> },
    UpdateProfile { status: Seq<char>, nick_color: Seq<char> },
    Ping,
}

impl DeepView for NetworkPacket {
    type V = PacketV;

    open spec fn deep_view(&self) -> PacketV {
        match self {
            NetworkPacket::Handshake { username } => PacketV::Handshake { username: username@ },
            NetworkPacket::Register { username, password } => PacketV::Register {
                username: username@,
                password: password@,
            },
            NetworkPacket::Login { username, password } => PacketV::Login {
                username: username@,
                password: password@,
            },
            NetworkPacket::AuthResponse { success, message, role, status, nick_color } => (
            PacketV::AuthResponse {
                success: *success,
                message: message@,
                role: *role,
                status: status.deep_view(),
                nick_color: nick_color.deep_view(),
            }),
            NetworkPacket::Audio { username, data } => PacketV::Audio {
                username: username@,
                data: data@,
            },
            NetworkPacket::ChatMessage { id, username, message, timestamp } => (
            PacketV::ChatMessage {
                id: *id,
                username: username@,
                message: message@,
                timestamp: *timestamp,
            }),
            NetworkPacket::TypingStatus { username, is_typing } => PacketV::TypingStatus {
                username: username@,
                is_typing: *is_typing,
            },
            NetworkPacket::JoinChannel(name) => PacketV::JoinChannel(name@),
            NetworkPacket::CreateChannel(name) => PacketV::CreateChannel(name@),
            NetworkPacket::UsersUpdate(state) => PacketV::UsersUpdate(state.deep_view()),
            NetworkPacket::PrivateMessage { id, from, to, message, timestamp } => (
            PacketV::PrivateMessage {
                id: *id,
                from: from@,
                to: to@,
                message: message@,
                timestamp: *timestamp,
            }),
            NetworkPacket::FileStart {
                id,
                from,
                to,
                filename,
                total_chunks,
                is_image,
                timestamp,
            } => PacketV::FileStart {
                id: *id,
                from: from@,
                to: to.deep_view(),
                filename: filename@,
                total_chunks: *total_chunks,
                is_image: *is_image,
                timestamp: *timestamp,
            },
            NetworkPacket::FileChunk { id, chunk_index, data } => PacketV::FileChunk {
                id: *id,
                chunk_index: *chunk_index,
                data: data@,
            },
            NetworkPacket::FileMessage {
                id,
                from,
                to,
                filename,
                data,
                is_image,
                timestamp,
            } => PacketV::FileMessage {
                id: *id,
                from: from@,
                to: to.deep_view(),
                filename: filename@,
                data: data@,
                is_image: *is_image,
                timestamp: *timestamp,
            },
            NetworkPacket::Reaction { msg_id, from, emoji } => PacketV::Reaction {
                msg_id: *msg_id,
                from: from@,
                emoji: emoji@,
            },
            NetworkPacket::RequestChatHistory { channel } => PacketV::RequestChatHistory {
                channel: channel@,
            },
            NetworkPacket::ChatHistory(entries) => PacketV::ChatHistory(entries.deep_view()),
            NetworkPacket::RequestDirectHistory { target } => PacketV::RequestDirectHistory {
                target: target@,
            },
            NetworkPacket::DirectHistory(entries) => PacketV::DirectHistory(entries.deep_view()),
            NetworkPacket::AdminAction { target, action } => PacketV::AdminAction {
                target: target@,
                action: *action,
            },
            NetworkPacket::RequestProfile(name) => PacketV::RequestProfile(name@),
            NetworkPacket::ProfileUpdate { username, avatar_url, bio } => PacketV::ProfileUpdate {
                username: username@,
                avatar_url: avatar_url@,
                bio: bio@,
            },
            NetworkPacket::UpdateProfile { status, nick_color } => PacketV::UpdateProfile {
                status: status@,
                nick_color: nick_color@,
            },
            NetworkPacket::Ping => PacketV::Ping,
        }
    }
}

} // verus!
