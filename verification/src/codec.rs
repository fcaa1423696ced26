//! The wire codec: a compact, self-describing binary form for every
//! packet, little-endian and portable across byte order, structurally
//! validated on decode. A datagram is one encoded packet; decoding never
//! panics, and malformed input decodes to nothing.
use vstd::prelude::*;

use vstd::utf8::{decode_utf8, encode_utf8, valid_utf8};

use crate::packet::{
    AdminActionType, ChannelMembers, ChannelMembersV, EntryV, HistoryEntry, NetworkPacket,
    PacketV, Role, UserInfo, UserInfoV,
};

verus! {

// ---------------------------------------------------------------------
// What each value encodes to.
// ---------------------------------------------------------------------
pub open spec fn enc_bool(v: bool) -> Seq<u8> {
    seq![if v {
        1u8
    } else {
        0u8
    }]
}

pub open spec fn enc_u32(x: u32) -> Seq<u8> {
    seq![
        (x % 256) as u8,
        ((x / 256) % 256) as u8,
        ((x / 65536) % 256) as u8,
        ((x / 16777216) % 256) as u8,
    ]
}

pub open spec fn enc_u64(x: u64) -> Seq<u8> {
    seq![
        (x % 256) as u8,
        ((x / 256) % 256) as u8,
        ((x / 65536) % 256) as u8,
        ((x / 16777216) % 256) as u8,
        ((x / 4294967296) % 256) as u8,
        ((x / 1099511627776) % 256) as u8,
        ((x / 281474976710656) % 256) as u8,
        ((x / 72057594037927936) % 256) as u8,
    ]
}

pub open spec fn enc_u128(x: u128) -> Seq<u8> {
    enc_u64((x % 0x1_0000_0000_0000_0000) as u64) + enc_u64((x / 0x1_0000_0000_0000_0000) as u64)
}

pub open spec fn enc_bytes(b: Seq<u8>) -> Seq<u8> {
    enc_u64(b.len() as u64) + b
}

pub open spec fn enc_str(s: Seq<char>) -> Seq<u8> {
    enc_bytes(encode_utf8(s))
}

pub open spec fn enc_opt_str(o: Option<Seq<char>>) -> Seq<u8> {
    match o {
        None => seq![0u8],
        Some(s) => seq![1u8] + enc_str(s),
    }
}

pub open spec fn enc_role(r: Role) -> Seq<u8> {
    match r {
        Role::User => seq![0u8],
        Role::Admin => seq![1u8],
    }
}

pub open spec fn enc_opt_role(o: Option<Role>) -> Seq<u8> {
    match o {
        None => seq![0u8],
        Some(r) => seq![1u8] + enc_role(r),
    }
}

pub open spec fn enc_action(a: AdminActionType) -> Seq<u8> {
    match a {
        AdminActionType::Kick => seq![0u8],
        AdminActionType::Ban => seq![1u8],
        AdminActionType::Mute => seq![2u8],
        AdminActionType::Unmute => seq![3u8],
    }
}

pub open spec fn enc_words_items(ws: Seq<u32>) -> Seq<u8>
    decreases ws.len(),
{
    if ws.len() == 0 {
        Seq::empty()
    } else {
        enc_u32(ws[0]) + enc_words_items(ws.drop_first())
    }
}

pub open spec fn enc_words(ws: Seq<u32>) -> Seq<u8> {
    enc_u64(ws.len() as u64) + enc_words_items(ws)
}

pub open spec fn enc_user_info(u: UserInfoV) -> Seq<u8> {
    enc_str(u.username) + enc_role(u.role) + enc_bool(u.is_muted) + enc_str(u.status) + enc_str(
        u.nick_color,
    )
}

pub open spec fn enc_user_infos_items(us: Seq<UserInfoV>) -> Seq<u8>
    decreases us.len(),
{
    if us.len() == 0 {
        Seq::empty()
    } else {
        enc_user_info(us[0]) + enc_user_infos_items(us.drop_first())
    }
}

pub open spec fn enc_channel_members(c: ChannelMembersV) -> Seq<u8> {
    enc_str(c.channel) + enc_u64(c.members.len() as u64) + enc_user_infos_items(c.members)
}

pub open spec fn enc_channels_items(cs: Seq<ChannelMembersV>) -> Seq<u8>
    decreases cs.len(),
{
    if cs.len() == 0 {
        Seq::empty()
    } else {
        enc_channel_members(cs[0]) + enc_channels_items(cs.drop_first())
    }
}

pub open spec fn enc_channels(cs: Seq<ChannelMembersV>) -> Seq<u8> {
    enc_u64(cs.len() as u64) + enc_channels_items(cs)
}

pub open spec fn enc_entry(e: EntryV) -> Seq<u8> {
    match e {
        EntryV::Chat { id, username, message, timestamp } => seq![0u8] + enc_u128(id) + enc_str(
            username,
        ) + enc_bytes(message) + enc_u64(timestamp),
        EntryV::Private { id, from, to, message, timestamp } => seq![1u8] + enc_u128(id)
            + enc_str(from) + enc_str(to) + enc_bytes(message) + enc_u64(timestamp),
        EntryV::File { id, from, to, filename, data, is_image, timestamp } => seq![2u8]
            + enc_u128(id) + enc_str(from) + enc_opt_str(to) + enc_str(filename) + enc_bytes(
            data,
        ) + enc_bool(is_image) + enc_u64(timestamp),
        EntryV::Reaction { msg_id, from, emoji } => seq![3u8] + enc_u128(msg_id) + enc_str(from)
            + enc_str(emoji),
    }
}

pub open spec fn enc_entries_items(es: Seq<EntryV>) -> Seq<u8>
    decreases es.len(),
{
    if es.len() == 0 {
        Seq::empty()
    } else {
        enc_entry(es[0]) + enc_entries_items(es.drop_first())
    }
}

pub open spec fn enc_entries(es: Seq<EntryV>) -> Seq<u8> {
    enc_u64(es.len() as u64) + enc_entries_items(es)
}

/// The one encoding of every packet: a tag byte, then the fields in order.
pub open spec fn enc_packet(p: PacketV) -> Seq<u8> {
    match p {
        PacketV::Handshake { username } => seq![0u8] + enc_str(username),
        PacketV::Register { username, password } => seq![1u8] + enc_str(username) + enc_str(
            password,
        ),
        PacketV::Login { username, password } => seq![2u8] + enc_str(username) + enc_str(
            password,
        ),
        PacketV::AuthResponse { success, message, role, status, nick_color } => seq![3u8]
            + enc_bool(success) + enc_str(message) + enc_opt_role(role) + enc_opt_str(status)
            + enc_opt_str(nick_color),
        PacketV::Audio { username, data } => seq![4u8] + enc_str(username) + enc_words(data),
        PacketV::ChatMessage { id, username, message, timestamp } => seq![5u8] + enc_u128(id)
            + enc_str(username) + enc_bytes(message) + enc_u64(timestamp),
        PacketV::TypingStatus { username, is_typing } => seq![6u8] + enc_str(username)
            + enc_bool(is_typing),
        PacketV::JoinChannel(name) => seq![7u8] + enc_str(name),
        PacketV::CreateChannel(name) => seq![8u8] + enc_str(name),
        PacketV::UsersUpdate(state) => seq![9u8] + enc_channels(state),
        PacketV::PrivateMessage { id, from, to, message, timestamp } => seq![10u8] + enc_u128(
            id,
        ) + enc_str(from) + enc_str(to) + enc_bytes(message) + enc_u64(timestamp),
        PacketV::FileStart { id, from, to, filename, total_chunks, is_image, timestamp } => (
        seq![11u8] + enc_u128(id) + enc_str(from) + enc_opt_str(to) + enc_str(filename)
            + enc_u32(total_chunks) + enc_bool(is_image) + enc_u64(timestamp)),
        PacketV::FileChunk { id, chunk_index, data } => seq![12u8] + enc_u128(id) + enc_u32(
            chunk_index,
        ) + enc_bytes(data),
        PacketV::FileMessage { id, from, to, filename, data, is_image, timestamp } => seq![13u8]
            + enc_u128(id) + enc_str(from) + enc_opt_str(to) + enc_str(filename) + enc_bytes(
            data,
        ) + enc_bool(is_image) + enc_u64(timestamp),
        PacketV::Reaction { msg_id, from, emoji } => seq![14u8] + enc_u128(msg_id) + enc_str(
            from,
        ) + enc_str(emoji),
        PacketV::RequestChatHistory { channel } => seq![15u8] + enc_str(channel),
        PacketV::ChatHistory(entries) => seq![16u8] + enc_entries(entries),
        PacketV::RequestDirectHistory { target } => seq![17u8] + enc_str(target),
        PacketV::DirectHistory(entries) => seq![18u8] + enc_entries(entries),
        PacketV::AdminAction { target, action } => seq![19u8] + enc_str(target) + enc_action(
            action,
        ),
        PacketV::RequestProfile(name) => seq![20u8] + enc_str(name),
        PacketV::ProfileUpdate { username, avatar_url, bio } => seq![21u8] + enc_str(username)
            + enc_str(avatar_url) + enc_str(bio),
        PacketV::Ping => seq![22u8],
        PacketV::UpdateProfile { status, nick_color } => seq![23u8] + enc_str(status) + enc_str(
            nick_color,
        ),
    }
}

// ---------------------------------------------------------------------
// What a byte stream parses to: each parser reads one value at a cursor
// and yields it with the cursor after it, or nothing on malformed input.
// ---------------------------------------------------------------------
pub open spec fn dec_u8(b: Seq<u8>, i: int) -> Option<(u8, int)> {
    if 0 <= i && i + 1 <= b.len() {
        Some((b[i], i + 1))
    } else {
        None
    }
}

pub open spec fn dec_bool(b: Seq<u8>, i: int) -> Option<(bool, int)> {
    match dec_u8(b, i) {
        Some((v, j)) => if v == 0 {
            Some((false, j))
        } else if v == 1 {
            Some((true, j))
        } else {
            None
        },
        None => None,
    }
}

pub open spec fn dec_u32(b: Seq<u8>, i: int) -> Option<(u32, int)> {
    if 0 <= i && i + 4 <= b.len() {
        Some(
            (
                (b[i] + b[i + 1] * 256 + b[i + 2] * 65536 + b[i + 3] * 16777216) as u32,
                i + 4,
            ),
        )
    } else {
        None
    }
}

pub open spec fn dec_u64(b: Seq<u8>, i: int) -> Option<(u64, int)> {
    if 0 <= i && i + 8 <= b.len() {
        Some(
            (
                (b[i] + b[i + 1] * 256 + b[i + 2] * 65536 + b[i + 3] * 16777216 + b[i + 4]
                    * 4294967296 + b[i + 5] * 1099511627776 + b[i + 6] * 281474976710656 + b[i
                    + 7] * 72057594037927936) as u64,
                i + 8,
            ),
        )
    } else {
        None
    }
}

pub open spec fn dec_u128(b: Seq<u8>, i: int) -> Option<(u128, int)> {
    match dec_u64(b, i) {
        Some((lo, j)) => match dec_u64(b, j) {
            Some((hi, k)) => Some(((lo + hi * 0x1_0000_0000_0000_0000) as u128, k)),
            None => None,
        },
        None => None,
    }
}

pub open spec fn dec_bytes(b: Seq<u8>, i: int) -> Option<(Seq<u8>, int)> {
    match dec_u64(b, i) {
        Some((n, j)) => if j + n <= b.len() {
            Some((b.subrange(j, j + n), j + n))
        } else {
            None
        },
        None => None,
    }
}

pub open spec fn dec_str(b: Seq<u8>, i: int) -> Option<(Seq<char>, int)> {
    match dec_bytes(b, i) {
        Some((bs, j)) => if valid_utf8(bs) {
            Some((decode_utf8(bs), j))
        } else {
            None
        },
        None => None,
    }
}

pub open spec fn dec_opt_str(b: Seq<u8>, i: int) -> Option<(Option<Seq<char>>, int)> {
    match dec_u8(b, i) {
        Some((t, j)) => if t == 0 {
            Some((None, j))
        } else if t == 1 {
            match dec_str(b, j) {
                Some((s, k)) => Some((Some(s), k)),
                None => None,
            }
        } else {
            None
        },
        None => None,
    }
}

pub open spec fn dec_role(b: Seq<u8>, i: int) -> Option<(Role, int)> {
    match dec_u8(b, i) {
        Some((t, j)) => if t == 0 {
            Some((Role::User, j))
        } else if t == 1 {
            Some((Role::Admin, j))
        } else {
            None
        },
        None => None,
    }
}

pub open spec fn dec_opt_role(b: Seq<u8>, i: int) -> Option<(Option<Role>, int)> {
    match dec_u8(b, i) {
        Some((t, j)) => if t == 0 {
            Some((None, j))
        } else if t == 1 {
            match dec_role(b, j) {
                Some((r, k)) => Some((Some(r), k)),
                None => None,
            }
        } else {
            None
        },
        None => None,
    }
}

pub open spec fn dec_action(b: Seq<u8>, i: int) -> Option<(AdminActionType, int)> {
    match dec_u8(b, i) {
        Some((t, j)) => if t == 0 {
            Some((AdminActionType::Kick, j))
        } else if t == 1 {
            Some((AdminActionType::Ban, j))
        } else if t == 2 {
            Some((AdminActionType::Mute, j))
        } else if t == 3 {
            Some((AdminActionType::Unmute, j))
        } else {
            None
        },
        None => None,
    }
}

pub open spec fn dec_words_items(b: Seq<u8>, i: int, n: int) -> Option<(Seq<u32>, int)>
    decreases n,
{
    if n <= 0 {
        Some((Seq::empty(), i))
    } else {
        match dec_u32(b, i) {
            Some((w, j)) => match dec_words_items(b, j, n - 1) {
                Some((ws, k)) => Some((seq![w] + ws, k)),
                None => None,
            },
            None => None,
        }
    }
}

pub open spec fn dec_words(b: Seq<u8>, i: int) -> Option<(Seq<u32>, int)> {
    match dec_u64(b, i) {
        Some((n, j)) => dec_words_items(b, j, n as int),
        None => None,
    }
}

pub open spec fn dec_user_info(b: Seq<u8>, i: int) -> Option<(UserInfoV, int)> {
    match dec_str(b, i) {
        Some((username, i1)) => match dec_role(b, i1) {
            Some((role, i2)) => match dec_bool(b, i2) {
                Some((is_muted, i3)) => match dec_str(b, i3) {
                    Some((status, i4)) => match dec_str(b, i4) {
                        Some((nick_color, i5)) => Some(
                            (
                                UserInfoV { username, role, is_muted, status, nick_color },
                                i5,
                            ),
                        ),
                        None => None,
                    },
                    None => None,
                },
                None => None,
            },
            None => None,
        },
        None => None,
    }
}

pub open spec fn dec_user_infos_items(b: Seq<u8>, i: int, n: int) -> Option<
    (Seq<UserInfoV>, int),
>
    decreases n,
{
    if n <= 0 {
        Some((Seq::empty(), i))
    } else {
        match dec_user_info(b, i) {
            Some((u, j)) => match dec_user_infos_items(b, j, n - 1) {
                Some((us, k)) => Some((seq![u] + us, k)),
                None => None,
            },
            None => None,
        }
    }
}

pub open spec fn dec_channel_members(b: Seq<u8>, i: int) -> Option<(ChannelMembersV, int)> {
    match dec_str(b, i) {
        Some((channel, i1)) => match dec_u64(b, i1) {
            Some((n, i2)) => match dec_user_infos_items(b, i2, n as int) {
                Some((members, i3)) => Some((ChannelMembersV { channel, members }, i3)),
                None => None,
            },
            None => None,
        },
        None => None,
    }
}

pub open spec fn dec_channels_items(b: Seq<u8>, i: int, n: int) -> Option<
    (Seq<ChannelMembersV>, int),
>
    decreases n,
{
    if n <= 0 {
        Some((Seq::empty(), i))
    } else {
        match dec_channel_members(b, i) {
            Some((c, j)) => match dec_channels_items(b, j, n - 1) {
                Some((cs, k)) => Some((seq![c] + cs, k)),
                None => None,
            },
            None => None,
        }
    }
}

pub open spec fn dec_channels(b: Seq<u8>, i: int) -> Option<(Seq<ChannelMembersV>, int)> {
    match dec_u64(b, i) {
        Some((n, j)) => dec_channels_items(b, j, n as int),
        None => None,
    }
}

pub open spec fn dec_entry(b: Seq<u8>, i: int) -> Option<(EntryV, int)> {
    match dec_u8(b, i) {
        Some((t, i0)) => if t == 0 {
            match dec_u128(b, i0) {
                Some((id, i1)) => match dec_str(b, i1) {
                    Some((username, i2)) => match dec_bytes(b, i2) {
                        Some((message, i3)) => match dec_u64(b, i3) {
                            Some((timestamp, i4)) => Some(
                                (EntryV::Chat { id, username, message, timestamp }, i4),
                            ),
                            None => None,
                        },
                        None => None,
                    },
                    None => None,
                },
                None => None,
            }
        } else if t == 1 {
            match dec_u128(b, i0) {
                Some((id, i1)) => match dec_str(b, i1) {
                    Some((from, i2)) => match dec_str(b, i2) {
                        Some((to, i3)) => match dec_bytes(b, i3) {
                            Some((message, i4)) => match dec_u64(b, i4) {
                                Some((timestamp, i5)) => Some(
                                    (
                                        EntryV::Private { id, from, to, message, timestamp },
                                        i5,
                                    ),
                                ),
                                None => None,
                            },
                            None => None,
                        },
                        None => None,
                    },
                    None => None,
                },
                None => None,
            }
        } else if t == 2 {
            match dec_u128(b, i0) {
                Some((id, i1)) => match dec_str(b, i1) {
                    Some((from, i2)) => match dec_opt_str(b, i2) {
                        Some((to, i3)) => match dec_str(b, i3) {
                            Some((filename, i4)) => match dec_bytes(b, i4) {
                                Some((data, i5)) => match dec_bool(b, i5) {
                                    Some((is_image, i6)) => match dec_u64(b, i6) {
                                        Some((timestamp, i7)) => Some(
                                            (
                                                EntryV::File {
                                                    id,
                                                    from,
                                                    to,
                                                    filename,
                                                    data,
                                                    is_image,
                                                    timestamp,
                                                },
                                                i7,
                                            ),
                                        ),
                                        None => None,
                                    },
                                    None => None,
                                },
                                None => None,
                            },
                            None => None,
                        },
                        None => None,
                    },
                    None => None,
                },
                None => None,
            }
        } else if t == 3 {
            match dec_u128(b, i0) {
                Some((msg_id, i1)) => match dec_str(b, i1) {
                    Some((from, i2)) => match dec_str(b, i2) {
                        Some((emoji, i3)) => Some(
                            (EntryV::Reaction { msg_id, from, emoji }, i3),
                        ),
                        None => None,
                    },
                    None => None,
                },
                None => None,
            }
        } else {
            None
        },
        None => None,
    }
}

pub open spec fn dec_entries_items(b: Seq<u8>, i: int, n: int) -> Option<(Seq<EntryV>, int)>
    decreases n,
{
    if n <= 0 {
        Some((Seq::empty(), i))
    } else {
        match dec_entry(b, i) {
            Some((e, j)) => match dec_entries_items(b, j, n - 1) {
                Some((es, k)) => Some((seq![e] + es, k)),
                None => None,
            },
            None => None,
        }
    }
}

pub open spec fn dec_entries(b: Seq<u8>, i: int) -> Option<(Seq<EntryV>, int)> {
    match dec_u64(b, i) {
        Some((n, j)) => dec_entries_items(b, j, n as int),
        None => None,
    }
}

/// What the packet body after the tag parses to.
pub open spec fn dec_packet_body(b: Seq<u8>, t: u8, i0: int) -> Option<(PacketV, int)> {
    if t == 0 {
        match dec_str(b, i0) {
            Some((username, j)) => Some((PacketV::Handshake { username }, j)),
            None => None,
        }
    } else if t == 1 {
        match dec_str(b, i0) {
            Some((username, j)) => match dec_str(b, j) {
                Some((password, k)) => Some((PacketV::Register { username, password }, k)),
                None => None,
            },
            None => None,
        }
    } else if t == 2 {
        match dec_str(b, i0) {
            Some((username, j)) => match dec_str(b, j) {
                Some((password, k)) => Some((PacketV::Login { username, password }, k)),
                None => None,
            },
            None => None,
        }
    } else if t == 3 {
        match dec_bool(b, i0) {
            Some((success, i1)) => match dec_str(b, i1) {
                Some((message, i2)) => match dec_opt_role(b, i2) {
                    Some((role, i3)) => match dec_opt_str(b, i3) {
                        Some((status, i4)) => match dec_opt_str(b, i4) {
                            Some((nick_color, i5)) => Some(
                                (
                                    PacketV::AuthResponse {
                                        success,
                                        message,
                                        role,
                                        status,
                                        nick_color,
                                    },
                                    i5,
                                ),
                            ),
                            None => None,
                        },
                        None => None,
                    },
                    None => None,
                },
                None => None,
            },
            None => None,
        }
    } else if t == 4 {
        match dec_str(b, i0) {
            Some((username, i1)) => match dec_words(b, i1) {
                Some((data, i2)) => Some((PacketV::Audio { username, data }, i2)),
                None => None,
            },
            None => None,
        }
    } else if t == 5 {
        match dec_u128(b, i0) {
            Some((id, i1)) => match dec_str(b, i1) {
                Some((username, i2)) => match dec_bytes(b, i2) {
                    Some((message, i3)) => match dec_u64(b, i3) {
                        Some((timestamp, i4)) => Some(
                            (
                                PacketV::ChatMessage { id, username, message, timestamp },
                                i4,
                            ),
                        ),
                        None => None,
                    },
                    None => None,
                },
                None => None,
            },
            None => None,
        }
    } else if t == 6 {
        match dec_str(b, i0) {
            Some((username, i1)) => match dec_bool(b, i1) {
                Some((is_typing, i2)) => Some(
                    (PacketV::TypingStatus { username, is_typing }, i2),
                ),
                None => None,
            },
            None => None,
        }
    } else if t == 7 {
        match dec_str(b, i0) {
            Some((name, j)) => Some((PacketV::JoinChannel(name), j)),
            None => None,
        }
    } else if t == 8 {
        match dec_str(b, i0) {
            Some((name, j)) => Some((PacketV::CreateChannel(name), j)),
            None => None,
        }
    } else if t == 9 {
        match dec_channels(b, i0) {
            Some((state, j)) => Some((PacketV::UsersUpdate(state), j)),
            None => None,
        }
    } else if t == 10 {
        match dec_u128(b, i0) {
            Some((id, i1)) => match dec_str(b, i1) {
                Some((from, i2)) => match dec_str(b, i2) {
                    Some((to, i3)) => match dec_bytes(b, i3) {
                        Some((message, i4)) => match dec_u64(b, i4) {
                            Some((timestamp, i5)) => Some(
                                (
                                    PacketV::PrivateMessage {
                                        id,
                                        from,
                                        to,
                                        message,
                                        timestamp,
                                    },
                                    i5,
                                ),
                            ),
                            None => None,
                        },
                        None => None,
                    },
                    None => None,
                },
                None => None,
            },
            None => None,
        }
    } else if t == 11 {
        match dec_u128(b, i0) {
            Some((id, i1)) => match dec_str(b, i1) {
                Some((from, i2)) => match dec_opt_str(b, i2) {
                    Some((to, i3)) => match dec_str(b, i3) {
                        Some((filename, i4)) => match dec_u32(b, i4) {
                            Some((total_chunks, i5)) => match dec_bool(b, i5) {
                                Some((is_image, i6)) => match dec_u64(b, i6) {
                                    Some((timestamp, i7)) => Some(
                                        (
                                            PacketV::FileStart {
                                                id,
                                                from,
                                                to,
                                                filename,
                                                total_chunks,
                                                is_image,
                                                timestamp,
                                            },
                                            i7,
                                        ),
                                    ),
                                    None => None,
                                },
                                None => None,
                            },
                            None => None,
                        },
                        None => None,
                    },
                    None => None,
                },
                None => None,
            },
            None => None,
        }
    } else if t == 12 {
        match dec_u128(b, i0) {
            Some((id, i1)) => match dec_u32(b, i1) {
                Some((chunk_index, i2)) => match dec_bytes(b, i2) {
                    Some((data, i3)) => Some(
                        (PacketV::FileChunk { id, chunk_index, data }, i3),
                    ),
                    None => None,
                },
                None => None,
            },
            None => None,
        }
    } else if t == 13 {
        match dec_u128(b, i0) {
            Some((id, i1)) => match dec_str(b, i1) {
                Some((from, i2)) => match dec_opt_str(b, i2) {
                    Some((to, i3)) => match dec_str(b, i3) {
                        Some((filename, i4)) => match dec_bytes(b, i4) {
                            Some((data, i5)) => match dec_bool(b, i5) {
                                Some((is_image, i6)) => match dec_u64(b, i6) {
                                    Some((timestamp, i7)) => Some(
                                        (
                                            PacketV::FileMessage {
                                                id,
                                                from,
                                                to,
                                                filename,
                                                data,
                                                is_image,
                                                timestamp,
                                            },
                                            i7,
                                        ),
                                    ),
                                    None => None,
                                },
                                None => None,
                            },
                            None => None,
                        },
                        None => None,
                    },
                    None => None,
                },
                None => None,
            },
            None => None,
        }
    } else if t == 14 {
        match dec_u128(b, i0) {
            Some((msg_id, i1)) => match dec_str(b, i1) {
                Some((from, i2)) => match dec_str(b, i2) {
                    Some((emoji, i3)) => Some(
                        (PacketV::Reaction { msg_id, from, emoji }, i3),
                    ),
                    None => None,
                },
                None => None,
            },
            None => None,
        }
    } else if t == 15 {
        match dec_str(b, i0) {
            Some((channel, j)) => Some((PacketV::RequestChatHistory { channel }, j)),
            None => None,
        }
    } else if t == 16 {
        match dec_entries(b, i0) {
            Some((entries, j)) => Some((PacketV::ChatHistory(entries), j)),
            None => None,
        }
    } else if t == 17 {
        match dec_str(b, i0) {
            Some((target, j)) => Some((PacketV::RequestDirectHistory { target }, j)),
            None => None,
        }
    } else if t == 18 {
        match dec_entries(b, i0) {
            Some((entries, j)) => Some((PacketV::DirectHistory(entries), j)),
            None => None,
        }
    } else if t == 19 {
        match dec_str(b, i0) {
            Some((target, i1)) => match dec_action(b, i1) {
                Some((action, i2)) => Some((PacketV::AdminAction { target, action }, i2)),
                None => None,
            },
            None => None,
        }
    } else if t == 20 {
        match dec_str(b, i0) {
            Some((name, j)) => Some((PacketV::RequestProfile(name), j)),
            None => None,
        }
    } else if t == 21 {
        match dec_str(b, i0) {
            Some((username, i1)) => match dec_str(b, i1) {
                Some((avatar_url, i2)) => match dec_str(b, i2) {
                    Some((bio, i3)) => Some(
                        (PacketV::ProfileUpdate { username, avatar_url, bio }, i3),
                    ),
                    None => None,
                },
                None => None,
            },
            None => None,
        }
    } else if t == 22 {
        Some((PacketV::Ping, i0))
    } else if t == 23 {
        match dec_str(b, i0) {
            Some((status, i1)) => match dec_str(b, i1) {
                Some((nick_color, i2)) => Some(
                    (PacketV::UpdateProfile { status, nick_color }, i2),
                ),
                None => None,
            },
            None => None,
        }
    } else {
        None
    }
}

/// What a whole datagram parses to: one tagged packet filling the datagram
/// exactly; anything else is malformed and parses to nothing.
pub open spec fn dec_packet(b: Seq<u8>) -> Option<PacketV> {
    match dec_u8(b, 0) {
        Some((t, i0)) => match dec_packet_body(b, t, i0) {
            Some((p, end)) => if end == b.len() {
                Some(p)
            } else {
                None
            },
            None => None,
        },
        None => None,
    }
}

// ---------------------------------------------------------------------
// Spec-level list steps.
// ---------------------------------------------------------------------
proof fn lemma_words_items_push(s: Seq<u32>, x: u32)
    ensures
        enc_words_items(s.push(x)) == enc_words_items(s) + enc_u32(x),
    decreases s.len(),
{
    if s.len() == 0 {
        assert(s.push(x)[0] == x);
        assert(s.push(x).drop_first() =~= Seq::<u32>::empty());
        assert(enc_words_items(s.push(x)) == enc_u32(x) + enc_words_items(Seq::<u32>::empty()));
        assert(enc_u32(x) + Seq::<u8>::empty() =~= enc_u32(x));
        assert(enc_words_items(s) + enc_u32(x) =~= enc_u32(x));
    } else {
        assert(s.push(x)[0] == s[0]);
        assert(s.push(x).drop_first() =~= s.drop_first().push(x));
        lemma_words_items_push(s.drop_first(), x);
        assert(enc_words_items(s.push(x)) == enc_u32(s[0]) + (enc_words_items(s.drop_first())
            + enc_u32(x)));
        assert(enc_u32(s[0]) + (enc_words_items(s.drop_first()) + enc_u32(x)) =~= (enc_u32(
            s[0],
        ) + enc_words_items(s.drop_first())) + enc_u32(x));
    }
}

proof fn lemma_user_infos_items_push(s: Seq<UserInfoV>, x: UserInfoV)
    ensures
        enc_user_infos_items(s.push(x)) == enc_user_infos_items(s) + enc_user_info(x),
    decreases s.len(),
{
    if s.len() == 0 {
        assert(s.push(x)[0] == x);
        assert(s.push(x).drop_first() =~= Seq::<UserInfoV>::empty());
        assert(enc_user_infos_items(s.push(x)) == enc_user_info(x) + enc_user_infos_items(Seq::<UserInfoV>::empty()));
        assert(enc_user_info(x) + Seq::<u8>::empty() =~= enc_user_info(x));
        assert(enc_user_infos_items(s) + enc_user_info(x) =~= enc_user_info(x));
    } else {
        assert(s.push(x)[0] == s[0]);
        assert(s.push(x).drop_first() =~= s.drop_first().push(x));
        lemma_user_infos_items_push(s.drop_first(), x);
        assert(enc_user_infos_items(s.push(x)) == enc_user_info(s[0]) + (enc_user_infos_items(s.drop_first())
            + enc_user_info(x)));
        assert(enc_user_info(s[0]) + (enc_user_infos_items(s.drop_first()) + enc_user_info(x)) =~= (enc_user_info(
            s[0],
        ) + enc_user_infos_items(s.drop_first())) + enc_user_info(x));
    }
}

proof fn lemma_channels_items_push(s: Seq<ChannelMembersV>, x: ChannelMembersV)
    ensures
        enc_channels_items(s.push(x)) == enc_channels_items(s) + enc_channel_members(x),
    decreases s.len(),
{
    if s.len() == 0 {
        assert(s.push(x)[0] == x);
        assert(s.push(x).drop_first() =~= Seq::<ChannelMembersV>::empty());
        assert(enc_channels_items(s.push(x)) == enc_channel_members(x) + enc_channels_items(Seq::<ChannelMembersV>::empty()));
        assert(enc_channel_members(x) + Seq::<u8>::empty() =~= enc_channel_members(x));
        assert(enc_channels_items(s) + enc_channel_members(x) =~= enc_channel_members(x));
    } else {
        assert(s.push(x)[0] == s[0]);
        assert(s.push(x).drop_first() =~= s.drop_first().push(x));
        lemma_channels_items_push(s.drop_first(), x);
        assert(enc_channels_items(s.push(x)) == enc_channel_members(s[0]) + (enc_channels_items(s.drop_first())
            + enc_channel_members(x)));
        assert(enc_channel_members(s[0]) + (enc_channels_items(s.drop_first()) + enc_channel_members(x)) =~= (enc_channel_members(
            s[0],
        ) + enc_channels_items(s.drop_first())) + enc_channel_members(x));
    }
}

proof fn lemma_entries_items_push(s: Seq<EntryV>, x: EntryV)
    ensures
        enc_entries_items(s.push(x)) == enc_entries_items(s) + enc_entry(x),
    decreases s.len(),
{
    if s.len() == 0 {
        assert(s.push(x)[0] == x);
        assert(s.push(x).drop_first() =~= Seq::<EntryV>::empty());
        assert(enc_entries_items(s.push(x)) == enc_entry(x) + enc_entries_items(Seq::<EntryV>::empty()));
        assert(enc_entry(x) + Seq::<u8>::empty() =~= enc_entry(x));
        assert(enc_entries_items(s) + enc_entry(x) =~= enc_entry(x));
    } else {
        assert(s.push(x)[0] == s[0]);
        assert(s.push(x).drop_first() =~= s.drop_first().push(x));
        lemma_entries_items_push(s.drop_first(), x);
        assert(enc_entries_items(s.push(x)) == enc_entry(s[0]) + (enc_entries_items(s.drop_first())
            + enc_entry(x)));
        assert(enc_entry(s[0]) + (enc_entries_items(s.drop_first()) + enc_entry(x)) =~= (enc_entry(
            s[0],
        ) + enc_entries_items(s.drop_first())) + enc_entry(x));
    }
}

// ---------------------------------------------------------------------
// Executable decoding.
// ---------------------------------------------------------------------
/// Relies on std's String::from_utf8: it succeeds exactly on valid UTF-8
/// and yields the string those bytes spell.
#[verifier::external_body]
fn string_from_utf8(bytes: Vec<u8>) -> (r: Option<String>)
    ensures
        r is Some <==> valid_utf8(bytes@),
        r is Some ==> r.unwrap()@ == decode_utf8(bytes@),
{
    match String::from_utf8(bytes) {
        Ok(s) => Some(s),
        Err(_) => None,
    }
}

fn d_u8(b: &Vec<u8>, i: usize) -> (r: Option<(u8, usize)>)
    ensures
        match r {
            Some(p) => dec_u8(b@, i as int) == Some((p.0, p.1 as int)) && p.1 <= b@.len(),
            None => dec_u8(b@, i as int) is None,
        },
{
    if i < b.len() {
        Some((b[i], i + 1))
    } else {
        None
    }
}

fn d_bool(b: &Vec<u8>, i: usize) -> (r: Option<(bool, usize)>)
    ensures
        match r {
            Some(p) => dec_bool(b@, i as int) == Some((p.0, p.1 as int)) && p.1 <= b@.len(),
            None => dec_bool(b@, i as int) is None,
        },
{
    match d_u8(b, i) {
        Option::Some((v, j)) => {
            if v == 0 {
                Some((false, j))
            } else if v == 1 {
                Some((true, j))
            } else {
                None
            }
        },
        Option::None => None,
    }
}

fn d_u32(b: &Vec<u8>, i: usize) -> (r: Option<(u32, usize)>)
    ensures
        match r {
            Some(p) => dec_u32(b@, i as int) == Some((p.0, p.1 as int)) && p.1 <= b@.len(),
            None => dec_u32(b@, i as int) is None,
        },
{
    if b.len() >= 4 && i <= b.len() - 4 {
        let v = (b[i] as u32) + (b[i + 1] as u32) * 256 + (b[i + 2] as u32) * 65536 + (b[i
            + 3] as u32) * 16777216;
        Some((v, i + 4))
    } else {
        None
    }
}

fn d_u64(b: &Vec<u8>, i: usize) -> (r: Option<(u64, usize)>)
    ensures
        match r {
            Some(p) => dec_u64(b@, i as int) == Some((p.0, p.1 as int)) && p.1 <= b@.len(),
            None => dec_u64(b@, i as int) is None,
        },
{
    if b.len() >= 8 && i <= b.len() - 8 {
        let v = (b[i] as u64) + (b[i + 1] as u64) * 256 + (b[i + 2] as u64) * 65536 + (b[i
            + 3] as u64) * 16777216 + (b[i + 4] as u64) * 4294967296 + (b[i + 5] as u64)
            * 1099511627776 + (b[i + 6] as u64) * 281474976710656 + (b[i + 7] as u64)
            * 72057594037927936;
        Some((v, i + 8))
    } else {
        None
    }
}

fn d_u128(b: &Vec<u8>, i: usize) -> (r: Option<(u128, usize)>)
    ensures
        match r {
            Some(p) => dec_u128(b@, i as int) == Some((p.0, p.1 as int)) && p.1 <= b@.len(),
            None => dec_u128(b@, i as int) is None,
        },
{
    match d_u64(b, i) {
        Option::Some((lo, j)) => match d_u64(b, j) {
            Option::Some((hi, k)) => Some(
                ((lo as u128) + (hi as u128) * 0x1_0000_0000_0000_0000, k),
            ),
            Option::None => None,
        },
        Option::None => None,
    }
}

fn d_bytes(b: &Vec<u8>, i: usize) -> (r: Option<(Vec<u8>, usize)>)
    ensures
        match r {
            Some(p) => dec_bytes(b@, i as int) == Some((p.0@, p.1 as int)) && p.1 <= b@.len(),
            None => dec_bytes(b@, i as int) is None,
        },
{
    match d_u64(b, i) {
        Option::Some((n, j)) => {
            if n <= (b.len() - j) as u64 {
                let len = n as usize;
                let blen = b.len();
                let mut out: Vec<u8> = Vec::new();
                let mut k: usize = 0;
                while k < len
                    invariant
                        k <= len,
                        blen == b@.len(),
                        j + len <= b@.len(),
                        out@ == b@.subrange(j as int, j + k),
                    decreases len - k,
                {
                    out.push(b[j + k]);
                    k += 1;
                    proof {
                        assert(b@.subrange(j as int, j + k) =~= b@.subrange(
                            j as int,
                            j + k - 1,
                        ).push(b@[j + k - 1]));
                    }
                }
                Some((out, j + len))
            } else {
                None
            }
        },
        Option::None => None,
    }
}

fn d_str(b: &Vec<u8>, i: usize) -> (r: Option<(String, usize)>)
    ensures
        match r {
            Some(p) => dec_str(b@, i as int) == Some((p.0@, p.1 as int)) && p.1 <= b@.len(),
            None => dec_str(b@, i as int) is None,
        },
{
    match d_bytes(b, i) {
        Option::Some((bs, j)) => {
            let ghost bsv = bs@;
            match string_from_utf8(bs) {
                Option::Some(s) => Some((s, j)),
                Option::None => None,
            }
        },
        Option::None => None,
    }
}

fn d_opt_str(b: &Vec<u8>, i: usize) -> (r: Option<(Option<String>, usize)>)
    ensures
        match r {
            Some(p) => dec_opt_str(b@, i as int) == Some((p.0.deep_view(), p.1 as int)) && p.1
                <= b@.len(),
            None => dec_opt_str(b@, i as int) is None,
        },
{
    match d_u8(b, i) {
        Option::Some((t, j)) => {
            if t == 0 {
                Some((None, j))
            } else if t == 1 {
                match d_str(b, j) {
                    Option::Some((s, k)) => Some((Some(s), k)),
                    Option::None => None,
                }
            } else {
                None
            }
        },
        Option::None => None,
    }
}

fn d_role(b: &Vec<u8>, i: usize) -> (r: Option<(Role, usize)>)
    ensures
        match r {
            Some(p) => dec_role(b@, i as int) == Some((p.0, p.1 as int)) && p.1 <= b@.len(),
            None => dec_role(b@, i as int) is None,
        },
{
    match d_u8(b, i) {
        Option::Some((t, j)) => {
            if t == 0 {
                Some((Role::User, j))
            } else if t == 1 {
                Some((Role::Admin, j))
            } else {
                None
            }
        },
        Option::None => None,
    }
}

fn d_opt_role(b: &Vec<u8>, i: usize) -> (r: Option<(Option<Role>, usize)>)
    ensures
        match r {
            Some(p) => dec_opt_role(b@, i as int) == Some((p.0, p.1 as int)) && p.1
                <= b@.len(),
            None => dec_opt_role(b@, i as int) is None,
        },
{
    match d_u8(b, i) {
        Option::Some((t, j)) => {
            if t == 0 {
                Some((None, j))
            } else if t == 1 {
                match d_role(b, j) {
                    Option::Some((ro, k)) => Some((Some(ro), k)),
                    Option::None => None,
                }
            } else {
                None
            }
        },
        Option::None => None,
    }
}

fn d_action(b: &Vec<u8>, i: usize) -> (r: Option<(AdminActionType, usize)>)
    ensures
        match r {
            Some(p) => dec_action(b@, i as int) == Some((p.0, p.1 as int)) && p.1 <= b@.len(),
            None => dec_action(b@, i as int) is None,
        },
{
    match d_u8(b, i) {
        Option::Some((t, j)) => {
            if t == 0 {
                Some((AdminActionType::Kick, j))
            } else if t == 1 {
                Some((AdminActionType::Ban, j))
            } else if t == 2 {
                Some((AdminActionType::Mute, j))
            } else if t == 3 {
                Some((AdminActionType::Unmute, j))
            } else {
                None
            }
        },
        Option::None => None,
    }
}

fn d_words(b: &Vec<u8>, i: usize) -> (r: Option<(Vec<u32>, usize)>)
    ensures
        match r {
            Some(p) => dec_words(b@, i as int) == Some((p.0@, p.1 as int)) && p.1 <= b@.len(),
            None => dec_words(b@, i as int) is None,
        },
{
    match d_u64(b, i) {
        Option::Some((n, j0)) => {
            let mut out: Vec<u32> = Vec::new();
            let mut cur: usize = j0;
            let mut k: u64 = 0;
            loop
                invariant
                    k <= n,
                    cur <= b@.len(),
                    dec_u64(b@, i as int) == Some((n, j0 as int)),
                    dec_words_items(b@, j0 as int, n as int) == (match dec_words_items(
                        b@,
                        cur as int,
                        (n - k) as int,
                    ) {
                        Some((ws, e)) => Some((out@ + ws, e)),
                        None => None::<(Seq<u32>, int)>,
                    }),
                ensures
                    cur <= b@.len(),
                    dec_words_items(b@, j0 as int, n as int) == Some((out@, cur as int)),
                decreases n - k,
            {
                if k == n {
                    proof {
                        assert(out@ + Seq::<u32>::empty() =~= out@);
                    }
                    break ;
                }
                match d_u32(b, cur) {
                    Option::Some((w, j)) => {
                        let ghost pre = out@;
                        out.push(w);
                        proof {
                            let rest = dec_words_items(b@, j as int, (n - k - 1) as int);
                            if rest is Some {
                                assert(pre + (seq![w] + rest.unwrap().0) =~= (pre.push(w))
                                    + rest.unwrap().0);
                            }
                        }
                        cur = j;
                        k = k + 1;
                    },
                    Option::None => {
                        proof {
                            assert(dec_words_items(b@, cur as int, (n - k) as int) is None);
                        }
                        return None;
                    },
                }
            }
            Some((out, cur))
        },
        Option::None => None,
    }
}

fn d_user_info(b: &Vec<u8>, i: usize) -> (r: Option<(UserInfo, usize)>)
    ensures
        match r {
            Some(p) => dec_user_info(b@, i as int) == Some((p.0.deep_view(), p.1 as int))
                && p.1 <= b@.len(),
            None => dec_user_info(b@, i as int) is None,
        },
{
    let (username, i1) = match d_str(b, i) {
        Option::Some(p) => p,
        Option::None => {
            return None;
        },
    };
    let (role, i2) = match d_role(b, i1) {
        Option::Some(p) => p,
        Option::None => {
            return None;
        },
    };
    let (is_muted, i3) = match d_bool(b, i2) {
        Option::Some(p) => p,
        Option::None => {
            return None;
        },
    };
    let (status, i4) = match d_str(b, i3) {
        Option::Some(p) => p,
        Option::None => {
            return None;
        },
    };
    let (nick_color, i5) = match d_str(b, i4) {
        Option::Some(p) => p,
        Option::None => {
            return None;
        },
    };
    let u = UserInfo { username, role, is_muted, status, nick_color };
    proof {
        assert(u.deep_view() =~= dec_user_info(b@, i as int).unwrap().0);
    }
    Some((u, i5))
}

fn d_user_infos_items(b: &Vec<u8>, start: usize, n: u64) -> (r: Option<(Vec<UserInfo>, usize)>)
    requires
        start <= b@.len(),
    ensures
        match r {
            Some(p) => dec_user_infos_items(b@, start as int, n as int) == Some(
                (p.0.deep_view(), p.1 as int),
            ) && p.1 <= b@.len(),
            None => dec_user_infos_items(b@, start as int, n as int) is None,
        },
{
    let mut out: Vec<UserInfo> = Vec::new();
    let mut cur: usize = start;
    let mut k: u64 = 0;
    loop
        invariant
            k <= n,
            cur <= b@.len(),
            dec_user_infos_items(b@, start as int, n as int) == (match dec_user_infos_items(
                b@,
                cur as int,
                (n - k) as int,
            ) {
                Some((us, e)) => Some((out.deep_view() + us, e)),
                None => None::<(Seq<UserInfoV>, int)>,
            }),
        ensures
            cur <= b@.len(),
            dec_user_infos_items(b@, start as int, n as int) == Some(
                (out.deep_view(), cur as int),
            ),
        decreases n - k,
    {
        if k == n {
            proof {
                assert(out.deep_view() + Seq::<UserInfoV>::empty() =~= out.deep_view());
            }
            break ;
        }
        match d_user_info(b, cur) {
            Option::Some((u, j)) => {
                let ghost pre = out.deep_view();
                out.push(u);
                proof {
                    assert(out.deep_view() =~= pre.push(u.deep_view()));
                    let rest = dec_user_infos_items(b@, j as int, (n - k - 1) as int);
                    if rest is Some {
                        assert(pre + (seq![u.deep_view()] + rest.unwrap().0) =~= (pre.push(
                            u.deep_view(),
                        )) + rest.unwrap().0);
                    }
                }
                cur = j;
                k = k + 1;
            },
            Option::None => {
                proof {
                    assert(dec_user_infos_items(b@, cur as int, (n - k) as int) is None);
                }
                return None;
            },
        }
    }
    Some((out, cur))
}

fn d_channel_members(b: &Vec<u8>, i: usize) -> (r: Option<(ChannelMembers, usize)>)
    ensures
        match r {
            Some(p) => dec_channel_members(b@, i as int) == Some(
                (p.0.deep_view(), p.1 as int),
            ) && p.1 <= b@.len(),
            None => dec_channel_members(b@, i as int) is None,
        },
{
    let (channel, i1) = match d_str(b, i) {
        Option::Some(p) => p,
        Option::None => {
            return None;
        },
    };
    let (n, i2) = match d_u64(b, i1) {
        Option::Some(p) => p,
        Option::None => {
            return None;
        },
    };
    let (members, i3) = match d_user_infos_items(b, i2, n) {
        Option::Some(p) => p,
        Option::None => {
            return None;
        },
    };
    let c = ChannelMembers { channel, members };
    proof {
        assert(c.deep_view() =~= dec_channel_members(b@, i as int).unwrap().0);
    }
    Some((c, i3))
}

fn d_channels(b: &Vec<u8>, i: usize) -> (r: Option<(Vec<ChannelMembers>, usize)>)
    ensures
        match r {
            Some(p) => dec_channels(b@, i as int) == Some((p.0.deep_view(), p.1 as int))
                && p.1 <= b@.len(),
            None => dec_channels(b@, i as int) is None,
        },
{
    let (n, j0) = match d_u64(b, i) {
        Option::Some(p) => p,
        Option::None => {
            return None;
        },
    };
    let mut out: Vec<ChannelMembers> = Vec::new();
    let mut cur: usize = j0;
    let mut k: u64 = 0;
    loop
        invariant
            k <= n,
            cur <= b@.len(),
            dec_u64(b@, i as int) == Some((n, j0 as int)),
            dec_channels_items(b@, j0 as int, n as int) == (match dec_channels_items(
                b@,
                cur as int,
                (n - k) as int,
            ) {
                Some((cs, e)) => Some((out.deep_view() + cs, e)),
                None => None::<(Seq<ChannelMembersV>, int)>,
            }),
        ensures
            cur <= b@.len(),
            dec_channels_items(b@, j0 as int, n as int) == Some(
                (out.deep_view(), cur as int),
            ),
        decreases n - k,
    {
        if k == n {
            proof {
                assert(out.deep_view() + Seq::<ChannelMembersV>::empty() =~= out.deep_view());
            }
            break ;
        }
        match d_channel_members(b, cur) {
            Option::Some((c, j)) => {
                let ghost pre = out.deep_view();
                out.push(c);
                proof {
                    assert(out.deep_view() =~= pre.push(c.deep_view()));
                    let rest = dec_channels_items(b@, j as int, (n - k - 1) as int);
                    if rest is Some {
                        assert(pre + (seq![c.deep_view()] + rest.unwrap().0) =~= (pre.push(
                            c.deep_view(),
                        )) + rest.unwrap().0);
                    }
                }
                cur = j;
                k = k + 1;
            },
            Option::None => {
                proof {
                    assert(dec_channels_items(b@, cur as int, (n - k) as int) is None);
                }
                return None;
            },
        }
    }
    Some((out, cur))
}

#[verifier::rlimit(60)]
fn d_entry(b: &Vec<u8>, i: usize) -> (r: Option<(HistoryEntry, usize)>)
    ensures
        match r {
            Some(p) => dec_entry(b@, i as int) == Some((p.0.deep_view(), p.1 as int)) && p.1
                <= b@.len(),
            None => dec_entry(b@, i as int) is None,
        },
{
    let (t, i0) = match d_u8(b, i) {
        Option::Some(p) => p,
        Option::None => {
            return None;
        },
    };
    if t == 0 {
        let (id, i1) = match d_u128(b, i0) {
            Option::Some(p) => p,
            Option::None => {
                return None;
            },
        };
        let (username, i2) = match d_str(b, i1) {
            Option::Some(p) => p,
            Option::None => {
                return None;
            },
        };
        let (message, i3) = match d_bytes(b, i2) {
            Option::Some(p) => p,
            Option::None => {
                return None;
            },
        };
        let (timestamp, i4) = match d_u64(b, i3) {
            Option::Some(p) => p,
            Option::None => {
                return None;
            },
        };
        let e = HistoryEntry::Chat { id, username, message, timestamp };
        proof {
            assert(e.deep_view() =~= dec_entry(b@, i as int).unwrap().0);
        }
        Some((e, i4))
    } else if t == 1 {
        let (id, i1) = match d_u128(b, i0) {
            Option::Some(p) => p,
            Option::None => {
                return None;
            },
        };
        let (from, i2) = match d_str(b, i1) {
            Option::Some(p) => p,
            Option::None => {
                return None;
            },
        };
        let (to, i3) = match d_str(b, i2) {
            Option::Some(p) => p,
            Option::None => {
                return None;
            },
        };
        let (message, i4) = match d_bytes(b, i3) {
            Option::Some(p) => p,
            Option::None => {
                return None;
            },
        };
        let (timestamp, i5) = match d_u64(b, i4) {
            Option::Some(p) => p,
            Option::None => {
                return None;
            },
        };
        let e = HistoryEntry::Private { id, from, to, message, timestamp };
        proof {
            assert(e.deep_view() =~= dec_entry(b@, i as int).unwrap().0);
        }
        Some((e, i5))
    } else if t == 2 {
        let (id, i1) = match d_u128(b, i0) {
            Option::Some(p) => p,
            Option::None => {
                return None;
            },
        };
        let (from, i2) = match d_str(b, i1) {
            Option::Some(p) => p,
            Option::None => {
                return None;
            },
        };
        let (to, i3) = match d_opt_str(b, i2) {
            Option::Some(p) => p,
            Option::None => {
                return None;
            },
        };
        let (filename, i4) = match d_str(b, i3) {
            Option::Some(p) => p,
            Option::None => {
                return None;
            },
        };
        let (data, i5) = match d_bytes(b, i4) {
            Option::Some(p) => p,
            Option::None => {
                return None;
            },
        };
        let (is_image, i6) = match d_bool(b, i5) {
            Option::Some(p) => p,
            Option::None => {
                return None;
            },
        };
        let (timestamp, i7) = match d_u64(b, i6) {
            Option::Some(p) => p,
            Option::None => {
                return None;
            },
        };
        let e = HistoryEntry::File { id, from, to, filename, data, is_image, timestamp };
        proof {
            assert(e.deep_view() =~= dec_entry(b@, i as int).unwrap().0);
        }
        Some((e, i7))
    } else if t == 3 {
        let (msg_id, i1) = match d_u128(b, i0) {
            Option::Some(p) => p,
            Option::None => {
                return None;
            },
        };
        let (from, i2) = match d_str(b, i1) {
            Option::Some(p) => p,
            Option::None => {
                return None;
            },
        };
        let (emoji, i3) = match d_str(b, i2) {
            Option::Some(p) => p,
            Option::None => {
                return None;
            },
        };
        let e = HistoryEntry::Reaction { msg_id, from, emoji };
        proof {
            assert(e.deep_view() =~= dec_entry(b@, i as int).unwrap().0);
        }
        Some((e, i3))
    } else {
        None
    }
}

fn d_entries(b: &Vec<u8>, i: usize) -> (r: Option<(Vec<HistoryEntry>, usize)>)
    ensures
        match r {
            Some(p) => dec_entries(b@, i as int) == Some((p.0.deep_view(), p.1 as int))
                && p.1 <= b@.len(),
            None => dec_entries(b@, i as int) is None,
        },
{
    let (n, j0) = match d_u64(b, i) {
        Option::Some(p) => p,
        Option::None => {
            return None;
        },
    };
    let mut out: Vec<HistoryEntry> = Vec::new();
    let mut cur: usize = j0;
    let mut k: u64 = 0;
    loop
        invariant
            k <= n,
            cur <= b@.len(),
            dec_u64(b@, i as int) == Some((n, j0 as int)),
            dec_entries_items(b@, j0 as int, n as int) == (match dec_entries_items(
                b@,
                cur as int,
                (n - k) as int,
            ) {
                Some((es, e)) => Some((out.deep_view() + es, e)),
                None => None::<(Seq<EntryV>, int)>,
            }),
        ensures
            cur <= b@.len(),
            dec_entries_items(b@, j0 as int, n as int) == Some(
                (out.deep_view(), cur as int),
            ),
        decreases n - k,
    {
        if k == n {
            proof {
                assert(out.deep_view() + Seq::<EntryV>::empty() =~= out.deep_view());
            }
            break ;
        }
        match d_entry(b, cur) {
            Option::Some((e, j)) => {
                let ghost pre = out.deep_view();
                out.push(e);
                proof {
                    assert(out.deep_view() =~= pre.push(e.deep_view()));
                    let rest = dec_entries_items(b@, j as int, (n - k - 1) as int);
                    if rest is Some {
                        assert(pre + (seq![e.deep_view()] + rest.unwrap().0) =~= (pre.push(
                            e.deep_view(),
                        )) + rest.unwrap().0);
                    }
                }
                cur = j;
                k = k + 1;
            },
            Option::None => {
                proof {
                    assert(dec_entries_items(b@, cur as int, (n - k) as int) is None);
                }
                return None;
            },
        }
    }
    Some((out, cur))
}

#[verifier::rlimit(80)]
fn d_body_low(b: &Vec<u8>, t: u8, i0: usize) -> (r: Option<(NetworkPacket, usize)>)
    requires
        t <= 11,
    ensures
        match r {
            Some(p) => dec_packet_body(b@, t, i0 as int) == Some((p.0.deep_view(), p.1 as int))
                && p.1 <= b@.len(),
            None => dec_packet_body(b@, t, i0 as int) is None,
        },
{
    if t == 0 {
        match d_str(b, i0) {
            Option::Some((username, j)) => Some((NetworkPacket::Handshake { username }, j)),
            Option::None => None,
        }
    } else if t == 1 {
        match d_str(b, i0) {
            Option::Some((username, j)) => match d_str(b, j) {
                Option::Some((password, k)) => Some(
                    (NetworkPacket::Register { username, password }, k),
                ),
                Option::None => None,
            },
            Option::None => None,
        }
    } else if t == 2 {
        match d_str(b, i0) {
            Option::Some((username, j)) => match d_str(b, j) {
                Option::Some((password, k)) => Some(
                    (NetworkPacket::Login { username, password }, k),
                ),
                Option::None => None,
            },
            Option::None => None,
        }
    } else if t == 3 {
        match d_bool(b, i0) {
            Option::Some((success, i1)) => match d_str(b, i1) {
                Option::Some((message, i2)) => match d_opt_role(b, i2) {
                    Option::Some((role, i3)) => match d_opt_str(b, i3) {
                        Option::Some((status, i4)) => match d_opt_str(b, i4) {
                            Option::Some((nick_color, i5)) => Some(
                                (
                                    NetworkPacket::AuthResponse {
                                        success,
                                        message,
                                        role,
                                        status,
                                        nick_color,
                                    },
                                    i5,
                                ),
                            ),
                            Option::None => None,
                        },
                        Option::None => None,
                    },
                    Option::None => None,
                },
                Option::None => None,
            },
            Option::None => None,
        }
    } else if t == 4 {
        match d_str(b, i0) {
            Option::Some((username, i1)) => match d_words(b, i1) {
                Option::Some((data, i2)) => Some((NetworkPacket::Audio { username, data }, i2)),
                Option::None => None,
            },
            Option::None => None,
        }
    } else if t == 5 {
        match d_u128(b, i0) {
            Option::Some((id, i1)) => match d_str(b, i1) {
                Option::Some((username, i2)) => match d_bytes(b, i2) {
                    Option::Some((message, i3)) => match d_u64(b, i3) {
                        Option::Some((timestamp, i4)) => Some(
                            (
                                NetworkPacket::ChatMessage { id, username, message, timestamp },
                                i4,
                            ),
                        ),
                        Option::None => None,
                    },
                    Option::None => None,
                },
                Option::None => None,
            },
            Option::None => None,
        }
    } else if t == 6 {
        match d_str(b, i0) {
            Option::Some((username, i1)) => match d_bool(b, i1) {
                Option::Some((is_typing, i2)) => Some(
                    (NetworkPacket::TypingStatus { username, is_typing }, i2),
                ),
                Option::None => None,
            },
            Option::None => None,
        }
    } else if t == 7 {
        match d_str(b, i0) {
            Option::Some((name, j)) => Some((NetworkPacket::JoinChannel(name), j)),
            Option::None => None,
        }
    } else if t == 8 {
        match d_str(b, i0) {
            Option::Some((name, j)) => Some((NetworkPacket::CreateChannel(name), j)),
            Option::None => None,
        }
    } else if t == 9 {
        match d_channels(b, i0) {
            Option::Some((state, j)) => Some((NetworkPacket::UsersUpdate(state), j)),
            Option::None => None,
        }
    } else if t == 10 {
        match d_u128(b, i0) {
            Option::Some((id, i1)) => match d_str(b, i1) {
                Option::Some((from, i2)) => match d_str(b, i2) {
                    Option::Some((to, i3)) => match d_bytes(b, i3) {
                        Option::Some((message, i4)) => match d_u64(b, i4) {
                            Option::Some((timestamp, i5)) => Some(
                                (
                                    NetworkPacket::PrivateMessage {
                                        id,
                                        from,
                                        to,
                                        message,
                                        timestamp,
                                    },
                                    i5,
                                ),
                            ),
                            Option::None => None,
                        },
                        Option::None => None,
                    },
                    Option::None => None,
                },
                Option::None => None,
            },
            Option::None => None,
        }
    } else if t == 11 {
        match d_u128(b, i0) {
            Option::Some((id, i1)) => match d_str(b, i1) {
                Option::Some((from, i2)) => match d_opt_str(b, i2) {
                    Option::Some((to, i3)) => match d_str(b, i3) {
                        Option::Some((filename, i4)) => match d_u32(b, i4) {
                            Option::Some((total_chunks, i5)) => match d_bool(b, i5) {
                                Option::Some((is_image, i6)) => match d_u64(b, i6) {
                                    Option::Some((timestamp, i7)) => Some(
                                        (
                                            NetworkPacket::FileStart {
                                                id,
                                                from,
                                                to,
                                                filename,
                                                total_chunks,
                                                is_image,
                                                timestamp,
                                            },
                                            i7,
                                        ),
                                    ),
                                    Option::None => None,
                                },
                                Option::None => None,
                            },
                            Option::None => None,
                        },
                        Option::None => None,
                    },
                    Option::None => None,
                },
                Option::None => None,
            },
            Option::None => None,
        }
    } else {
        None
    }
}

fn d_body_file_message(b: &Vec<u8>, i0: usize) -> (r: Option<(NetworkPacket, usize)>)
    ensures
        match r {
            Some(p) => dec_packet_body(b@, 13, i0 as int) == Some(
                (p.0.deep_view(), p.1 as int),
            ) && p.1 <= b@.len(),
            None => dec_packet_body(b@, 13, i0 as int) is None,
        },
{
    match d_u128(b, i0) {
            Option::Some((id, i1)) => match d_str(b, i1) {
                Option::Some((from, i2)) => match d_opt_str(b, i2) {
                    Option::Some((to, i3)) => match d_str(b, i3) {
                        Option::Some((filename, i4)) => match d_bytes(b, i4) {
                            Option::Some((data, i5)) => match d_bool(b, i5) {
                                Option::Some((is_image, i6)) => match d_u64(b, i6) {
                                    Option::Some((timestamp, i7)) => Some(
                                        (
                                            NetworkPacket::FileMessage {
                                                id,
                                                from,
                                                to,
                                                filename,
                                                data,
                                                is_image,
                                                timestamp,
                                            },
                                            i7,
                                        ),
                                    ),
                                    Option::None => None,
                                },
                                Option::None => None,
                            },
                            Option::None => None,
                        },
                        Option::None => None,
                    },
                    Option::None => None,
                },
                Option::None => None,
            },
            Option::None => None,
        }
}

fn d_body_tail(b: &Vec<u8>, t: u8, i0: usize) -> (r: Option<(NetworkPacket, usize)>)
    requires
        t >= 17,
        i0 <= b@.len(),
    ensures
        match r {
            Some(p) => dec_packet_body(b@, t, i0 as int) == Some((p.0.deep_view(), p.1 as int))
                && p.1 <= b@.len(),
            None => dec_packet_body(b@, t, i0 as int) is None,
        },
{
    if t == 17 {
        match d_str(b, i0) {
            Option::Some((target, j)) => Some(
                (NetworkPacket::RequestDirectHistory { target }, j),
            ),
            Option::None => None,
        }
    } else if t == 18 {
        match d_entries(b, i0) {
            Option::Some((entries, j)) => Some((NetworkPacket::DirectHistory(entries), j)),
            Option::None => None,
        }
    } else if t == 19 {
        match d_str(b, i0) {
            Option::Some((target, i1)) => match d_action(b, i1) {
                Option::Some((action, i2)) => Some(
                    (NetworkPacket::AdminAction { target, action }, i2),
                ),
                Option::None => None,
            },
            Option::None => None,
        }
    } else if t == 20 {
        match d_str(b, i0) {
            Option::Some((name, j)) => Some((NetworkPacket::RequestProfile(name), j)),
            Option::None => None,
        }
    } else if t == 21 {
        match d_str(b, i0) {
            Option::Some((username, i1)) => match d_str(b, i1) {
                Option::Some((avatar_url, i2)) => match d_str(b, i2) {
                    Option::Some((bio, i3)) => Some(
                        (NetworkPacket::ProfileUpdate { username, avatar_url, bio }, i3),
                    ),
                    Option::None => None,
                },
                Option::None => None,
            },
            Option::None => None,
        }
    } else if t == 22 {
        Some((NetworkPacket::Ping, i0))
    } else if t == 23 {
        match d_str(b, i0) {
            Option::Some((status, i1)) => match d_str(b, i1) {
                Option::Some((nick_color, i2)) => Some(
                    (NetworkPacket::UpdateProfile { status, nick_color }, i2),
                ),
                Option::None => None,
            },
            Option::None => None,
        }
    } else {
        None
    }
}

#[verifier::rlimit(60)]
fn d_body_high(b: &Vec<u8>, t: u8, i0: usize) -> (r: Option<(NetworkPacket, usize)>)
    requires
        t >= 12,
        i0 <= b@.len(),
    ensures
        match r {
            Some(p) => dec_packet_body(b@, t, i0 as int) == Some((p.0.deep_view(), p.1 as int))
                && p.1 <= b@.len(),
            None => dec_packet_body(b@, t, i0 as int) is None,
        },
{
    if t == 13 {
        return d_body_file_message(b, i0);
    }
    if t >= 17 {
        return d_body_tail(b, t, i0);
    }
    if t == 12 {
        match d_u128(b, i0) {
            Option::Some((id, i1)) => match d_u32(b, i1) {
                Option::Some((chunk_index, i2)) => match d_bytes(b, i2) {
                    Option::Some((data, i3)) => Some(
                        (NetworkPacket::FileChunk { id, chunk_index, data }, i3),
                    ),
                    Option::None => None,
                },
                Option::None => None,
            },
            Option::None => None,
        }
    } else if t == 14 {
        match d_u128(b, i0) {
            Option::Some((msg_id, i1)) => match d_str(b, i1) {
                Option::Some((from, i2)) => match d_str(b, i2) {
                    Option::Some((emoji, i3)) => Some(
                        (NetworkPacket::Reaction { msg_id, from, emoji }, i3),
                    ),
                    Option::None => None,
                },
                Option::None => None,
            },
            Option::None => None,
        }
    } else if t == 15 {
        match d_str(b, i0) {
            Option::Some((channel, j)) => Some(
                (NetworkPacket::RequestChatHistory { channel }, j),
            ),
            Option::None => None,
        }
    } else if t == 16 {
        match d_entries(b, i0) {
            Option::Some((entries, j)) => Some((NetworkPacket::ChatHistory(entries), j)),
            Option::None => None,
        }
    } else {
        None
    }
}

/// Decodes one datagram; malformed input yields nothing and never panics.
pub fn decode_packet(b: &Vec<u8>) -> (r: Option<NetworkPacket>)
    ensures
        match r {
            Some(p) => dec_packet(b@) == Some(p.deep_view()),
            None => dec_packet(b@) is None,
        },
{
    let (t, i0) = match d_u8(b, 0) {
        Option::Some(p) => p,
        Option::None => {
            return None;
        },
    };
    let parsed = if t <= 11 {
        d_body_low(b, t, i0)
    } else {
        d_body_high(b, t, i0)
    };
    match parsed {
        Option::Some((p, end)) => {
            if end == b.len() {
                Some(p)
            } else {
                None
            }
        },
        Option::None => None,
    }
}

// ---------------------------------------------------------------------
// Executable encoding.
// ---------------------------------------------------------------------
fn put_bool(out: &mut Vec<u8>, v: bool)
    ensures
        final(out)@ == old(out)@ + enc_bool(v),
{
    out.push(
        if v {
            1
        } else {
            0
        },
    );
    proof {
        assert(final(out)@ =~= old(out)@ + enc_bool(v));
    }
}

fn put_u32(out: &mut Vec<u8>, x: u32)
    ensures
        final(out)@ == old(out)@ + enc_u32(x),
{
    out.push((x % 256) as u8);
    out.push(((x / 256) % 256) as u8);
    out.push(((x / 65536) % 256) as u8);
    out.push(((x / 16777216) % 256) as u8);
    proof {
        assert(final(out)@ =~= old(out)@ + enc_u32(x));
    }
}

fn put_u64(out: &mut Vec<u8>, x: u64)
    ensures
        final(out)@ == old(out)@ + enc_u64(x),
{
    out.push((x % 256) as u8);
    out.push(((x / 256) % 256) as u8);
    out.push(((x / 65536) % 256) as u8);
    out.push(((x / 16777216) % 256) as u8);
    out.push(((x / 4294967296) % 256) as u8);
    out.push(((x / 1099511627776) % 256) as u8);
    out.push(((x / 281474976710656) % 256) as u8);
    out.push(((x / 72057594037927936) % 256) as u8);
    proof {
        assert(final(out)@ =~= old(out)@ + enc_u64(x));
    }
}

fn put_u128(out: &mut Vec<u8>, x: u128)
    ensures
        final(out)@ == old(out)@ + enc_u128(x),
{
    put_u64(out, (x % 0x1_0000_0000_0000_0000) as u64);
    put_u64(out, (x / 0x1_0000_0000_0000_0000) as u64);
    proof {
        assert(final(out)@ =~= old(out)@ + enc_u128(x));
    }
}

fn put_slice(out: &mut Vec<u8>, b: &[u8])
    ensures
        final(out)@ == old(out)@ + b@,
{
    let mut i: usize = 0;
    while i < b.len()
        invariant
            i <= b@.len(),
            out@ == old(out)@ + b@.take(i as int),
        decreases b@.len() - i,
    {
        out.push(b[i]);
        i += 1;
        proof {
            assert(old(out)@ + b@.take(i as int) =~= (old(out)@ + b@.take(i - 1)).push(
                b@[i - 1],
            ));
        }
    }
    proof {
        assert(b@.take(b@.len() as int) =~= b@);
    }
}

fn put_bytes(out: &mut Vec<u8>, b: &Vec<u8>)
    ensures
        final(out)@ == old(out)@ + enc_bytes(b@),
{
    put_u64(out, b.len() as u64);
    put_slice(out, b.as_slice());
    proof {
        assert(final(out)@ =~= old(out)@ + enc_bytes(b@));
    }
}

fn put_str(out: &mut Vec<u8>, s: &str)
    ensures
        final(out)@ == old(out)@ + enc_str(s@),
{
    let bytes = s.as_bytes();
    put_u64(out, bytes.len() as u64);
    put_slice(out, bytes);
    proof {
        assert(final(out)@ =~= old(out)@ + enc_str(s@));
    }
}

fn put_opt_str(out: &mut Vec<u8>, o: &Option<String>)
    ensures
        final(out)@ == old(out)@ + enc_opt_str(o.deep_view()),
{
    match o {
        Option::None => {
            out.push(0);
            proof {
                assert(final(out)@ =~= old(out)@ + enc_opt_str(o.deep_view()));
            }
        },
        Option::Some(s) => {
            out.push(1);
            put_str(out, s.as_str());
            proof {
                assert(final(out)@ =~= old(out)@ + enc_opt_str(o.deep_view()));
            }
        },
    }
}

fn put_role(out: &mut Vec<u8>, r: Role)
    ensures
        final(out)@ == old(out)@ + enc_role(r),
{
    match r {
        Role::User => out.push(0),
        Role::Admin => out.push(1),
    }
    proof {
        assert(final(out)@ =~= old(out)@ + enc_role(r));
    }
}

fn put_opt_role(out: &mut Vec<u8>, o: &Option<Role>)
    ensures
        final(out)@ == old(out)@ + enc_opt_role(*o),
{
    match o {
        Option::None => {
            out.push(0);
            proof {
                assert(final(out)@ =~= old(out)@ + enc_opt_role(*o));
            }
        },
        Option::Some(r) => {
            out.push(1);
            put_role(out, *r);
            proof {
                assert(final(out)@ =~= old(out)@ + enc_opt_role(*o));
            }
        },
    }
}

fn put_action(out: &mut Vec<u8>, a: AdminActionType)
    ensures
        final(out)@ == old(out)@ + enc_action(a),
{
    match a {
        AdminActionType::Kick => out.push(0),
        AdminActionType::Ban => out.push(1),
        AdminActionType::Mute => out.push(2),
        AdminActionType::Unmute => out.push(3),
    }
    proof {
        assert(final(out)@ =~= old(out)@ + enc_action(a));
    }
}

fn put_words(out: &mut Vec<u8>, ws: &Vec<u32>)
    ensures
        final(out)@ == old(out)@ + enc_words(ws@),
{
    put_u64(out, ws.len() as u64);
    let ghost mark = out@;
    let mut i: usize = 0;
    while i < ws.len()
        invariant
            i <= ws@.len(),
            out@ == mark + enc_words_items(ws@.take(i as int)),
        decreases ws@.len() - i,
    {
        put_u32(out, ws[i]);
        i += 1;
        proof {
            assert(ws@.take(i as int) =~= ws@.take(i - 1).push(ws@[i - 1]));
            lemma_words_items_push(ws@.take(i - 1), ws@[i - 1]);
            assert(out@ =~= mark + enc_words_items(ws@.take(i as int)));
        }
    }
    proof {
        assert(ws@.take(ws@.len() as int) =~= ws@);
        assert(final(out)@ =~= old(out)@ + enc_words(ws@));
    }
}

fn put_user_info(out: &mut Vec<u8>, u: &UserInfo)
    ensures
        final(out)@ == old(out)@ + enc_user_info(u.deep_view()),
{
    put_str(out, u.username.as_str());
    put_role(out, u.role);
    put_bool(out, u.is_muted);
    put_str(out, u.status.as_str());
    put_str(out, u.nick_color.as_str());
    proof {
        assert(final(out)@ =~= old(out)@ + enc_user_info(u.deep_view()));
    }
}

fn put_channel_members(out: &mut Vec<u8>, c: &ChannelMembers)
    ensures
        final(out)@ == old(out)@ + enc_channel_members(c.deep_view()),
{
    put_str(out, c.channel.as_str());
    put_u64(out, c.members.len() as u64);
    let ghost mark = out@;
    let ghost mv = c.members.deep_view();
    proof {
        assert(mv.len() == c.members@.len());
    }
    let mut i: usize = 0;
    while i < c.members.len()
        invariant
            i <= c.members@.len(),
            mv == c.members.deep_view(),
            mv.len() == c.members@.len(),
            forall|k: int| 0 <= k < mv.len() ==> #[trigger] mv[k] == c.members@[k].deep_view(),
            out@ == mark + enc_user_infos_items(mv.take(i as int)),
        decreases c.members@.len() - i,
    {
        put_user_info(out, &c.members[i]);
        i += 1;
        proof {
            assert(mv.take(i as int) =~= mv.take(i - 1).push(mv[i - 1]));
            lemma_user_infos_items_push(mv.take(i - 1), mv[i - 1]);
            assert(out@ =~= mark + enc_user_infos_items(mv.take(i as int)));
        }
    }
    proof {
        assert(mv.take(mv.len() as int) =~= mv);
        assert(final(out)@ =~= old(out)@ + enc_channel_members(c.deep_view()));
    }
}

fn put_channels(out: &mut Vec<u8>, cs: &Vec<ChannelMembers>)
    ensures
        final(out)@ == old(out)@ + enc_channels(cs.deep_view()),
{
    put_u64(out, cs.len() as u64);
    let ghost mark = out@;
    let ghost cv = cs.deep_view();
    proof {
        assert(cv.len() == cs@.len());
    }
    let mut i: usize = 0;
    while i < cs.len()
        invariant
            i <= cs@.len(),
            cv == cs.deep_view(),
            cv.len() == cs@.len(),
            forall|k: int| 0 <= k < cv.len() ==> #[trigger] cv[k] == cs@[k].deep_view(),
            out@ == mark + enc_channels_items(cv.take(i as int)),
        decreases cs@.len() - i,
    {
        put_channel_members(out, &cs[i]);
        i += 1;
        proof {
            assert(cv.take(i as int) =~= cv.take(i - 1).push(cv[i - 1]));
            lemma_channels_items_push(cv.take(i - 1), cv[i - 1]);
            assert(out@ =~= mark + enc_channels_items(cv.take(i as int)));
        }
    }
    proof {
        assert(cv.take(cv.len() as int) =~= cv);
        assert(final(out)@ =~= old(out)@ + enc_channels(cs.deep_view()));
    }
}

#[verifier::rlimit(60)]
fn put_entry(out: &mut Vec<u8>, e: &HistoryEntry)
    ensures
        final(out)@ == old(out)@ + enc_entry(e.deep_view()),
{
    match e {
        HistoryEntry::Chat { id, username, message, timestamp } => {
            out.push(0);
            put_u128(out, *id);
            put_str(out, username.as_str());
            put_bytes(out, message);
            put_u64(out, *timestamp);
            proof {
                assert(final(out)@ =~= old(out)@ + enc_entry(e.deep_view()));
            }
        },
        HistoryEntry::Private { id, from, to, message, timestamp } => {
            out.push(1);
            put_u128(out, *id);
            put_str(out, from.as_str());
            put_str(out, to.as_str());
            put_bytes(out, message);
            put_u64(out, *timestamp);
            proof {
                assert(final(out)@ =~= old(out)@ + enc_entry(e.deep_view()));
            }
        },
        HistoryEntry::File { id, from, to, filename, data, is_image, timestamp } => {
            out.push(2);
            put_u128(out, *id);
            put_str(out, from.as_str());
            put_opt_str(out, to);
            put_str(out, filename.as_str());
            put_bytes(out, data);
            put_bool(out, *is_image);
            put_u64(out, *timestamp);
            proof {
                assert(final(out)@ =~= old(out)@ + enc_entry(e.deep_view()));
            }
        },
        HistoryEntry::Reaction { msg_id, from, emoji } => {
            out.push(3);
            put_u128(out, *msg_id);
            put_str(out, from.as_str());
            put_str(out, emoji.as_str());
            proof {
                assert(final(out)@ =~= old(out)@ + enc_entry(e.deep_view()));
            }
        },
    }
}

fn put_entries(out: &mut Vec<u8>, es: &Vec<HistoryEntry>)
    ensures
        final(out)@ == old(out)@ + enc_entries(es.deep_view()),
{
    put_u64(out, es.len() as u64);
    let ghost mark = out@;
    let ghost ev = es.deep_view();
    proof {
        assert(ev.len() == es@.len());
    }
    let mut i: usize = 0;
    while i < es.len()
        invariant
            i <= es@.len(),
            ev == es.deep_view(),
            ev.len() == es@.len(),
            forall|k: int| 0 <= k < ev.len() ==> #[trigger] ev[k] == es@[k].deep_view(),
            out@ == mark + enc_entries_items(ev.take(i as int)),
        decreases es@.len() - i,
    {
        put_entry(out, &es[i]);
        i += 1;
        proof {
            assert(ev.take(i as int) =~= ev.take(i - 1).push(ev[i - 1]));
            lemma_entries_items_push(ev.take(i - 1), ev[i - 1]);
            assert(out@ =~= mark + enc_entries_items(ev.take(i as int)));
        }
    }
    proof {
        assert(ev.take(ev.len() as int) =~= ev);
        assert(final(out)@ =~= old(out)@ + enc_entries(es.deep_view()));
    }
}

/// Encodes one packet into its one wire form.
#[verifier::rlimit(60)]
pub fn encode_packet(p: &NetworkPacket) -> (r: Vec<u8>)
    ensures
        r@ == enc_packet(p.deep_view()),
{
    let mut out: Vec<u8> = Vec::new();
    match p {
        NetworkPacket::Handshake { username } => {
            out.push(0);
            put_str(&mut out, username.as_str());
        },
        NetworkPacket::Register { username, password } => {
            out.push(1);
            put_str(&mut out, username.as_str());
            put_str(&mut out, password.as_str());
        },
        NetworkPacket::Login { username, password } => {
            out.push(2);
            put_str(&mut out, username.as_str());
            put_str(&mut out, password.as_str());
        },
        NetworkPacket::AuthResponse { success, message, role, status, nick_color } => {
            out.push(3);
            put_bool(&mut out, *success);
            put_str(&mut out, message.as_str());
            put_opt_role(&mut out, role);
            put_opt_str(&mut out, status);
            put_opt_str(&mut out, nick_color);
        },
        NetworkPacket::Audio { username, data } => {
            out.push(4);
            put_str(&mut out, username.as_str());
            put_words(&mut out, data);
        },
        NetworkPacket::ChatMessage { id, username, message, timestamp } => {
            out.push(5);
            put_u128(&mut out, *id);
            put_str(&mut out, username.as_str());
            put_bytes(&mut out, message);
            put_u64(&mut out, *timestamp);
        },
        NetworkPacket::TypingStatus { username, is_typing } => {
            out.push(6);
            put_str(&mut out, username.as_str());
            put_bool(&mut out, *is_typing);
        },
        NetworkPacket::JoinChannel(name) => {
            out.push(7);
            put_str(&mut out, name.as_str());
        },
        NetworkPacket::CreateChannel(name) => {
            out.push(8);
            put_str(&mut out, name.as_str());
        },
        NetworkPacket::UsersUpdate(state) => {
            out.push(9);
            put_channels(&mut out, state);
        },
        NetworkPacket::PrivateMessage { id, from, to, message, timestamp } => {
            out.push(10);
            put_u128(&mut out, *id);
            put_str(&mut out, from.as_str());
            put_str(&mut out, to.as_str());
            put_bytes(&mut out, message);
            put_u64(&mut out, *timestamp);
        },
        NetworkPacket::FileStart { id, from, to, filename, total_chunks, is_image, timestamp } => {
            out.push(11);
            put_u128(&mut out, *id);
            put_str(&mut out, from.as_str());
            put_opt_str(&mut out, to);
            put_str(&mut out, filename.as_str());
            put_u32(&mut out, *total_chunks);
            put_bool(&mut out, *is_image);
            put_u64(&mut out, *timestamp);
        },
        NetworkPacket::FileChunk { id, chunk_index, data } => {
            out.push(12);
            put_u128(&mut out, *id);
            put_u32(&mut out, *chunk_index);
            put_bytes(&mut out, data);
        },
        NetworkPacket::FileMessage { id, from, to, filename, data, is_image, timestamp } => {
            out.push(13);
            put_u128(&mut out, *id);
            put_str(&mut out, from.as_str());
            put_opt_str(&mut out, to);
            put_str(&mut out, filename.as_str());
            put_bytes(&mut out, data);
            put_bool(&mut out, *is_image);
            put_u64(&mut out, *timestamp);
        },
        NetworkPacket::Reaction { msg_id, from, emoji } => {
            out.push(14);
            put_u128(&mut out, *msg_id);
            put_str(&mut out, from.as_str());
            put_str(&mut out, emoji.as_str());
        },
        NetworkPacket::RequestChatHistory { channel } => {
            out.push(15);
            put_str(&mut out, channel.as_str());
        },
        NetworkPacket::ChatHistory(entries) => {
            out.push(16);
            put_entries(&mut out, entries);
        },
        NetworkPacket::RequestDirectHistory { target } => {
            out.push(17);
            put_str(&mut out, target.as_str());
        },
        NetworkPacket::DirectHistory(entries) => {
            out.push(18);
            put_entries(&mut out, entries);
        },
        NetworkPacket::AdminAction { target, action } => {
            out.push(19);
            put_str(&mut out, target.as_str());
            put_action(&mut out, *action);
        },
        NetworkPacket::RequestProfile(name) => {
            out.push(20);
            put_str(&mut out, name.as_str());
        },
        NetworkPacket::ProfileUpdate { username, avatar_url, bio } => {
            out.push(21);
            put_str(&mut out, username.as_str());
            put_str(&mut out, avatar_url.as_str());
            put_str(&mut out, bio.as_str());
        },
        NetworkPacket::Ping => {
            out.push(22);
        },
        NetworkPacket::UpdateProfile { status, nick_color } => {
            out.push(23);
            put_str(&mut out, status.as_str());
            put_str(&mut out, nick_color.as_str());
        },
    }
    proof {
        assert(out@ =~= enc_packet(p.deep_view()));
    }
    out
}

} // verus!
