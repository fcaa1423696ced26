//! The authoritative server: one state object holding the session registry,
//! the durable store and the in-flight file transfers, and a dispatcher
//! that turns every inbound packet into state changes and outbound packets.
//!
//! The transport is not here: a caller receives datagrams, decodes them,
//! hands each to [`ServerState::handle_packet`] and sends the returned
//! packets to their addresses.
use vstd::prelude::*;

use crate::crypto::{bcrypt_matches, hash_password, verify_password};
use crate::packet::{NetworkPacket, PacketV, Role, UserInfoV};
use crate::reassembly::PendingFile;
use crate::registry::{
    the_session, lemma_the_session, live_pred, keep_other_users_pred, snapshot_of, Registry,
    Session,
};
use crate::seq_facts::lemma_filter_sub;
use crate::store::{account_of, lemma_the_account, Account, Store};

verus! {

/// One packet the server wants sent to one address.
pub struct Outgoing {
    pub addr: u64,
    pub packet: NetworkPacket,
}

/// An account under this name exists and is not banned.
pub open spec fn ok_account(st: Store, name: Seq<char>) -> bool {
    exists|j: int|
        0 <= j < st.accounts@.len() && #[trigger] st.accounts@[j].username@ == name
            && !st.accounts@[j].is_banned
}

/// No session is authenticated as a banned or unknown account: login
/// refuses banned accounts, and a ban removes the account's sessions.
pub open spec fn no_banned_authenticated(reg: Registry, st: Store) -> bool {
    forall|s: Session|
        #[trigger] reg.sessions@.contains(s) ==> s.is_authenticated ==> ok_account(
            st,
            s.username@,
        )
}

/// The sender holds a session and it is an admin's.
pub open spec fn sender_is_admin(reg: Registry, addr: u64) -> bool {
    exists|i: int|
        0 <= i < reg.sessions@.len() && (#[trigger] reg.sessions@[i]).addr == addr
            && reg.sessions@[i].role == Role::Admin
}

/// The sender holds an authenticated session.
pub open spec fn sender_is_authenticated(reg: Registry, addr: u64) -> bool {
    exists|i: int|
        0 <= i < reg.sessions@.len() && (#[trigger] reg.sessions@[i]).addr == addr
            && reg.sessions@[i].is_authenticated
}

/// The whole server state: transient sessions, durable records, and the
/// reassembly slots of in-flight file transfers.
pub struct ServerState {
    pub registry: Registry,
    pub store: Store,
    pub pending: Vec<(u128, PendingFile)>,
    pub default_channel: String,
}

impl ServerState {
    pub open spec fn wf(self) -> bool {
        &&& self.registry.wf()
        &&& self.store.wf()
        &&& forall|i: int, j: int|
            0 <= i < j < self.pending@.len() ==> #[trigger] self.pending@[i].0 != #[trigger]
                self.pending@[j].0
        &&& forall|i: int| 0 <= i < self.pending@.len() ==> (#[trigger] self.pending@[i].1).wf()
        &&& no_banned_authenticated(self.registry, self.store)
    }

    pub fn new(default_channel: String) -> (r: ServerState)
        ensures
            r.wf(),
            r.registry.sessions@.len() == 0,
            r.store.accounts@.len() == 0,
            r.store.channels@.len() == 0,
            r.pending@.len() == 0,
            r.default_channel == default_channel,
    {
        ServerState {
            registry: Registry::new(),
            store: Store::new(),
            pending: Vec::new(),
            default_channel,
        }
    }

    /// A handshake opens (or reopens) the sender's session, unauthenticated
    /// and in the default channel, and asks for a broadcast.
    pub fn handle_handshake(&mut self, addr: u64, username: String, now: u64) -> (broadcast:
        bool)
        requires
            old(self).wf(),
        ensures
            final(self).wf(),
            handshake_post(*old(self), *final(self), addr, username, now),
            broadcast,
    {
        let chan = self.default_channel.clone();
        self.registry.handshake(addr, username, chan, now);
        proof {
            let fs = self.registry.sessions@;
            assert forall|s: Session| #[trigger] fs.contains(s) && s.is_authenticated implies
                ok_account(self.store, s.username@) by {
                if s != fs.last() {
                    let k = choose|k: int| 0 <= k < fs.len() && fs[k] == s;
                    assert(fs[k] == fs.filter(crate::registry::keep_addr_pred(addr)).push(
                        fs.last(),
                    )[k]);
                    lemma_filter_sub(
                        old(self).registry.sessions@,
                        crate::registry::keep_addr_pred(addr),
                    );
                    assert(old(self).registry.sessions@.contains(s));
                }
            }
        }
        true
    }

    /// A ping refreshes the sender's liveness and nothing else.
    pub fn handle_ping(&mut self, addr: u64, now: u64)
        requires
            old(self).wf(),
        ensures
            final(self).wf(),
            ping_post(*old(self), *final(self), addr, now),
    {
        self.registry.touch(addr, now);
        proof {
            self.lemma_pointwise_same_auth(old(self));
        }
    }

    /// Registration hashes the credential and creates the account. The
    /// reply is owed on every request: a duplicate username, and a failure
    /// of the salt source, are each reported as a failed registration. The
    /// very first account ever created receives the admin role.
    pub fn handle_register(&mut self, addr: u64, username: String, password: String) -> (out:
        Vec<Outgoing>)
        requires
            old(self).wf(),
        ensures
            final(self).wf(),
            register_post(*old(self), *final(self), addr, username, password, out@),
    {
        let ghost old_accounts = self.store.accounts@;
        let mut success = false;
        match hash_password(&password) {
            Option::Some(hashed) => {
                success = self.store.register(username, hashed);
            },
            Option::None => {},
        }
        let message = if success {
            owned("Registration successful!")
        } else {
            owned("Registration failed")
        };
        let response = NetworkPacket::AuthResponse {
            success,
            message,
            role: None,
            status: None,
            nick_color: None,
        };
        proof {
            if success {
                assert forall|j: int| 0 <= j < old_accounts.len() implies #[trigger]
                    self.store.accounts@[j] == old_accounts[j] by {
                    assert(self.store.accounts@.take(old_accounts.len() as int)[j]
                        == self.store.accounts@[j]);
                }
                assert forall|s: Session| #[trigger] self.registry.sessions@.contains(s)
                    && s.is_authenticated implies ok_account(self.store, s.username@) by {
                    let j = choose|j: int|
                        0 <= j < old(self).store.accounts@.len() && #[trigger] old(self).store.accounts@[j].username@ == s.username@ && !old(self).store.accounts@[j].is_banned;
                    assert(self.store.accounts@[j] == old_accounts[j]);
                }
            }
        }
        let mut out: Vec<Outgoing> = Vec::new();
        out.push(Outgoing { addr, packet: response });
        out
    }

    /// Login verifies the credential against the stored hash. A banned
    /// account is always refused, even with the correct credential; an
    /// unknown user and a wrong password are each refused with their own
    /// message. Success authenticates the sender's session, stamps it with
    /// the account's role and presentation, and asks for a broadcast.
    pub fn handle_login(&mut self, addr: u64, username: String, password: String, now: u64) -> (r:
        (Vec<Outgoing>, bool))
        requires
            old(self).wf(),
        ensures
            final(self).wf(),
            login_post(*old(self), *final(self), addr, username, password, now, r.0@, r.1),
    {
        let found = self.store.find_account(&username);
        let mut out: Vec<Outgoing> = Vec::new();
        match found {
            Option::Some(i) => {
                proof {
                    lemma_the_account(self.store, username@, i as int);
                }
                let banned = self.store.accounts[i].is_banned;
                if banned {
                    out.push(
                        Outgoing {
                            addr,
                            packet: NetworkPacket::AuthResponse {
                                success: false,
                                message: owned("You are banned from this server"),
                                role: None,
                                status: None,
                                nick_color: None,
                            },
                        },
                    );
                    return (out, false);
                }
                let matches = verify_password(&password, &self.store.accounts[i].password_hash);
                if !matches {
                    out.push(
                        Outgoing {
                            addr,
                            packet: NetworkPacket::AuthResponse {
                                success: false,
                                message: owned("Invalid password"),
                                role: None,
                                status: None,
                                nick_color: None,
                            },
                        },
                    );
                    return (out, false);
                }
                let role = self.store.accounts[i].role;
                let status = self.store.accounts[i].status.clone();
                let color = self.store.accounts[i].nick_color.clone();
                let uname = username.clone();
                self.registry.authenticate(addr, uname, role, status, color, now);
                proof {
                    let fs = self.registry.sessions@;
                    assert forall|s: Session| #[trigger] fs.contains(s)
                        && s.is_authenticated implies ok_account(self.store, s.username@) by {
                        let k = choose|k: int| 0 <= k < fs.len() && fs[k] == s;
                        if old(self).registry.sessions@[k].addr == addr {
                            assert(s.username@ == username@);
                            assert(self.store.accounts@[i as int].username@ == username@);
                        } else {
                            assert(s == old(self).registry.sessions@[k]);
                            assert(old(self).registry.sessions@.contains(s));
                        }
                    }
                }
                out.push(
                    Outgoing {
                        addr,
                        packet: NetworkPacket::AuthResponse {
                            success: true,
                            message: owned("Login successful!"),
                            role: Some(role),
                            status: Some(self.store.accounts[i].status.clone()),
                            nick_color: Some(self.store.accounts[i].nick_color.clone()),
                        },
                    },
                );
                (out, true)
            },
            Option::None => {
                out.push(
                    Outgoing {
                        addr,
                        packet: NetworkPacket::AuthResponse {
                            success: false,
                            message: owned("User not found"),
                            role: None,
                            status: None,
                            nick_color: None,
                        },
                    },
                );
                (out, false)
            },
        }
    }

    /// A moderation command from an admin session: a kick removes the
    /// target's sessions, a ban durably flags the account and removes the
    /// sessions, mute and unmute flip the live flag so relays drop the
    /// target's traffic. From anyone else it is silently ignored.
    pub fn handle_admin(
        &mut self,
        addr: u64,
        target: &String,
        action: crate::packet::AdminActionType,
    ) -> (broadcast: bool)
        requires
            old(self).wf(),
        ensures
            final(self).wf(),
            admin_post(*old(self), *final(self), addr, *target, action, broadcast),
    {
        let is_admin = match self.registry.find_session(addr) {
            Option::Some(i) => {
                let admin = match self.registry.sessions[i].role {
                    Role::Admin => true,
                    Role::User => false,
                };
                proof {
                    if admin {
                        assert(sender_is_admin(self.registry, addr));
                    } else {
                        assert forall|k: int|
                            0 <= k < self.registry.sessions@.len() && (#[trigger] self.registry
                                .sessions@[k]).addr == addr implies self.registry.sessions@[k].role
                            != Role::Admin by {
                            lemma_the_session(self.registry, addr, k);
                            lemma_the_session(self.registry, addr, i as int);
                        }
                    }
                }
                admin
            },
            Option::None => false,
        };
        if !is_admin {
            return false;
        }
        match action {
            crate::packet::AdminActionType::Kick => {
                self.registry.remove_by_name(target);
                proof {
                    self.lemma_filtered_sessions_auth(old(self), keep_other_users_pred(target@));
                }
            },
            crate::packet::AdminActionType::Ban => {
                self.store.set_banned(target);
                self.registry.remove_by_name(target);
                proof {
                    let fs = self.registry.sessions@;
                    assert forall|s: Session| #[trigger] fs.contains(s)
                        && s.is_authenticated implies ok_account(self.store, s.username@) by {
                        lemma_filter_sub(
                            old(self).registry.sessions@,
                            keep_other_users_pred(target@),
                        );
                        let k = choose|k: int| 0 <= k < fs.len() && fs[k] == s;
                        assert(fs[k] == old(self).registry.sessions@.filter(
                            keep_other_users_pred(target@),
                        )[k]);
                        assert(old(self).registry.sessions@.contains(s));
                        assert(s.username@ != target@);
                        let j = choose|j: int|
                            0 <= j < old(self).store.accounts@.len() && #[trigger] old(self).store.accounts@[j].username@ == s.username@ && !old(self).store.accounts@[j].is_banned;
                        assert(self.store.accounts@[j].username@ == s.username@);
                        assert(!self.store.accounts@[j].is_banned);
                    }
                }
            },
            crate::packet::AdminActionType::Mute => {
                self.registry.set_muted_by_name(target, true);
                proof {
                    self.lemma_pointwise_same_auth(old(self));
                }
            },
            crate::packet::AdminActionType::Unmute => {
                self.registry.set_muted_by_name(target, false);
                proof {
                    self.lemma_pointwise_same_auth(old(self));
                }
            },
        }
        true
    }

    /// After a pointwise update that changes neither session usernames nor
    /// authentication, nor account names or ban flags, the no-banned
    /// invariant carries over.
    proof fn lemma_pointwise_same_auth(&self, pre: &ServerState)
        requires
            pre.wf(),
            self.registry.sessions@.len() == pre.registry.sessions@.len(),
            forall|i: int|
                0 <= i < pre.registry.sessions@.len() ==> (#[trigger] self.registry.sessions@[i])
                    .username@ == pre.registry.sessions@[i].username@ && self.registry
                    .sessions@[i].is_authenticated == pre.registry
                    .sessions@[i].is_authenticated,
            self.store.accounts@.len() == pre.store.accounts@.len(),
            forall|j: int|
                0 <= j < pre.store.accounts@.len() ==> (#[trigger] self.store.accounts@[j])
                    .username@ == pre.store.accounts@[j].username@ && self.store
                    .accounts@[j].is_banned == pre.store.accounts@[j].is_banned,
        ensures
            no_banned_authenticated(self.registry, self.store),
    {
        assert forall|s: Session| #[trigger] self.registry.sessions@.contains(s)
            && s.is_authenticated implies ok_account(self.store, s.username@) by {
            let k = choose|k: int| 0 <= k < self.registry.sessions@.len()
                && self.registry.sessions@[k] == s;
            assert(pre.registry.sessions@.contains(pre.registry.sessions@[k]));
            let j = choose|j: int|
                0 <= j < pre.store.accounts@.len() && #[trigger] pre.store.accounts@[j].username@
                    == pre.registry.sessions@[k].username@ && !pre.store.accounts@[j].is_banned;
            assert(self.store.accounts@[j].username@ == s.username@);
            assert(!self.store.accounts@[j].is_banned);
        }
    }

    /// Sessions filtered down to a subset keep the no-banned invariant.
    proof fn lemma_filtered_sessions_auth(&self, pre: &ServerState, pred: spec_fn(Session) -> bool)
        requires
            pre.wf(),
            self.store == pre.store,
            self.registry.sessions@ == pre.registry.sessions@.filter(pred),
        ensures
            no_banned_authenticated(self.registry, self.store),
    {
        assert forall|s: Session| #[trigger] self.registry.sessions@.contains(s)
            && s.is_authenticated implies ok_account(self.store, s.username@) by {
            lemma_filter_sub(pre.registry.sessions@, pred);
            let k = choose|k: int| 0 <= k < self.registry.sessions@.len()
                && self.registry.sessions@[k] == s;
            assert(self.registry.sessions@[k] == pre.registry.sessions@.filter(pred)[k]);
            assert(pre.registry.sessions@.contains(s));
        }
    }
}

impl ServerState {
    /// A profile update from an authenticated session stores and mirrors
    /// its presentation attributes and asks for a broadcast; from anyone
    /// else it is silently ignored.
    pub fn handle_update_presentation(&mut self, addr: u64, status: String, nick_color: String)
        -> (broadcast: bool)
        requires
            old(self).wf(),
        ensures
            final(self).wf(),
            update_presentation_post(*old(self), *final(self), addr, status, nick_color, broadcast),
    {
        match self.registry.find_session(addr) {
            Option::Some(i) => {
                if !self.registry.sessions[i].is_authenticated {
                    proof {
                        assert forall|k: int|
                            0 <= k < self.registry.sessions@.len() && (#[trigger] self.registry
                                .sessions@[k]).addr == addr implies !self.registry
                            .sessions@[k].is_authenticated by {
                            lemma_the_session(self.registry, addr, k);
                            lemma_the_session(self.registry, addr, i as int);
                        }
                    }
                    return false;
                }
                proof {
                    lemma_the_session(self.registry, addr, i as int);
                }
                let uname = self.registry.sessions[i].username.clone();
                self.registry.set_presentation(addr, status.clone(), nick_color.clone());
                self.store.set_presentation(&uname, status, nick_color);
                proof {
                    self.lemma_pointwise_same_auth(old(self));
                }
                true
            },
            Option::None => false,
        }
    }

    /// Channel creation from an authenticated session is idempotent; only a
    /// genuinely new channel asks for a broadcast.
    pub fn handle_create_channel(&mut self, addr: u64, name: String) -> (broadcast: bool)
        requires
            old(self).wf(),
        ensures
            final(self).wf(),
            create_channel_post(*old(self), *final(self), addr, name, broadcast),
    {
        match self.registry.find_session(addr) {
            Option::Some(i) => {
                if !self.registry.sessions[i].is_authenticated {
                    proof {
                        assert forall|k: int|
                            0 <= k < self.registry.sessions@.len() && (#[trigger] self.registry
                                .sessions@[k]).addr == addr implies !self.registry
                            .sessions@[k].is_authenticated by {
                            lemma_the_session(self.registry, addr, k);
                            lemma_the_session(self.registry, addr, i as int);
                        }
                    }
                    return false;
                }
                let created = self.store.create_channel(name);
                proof {
                    self.lemma_pointwise_same_auth(old(self));
                }
                created
            },
            Option::None => false,
        }
    }

    /// A join from an authenticated session moves it into an existing
    /// channel and asks for a broadcast; an unknown channel, or an
    /// unauthenticated sender, changes nothing.
    pub fn handle_join_channel(&mut self, addr: u64, name: String, now: u64) -> (broadcast: bool)
        requires
            old(self).wf(),
        ensures
            final(self).wf(),
            join_channel_post(*old(self), *final(self), addr, name, now, broadcast),
    {
        match self.registry.find_session(addr) {
            Option::Some(i) => {
                if !self.registry.sessions[i].is_authenticated {
                    proof {
                        assert forall|k: int|
                            0 <= k < self.registry.sessions@.len() && (#[trigger] self.registry
                                .sessions@[k]).addr == addr implies !self.registry
                            .sessions@[k].is_authenticated by {
                            lemma_the_session(self.registry, addr, k);
                            lemma_the_session(self.registry, addr, i as int);
                        }
                    }
                    return false;
                }
                proof {
                    lemma_the_session(self.registry, addr, i as int);
                }
                if !self.store.has_channel(&name) {
                    return false;
                }
                self.registry.join_channel(addr, name, now);
                proof {
                    self.lemma_pointwise_same_auth(old(self));
                }
                true
            },
            Option::None => false,
        }
    }

    /// A chat message refreshes the sender's liveness; from an
    /// authenticated, unmuted session it is persisted under the sender's
    /// current channel and relayed to every other authenticated session in
    /// that channel. A muted sender's message goes to nobody and is not
    /// persisted.
    pub fn handle_chat(
        &mut self,
        addr: u64,
        id: u128,
        username: String,
        message: Vec<u8>,
        timestamp: u64,
        now: u64,
    ) -> (out: Vec<Outgoing>)
        requires
            old(self).wf(),
        ensures
            final(self).wf(),
            chat_post(*old(self), *final(self), addr, id, username, message, timestamp, now, out@),
    {
        let mut out: Vec<Outgoing> = Vec::new();
        match self.registry.find_session(addr) {
            Option::Some(i) => {
                proof {
                    lemma_the_session(self.registry, addr, i as int);
                }
                let auth = self.registry.sessions[i].is_authenticated;
                let muted = self.registry.sessions[i].is_muted;
                let channel = self.registry.sessions[i].current_channel.clone();
                self.registry.touch(addr, now);
                proof {
                    self.lemma_pointwise_same_auth(old(self));
                }
                if auth && !muted {
                    let rec = crate::store::ChatRecord {
                        id,
                        username: username.clone(),
                        channel: channel.clone(),
                        message: crate::history::copy_bytes(&message),
                        timestamp,
                    };
                    self.store.chat_messages.push(rec);
                    proof {
                        assert(self.store.chat_messages@.take(
                            old(self).store.chat_messages@.len() as int,
                        ) =~= old(self).store.chat_messages@);
                    }
                    let peers = self.registry.channel_peers(addr, &channel);
                    let ghost pv = PacketV::ChatMessage {
                        id: id,
                        username: username@,
                        message: message@,
                        timestamp: timestamp,
                    };
                    let mut j: usize = 0;
                    while j < peers.len()
                        invariant
                            j <= peers@.len(),
                            out@.len() == j,
                            pv == (PacketV::ChatMessage {
                                id: id,
                                username: username@,
                                message: message@,
                                timestamp: timestamp,
                            }),
                            forall|k: int|
                                0 <= k < j ==> (#[trigger] out@[k]).addr == peers@[k] && out@[
                                    k
                                ].packet.deep_view() == pv,
                        decreases peers@.len() - j,
                    {
                        let pkt = NetworkPacket::ChatMessage {
                            id,
                            username: username.clone(),
                            message: crate::history::copy_bytes(&message),
                            timestamp,
                        };
                        proof {
                            assert(pkt.deep_view() matches PacketV::ChatMessage {
                                id: i2, username: u2, message: m2, timestamp: t2 }
                                && i2 == id && u2 == username@ && m2 == message@
                                && t2 == timestamp);
                            assert(pkt.deep_view() == pv);
                        }
                        out.push(Outgoing { addr: peers[j], packet: pkt });
                        j += 1;
                    }
                    proof {
                        assert(out@.map_values(|o: Outgoing| o.addr) =~= peers@);
                    }
                }
            },
            Option::None => {},
        }
        out
    }

    /// An audio frame or a typing indicator refreshes the sender's
    /// liveness; from an authenticated, unmuted session it is relayed
    /// unchanged to every other authenticated session in the sender's
    /// channel, and never persisted. A muted sender's frames go to nobody.
    pub fn handle_realtime(&mut self, addr: u64, packet: NetworkPacket, now: u64) -> (out: Vec<
        Outgoing,
    >)
        requires
            old(self).wf(),
            packet is Audio || packet is TypingStatus,
        ensures
            final(self).wf(),
            realtime_post(*old(self), *final(self), addr, packet, now, out@),
    {
        let mut out: Vec<Outgoing> = Vec::new();
        match self.registry.find_session(addr) {
            Option::Some(i) => {
                proof {
                    lemma_the_session(self.registry, addr, i as int);
                }
                let auth = self.registry.sessions[i].is_authenticated;
                let muted = self.registry.sessions[i].is_muted;
                let channel = self.registry.sessions[i].current_channel.clone();
                self.registry.touch(addr, now);
                proof {
                    self.lemma_pointwise_same_auth(old(self));
                }
                if auth && !muted {
                    let peers = self.registry.channel_peers(addr, &channel);
                    let mut j: usize = 0;
                    while j < peers.len()
                        invariant
                            j <= peers@.len(),
                            out@.len() == j,
                            packet is Audio || packet is TypingStatus,
                            forall|k: int|
                                0 <= k < j ==> (#[trigger] out@[k]).addr == peers@[k] && out@[
                                    k
                                ].packet.deep_view() == packet.deep_view(),
                        decreases peers@.len() - j,
                    {
                        let copy = clone_realtime(&packet);
                        out.push(Outgoing { addr: peers[j], packet: copy });
                        j += 1;
                    }
                    proof {
                        assert(out@.map_values(|o: Outgoing| o.addr) =~= peers@);
                    }
                }
            },
            Option::None => {},
        }
        out
    }

    /// A direct message from an authenticated session speaking as itself is
    /// persisted and delivered to one connected session of the named
    /// recipient; an offline recipient relies on history replay.
    pub fn handle_private_message(
        &mut self,
        addr: u64,
        id: u128,
        from: String,
        to: String,
        message: Vec<u8>,
        timestamp: u64,
    ) -> (out: Vec<Outgoing>)
        requires
            old(self).wf(),
        ensures
            final(self).wf(),
            private_message_post(*old(self), *final(self), addr, id, from, to, message, timestamp, out@),
    {
        let mut out: Vec<Outgoing> = Vec::new();
        match self.registry.find_session(addr) {
            Option::Some(i) => {
                proof {
                    lemma_the_session(self.registry, addr, i as int);
                }
                let speaks = self.registry.sessions[i].is_authenticated
                    && self.registry.sessions[i].username == from;
                if !speaks {
                    return out;
                }
                let rec = crate::store::PrivateRecord {
                    id,
                    sender: from.clone(),
                    recipient: to.clone(),
                    message: crate::history::copy_bytes(&message),
                    timestamp,
                };
                self.store.private_messages.push(rec);
                proof {
                    assert(self.store.private_messages@.take(
                        old(self).store.private_messages@.len() as int,
                    ) =~= old(self).store.private_messages@);
                }
                match self.registry.addr_of_user(&to) {
                    Option::Some(target) => {
                        out.push(
                            Outgoing {
                                addr: target,
                                packet: NetworkPacket::PrivateMessage {
                                    id,
                                    from,
                                    to,
                                    message,
                                    timestamp,
                                },
                            },
                        );
                    },
                    Option::None => {},
                }
            },
            Option::None => {},
        }
        out
    }

    /// A profile request is answered for anyone: the stored avatar and bio
    /// of the named user, empty for an unknown name, so the request never
    /// fails.
    pub fn handle_request_profile(&self, addr: u64, target: &String) -> (out: Vec<Outgoing>)
        requires
            self.wf(),
        ensures
            request_profile_post(*self, addr, *target, out@),
    {
        let profile = self.store.profile_of(target);
        let mut out: Vec<Outgoing> = Vec::new();
        proof {
            if self.store.has_account(target@) {
                let w = choose|w: int|
                    0 <= w < self.store.accounts@.len() && #[trigger] self.store
                        .accounts@[w].username@ == target@ && profile.avatar_url@ == self.store
                        .accounts@[w].avatar_url@ && profile.bio@ == self.store
                        .accounts@[w].bio@;
                lemma_the_account(self.store, target@, w);
            }
        }
        out.push(
            Outgoing {
                addr,
                packet: NetworkPacket::ProfileUpdate {
                    username: profile.username,
                    avatar_url: profile.avatar_url,
                    bio: profile.bio,
                },
            },
        );
        out
    }

    /// A profile update from an authenticated session durably stores its
    /// avatar and bio under the session's own username and mirrors them to
    /// every connected session.
    pub fn handle_profile_update(&mut self, addr: u64, avatar_url: String, bio: String) -> (out:
        Vec<Outgoing>)
        requires
            old(self).wf(),
        ensures
            final(self).wf(),
            profile_update_post(*old(self), *final(self), addr, avatar_url, bio, out@),
    {
        let mut out: Vec<Outgoing> = Vec::new();
        match self.registry.find_session(addr) {
            Option::Some(i) => {
                if !self.registry.sessions[i].is_authenticated {
                    proof {
                        assert forall|k: int|
                            0 <= k < self.registry.sessions@.len() && (#[trigger] self.registry
                                .sessions@[k]).addr == addr implies !self.registry
                            .sessions@[k].is_authenticated by {
                            lemma_the_session(self.registry, addr, k);
                            lemma_the_session(self.registry, addr, i as int);
                        }
                    }
                    return out;
                }
                proof {
                    lemma_the_session(self.registry, addr, i as int);
                }
                let uname = self.registry.sessions[i].username.clone();
                self.store.set_profile(&uname, avatar_url.clone(), bio.clone());
                proof {
                    self.lemma_pointwise_same_auth(old(self));
                }
                let ghost pv = PacketV::ProfileUpdate {
                    username: uname@,
                    avatar_url: avatar_url@,
                    bio: bio@,
                };
                let addrs = self.registry.all_addrs();
                let mut j: usize = 0;
                while j < addrs.len()
                    invariant
                        j <= addrs@.len(),
                        out@.len() == j,
                        pv == (PacketV::ProfileUpdate {
                            username: uname@,
                            avatar_url: avatar_url@,
                            bio: bio@,
                        }),
                        forall|k: int|
                            0 <= k < j ==> (#[trigger] out@[k]).addr == addrs@[k] && out@[
                                k
                            ].packet.deep_view() == pv,
                    decreases addrs@.len() - j,
                {
                    let pkt = NetworkPacket::ProfileUpdate {
                        username: uname.clone(),
                        avatar_url: avatar_url.clone(),
                        bio: bio.clone(),
                    };
                    proof {
                        assert(pkt.deep_view() == pv);
                    }
                    out.push(Outgoing { addr: addrs[j], packet: pkt });
                    j += 1;
                }
                proof {
                    assert(out@.map_values(|o: Outgoing| o.addr) =~= addrs@);
                }
            },
            Option::None => {},
        }
        out
    }
}

/// Keeps the reassembly entries of every transfer but the given id.
pub open spec fn keep_transfer_pred(id: u128) -> spec_fn((u128, PendingFile)) -> bool {
    |p: (u128, PendingFile)| p.0 != id
}

impl ServerState {
    /// The index of the in-flight transfer with an id, if any.
    fn find_transfer(&self, id: u128) -> (r: Option<usize>)
        ensures
            match r {
                Some(k) => k < self.pending@.len() && self.pending@[k as int].0 == id,
                None => forall|k: int|
                    0 <= k < self.pending@.len() ==> (#[trigger] self.pending@[k]).0 != id,
            },
    {
        let mut k: usize = 0;
        while k < self.pending.len()
            invariant
                k <= self.pending@.len(),
                forall|j: int| 0 <= j < k ==> (#[trigger] self.pending@[j]).0 != id,
            decreases self.pending@.len() - k,
        {
            if self.pending[k].0 == id {
                return Some(k);
            }
            k += 1;
        }
        None
    }

    /// A transfer announcement from an authenticated session opens (or
    /// reopens) the reassembly slot of its id with every chunk missing, and
    /// relays the announcement at once: to the one named recipient, or to
    /// the sender's channel.
    pub fn handle_file_start(
        &mut self,
        addr: u64,
        id: u128,
        from: String,
        to: Option<String>,
        filename: String,
        total_chunks: u32,
        is_image: bool,
        timestamp: u64,
    ) -> (out: Vec<Outgoing>)
        requires
            old(self).wf(),
        ensures
            final(self).wf(),
            file_start_post(*old(self), *final(self), addr, id, from, to, filename, total_chunks, is_image, timestamp, out@),
    {
        let mut out: Vec<Outgoing> = Vec::new();
        match self.registry.find_session(addr) {
            Option::Some(i) => {
                proof {
                    lemma_the_session(self.registry, addr, i as int);
                }
                if !self.registry.sessions[i].is_authenticated {
                    return out;
                }
                let channel = self.registry.sessions[i].current_channel.clone();
                // Reopen the slot of this id with every chunk missing.
                match self.find_transfer(id) {
                    Option::Some(k) => {
                        self.pending.remove(k);
                        proof {
                            let pre = old(self).pending@;
                            assert forall|j: int| 0 <= j < pre.len() && j != k implies (
                            #[trigger] pre[j]).0 != id by {
                                if j < k {
                                    assert(pre[j].0 != pre[k as int].0);
                                } else {
                                    assert(pre[k as int].0 != pre[j].0);
                                }
                            }
                            crate::seq_facts::lemma_filter_remove_one(
                                pre,
                                k as int,
                                keep_transfer_pred(id),
                            );
                        }
                    },
                    Option::None => {
                        proof {
                            crate::seq_facts::lemma_filter_all(
                                self.pending@,
                                keep_transfer_pred(id),
                            );
                        }
                    },
                }
                let fname = filename.clone();
                let pf = PendingFile::start(
                    filename,
                    from.clone(),
                    clone_opt_name(&to),
                    is_image,
                    timestamp,
                    total_chunks as usize,
                );
                let ghost kept = self.pending@;
                self.pending.push((id, pf));
                proof {
                    assert(self.pending@.drop_last() =~= kept);
                    assert forall|a: int, b: int| 0 <= a < b < self.pending@.len() implies (
                    #[trigger] self.pending@[a]).0 != (#[trigger] self.pending@[b]).0 by {
                        if b == self.pending@.len() - 1 {
                            assert(self.pending@[a] == kept[a]);
                            assert(kept[a] == old(self).pending@.filter(keep_transfer_pred(id))[
                                a
                            ]);
                            old(self).pending@.lemma_filter_pred(keep_transfer_pred(id), a);
                        } else {
                            assert(self.pending@[a] == kept[a]);
                            assert(self.pending@[b] == kept[b]);
                        }
                    }
                    assert forall|j: int| 0 <= j < self.pending@.len() implies (
                    #[trigger] self.pending@[j].1).wf() by {
                        if j < self.pending@.len() - 1 {
                            assert(self.pending@[j] == kept[j]);
                            lemma_filter_sub(old(self).pending@, keep_transfer_pred(id));
                            let m = choose|m: int|
                                0 <= m < old(self).pending@.len() && old(self).pending@[m]
                                    == kept[j];
                            assert(old(self).pending@[m].1.wf());
                        }
                    }
                }
                // Relay the announcement at once; recipients reassemble on
                // their own.
                let ghost pv = PacketV::FileStart {
                    id: id,
                    from: from@,
                    to: to.deep_view(),
                    filename: fname@,
                    total_chunks: total_chunks,
                    is_image: is_image,
                    timestamp: timestamp,
                };
                match &to {
                    Option::Some(target) => {
                        match self.registry.addr_of_user(target) {
                            Option::Some(dest) => {
                                let pkt = NetworkPacket::FileStart {
                                    id,
                                    from,
                                    to: clone_opt_name(&to),
                                    filename: fname,
                                    total_chunks,
                                    is_image,
                                    timestamp,
                                };
                                proof {
                                    assert(pkt.deep_view() == pv);
                                }
                                out.push(Outgoing { addr: dest, packet: pkt });
                            },
                            Option::None => {},
                        }
                    },
                    Option::None => {
                        let peers = self.registry.channel_peers(addr, &channel);
                        let mut j: usize = 0;
                        while j < peers.len()
                            invariant
                                j <= peers@.len(),
                                out@.len() == j,
                                fname@ == filename@,
                                pv == (PacketV::FileStart {
                                    id: id,
                                    from: from@,
                                    to: to.deep_view(),
                                    filename: fname@,
                                    total_chunks: total_chunks,
                                    is_image: is_image,
                                    timestamp: timestamp,
                                }),
                                forall|k: int|
                                    0 <= k < j ==> (#[trigger] out@[k]).addr == peers@[k] && out@[
                                        k
                                    ].packet.deep_view() == pv,
                            decreases peers@.len() - j,
                        {
                            let pkt = NetworkPacket::FileStart {
                                id,
                                from: from.clone(),
                                to: clone_opt_name(&to),
                                filename: fname.clone(),
                                total_chunks,
                                is_image,
                                timestamp,
                            };
                            proof {
                                assert(pkt.deep_view() == pv);
                            }
                            out.push(Outgoing { addr: peers[j], packet: pkt });
                            j += 1;
                        }
                        proof {
                            assert(out@.map_values(|o: Outgoing| o.addr) =~= peers@);
                        }
                    },
                }
            },
            Option::None => {},
        }
        out
    }

    /// A chunk from an authenticated session is relayed at once to the
    /// transfer's audience — the one named recipient of a direct transfer,
    /// or every other authenticated session in the sender's channel — and
    /// fills its slot exactly once: a duplicate or out-of-range index
    /// leaves the transfer as it was. A chunk of an unannounced transfer is
    /// silently dropped. The final chunk completes the transfer: the
    /// concatenation of all chunks in index order is persisted as one file
    /// message under the sender's current channel, and the slot is
    /// discarded.
    pub fn handle_file_chunk(&mut self, addr: u64, id: u128, chunk_index: u32, data: Vec<u8>) -> (
        out: Vec<Outgoing>)
        requires
            old(self).wf(),
        ensures
            final(self).wf(),
            file_chunk_post(*old(self), *final(self), addr, id, chunk_index, data, out@),
    {
        let mut out: Vec<Outgoing> = Vec::new();
        match self.registry.find_session(addr) {
            Option::Some(i) => {
                proof {
                    lemma_the_session(self.registry, addr, i as int);
                }
                if !self.registry.sessions[i].is_authenticated {
                    return out;
                }
                let channel = self.registry.sessions[i].current_channel.clone();
                match self.find_transfer(id) {
                    Option::Some(k) => {
                        proof {
                            let pre = self.pending@;
                            assert forall|m: int| 0 <= m < pre.len() && (#[trigger] pre[m]).0
                                == id implies m == k by {
                                if m < k {
                                    assert(pre[m].0 != pre[k as int].0);
                                } else if m > k {
                                    assert(pre[k as int].0 != pre[m].0);
                                }
                            }
                        }
                        // Relay first, to the transfer's declared audience:
                        // recipients reassemble independently and must not
                        // wait for the server's own slot to fill.
                        let ghost pv = PacketV::FileChunk {
                            id: id,
                            chunk_index: chunk_index,
                            data: data@,
                        };
                        let direct_target = clone_opt_name(&self.pending[k].1.to);
                        match &direct_target {
                            Option::Some(target) => {
                                match self.registry.addr_of_user(target) {
                                    Option::Some(dest) => {
                                        let pkt = NetworkPacket::FileChunk {
                                            id,
                                            chunk_index,
                                            data: crate::history::copy_bytes(&data),
                                        };
                                        proof {
                                            assert(pkt.deep_view() == pv);
                                        }
                                        out.push(Outgoing { addr: dest, packet: pkt });
                                    },
                                    Option::None => {},
                                }
                            },
                            Option::None => {
                                let peers = self.registry.channel_peers(addr, &channel);
                                let mut j: usize = 0;
                                while j < peers.len()
                                    invariant
                                        j <= peers@.len(),
                                        out@.len() == j,
                                        pv == (PacketV::FileChunk {
                                            id: id,
                                            chunk_index: chunk_index,
                                            data: data@,
                                        }),
                                        forall|m: int|
                                            0 <= m < j ==> (#[trigger] out@[m]).addr == peers@[m]
                                                && out@[m].packet.deep_view() == pv,
                                    decreases peers@.len() - j,
                                {
                                    let pkt = NetworkPacket::FileChunk {
                                        id,
                                        chunk_index,
                                        data: crate::history::copy_bytes(&data),
                                    };
                                    proof {
                                        assert(pkt.deep_view() == pv);
                                    }
                                    out.push(Outgoing { addr: peers[j], packet: pkt });
                                    j += 1;
                                }
                                proof {
                                    assert(out@.map_values(|o: Outgoing| o.addr) =~= peers@);
                                }
                            },
                        }
                        // Fill the server's own slot for durable
                        // persistence.
                        let mut pair = self.pending.remove(k);
                        let accepted = pair.1.add_chunk(chunk_index as usize, data);
                        let complete = pair.1.is_complete();
                        if accepted && complete {
                            let assembled = pair.1.assemble();
                            let rec = crate::store::FileRecord {
                                id,
                                sender: pair.1.from,
                                channel,
                                recipient: pair.1.to,
                                filename: pair.1.filename,
                                data: assembled,
                                is_image: pair.1.is_image,
                                timestamp: pair.1.timestamp,
                            };
                            self.store.file_messages.push(rec);
                            proof {
                                assert(self.store.file_messages@.take(
                                    old(self).store.file_messages@.len() as int,
                                ) =~= old(self).store.file_messages@);
                            }
                        } else {
                            self.pending.insert(k, pair);
                            proof {
                                if !accepted {
                                    assert(self.pending@ =~= old(self).pending@);
                                } else {
                                    assert forall|a: int, b: int|
                                        0 <= a < b < self.pending@.len() implies (
                                    #[trigger] self.pending@[a]).0 != (
                                    #[trigger] self.pending@[b]).0 by {
                                        assert(self.pending@[a].0 == old(self).pending@[a].0);
                                        assert(self.pending@[b].0 == old(self).pending@[b].0);
                                    }
                                }
                            }
                        }
                    },
                    Option::None => {},
                }
            },
            Option::None => {},
        }
        out
    }

    /// A reaction from an authenticated session speaking as itself is
    /// persisted and mirrored to every connected session, so that any view
    /// holding the target message can attach it.
    pub fn handle_reaction(&mut self, addr: u64, msg_id: u128, from: String, emoji: String) -> (
        out: Vec<Outgoing>)
        requires
            old(self).wf(),
        ensures
            final(self).wf(),
            reaction_post(*old(self), *final(self), addr, msg_id, from, emoji, out@),
    {
        let mut out: Vec<Outgoing> = Vec::new();
        match self.registry.find_session(addr) {
            Option::Some(i) => {
                proof {
                    lemma_the_session(self.registry, addr, i as int);
                }
                let speaks = self.registry.sessions[i].is_authenticated
                    && self.registry.sessions[i].username == from;
                if !speaks {
                    return out;
                }
                let rec = crate::store::ReactionRecord {
                    msg_id,
                    username: from.clone(),
                    emoji: emoji.clone(),
                };
                self.store.reactions.push(rec);
                proof {
                    assert(self.store.reactions@.take(old(self).store.reactions@.len() as int)
                        =~= old(self).store.reactions@);
                }
                let ghost pv = PacketV::Reaction { msg_id: msg_id, from: from@, emoji: emoji@ };
                let addrs = self.registry.all_addrs();
                let mut j: usize = 0;
                while j < addrs.len()
                    invariant
                        j <= addrs@.len(),
                        out@.len() == j,
                        pv == (PacketV::Reaction { msg_id: msg_id, from: from@, emoji: emoji@ }),
                        forall|k: int|
                            0 <= k < j ==> (#[trigger] out@[k]).addr == addrs@[k] && out@[
                                k
                            ].packet.deep_view() == pv,
                    decreases addrs@.len() - j,
                {
                    let pkt = NetworkPacket::Reaction {
                        msg_id,
                        from: from.clone(),
                        emoji: emoji.clone(),
                    };
                    proof {
                        assert(pkt.deep_view() == pv);
                    }
                    out.push(Outgoing { addr: addrs[j], packet: pkt });
                    j += 1;
                }
                proof {
                    assert(out@.map_values(|o: Outgoing| o.addr) =~= addrs@);
                }
            },
            Option::None => {},
        }
        out
    }

    /// A channel history request from an authenticated session is answered
    /// with the channel's recent records in timestamp order, reactions
    /// attached; from anyone else it is silently ignored.
    pub fn handle_request_chat_history(&self, addr: u64, channel: &String) -> (out: Vec<Outgoing>)
        requires
            self.wf(),
        ensures
            request_chat_history_post(*self, addr, *channel, out@),
    {
        let mut out: Vec<Outgoing> = Vec::new();
        match self.registry.find_session(addr) {
            Option::Some(i) => {
                proof {
                    lemma_the_session(self.registry, addr, i as int);
                }
                if !self.registry.sessions[i].is_authenticated {
                    return out;
                }
                let entries = crate::history::history_for_channel(&self.store, channel);
                proof {
                    assert(entries.deep_view() =~= crate::history::dv(entries@));
                }
                out.push(Outgoing { addr, packet: NetworkPacket::ChatHistory(entries) });
            },
            Option::None => {},
        }
        out
    }
}

impl ServerState {
    /// A direct history request from an authenticated session is answered
    /// with the records exchanged between the session's own user and the
    /// named peer, in timestamp order, reactions attached.
    pub fn handle_request_direct_history(&self, addr: u64, target: &String) -> (out: Vec<
        Outgoing,
    >)
        requires
            self.wf(),
        ensures
            request_direct_history_post(*self, addr, *target, out@),
    {
        let mut out: Vec<Outgoing> = Vec::new();
        match self.registry.find_session(addr) {
            Option::Some(i) => {
                proof {
                    lemma_the_session(self.registry, addr, i as int);
                }
                if !self.registry.sessions[i].is_authenticated {
                    return out;
                }
                let me = self.registry.sessions[i].username.clone();
                let entries = crate::history::history_for_direct(&self.store, &me, target);
                proof {
                    assert(entries.deep_view() =~= crate::history::dv(entries@));
                }
                out.push(Outgoing { addr, packet: NetworkPacket::DirectHistory(entries) });
            },
            Option::None => {},
        }
        out
    }

    /// One full membership snapshot of the current state, addressed to
    /// every connected session.
    pub fn broadcast_snapshot(&self) -> (out: Vec<Outgoing>)
        ensures
            out@.len() == self.registry.sessions@.len(),
            forall|k: int|
                0 <= k < out@.len() ==> (#[trigger] out@[k]).addr
                    == self.registry.sessions@[k].addr && out@[k].packet.deep_view()
                    == PacketV::UsersUpdate(
                    snapshot_of(self.registry.sessions@, self.store.channels@),
                ),
    {
        let mut out: Vec<Outgoing> = Vec::new();
        let mut j: usize = 0;
        while j < self.registry.sessions.len()
            invariant
                j <= self.registry.sessions@.len(),
                out@.len() == j,
                forall|k: int|
                    0 <= k < j ==> (#[trigger] out@[k]).addr == self.registry.sessions@[k].addr
                        && out@[k].packet.deep_view() == PacketV::UsersUpdate(
                        snapshot_of(self.registry.sessions@, self.store.channels@),
                    ),
            decreases self.registry.sessions@.len() - j,
        {
            let snap = self.registry.snapshot(&self.store.channels);
            let pkt = NetworkPacket::UsersUpdate(snap);
            proof {
                assert(pkt.deep_view() == PacketV::UsersUpdate(
                    snapshot_of(self.registry.sessions@, self.store.channels@),
                )) by {
                    assert(pkt.deep_view() =~= PacketV::UsersUpdate(
                        snapshot_of(self.registry.sessions@, self.store.channels@),
                    ));
                }
            }
            out.push(Outgoing { addr: self.registry.sessions[j].addr, packet: pkt });
            j += 1;
        }
        out
    }

    /// One inbound datagram, start to finish: the packet is authorized and
    /// applied, stale sessions are purged, and — when membership changed or
    /// a purge removed someone — exactly one fresh membership snapshot of
    /// the resulting state goes to every connected session. Packets that
    /// only a client consumes are dropped without effect.
    pub fn handle_packet(&mut self, addr: u64, packet: NetworkPacket, now: u64) -> (out: Vec<
        Outgoing,
    >)
        requires
            old(self).wf(),
        ensures
            final(self).wf(),
            // The packet's exact effect: some intermediate state and handler
            // output satisfy the matching handler's full contract; the final
            // state is that state with every stale session swept out; and
            // when membership changed or the sweep removed someone, the
            // output ends with exactly one fresh snapshot per connected
            // session — otherwise with no snapshot at all.
            exists|mid: ServerState, handled: Seq<Outgoing>, changed: bool|
                {
                    &&& #[trigger] dispatch_post(*old(self), mid, addr, packet, now, handled,
                        changed,
                    )
                    &&& final(self).registry.sessions@ == mid.registry.sessions@.filter(
                        live_pred(now),
                    )
                    &&& final(self).store == mid.store
                    &&& final(self).pending == mid.pending
                    &&& final(self).default_channel == mid.default_channel
                    &&& broadcast_tail(
                        out@,
                        handled,
                        changed || final(self).registry.sessions@.len()
                            != mid.registry.sessions@.len(),
                        *final(self),
                    )
                },
            // Only live sessions survive a dispatch.
            forall|i: int|
                0 <= i < final(self).registry.sessions@.len() ==> crate::registry::session_live(
                    #[trigger] final(self).registry.sessions@[i],
                    now,
                ),
            // Every membership snapshot sent reflects exactly the resulting
            // state: the authenticated sessions of each durable channel.
            forall|k: int|
                0 <= k < out@.len() ==> match (#[trigger] out@[k]).packet.deep_view() {
                    PacketV::UsersUpdate(v) => v == snapshot_of(
                        final(self).registry.sessions@,
                        final(self).store.channels@,
                    ),
                    _ => true,
                },
    {
        let ghost pkt = packet;
        let mut out: Vec<Outgoing>;
        let mut broadcast: bool = false;
        match packet {
            NetworkPacket::Handshake { username } => {
                broadcast = self.handle_handshake(addr, username, now);
                out = Vec::new();
            },
            NetworkPacket::Register { username, password } => {
                out = self.handle_register(addr, username, password);
            },
            NetworkPacket::Login { username, password } => {
                let r = self.handle_login(addr, username, password, now);
                out = r.0;
                broadcast = r.1;
            },
            NetworkPacket::Audio { .. } => {
                out = self.handle_realtime(addr, packet, now);
            },
            NetworkPacket::TypingStatus { .. } => {
                out = self.handle_realtime(addr, packet, now);
            },
            NetworkPacket::ChatMessage { id, username, message, timestamp } => {
                out = self.handle_chat(addr, id, username, message, timestamp, now);
            },
            NetworkPacket::JoinChannel(name) => {
                broadcast = self.handle_join_channel(addr, name, now);
                out = Vec::new();
            },
            NetworkPacket::CreateChannel(name) => {
                broadcast = self.handle_create_channel(addr, name);
                out = Vec::new();
            },
            NetworkPacket::PrivateMessage { id, from, to, message, timestamp } => {
                out = self.handle_private_message(addr, id, from, to, message, timestamp);
            },
            NetworkPacket::FileStart {
                id,
                from,
                to,
                filename,
                total_chunks,
                is_image,
                timestamp,
            } => {
                out = self.handle_file_start(
                    addr,
                    id,
                    from,
                    to,
                    filename,
                    total_chunks,
                    is_image,
                    timestamp,
                );
            },
            NetworkPacket::FileChunk { id, chunk_index, data } => {
                out = self.handle_file_chunk(addr, id, chunk_index, data);
            },
            NetworkPacket::Reaction { msg_id, from, emoji } => {
                out = self.handle_reaction(addr, msg_id, from, emoji);
            },
            NetworkPacket::RequestChatHistory { channel } => {
                out = self.handle_request_chat_history(addr, &channel);
            },
            NetworkPacket::RequestDirectHistory { target } => {
                out = self.handle_request_direct_history(addr, &target);
            },
            NetworkPacket::RequestProfile(name) => {
                out = self.handle_request_profile(addr, &name);
            },
            NetworkPacket::ProfileUpdate { username: _, avatar_url, bio } => {
                out = self.handle_profile_update(addr, avatar_url, bio);
            },
            NetworkPacket::UpdateProfile { status, nick_color } => {
                broadcast = self.handle_update_presentation(addr, status, nick_color);
                out = Vec::new();
            },
            NetworkPacket::AdminAction { target, action } => {
                broadcast = self.handle_admin(addr, &target, action);
                out = Vec::new();
            },
            NetworkPacket::Ping => {
                self.handle_ping(addr, now);
                out = Vec::new();
            },
            NetworkPacket::AuthResponse { .. } => {
                out = Vec::new();
            },
            NetworkPacket::UsersUpdate(..) => {
                out = Vec::new();
            },
            NetworkPacket::ChatHistory(..) => {
                out = Vec::new();
            },
            NetworkPacket::DirectHistory(..) => {
                out = Vec::new();
            },
            NetworkPacket::FileMessage { .. } => {
                out = Vec::new();
            },
        }
        let ghost mid = *self;
        let ghost handled = out@;
        let ghost changed = broadcast;
        proof {
            assert(dispatch_post(*old(self), mid, addr, pkt, now, handled, changed));
        }
        let purged = self.registry.purge_idle(now);
        proof {
            self.lemma_filtered_sessions_auth(&mid, live_pred(now));
            assert forall|i: int| 0 <= i < self.registry.sessions@.len() implies
                crate::registry::session_live(#[trigger] self.registry.sessions@[i], now) by {
                mid.registry.sessions@.lemma_filter_pred(live_pred(now), i);
            }
        }
        if broadcast || purged {
            let mut b = self.broadcast_snapshot();
            let ghost tail = b@;
            out.append(&mut b);
            proof {
                assert(out@.take(handled.len() as int) =~= handled);
                assert forall|m: int| 0 <= m < self.registry.sessions@.len() implies (
                #[trigger] out@[handled.len() + m]).addr == self.registry.sessions@[m].addr
                    && out@[handled.len() + m].packet.deep_view() == PacketV::UsersUpdate(
                    snapshot_of(self.registry.sessions@, self.store.channels@),
                ) by {
                    assert(out@[handled.len() + m] == tail[m]);
                }
                assert(broadcast_tail(out@, handled, true, *self));
            }
        } else {
            proof {
                assert(broadcast_tail(out@, handled, false, *self));
            }
        }
        out
    }
}

/// What `handle_handshake` does: its exact contract, stated once here and
/// promised again, per packet, by the dispatcher.
pub open spec fn handshake_post(pre: ServerState, post: ServerState, addr: u64, username: String, now: u64) -> bool {
    &&& (post.store == pre.store)
    &&& (post.pending == pre.pending)
    &&& (post.default_channel == pre.default_channel)
    &&& (post.registry.sessions@.filter(crate::registry::keep_addr_pred(addr)) == pre.registry.sessions@.filter(crate::registry::keep_addr_pred(addr)))
    &&& (post.registry.sessions@.last().addr == addr)
    &&& (post.registry.sessions@.last().username == username)
    &&& (!post.registry.sessions@.last().is_authenticated)
    &&& (post.registry.sessions@.last().current_channel == pre.default_channel)
    &&& (post.registry.sessions@.last().last_seen == now)
}

/// What `handle_ping` does: its exact contract, stated once here and
/// promised again, per packet, by the dispatcher.
pub open spec fn ping_post(pre: ServerState, post: ServerState, addr: u64, now: u64) -> bool {
    &&& (post.store == pre.store)
    &&& (post.pending == pre.pending)
    &&& (post.default_channel == pre.default_channel)
    &&& (post.registry.sessions@.len() == pre.registry.sessions@.len())
    &&& (forall|i: int|
                0 <= i < pre.registry.sessions@.len() ==> #[trigger] post.registry.sessions@[i] == (if pre.registry.sessions@[i].addr == addr {
                    Session { last_seen: now, ..pre.registry.sessions@[i] }
                } else {
                    pre.registry.sessions@[i]
                }))
}

/// What `handle_register` does: its exact contract, stated once here and
/// promised again, per packet, by the dispatcher.
pub open spec fn register_post(pre: ServerState, post: ServerState, addr: u64, username: String, password: String, out: Seq<Outgoing>) -> bool {
    &&& (post.registry == pre.registry)
    &&& (post.pending == pre.pending)
    &&& (post.default_channel == pre.default_channel)
    &&& (post.store.channels@ == pre.store.channels@)
    &&& (post.store.chat_messages@ == pre.store.chat_messages@)
    &&& (post.store.private_messages@ == pre.store.private_messages@)
    &&& (post.store.file_messages@ == pre.store.file_messages@)
    &&& (post.store.reactions@ == pre.store.reactions@)
    &&& (out.len() == 1)
    &&& (out[0].addr == addr)
    &&& (match out[0].packet.deep_view() {
                PacketV::AuthResponse { success, message, role, status, nick_color } => {
                    &&& role is None
                    &&& status is None
                    &&& nick_color is None
                    &&& success ==> {
                        &&& !pre.store.has_account(username@)
                        &&& post.store.accounts@.len() == pre.store.accounts@.len()
                            + 1
                        &&& post.store.accounts@.take(
                            pre.store.accounts@.len() as int,
                        ) == pre.store.accounts@
                        &&& post.store.accounts@.last().username@ == username@
                        &&& post.store.accounts@.last().role == pre.store.next_role()
                        &&& !post.store.accounts@.last().is_banned
                        &&& bcrypt_matches(
                            password@,
                            post.store.accounts@.last().password_hash@,
                        )
                        &&& message == "Registration successful!"@
                    }
                    &&& !success ==> post.store.accounts@ == pre.store.accounts@
                        && message == "Registration failed"@
                    &&& pre.store.has_account(username@) ==> !success
                },
                _ => false,
            })
}

/// What `handle_login` does: its exact contract, stated once here and
/// promised again, per packet, by the dispatcher.
pub open spec fn login_post(pre: ServerState, post: ServerState, addr: u64, username: String, password: String, now: u64, out: Seq<Outgoing>, broadcast: bool) -> bool {
    &&& (post.store == pre.store)
    &&& (post.pending == pre.pending)
    &&& (post.default_channel == pre.default_channel)
    &&& (out.len() == 1)
    &&& (out[0].addr == addr)
    &&& (({
                let ok = pre.store.has_account(username@) && !account_of(
                    pre.store,
                    username@,
                ).is_banned && bcrypt_matches(
                    password@,
                    account_of(pre.store, username@).password_hash@,
                );
                let acct = account_of(pre.store, username@);
                &&& broadcast == ok
                &&& match out[0].packet.deep_view() {
                    PacketV::AuthResponse { success, message, role, status, nick_color } => {
                        &&& success == ok
                        &&& ok ==> role == Some(acct.role) && status == Some(acct.status@)
                            && nick_color == Some(acct.nick_color@) && message
                            == "Login successful!"@
                        &&& !pre.store.has_account(username@) ==> message
                            == "User not found"@
                        &&& (pre.store.has_account(username@) && acct.is_banned) ==> message
                            == "You are banned from this server"@
                        &&& (pre.store.has_account(username@) && !acct.is_banned
                            && !bcrypt_matches(password@, acct.password_hash@)) ==> message
                            == "Invalid password"@
                        &&& role is Some <==> ok
                    },
                    _ => false,
                }
                &&& !ok ==> post.registry == pre.registry
                &&& ok ==> {
                    &&& post.registry.sessions@.len() == pre.registry.sessions@.len()
                    &&& forall|i: int|
                        0 <= i < pre.registry.sessions@.len() ==> #[trigger] post.registry.sessions@[i] == (if pre.registry.sessions@[i].addr
                            == addr {
                            Session {
                                username: post.registry.sessions@[i].username,
                                last_seen: now,
                                is_authenticated: true,
                                role: acct.role,
                                status: post.registry.sessions@[i].status,
                                nick_color: post.registry.sessions@[i].nick_color,
                                ..pre.registry.sessions@[i]
                            }
                        } else {
                            pre.registry.sessions@[i]
                        })
                    &&& forall|i: int|
                        0 <= i < pre.registry.sessions@.len() && pre.registry.sessions@[i].addr == addr ==> (#[trigger] post.registry.sessions@[i]).username@ == username@ && post.registry.sessions@[i].status@ == acct.status@ && post.registry.sessions@[i].nick_color@ == acct.nick_color@
                }
            }))
}

/// What `handle_admin` does: its exact contract, stated once here and
/// promised again, per packet, by the dispatcher.
pub open spec fn admin_post(pre: ServerState, post: ServerState, addr: u64, target: String, action: crate::packet::AdminActionType, broadcast: bool) -> bool {
    &&& (post.pending == pre.pending)
    &&& (post.default_channel == pre.default_channel)
    &&& (post.store.channels@ == pre.store.channels@)
    &&& (post.store.chat_messages@ == pre.store.chat_messages@)
    &&& (post.store.private_messages@ == pre.store.private_messages@)
    &&& (post.store.file_messages@ == pre.store.file_messages@)
    &&& (post.store.reactions@ == pre.store.reactions@)
    &&& (broadcast == sender_is_admin(pre.registry, addr))
    &&& (!sender_is_admin(pre.registry, addr) ==> post.registry == pre.registry && post.store == pre.store)
    &&& (sender_is_admin(pre.registry, addr) ==> match action {
                crate::packet::AdminActionType::Kick => {
                    &&& post.registry.sessions@ == pre.registry.sessions@.filter(
                        keep_other_users_pred(target@),
                    )
                    &&& post.store == pre.store
                },
                crate::packet::AdminActionType::Ban => {
                    &&& post.registry.sessions@ == pre.registry.sessions@.filter(
                        keep_other_users_pred(target@),
                    )
                    &&& post.store.accounts@.len() == pre.store.accounts@.len()
                    &&& forall|i: int|
                        0 <= i < pre.store.accounts@.len() ==> #[trigger] post.store.accounts@[i] == (if pre.store.accounts@[i].username@
                            == target@ {
                            Account { is_banned: true, ..pre.store.accounts@[i] }
                        } else {
                            pre.store.accounts@[i]
                        })
                },
                crate::packet::AdminActionType::Mute => {
                    &&& post.store == pre.store
                    &&& post.registry.sessions@.len() == pre.registry.sessions@.len()
                    &&& forall|i: int|
                        0 <= i < pre.registry.sessions@.len() ==> #[trigger] post.registry.sessions@[i] == (if pre.registry.sessions@[i].username@
                            == target@ {
                            Session { is_muted: true, ..pre.registry.sessions@[i] }
                        } else {
                            pre.registry.sessions@[i]
                        })
                },
                crate::packet::AdminActionType::Unmute => {
                    &&& post.store == pre.store
                    &&& post.registry.sessions@.len() == pre.registry.sessions@.len()
                    &&& forall|i: int|
                        0 <= i < pre.registry.sessions@.len() ==> #[trigger] post.registry.sessions@[i] == (if pre.registry.sessions@[i].username@
                            == target@ {
                            Session { is_muted: false, ..pre.registry.sessions@[i] }
                        } else {
                            pre.registry.sessions@[i]
                        })
                },
            })
}

/// What `handle_update_presentation` does: its exact contract, stated once here and
/// promised again, per packet, by the dispatcher.
pub open spec fn update_presentation_post(pre: ServerState, post: ServerState, addr: u64, status: String, nick_color: String, broadcast: bool) -> bool {
    &&& (post.pending == pre.pending)
    &&& (post.default_channel == pre.default_channel)
    &&& (post.store.channels@ == pre.store.channels@)
    &&& (post.store.chat_messages@ == pre.store.chat_messages@)
    &&& (post.store.private_messages@ == pre.store.private_messages@)
    &&& (post.store.file_messages@ == pre.store.file_messages@)
    &&& (post.store.reactions@ == pre.store.reactions@)
    &&& (broadcast == sender_is_authenticated(pre.registry, addr))
    &&& (!sender_is_authenticated(pre.registry, addr) ==> post.registry == pre.registry && post.store == pre.store)
    &&& (sender_is_authenticated(pre.registry, addr) ==> {
                let uname = the_session(pre.registry, addr).username@;
                &&& post.registry.sessions@.len() == pre.registry.sessions@.len()
                &&& forall|i: int|
                    0 <= i < pre.registry.sessions@.len() ==> #[trigger] post.registry.sessions@[i] == (if pre.registry.sessions@[i].addr == addr {
                        Session {
                            status: post.registry.sessions@[i].status,
                            nick_color: post.registry.sessions@[i].nick_color,
                            ..pre.registry.sessions@[i]
                        }
                    } else {
                        pre.registry.sessions@[i]
                    })
                &&& forall|i: int|
                    0 <= i < pre.registry.sessions@.len() && pre.registry.sessions@[i].addr == addr ==> (#[trigger] post.registry.sessions@[i]).status@ == status@ && post.registry.sessions@[i].nick_color@ == nick_color@
                &&& post.store.accounts@.len() == pre.store.accounts@.len()
                &&& forall|j: int|
                    0 <= j < pre.store.accounts@.len() ==> #[trigger] post.store.accounts@[j] == (if pre.store.accounts@[j].username@ == uname {
                        Account {
                            status: post.store.accounts@[j].status,
                            nick_color: post.store.accounts@[j].nick_color,
                            ..pre.store.accounts@[j]
                        }
                    } else {
                        pre.store.accounts@[j]
                    })
                &&& forall|j: int|
                    0 <= j < pre.store.accounts@.len() && pre.store.accounts@[j].username@ == uname ==> (#[trigger] post.store.accounts@[j]).status@ == status@ && post.store.accounts@[j].nick_color@ == nick_color@
            })
}

/// What `handle_create_channel` does: its exact contract, stated once here and
/// promised again, per packet, by the dispatcher.
pub open spec fn create_channel_post(pre: ServerState, post: ServerState, addr: u64, name: String, broadcast: bool) -> bool {
    &&& (post.registry == pre.registry)
    &&& (post.pending == pre.pending)
    &&& (post.default_channel == pre.default_channel)
    &&& (post.store.accounts@ == pre.store.accounts@)
    &&& (post.store.chat_messages@ == pre.store.chat_messages@)
    &&& (post.store.private_messages@ == pre.store.private_messages@)
    &&& (post.store.file_messages@ == pre.store.file_messages@)
    &&& (post.store.reactions@ == pre.store.reactions@)
    &&& (!sender_is_authenticated(pre.registry, addr) ==> post.store.channels@
                == pre.store.channels@ && !broadcast)
    &&& (sender_is_authenticated(pre.registry, addr) ==> {
                &&& broadcast == !pre.store.spec_has_channel(name@)
                &&& broadcast ==> post.store.channels@ == pre.store.channels@.push(
                    name,
                )
                &&& !broadcast ==> post.store.channels@ == pre.store.channels@
            })
}

/// What `handle_join_channel` does: its exact contract, stated once here and
/// promised again, per packet, by the dispatcher.
pub open spec fn join_channel_post(pre: ServerState, post: ServerState, addr: u64, name: String, now: u64, broadcast: bool) -> bool {
    &&& (post.store == pre.store)
    &&& (post.pending == pre.pending)
    &&& (post.default_channel == pre.default_channel)
    &&& (broadcast == (sender_is_authenticated(pre.registry, addr) && pre.store.spec_has_channel(name@)))
    &&& (!broadcast ==> post.registry == pre.registry)
    &&& (broadcast ==> {
                &&& post.registry.sessions@.len() == pre.registry.sessions@.len()
                &&& forall|i: int|
                    0 <= i < pre.registry.sessions@.len() ==> #[trigger] post.registry.sessions@[i] == (if pre.registry.sessions@[i].addr == addr {
                        Session {
                            current_channel: post.registry.sessions@[i].current_channel,
                            last_seen: now,
                            ..pre.registry.sessions@[i]
                        }
                    } else {
                        pre.registry.sessions@[i]
                    })
                &&& forall|i: int|
                    0 <= i < pre.registry.sessions@.len() && pre.registry.sessions@[i].addr == addr ==> (#[trigger] post.registry.sessions@[i]).current_channel@ == name@
            })
}

/// What `handle_chat` does: its exact contract, stated once here and
/// promised again, per packet, by the dispatcher.
pub open spec fn chat_post(pre: ServerState, post: ServerState, addr: u64, id: u128, username: String, message: Vec<u8>, timestamp: u64, now: u64, out: Seq<Outgoing>) -> bool {
    &&& (post.pending == pre.pending)
    &&& (post.default_channel == pre.default_channel)
    &&& (post.store.accounts@ == pre.store.accounts@)
    &&& (post.store.channels@ == pre.store.channels@)
    &&& (post.store.private_messages@ == pre.store.private_messages@)
    &&& (post.store.file_messages@ == pre.store.file_messages@)
    &&& (post.store.reactions@ == pre.store.reactions@)
    // Liveness is refreshed for the sender in every case.
    &&& (post.registry.sessions@.len() == pre.registry.sessions@.len())
    &&& (forall|i: int|
                0 <= i < pre.registry.sessions@.len() ==> #[trigger] post.registry.sessions@[i] == (if pre.registry.sessions@[i].addr == addr {
                    Session { last_seen: now, ..pre.registry.sessions@[i] }
                } else {
                    pre.registry.sessions@[i]
                }))
    &&& (({
                let relaying = pre.registry.has_addr(addr) && the_session(
                    pre.registry,
                    addr,
                ).is_authenticated && !the_session(pre.registry, addr).is_muted;
                let ch = the_session(pre.registry, addr).current_channel@;
                &&& !relaying ==> out.len() == 0 && post.store.chat_messages@ == pre.store.chat_messages@
                &&& relaying ==> {
                    &&& post.store.chat_messages@.len() == pre.store.chat_messages@.len() + 1
                    &&& post.store.chat_messages@.take(
                        pre.store.chat_messages@.len() as int,
                    ) == pre.store.chat_messages@
                    &&& post.store.chat_messages@.last().id == id
                    &&& post.store.chat_messages@.last().username@ == username@
                    &&& post.store.chat_messages@.last().channel@ == ch
                    &&& post.store.chat_messages@.last().message@ == message@
                    &&& post.store.chat_messages@.last().timestamp == timestamp
                    &&& out.map_values(|o: Outgoing| o.addr) == post.registry.sessions@.filter(crate::registry::relay_pred(addr, ch)).map_values(
                        crate::registry::addr_fn(),
                    )
                    &&& forall|k: int|
                        0 <= k < out.len() ==> (#[trigger] out[k]).packet.deep_view()
                            == PacketV::ChatMessage {
                            id: id,
                            username: username@,
                            message: message@,
                            timestamp: timestamp,
                        }
                }
            }))
}

/// What `handle_realtime` does: its exact contract, stated once here and
/// promised again, per packet, by the dispatcher.
pub open spec fn realtime_post(pre: ServerState, post: ServerState, addr: u64, packet: NetworkPacket, now: u64, out: Seq<Outgoing>) -> bool {
    &&& (post.store == pre.store)
    &&& (post.pending == pre.pending)
    &&& (post.default_channel == pre.default_channel)
    &&& (post.registry.sessions@.len() == pre.registry.sessions@.len())
    &&& (forall|i: int|
                0 <= i < pre.registry.sessions@.len() ==> #[trigger] post.registry.sessions@[i] == (if pre.registry.sessions@[i].addr == addr {
                    Session { last_seen: now, ..pre.registry.sessions@[i] }
                } else {
                    pre.registry.sessions@[i]
                }))
    &&& (({
                let relaying = pre.registry.has_addr(addr) && the_session(
                    pre.registry,
                    addr,
                ).is_authenticated && !the_session(pre.registry, addr).is_muted;
                let ch = the_session(pre.registry, addr).current_channel@;
                &&& !relaying ==> out.len() == 0
                &&& relaying ==> {
                    &&& out.map_values(|o: Outgoing| o.addr) == post.registry.sessions@.filter(crate::registry::relay_pred(addr, ch)).map_values(
                        crate::registry::addr_fn(),
                    )
                    &&& forall|k: int|
                        0 <= k < out.len() ==> (#[trigger] out[k]).packet.deep_view()
                            == packet.deep_view()
                }
            }))
}

/// What `handle_private_message` does: its exact contract, stated once here and
/// promised again, per packet, by the dispatcher.
pub open spec fn private_message_post(pre: ServerState, post: ServerState, addr: u64, id: u128, from: String, to: String, message: Vec<u8>, timestamp: u64, out: Seq<Outgoing>) -> bool {
    &&& (post.registry == pre.registry)
    &&& (post.pending == pre.pending)
    &&& (post.default_channel == pre.default_channel)
    &&& (post.store.accounts@ == pre.store.accounts@)
    &&& (post.store.channels@ == pre.store.channels@)
    &&& (post.store.chat_messages@ == pre.store.chat_messages@)
    &&& (post.store.file_messages@ == pre.store.file_messages@)
    &&& (post.store.reactions@ == pre.store.reactions@)
    &&& (({
                let go = pre.registry.has_addr(addr) && the_session(
                    pre.registry,
                    addr,
                ).is_authenticated && the_session(pre.registry, addr).username@ == from@;
                &&& !go ==> out.len() == 0 && post.store.private_messages@ == pre.store.private_messages@
                &&& go ==> {
                    &&& post.store.private_messages@.len() == pre.store.private_messages@.len() + 1
                    &&& post.store.private_messages@.take(
                        pre.store.private_messages@.len() as int,
                    ) == pre.store.private_messages@
                    &&& post.store.private_messages@.last().id == id
                    &&& post.store.private_messages@.last().sender@ == from@
                    &&& post.store.private_messages@.last().recipient@ == to@
                    &&& post.store.private_messages@.last().message@ == message@
                    &&& post.store.private_messages@.last().timestamp == timestamp
                    &&& (forall|i: int|
                        0 <= i < pre.registry.sessions@.len() ==> (#[trigger] pre.registry.sessions@[i]).username@ != to@) ==> out.len() == 0
                    &&& out.len() <= 1
                    &&& out.len() == 1 ==> exists|i: int|
                        0 <= i < pre.registry.sessions@.len() && (#[trigger] pre.registry.sessions@[i]).username@ == to@ && out[0].addr == pre.registry.sessions@[i].addr
                    &&& (exists|i: int|
                        0 <= i < pre.registry.sessions@.len() && (#[trigger] pre.registry.sessions@[i]).username@ == to@) ==> out.len() == 1
                    &&& out.len() == 1 ==> out[0].packet.deep_view()
                        == PacketV::PrivateMessage {
                        id: id,
                        from: from@,
                        to: to@,
                        message: message@,
                        timestamp: timestamp,
                    }
                }
            }))
}

/// What `handle_request_profile` does: its exact contract, stated once here and
/// promised again, per packet, by the dispatcher.
pub open spec fn request_profile_post(st: ServerState, addr: u64, target: String, out: Seq<Outgoing>) -> bool {
    &&& (out.len() == 1)
    &&& (out[0].addr == addr)
    &&& (match out[0].packet.deep_view() {
                PacketV::ProfileUpdate { username, avatar_url, bio } => {
                    &&& username == target@
                    &&& st.store.has_account(target@) ==> avatar_url == account_of(
                        st.store,
                        target@,
                    ).avatar_url@ && bio == account_of(st.store, target@).bio@
                    &&& !st.store.has_account(target@) ==> avatar_url
                        == Seq::<char>::empty() && bio == Seq::<char>::empty()
                },
                _ => false,
            })
}

/// What `handle_profile_update` does: its exact contract, stated once here and
/// promised again, per packet, by the dispatcher.
pub open spec fn profile_update_post(pre: ServerState, post: ServerState, addr: u64, avatar_url: String, bio: String, out: Seq<Outgoing>) -> bool {
    &&& (post.registry == pre.registry)
    &&& (post.pending == pre.pending)
    &&& (post.default_channel == pre.default_channel)
    &&& (post.store.channels@ == pre.store.channels@)
    &&& (post.store.chat_messages@ == pre.store.chat_messages@)
    &&& (post.store.private_messages@ == pre.store.private_messages@)
    &&& (post.store.file_messages@ == pre.store.file_messages@)
    &&& (post.store.reactions@ == pre.store.reactions@)
    &&& (!sender_is_authenticated(pre.registry, addr) ==> post.store == pre.store && out.len() == 0)
    &&& (sender_is_authenticated(pre.registry, addr) ==> {
                let uname = the_session(pre.registry, addr).username@;
                &&& post.store.accounts@.len() == pre.store.accounts@.len()
                &&& forall|j: int|
                    0 <= j < pre.store.accounts@.len() ==> #[trigger] post.store.accounts@[j] == (if pre.store.accounts@[j].username@ == uname {
                        Account {
                            avatar_url: post.store.accounts@[j].avatar_url,
                            bio: post.store.accounts@[j].bio,
                            ..pre.store.accounts@[j]
                        }
                    } else {
                        pre.store.accounts@[j]
                    })
                &&& forall|j: int|
                    0 <= j < pre.store.accounts@.len() && pre.store.accounts@[j].username@ == uname ==> (#[trigger] post.store.accounts@[j]).avatar_url@ == avatar_url@ && post.store.accounts@[j].bio@ == bio@
                &&& out.map_values(|o: Outgoing| o.addr) == pre.registry.sessions@.map_values(crate::registry::addr_fn())
                &&& forall|k: int|
                    0 <= k < out.len() ==> (#[trigger] out[k]).packet.deep_view()
                        == PacketV::ProfileUpdate {
                        username: uname,
                        avatar_url: avatar_url@,
                        bio: bio@,
                    }
            })
}

/// What `handle_file_start` does: its exact contract, stated once here and
/// promised again, per packet, by the dispatcher.
pub open spec fn file_start_post(pre: ServerState, post: ServerState, addr: u64, id: u128, from: String, to: Option<String>, filename: String, total_chunks: u32, is_image: bool, timestamp: u64, out: Seq<Outgoing>) -> bool {
    &&& (post.registry == pre.registry)
    &&& (post.store == pre.store)
    &&& (post.default_channel == pre.default_channel)
    &&& (({
                let go = pre.registry.has_addr(addr) && the_session(
                    pre.registry,
                    addr,
                ).is_authenticated;
                let ch = the_session(pre.registry, addr).current_channel@;
                &&& !go ==> out.len() == 0 && post.pending == pre.pending
                &&& go ==> {
                    &&& post.pending@.len() >= 1
                    &&& post.pending@.drop_last() == pre.pending@.filter(
                        keep_transfer_pred(id),
                    )
                    &&& post.pending@.last().0 == id
                    &&& post.pending@.last().1.wf()
                    &&& post.pending@.last().1.filename@ == filename@
                    &&& post.pending@.last().1.from@ == from@
                    &&& post.pending@.last().1.to.deep_view() == to.deep_view()
                    &&& post.pending@.last().1.is_image == is_image
                    &&& post.pending@.last().1.timestamp == timestamp
                    &&& post.pending@.last().1.total_chunks == total_chunks as usize
                    &&& post.pending@.last().1.received_count == 0
                    &&& forall|m: int|
                        0 <= m < total_chunks ==> post.pending@.last().1.chunks@[m]
                            is None
                    &&& (match to {
                        Some(target) => {
                            &&& (forall|i: int|
                                0 <= i < pre.registry.sessions@.len() ==> (#[trigger] pre.registry.sessions@[i]).username@ != target@) ==> out.len()
                                == 0
                            &&& out.len() <= 1
                            &&& out.len() == 1 ==> exists|i: int|
                                0 <= i < pre.registry.sessions@.len() && (#[trigger] pre.registry.sessions@[i]).username@ == target@ && out[0].addr
                                    == pre.registry.sessions@[i].addr
                            &&& (exists|i: int|
                                0 <= i < pre.registry.sessions@.len() && (#[trigger] pre.registry.sessions@[i]).username@ == target@) ==> out.len()
                                == 1
                        },
                        None => out.map_values(|o: Outgoing| o.addr) == pre.registry.sessions@.filter(crate::registry::relay_pred(addr, ch))
                            .map_values(crate::registry::addr_fn()),
                    })
                    &&& forall|k: int|
                        0 <= k < out.len() ==> (#[trigger] out[k]).packet.deep_view()
                            == PacketV::FileStart {
                            id: id,
                            from: from@,
                            to: to.deep_view(),
                            filename: filename@,
                            total_chunks: total_chunks,
                            is_image: is_image,
                            timestamp: timestamp,
                        }
                }
            }))
}

/// What `handle_file_chunk` does: its exact contract, stated once here and
/// promised again, per packet, by the dispatcher.
pub open spec fn file_chunk_post(pre: ServerState, post: ServerState, addr: u64, id: u128, chunk_index: u32, data: Vec<u8>, out: Seq<Outgoing>) -> bool {
    &&& (post.registry == pre.registry)
    &&& (post.default_channel == pre.default_channel)
    &&& (post.store.accounts@ == pre.store.accounts@)
    &&& (post.store.channels@ == pre.store.channels@)
    &&& (post.store.chat_messages@ == pre.store.chat_messages@)
    &&& (post.store.private_messages@ == pre.store.private_messages@)
    &&& (post.store.reactions@ == pre.store.reactions@)
    &&& (({
                let go = pre.registry.has_addr(addr) && the_session(
                    pre.registry,
                    addr,
                ).is_authenticated;
                let ch = the_session(pre.registry, addr).current_channel@;
                &&& !go ==> out.len() == 0 && post.pending == pre.pending && post.store.file_messages@ == pre.store.file_messages@
                &&& go ==> {
                    &&& (forall|k: int|
                        0 <= k < pre.pending@.len() ==> (#[trigger] pre.pending@[k]).0 != id) ==> post.pending == pre.pending
                        && post.store.file_messages@ == pre.store.file_messages@
                        && out.len() == 0
                    &&& forall|k: int|
                        0 <= k < pre.pending@.len() && (#[trigger] pre.pending@[k]).0 == id ==> {
                            let pf = pre.pending@[k].1;
                            let accepted = chunk_index < pf.total_chunks && pf.chunks@[
                                chunk_index as int
                            ] is None;
                            let completes = accepted && pf.received_count + 1
                                == pf.total_chunks;
                            &&& (match pf.to {
                                Some(target) => {
                                    &&& (forall|i: int|
                                        0 <= i < pre.registry.sessions@.len() ==> (
                                        #[trigger] pre.registry.sessions@[i]).username@
                                            != target@) ==> out.len() == 0
                                    &&& out.len() <= 1
                                    &&& out.len() == 1 ==> exists|i: int|
                                        0 <= i < pre.registry.sessions@.len() && (
                                        #[trigger] pre.registry.sessions@[i]).username@
                                            == target@ && out[0].addr == pre.registry.sessions@[i].addr
                                    &&& (exists|i: int|
                                        0 <= i < pre.registry.sessions@.len() && (
                                        #[trigger] pre.registry.sessions@[i]).username@
                                            == target@) ==> out.len() == 1
                                },
                                None => out.map_values(|o: Outgoing| o.addr) == pre.registry.sessions@.filter(
                                    crate::registry::relay_pred(addr, ch),
                                ).map_values(crate::registry::addr_fn()),
                            })
                            &&& forall|m: int|
                                0 <= m < out.len() ==> (#[trigger] out[m]).packet.deep_view()
                                    == PacketV::FileChunk {
                                    id: id,
                                    chunk_index: chunk_index,
                                    data: data@,
                                }
                            &&& !accepted ==> post.pending@ == pre.pending@
                                && post.store.file_messages@ == pre.store.file_messages@
                            &&& (accepted && !completes) ==> {
                                &&& post.store.file_messages@ == pre.store.file_messages@
                                &&& post.pending@.len() == pre.pending@.len()
                                &&& forall|m: int|
                                    0 <= m < pre.pending@.len() && m != k ==> #[trigger]
                                        post.pending@[m] == pre.pending@[m]
                                &&& post.pending@[k].0 == id
                                &&& post.pending@[k].1.chunks@ == pf.chunks@.update(
                                    chunk_index as int,
                                    Some(data),
                                )
                                &&& post.pending@[k].1.received_count == pf.received_count
                                    + 1
                                &&& post.pending@[k].1.total_chunks == pf.total_chunks
                                &&& post.pending@[k].1.filename == pf.filename
                                &&& post.pending@[k].1.from == pf.from
                                &&& post.pending@[k].1.to == pf.to
                                &&& post.pending@[k].1.is_image == pf.is_image
                                &&& post.pending@[k].1.timestamp == pf.timestamp
                            }
                            &&& completes ==> {
                                &&& post.pending@ == pre.pending@.remove(k)
                                &&& post.store.file_messages@.len() == pre.store.file_messages@.len() + 1
                                &&& post.store.file_messages@.take(
                                    pre.store.file_messages@.len() as int,
                                ) == pre.store.file_messages@
                                &&& post.store.file_messages@.last().id == id
                                &&& post.store.file_messages@.last().sender@ == pf.from@
                                &&& post.store.file_messages@.last().channel@ == ch
                                &&& post.store.file_messages@.last().recipient.deep_view()
                                    == pf.to.deep_view()
                                &&& post.store.file_messages@.last().filename@
                                    == pf.filename@
                                &&& post.store.file_messages@.last().is_image
                                    == pf.is_image
                                &&& post.store.file_messages@.last().timestamp
                                    == pf.timestamp
                                &&& post.store.file_messages@.last().data@
                                    == crate::reassembly::assembled_bytes(
                                    pf.chunks@.update(chunk_index as int, Some(data)),
                                )
                            }
                        }
                }
            }))
}

/// What `handle_reaction` does: its exact contract, stated once here and
/// promised again, per packet, by the dispatcher.
pub open spec fn reaction_post(pre: ServerState, post: ServerState, addr: u64, msg_id: u128, from: String, emoji: String, out: Seq<Outgoing>) -> bool {
    &&& (post.registry == pre.registry)
    &&& (post.pending == pre.pending)
    &&& (post.default_channel == pre.default_channel)
    &&& (post.store.accounts@ == pre.store.accounts@)
    &&& (post.store.channels@ == pre.store.channels@)
    &&& (post.store.chat_messages@ == pre.store.chat_messages@)
    &&& (post.store.private_messages@ == pre.store.private_messages@)
    &&& (post.store.file_messages@ == pre.store.file_messages@)
    &&& (({
                let go = pre.registry.has_addr(addr) && the_session(
                    pre.registry,
                    addr,
                ).is_authenticated && the_session(pre.registry, addr).username@ == from@;
                &&& !go ==> out.len() == 0 && post.store.reactions@ == pre.store.reactions@
                &&& go ==> {
                    &&& post.store.reactions@.len() == pre.store.reactions@.len()
                        + 1
                    &&& post.store.reactions@.take(pre.store.reactions@.len() as int)
                        == pre.store.reactions@
                    &&& post.store.reactions@.last().msg_id == msg_id
                    &&& post.store.reactions@.last().username@ == from@
                    &&& post.store.reactions@.last().emoji@ == emoji@
                    &&& out.map_values(|o: Outgoing| o.addr) == pre.registry.sessions@.map_values(crate::registry::addr_fn())
                    &&& forall|k: int|
                        0 <= k < out.len() ==> (#[trigger] out[k]).packet.deep_view()
                            == PacketV::Reaction { msg_id: msg_id, from: from@, emoji: emoji@ }
                }
            }))
}

/// What `handle_request_chat_history` does: its exact contract, stated once here and
/// promised again, per packet, by the dispatcher.
pub open spec fn request_chat_history_post(st: ServerState, addr: u64, channel: String, out: Seq<Outgoing>) -> bool {
    &&& (({
                let go = st.registry.has_addr(addr) && the_session(
                    st.registry,
                    addr,
                ).is_authenticated;
                &&& !go ==> out.len() == 0
                &&& go ==> {
                    &&& out.len() == 1
                    &&& out[0].addr == addr
                    &&& match out[0].packet.deep_view() {
                        PacketV::ChatHistory(entries) => crate::history::is_history_reply(
                            entries,
                            crate::history::selected_channel_entries(st.store, channel@),
                            st.store,
                        ),
                        _ => false,
                    }
                }
            }))
}

/// What `handle_request_direct_history` does: its exact contract, stated once here and
/// promised again, per packet, by the dispatcher.
pub open spec fn request_direct_history_post(st: ServerState, addr: u64, target: String, out: Seq<Outgoing>) -> bool {
    &&& (({
                let go = st.registry.has_addr(addr) && the_session(
                    st.registry,
                    addr,
                ).is_authenticated;
                let me = the_session(st.registry, addr).username@;
                &&& !go ==> out.len() == 0
                &&& go ==> {
                    &&& out.len() == 1
                    &&& out[0].addr == addr
                    &&& match out[0].packet.deep_view() {
                        PacketV::DirectHistory(entries) => crate::history::is_history_reply(
                            entries,
                            crate::history::selected_direct_entries(st.store, me, target@),
                            st.store,
                        ),
                        _ => false,
                    }
                }
            }))
}


/// The dispatcher's per-packet promise: the state change and the packets
/// owed before any membership broadcast, exactly as the matching handler
/// states them. Packets that only a client consumes change nothing.
pub open spec fn dispatch_post(
    pre: ServerState,
    mid: ServerState,
    addr: u64,
    packet: NetworkPacket,
    now: u64,
    out: Seq<Outgoing>,
    changed: bool,
) -> bool {
    match packet {
        NetworkPacket::Handshake { username } => handshake_post(pre, mid, addr, username, now)
            && out.len() == 0 && changed,
        NetworkPacket::Register { username, password } => register_post(
            pre,
            mid,
            addr,
            username,
            password,
            out,
        ) && !changed,
        NetworkPacket::Login { username, password } => login_post(
            pre,
            mid,
            addr,
            username,
            password,
            now,
            out,
            changed,
        ),
        NetworkPacket::Audio { .. } => realtime_post(pre, mid, addr, packet, now, out)
            && !changed,
        NetworkPacket::TypingStatus { .. } => realtime_post(pre, mid, addr, packet, now, out)
            && !changed,
        NetworkPacket::ChatMessage { id, username, message, timestamp } => chat_post(
            pre,
            mid,
            addr,
            id,
            username,
            message,
            timestamp,
            now,
            out,
        ) && !changed,
        NetworkPacket::JoinChannel(name) => join_channel_post(pre, mid, addr, name, now, changed)
            && out.len() == 0,
        NetworkPacket::CreateChannel(name) => create_channel_post(pre, mid, addr, name, changed)
            && out.len() == 0,
        NetworkPacket::UsersUpdate(..) => mid == pre && out.len() == 0 && !changed,
        NetworkPacket::PrivateMessage { id, from, to, message, timestamp } => (
        private_message_post(pre, mid, addr, id, from, to, message, timestamp, out) && !changed),
        NetworkPacket::FileStart { id, from, to, filename, total_chunks, is_image, timestamp } => (
        file_start_post(
            pre,
            mid,
            addr,
            id,
            from,
            to,
            filename,
            total_chunks,
            is_image,
            timestamp,
            out,
        ) && !changed),
        NetworkPacket::FileChunk { id, chunk_index, data } => file_chunk_post(
            pre,
            mid,
            addr,
            id,
            chunk_index,
            data,
            out,
        ) && !changed,
        NetworkPacket::FileMessage { .. } => mid == pre && out.len() == 0 && !changed,
        NetworkPacket::Reaction { msg_id, from, emoji } => reaction_post(
            pre,
            mid,
            addr,
            msg_id,
            from,
            emoji,
            out,
        ) && !changed,
        NetworkPacket::RequestChatHistory { channel } => mid == pre && request_chat_history_post(
            pre,
            addr,
            channel,
            out,
        ) && !changed,
        NetworkPacket::ChatHistory(..) => mid == pre && out.len() == 0 && !changed,
        NetworkPacket::RequestDirectHistory { target } => mid == pre
            && request_direct_history_post(pre, addr, target, out) && !changed,
        NetworkPacket::DirectHistory(..) => mid == pre && out.len() == 0 && !changed,
        NetworkPacket::AdminAction { target, action } => admin_post(
            pre,
            mid,
            addr,
            target,
            action,
            changed,
        ) && out.len() == 0,
        NetworkPacket::RequestProfile(name) => mid == pre && request_profile_post(
            pre,
            addr,
            name,
            out,
        ) && !changed,
        NetworkPacket::ProfileUpdate { username: _, avatar_url, bio } => profile_update_post(
            pre,
            mid,
            addr,
            avatar_url,
            bio,
            out,
        ) && !changed,
        NetworkPacket::UpdateProfile { status, nick_color } => update_presentation_post(
            pre,
            mid,
            addr,
            status,
            nick_color,
            changed,
        ) && out.len() == 0,
        NetworkPacket::AuthResponse { .. } => mid == pre && out.len() == 0 && !changed,
        NetworkPacket::Ping => ping_post(pre, mid, addr, now) && out.len() == 0 && !changed,
    }
}

/// When a broadcast is owed — membership changed or the sweep removed a
/// session — the output is the handler's packets followed by exactly one
/// fresh snapshot of the resulting state per connected session, addressed
/// to that session; when none is owed, the handler's packets alone.
pub open spec fn broadcast_tail(
    out: Seq<Outgoing>,
    handled: Seq<Outgoing>,
    owed: bool,
    post: ServerState,
) -> bool {
    if owed {
        &&& out.len() == handled.len() + post.registry.sessions@.len()
        &&& out.take(handled.len() as int) == handled
        &&& forall|m: int|
            0 <= m < post.registry.sessions@.len() ==> (#[trigger] out[handled.len() + m]).addr
                == post.registry.sessions@[m].addr && out[handled.len() + m].packet.deep_view()
                == PacketV::UsersUpdate(
                snapshot_of(post.registry.sessions@, post.store.channels@),
            )
    } else {
        out == handled
    }
}

/// What a membership broadcast can never hold: a banned (or unregistered)
/// account's user. A well-formed server authenticates no banned account,
/// and only authenticated sessions reach a snapshot.
pub proof fn lemma_membership_never_banned(state: ServerState, ch: Seq<char>, info: UserInfoV)
    requires
        state.wf(),
        crate::registry::members_of(state.registry.sessions@, ch).contains(info),
    ensures
        ok_account(state.store, info.username),
{
    crate::registry::lemma_membership_exact(state.registry.sessions@, ch, info);
    let k = choose|k: int|
        0 <= k < state.registry.sessions@.len() && (#[trigger] state.registry.sessions@[k])
            .is_authenticated && state.registry.sessions@[k].current_channel@ == ch
            && crate::registry::member_info(state.registry.sessions@[k]) == info;
    assert(state.registry.sessions@.contains(state.registry.sessions@[k]));
}

/// A by-value copy of an audio or typing packet for one more recipient.
fn clone_realtime(p: &NetworkPacket) -> (r: NetworkPacket)
    requires
        *p is Audio || *p is TypingStatus,
    ensures
        r.deep_view() == p.deep_view(),
{
    match p {
        NetworkPacket::Audio { username, data } => {
            let r = NetworkPacket::Audio { username: username.clone(), data: copy_words(data) };
            proof {
                assert(r.deep_view() =~= p.deep_view());
            }
            r
        },
        NetworkPacket::TypingStatus { username, is_typing } => NetworkPacket::TypingStatus {
            username: username.clone(),
            is_typing: *is_typing,
        },
        _ => NetworkPacket::Ping,
    }
}

/// A by-value copy of an optional username.
fn clone_opt_name(src: &Option<String>) -> (r: Option<String>)
    ensures
        r == *src,
{
    match src {
        Option::Some(s) => Option::Some(s.clone()),
        Option::None => Option::None,
    }
}

/// A by-value copy of a frame of sample words.
fn copy_words(src: &Vec<u32>) -> (r: Vec<u32>)
    ensures
        r@ == src@,
{
    let mut out: Vec<u32> = Vec::new();
    let mut i: usize = 0;
    while i < src.len()
        invariant
            i <= src@.len(),
            out@ == src@.take(i as int),
        decreases src@.len() - i,
    {
        out.push(src[i]);
        i += 1;
        proof {
            assert(src@.take(i as int) =~= src@.take(i - 1).push(src@[i - 1]));
        }
    }
    proof {
        assert(src@.take(src@.len() as int) =~= src@);
    }
    out
}

/// An owned copy of a message literal.
fn owned(s: &str) -> (r: String)
    ensures
        r@ == s@,
{
    s.to_owned()
}

} // verus!
