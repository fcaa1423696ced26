//! The authoritative map of connected peers: per-session identity, channel
//! membership, role, mute state and liveness, and the membership snapshot
//! broadcast on every state change.
use vstd::prelude::*;

use crate::packet::{ChannelMembers, ChannelMembersV, Role, UserInfo, UserInfoV};
use crate::seq_facts::{lemma_filter_all, lemma_filter_push, lemma_filter_remove_one, lemma_filter_sub};
use crate::LIVENESS_WINDOW_MS;

verus! {

/// Server-side transient record of one connected peer, keyed by the peer's
/// transport address.
pub struct Session {
    pub addr: u64,
    pub username: String,
    pub current_channel: String,
    pub last_seen: u64,
    pub is_authenticated: bool,
    pub role: Role,
    pub is_muted: bool,
    pub status: String,
    pub nick_color: String,
}

/// How one session appears in a membership snapshot.
pub open spec fn member_info(s: Session) -> UserInfoV {
    UserInfoV {
        username: s.username@,
        role: s.role,
        is_muted: s.is_muted,
        status: s.status@,
        nick_color: s.nick_color@,
    }
}

pub open spec fn member_info_fn() -> spec_fn(Session) -> UserInfoV {
    |s: Session| member_info(s)
}

/// Selects the sessions a channel broadcast lists: authenticated and
/// currently in that channel. An unauthenticated session never appears.
pub open spec fn in_channel_pred(ch: Seq<char>) -> spec_fn(Session) -> bool {
    |s: Session| s.is_authenticated && s.current_channel@ == ch
}

/// The members a snapshot lists for one channel.
pub open spec fn members_of(sessions: Seq<Session>, ch: Seq<char>) -> Seq<UserInfoV> {
    sessions.filter(in_channel_pred(ch)).map_values(member_info_fn())
}

/// Whether a session still counts as live at time `now`.
pub open spec fn session_live(s: Session, now: u64) -> bool {
    s.last_seen > now || now - s.last_seen < LIVENESS_WINDOW_MS
}

pub open spec fn live_pred(now: u64) -> spec_fn(Session) -> bool {
    |s: Session| session_live(s, now)
}

/// Keeps the sessions of every user but the named one.
pub open spec fn keep_other_users_pred(name: Seq<char>) -> spec_fn(Session) -> bool {
    |s: Session| s.username@ != name
}

/// The authoritative set of connected peers.
pub struct Registry {
    pub sessions: Vec<Session>,
}

impl Registry {
    /// Transport addresses are unique keys.
    pub open spec fn wf(self) -> bool {
        forall|i: int, j: int|
            0 <= i < j < self.sessions@.len() ==> #[trigger] self.sessions@[i].addr != #[trigger]
                self.sessions@[j].addr
    }

    pub open spec fn has_addr(self, addr: u64) -> bool {
        exists|i: int| 0 <= i < self.sessions@.len() && #[trigger] self.sessions@[i].addr == addr
    }

    pub fn new() -> (r: Registry)
        ensures
            r.wf(),
            r.sessions@.len() == 0,
    {
        Registry { sessions: Vec::new() }
    }

    /// The index of the session keyed by an address, if any.
    pub fn find_session(&self, addr: u64) -> (r: Option<usize>)
        ensures
            match r {
                Some(i) => i < self.sessions@.len() && self.sessions@[i as int].addr == addr,
                None => !self.has_addr(addr),
            },
    {
        let mut i: usize = 0;
        while i < self.sessions.len()
            invariant
                i <= self.sessions@.len(),
                forall|j: int| 0 <= j < i ==> #[trigger] self.sessions@[j].addr != addr,
            decreases self.sessions@.len() - i,
        {
            if self.sessions[i].addr == addr {
                return Some(i);
            }
            i += 1;
        }
        None
    }

    /// The address of the first session authenticated or claimed under a
    /// username, for direct delivery; `None` when the user is offline.
    pub fn addr_of_user(&self, name: &String) -> (r: Option<u64>)
        ensures
            match r {
                Some(addr) => exists|i: int|
                    0 <= i < self.sessions@.len() && #[trigger] self.sessions@[i].username@
                        == name@ && self.sessions@[i].addr == addr,
                None => forall|i: int|
                    0 <= i < self.sessions@.len() ==> #[trigger] self.sessions@[i].username@
                        != name@,
            },
    {
        let mut i: usize = 0;
        while i < self.sessions.len()
            invariant
                i <= self.sessions@.len(),
                forall|j: int| 0 <= j < i ==> #[trigger] self.sessions@[j].username@ != name@,
            decreases self.sessions@.len() - i,
        {
            if self.sessions[i].username == *name {
                return Some(self.sessions[i].addr);
            }
            i += 1;
        }
        None
    }

    /// Opens (or reopens, unauthenticated) the session of an address: the
    /// claimed username, the default starting channel, fresh liveness, no
    /// privileges.
    pub fn handshake(&mut self, addr: u64, username: String, default_channel: String, now: u64)
        requires
            old(self).wf(),
        ensures
            final(self).wf(),
            final(self).sessions@.len() <= old(self).sessions@.len() + 1,
            // Every other session is kept, in order; the handshaken address
            // holds exactly one fresh unauthenticated session.
            final(self).sessions@.filter(keep_addr_pred(addr)) == old(self).sessions@.filter(
                keep_addr_pred(addr),
            ),
            final(self).sessions@.last() == (Session {
                addr: addr,
                username: username,
                current_channel: default_channel,
                last_seen: now,
                is_authenticated: false,
                role: Role::User,
                is_muted: false,
                status: final(self).sessions@.last().status,
                nick_color: final(self).sessions@.last().nick_color,
            }),
            final(self).sessions@.last().status@ == Seq::<char>::empty(),
            final(self).sessions@.last().nick_color@ == "#FFFFFF"@,
            final(self).sessions@ == final(self).sessions@.filter(keep_addr_pred(addr)).push(
                final(self).sessions@.last(),
            ),
    {
        self.remove_addr(addr);
        let session = Session {
            addr,
            username,
            current_channel: default_channel,
            last_seen: now,
            is_authenticated: false,
            role: Role::User,
            is_muted: false,
            status: String::new(),
            nick_color: hash_white(),
        };
        let ghost kept = self.sessions@;
        self.sessions.push(session);
        proof {
            let fs = self.sessions@;
            assert(fs.drop_last() =~= kept);
            assert forall|j: int| 0 <= j < kept.len() implies keep_addr_pred(addr)(
                #[trigger] kept[j],
            ) by {
                assert(kept[j].addr != addr);
            }
            lemma_filter_push(kept, fs.last(), keep_addr_pred(addr));
            lemma_filter_all(kept, keep_addr_pred(addr));
            assert(fs.filter(keep_addr_pred(addr)) == kept);
            assert forall|a: int, b: int| 0 <= a < b < fs.len() implies #[trigger] fs[a].addr
                != #[trigger] fs[b].addr by {
                if b == fs.len() - 1 {
                    assert(fs[a] == kept[a]);
                    assert(kept[a].addr != addr);
                } else {
                    assert(fs[a] == kept[a]);
                    assert(fs[b] == kept[b]);
                }
            }
            assert(fs =~= fs.filter(keep_addr_pred(addr)).push(fs.last()));
        }
    }

    /// Removes the session of an address, if present; every other session
    /// is kept in order.
    fn remove_addr(&mut self, addr: u64) -> (removed: bool)
        requires
            old(self).wf(),
        ensures
            final(self).wf(),
            final(self).sessions@ == old(self).sessions@.filter(keep_addr_pred(addr)),
            removed == old(self).has_addr(addr),
            !final(self).has_addr(addr),
    {
        match self.find_session(addr) {
            Some(i) => {
                self.sessions.remove(i);
                proof {
                    let pre = old(self).sessions@;
                    let fs = self.sessions@;
                    assert forall|j: int, k: int|
                        0 <= j < k < fs.len() implies #[trigger] fs[j].addr != #[trigger] fs[
                        k
                    ].addr by {
                        let j0: int = if j < i {
                            j
                        } else {
                            j + 1
                        };
                        let k0: int = if k < i {
                            k
                        } else {
                            k + 1
                        };
                        assert(fs[j] == pre[j0]);
                        assert(fs[k] == pre[k0]);
                    }
                    assert forall|j: int| 0 <= j < pre.len() && j != i implies pre[j].addr
                        != addr by {
                        if j < i {
                            assert(pre[j].addr != pre[i as int].addr);
                        } else {
                            assert(pre[i as int].addr != pre[j].addr);
                        }
                    }
                    lemma_filter_remove_one(pre, i as int, keep_addr_pred(addr));
                    assert forall|j: int| 0 <= j < fs.len() implies #[trigger] fs[j].addr
                        != addr by {
                        let j0: int = if j < i {
                            j
                        } else {
                            j + 1
                        };
                        assert(fs[j] == pre[j0]);
                    }
                }
                true
            },
            None => {
                proof {
                    lemma_filter_all(self.sessions@, keep_addr_pred(addr));
                }
                false
            },
        }
    }

    /// Marks the session of an address authenticated, stamping it with the
    /// account's identity, role and presentation; refreshes liveness. An
    /// unknown address changes nothing.
    pub fn authenticate(
        &mut self,
        addr: u64,
        username: String,
        role: Role,
        status: String,
        nick_color: String,
        now: u64,
    )
        requires
            old(self).wf(),
        ensures
            final(self).wf(),
            final(self).sessions@.len() == old(self).sessions@.len(),
            forall|i: int|
                0 <= i < old(self).sessions@.len() ==> #[trigger] final(self).sessions@[i]
                    == (if old(self).sessions@[i].addr == addr {
                    Session {
                        username: username,
                        last_seen: now,
                        is_authenticated: true,
                        role: role,
                        status: status,
                        nick_color: nick_color,
                        ..old(self).sessions@[i]
                    }
                } else {
                    old(self).sessions@[i]
                }),
    {
        match self.find_session(addr) {
            Some(i) => {
                let mut session = self.sessions.remove(i);
                session.username = username;
                session.last_seen = now;
                session.is_authenticated = true;
                session.role = role;
                session.status = status;
                session.nick_color = nick_color;
                self.sessions.insert(i, session);
                proof {
                    assert(final(self).sessions@ =~= old(self).sessions@.update(
                        i as int,
                        Session {
                            username: username,
                            last_seen: now,
                            is_authenticated: true,
                            role: role,
                            status: status,
                            nick_color: nick_color,
                            ..old(self).sessions@[i as int]
                        },
                    ));
                }
            },
            None => {},
        }
    }

    /// Moves the session of an address into a channel and refreshes its
    /// liveness. An unknown address changes nothing.
    pub fn join_channel(&mut self, addr: u64, channel: String, now: u64)
        requires
            old(self).wf(),
        ensures
            final(self).wf(),
            final(self).sessions@.len() == old(self).sessions@.len(),
            forall|i: int|
                0 <= i < old(self).sessions@.len() ==> #[trigger] final(self).sessions@[i]
                    == (if old(self).sessions@[i].addr == addr {
                    Session {
                        current_channel: channel,
                        last_seen: now,
                        ..old(self).sessions@[i]
                    }
                } else {
                    old(self).sessions@[i]
                }),
    {
        match self.find_session(addr) {
            Some(i) => {
                let mut session = self.sessions.remove(i);
                session.current_channel = channel;
                session.last_seen = now;
                self.sessions.insert(i, session);
                proof {
                    assert(final(self).sessions@ =~= old(self).sessions@.update(
                        i as int,
                        Session {
                            current_channel: channel,
                            last_seen: now,
                            ..old(self).sessions@[i as int]
                        },
                    ));
                }
            },
            None => {},
        }
    }

    /// Refreshes the liveness stamp of an address.
    pub fn touch(&mut self, addr: u64, now: u64)
        requires
            old(self).wf(),
        ensures
            final(self).wf(),
            final(self).sessions@.len() == old(self).sessions@.len(),
            forall|i: int|
                0 <= i < old(self).sessions@.len() ==> #[trigger] final(self).sessions@[i]
                    == (if old(self).sessions@[i].addr == addr {
                    Session { last_seen: now, ..old(self).sessions@[i] }
                } else {
                    old(self).sessions@[i]
                }),
    {
        match self.find_session(addr) {
            Some(i) => {
                let mut session = self.sessions.remove(i);
                session.last_seen = now;
                self.sessions.insert(i, session);
                proof {
                    assert(final(self).sessions@ =~= old(self).sessions@.update(
                        i as int,
                        Session { last_seen: now, ..old(self).sessions@[i as int] },
                    ));
                }
            },
            None => {},
        }
    }

    /// Updates the stored presentation of the session of an address.
    pub fn set_presentation(&mut self, addr: u64, status: String, nick_color: String)
        requires
            old(self).wf(),
        ensures
            final(self).wf(),
            final(self).sessions@.len() == old(self).sessions@.len(),
            forall|i: int|
                0 <= i < old(self).sessions@.len() ==> #[trigger] final(self).sessions@[i]
                    == (if old(self).sessions@[i].addr == addr {
                    Session {
                        status: status,
                        nick_color: nick_color,
                        ..old(self).sessions@[i]
                    }
                } else {
                    old(self).sessions@[i]
                }),
    {
        match self.find_session(addr) {
            Some(i) => {
                let mut session = self.sessions.remove(i);
                session.status = status;
                session.nick_color = nick_color;
                self.sessions.insert(i, session);
                proof {
                    assert(final(self).sessions@ =~= old(self).sessions@.update(
                        i as int,
                        Session {
                            status: status,
                            nick_color: nick_color,
                            ..old(self).sessions@[i as int]
                        },
                    ));
                }
            },
            None => {},
        }
    }

    /// Flips the live mute flag of every session of the named user; the
    /// user stays connected and visible in membership.
    pub fn set_muted_by_name(&mut self, target: &String, muted: bool)
        requires
            old(self).wf(),
        ensures
            final(self).wf(),
            final(self).sessions@.len() == old(self).sessions@.len(),
            forall|i: int|
                0 <= i < old(self).sessions@.len() ==> #[trigger] final(self).sessions@[i]
                    == (if old(self).sessions@[i].username@ == target@ {
                    Session { is_muted: muted, ..old(self).sessions@[i] }
                } else {
                    old(self).sessions@[i]
                }),
    {
        let mut i: usize = 0;
        while i < self.sessions.len()
            invariant
                i <= self.sessions@.len(),
                self.sessions@.len() == old(self).sessions@.len(),
                forall|j: int|
                    0 <= j < old(self).sessions@.len() ==> #[trigger] self.sessions@[j] == (if j
                        < i && old(self).sessions@[j].username@ == target@ {
                        Session { is_muted: muted, ..old(self).sessions@[j] }
                    } else {
                        old(self).sessions@[j]
                    }),
            decreases self.sessions@.len() - i,
        {
            if self.sessions[i].username == *target {
                let mut session = self.sessions.remove(i);
                session.is_muted = muted;
                self.sessions.insert(i, session);
            }
            i += 1;
        }
        proof {
            let fs = self.sessions@;
            assert forall|i0: int, j0: int| 0 <= i0 < j0 < fs.len() implies #[trigger] fs[
                i0
            ].addr != #[trigger] fs[j0].addr by {
                assert(fs[i0].addr == old(self).sessions@[i0].addr);
                assert(fs[j0].addr == old(self).sessions@[j0].addr);
            }
        }
    }

    /// Removes every session of the named user (a kick or a ban); everyone
    /// else is kept in order.
    pub fn remove_by_name(&mut self, target: &String)
        requires
            old(self).wf(),
        ensures
            final(self).wf(),
            final(self).sessions@ == old(self).sessions@.filter(keep_other_users_pred(target@)),
    {
        let mut out: Vec<Session> = Vec::new();
        let mut i: usize = 0;
        while i < self.sessions.len()
            invariant
                i <= self.sessions@.len(),
                self.sessions@ == old(self).sessions@,
                out@ == old(self).sessions@.take(i as int).filter(
                    keep_other_users_pred(target@),
                ),
            decreases self.sessions@.len() - i,
        {
            let ghost pre = self.sessions@.take(i as int);
            proof {
                assert(self.sessions@.take(i + 1) =~= pre.push(self.sessions@[i as int]));
                lemma_filter_push(pre, self.sessions@[i as int], keep_other_users_pred(
                    target@,
                ));
            }
            if !(self.sessions[i].username == *target) {
                let s = clone_session(&self.sessions[i]);
                out.push(s);
            }
            i += 1;
        }
        proof {
            assert(self.sessions@.take(self.sessions@.len() as int) =~= self.sessions@);
        }
        self.sessions = out;
        proof {
            let kept = old(self).sessions@.filter(keep_other_users_pred(target@));
            old(self).sessions@.filter_lemma(keep_other_users_pred(target@));
            assert forall|i0: int, j0: int| 0 <= i0 < j0 < kept.len() implies #[trigger]
                kept[i0].addr != #[trigger] kept[j0].addr by {
                lemma_filter_distinct_addrs(old(self).sessions@, keep_other_users_pred(target@),
                    i0, j0);
            }
        }
    }

    /// Purges every session idle past the liveness window; reports whether
    /// anything was removed, so the caller can broadcast once.
    pub fn purge_idle(&mut self, now: u64) -> (purged: bool)
        requires
            old(self).wf(),
        ensures
            final(self).wf(),
            final(self).sessions@ == old(self).sessions@.filter(live_pred(now)),
            purged == (final(self).sessions@.len() != old(self).sessions@.len()),
    {
        let before = self.sessions.len();
        let mut out: Vec<Session> = Vec::new();
        let mut i: usize = 0;
        while i < self.sessions.len()
            invariant
                i <= self.sessions@.len(),
                self.sessions@ == old(self).sessions@,
                out@ == old(self).sessions@.take(i as int).filter(live_pred(now)),
            decreases self.sessions@.len() - i,
        {
            let ghost pre = self.sessions@.take(i as int);
            proof {
                assert(self.sessions@.take(i + 1) =~= pre.push(self.sessions@[i as int]));
                lemma_filter_push(pre, self.sessions@[i as int], live_pred(now));
            }
            let s = &self.sessions[i];
            let live = s.last_seen > now || now - s.last_seen < LIVENESS_WINDOW_MS;
            if live {
                let s = clone_session(&self.sessions[i]);
                out.push(s);
            }
            i += 1;
        }
        proof {
            assert(self.sessions@.take(self.sessions@.len() as int) =~= self.sessions@);
        }
        self.sessions = out;
        proof {
            let kept = old(self).sessions@.filter(live_pred(now));
            assert forall|i0: int, j0: int| 0 <= i0 < j0 < kept.len() implies #[trigger]
                kept[i0].addr != #[trigger] kept[j0].addr by {
                lemma_filter_distinct_addrs(old(self).sessions@, live_pred(now), i0, j0);
            }
        }
        self.sessions.len() != before
    }

    /// The addresses a channel-scoped relay fans out to: every *other*
    /// authenticated session in the same channel, in session order.
    pub fn channel_peers(&self, sender: u64, channel: &String) -> (r: Vec<u64>)
        ensures
            r@ == self.sessions@.filter(relay_pred(sender, channel@)).map_values(addr_fn()),
    {
        let mut out: Vec<u64> = Vec::new();
        let mut i: usize = 0;
        while i < self.sessions.len()
            invariant
                i <= self.sessions@.len(),
                out@ == self.sessions@.take(i as int).filter(
                    relay_pred(sender, channel@),
                ).map_values(addr_fn()),
            decreases self.sessions@.len() - i,
        {
            let ghost pre = self.sessions@.take(i as int);
            proof {
                assert(self.sessions@.take(i + 1) =~= pre.push(self.sessions@[i as int]));
                lemma_filter_push(pre, self.sessions@[i as int], relay_pred(sender,
                    channel@));
            }
            let s = &self.sessions[i];
            if s.addr != sender && s.is_authenticated && s.current_channel == *channel {
                out.push(s.addr);
                proof {
                    assert(pre.filter(relay_pred(sender, channel@)).push(
                        self.sessions@[i as int],
                    ).map_values(addr_fn()) =~= pre.filter(relay_pred(sender, channel@)).map_values(
                        addr_fn(),
                    ).push(self.sessions@[i as int].addr));
                }
            }
            i += 1;
        }
        proof {
            assert(self.sessions@.take(self.sessions@.len() as int) =~= self.sessions@);
        }
        out
    }

    /// The addresses a cross-channel relay fans out to: every *other*
    /// authenticated session, in session order.
    pub fn authenticated_peers(&self, sender: u64) -> (r: Vec<u64>)
        ensures
            r@ == self.sessions@.filter(auth_peer_pred(sender)).map_values(addr_fn()),
    {
        let mut out: Vec<u64> = Vec::new();
        let mut i: usize = 0;
        while i < self.sessions.len()
            invariant
                i <= self.sessions@.len(),
                out@ == self.sessions@.take(i as int).filter(auth_peer_pred(sender)).map_values(
                    addr_fn(),
                ),
            decreases self.sessions@.len() - i,
        {
            let ghost pre = self.sessions@.take(i as int);
            proof {
                assert(self.sessions@.take(i + 1) =~= pre.push(self.sessions@[i as int]));
                lemma_filter_push(pre, self.sessions@[i as int], auth_peer_pred(sender));
            }
            let s = &self.sessions[i];
            if s.addr != sender && s.is_authenticated {
                out.push(s.addr);
                proof {
                    assert(pre.filter(auth_peer_pred(sender)).push(
                        self.sessions@[i as int],
                    ).map_values(addr_fn()) =~= pre.filter(auth_peer_pred(sender)).map_values(
                        addr_fn(),
                    ).push(self.sessions@[i as int].addr));
                }
            }
            i += 1;
        }
        proof {
            assert(self.sessions@.take(self.sessions@.len() as int) =~= self.sessions@);
        }
        out
    }

    /// The addresses of every connected session, in session order.
    pub fn all_addrs(&self) -> (r: Vec<u64>)
        ensures
            r@ == self.sessions@.map_values(addr_fn()),
    {
        let mut out: Vec<u64> = Vec::new();
        let mut i: usize = 0;
        while i < self.sessions.len()
            invariant
                i <= self.sessions@.len(),
                out@ == self.sessions@.take(i as int).map_values(addr_fn()),
            decreases self.sessions@.len() - i,
        {
            out.push(self.sessions[i].addr);
            i += 1;
            proof {
                assert(self.sessions@.take(i as int).map_values(addr_fn())
                    =~= self.sessions@.take(i - 1).map_values(addr_fn()).push(
                    self.sessions@[i - 1].addr,
                ));
            }
        }
        proof {
            assert(self.sessions@.take(self.sessions@.len() as int) =~= self.sessions@);
        }
        out
    }

    /// The full membership snapshot: for every durable channel, the
    /// authenticated sessions whose current channel matches, projected to
    /// their public attributes.
    pub fn snapshot(&self, channels: &Vec<String>) -> (r: Vec<ChannelMembers>)
        ensures
            r.deep_view() == snapshot_of(self.sessions@, channels@),
    {
        let mut out: Vec<ChannelMembers> = Vec::new();
        let mut i: usize = 0;
        while i < channels.len()
            invariant
                i <= channels@.len(),
                out.deep_view() == snapshot_of(self.sessions@, channels@.take(i as int)),
            decreases channels@.len() - i,
        {
            let members = self.members_in(&channels[i]);
            let ghost pre_out = out.deep_view();
            out.push(ChannelMembers { channel: channels[i].clone(), members });
            proof {
                assert(out.deep_view() =~= pre_out.push(
                    ChannelMembersV {
                        channel: channels@[i as int]@,
                        members: members_of(self.sessions@, channels@[i as int]@),
                    },
                ));
                assert(snapshot_of(self.sessions@, channels@.take(i + 1)) =~= snapshot_of(
                    self.sessions@,
                    channels@.take(i as int),
                ).push(
                    ChannelMembersV {
                        channel: channels@[i as int]@,
                        members: members_of(self.sessions@, channels@[i as int]@),
                    },
                ));
            }
            i += 1;
        }
        proof {
            assert(channels@.take(channels@.len() as int) =~= channels@);
        }
        out
    }

    /// The snapshot members of one channel.
    fn members_in(&self, channel: &String) -> (r: Vec<UserInfo>)
        ensures
            r.deep_view() == members_of(self.sessions@, channel@),
    {
        let mut out: Vec<UserInfo> = Vec::new();
        let mut i: usize = 0;
        while i < self.sessions.len()
            invariant
                i <= self.sessions@.len(),
                out.deep_view() == self.sessions@.take(i as int).filter(
                    in_channel_pred(channel@),
                ).map_values(member_info_fn()),
            decreases self.sessions@.len() - i,
        {
            let ghost pre = self.sessions@.take(i as int);
            proof {
                assert(self.sessions@.take(i + 1) =~= pre.push(self.sessions@[i as int]));
                lemma_filter_push(pre, self.sessions@[i as int], in_channel_pred(
                    channel@,
                ));
            }
            let s = &self.sessions[i];
            if s.is_authenticated && s.current_channel == *channel {
                let ghost pre_out = out.deep_view();
                out.push(
                    UserInfo {
                        username: s.username.clone(),
                        role: s.role,
                        is_muted: s.is_muted,
                        status: s.status.clone(),
                        nick_color: s.nick_color.clone(),
                    },
                );
                proof {
                    assert(out.deep_view() =~= pre_out.push(
                        member_info(self.sessions@[i as int]),
                    ));
                    assert(pre.filter(in_channel_pred(channel@)).push(
                        self.sessions@[i as int],
                    ).map_values(member_info_fn()) =~= pre.filter(
                        in_channel_pred(channel@),
                    ).map_values(member_info_fn()).push(member_info(self.sessions@[i as int])));
                }
            }
            i += 1;
        }
        proof {
            assert(self.sessions@.take(self.sessions@.len() as int) =~= self.sessions@);
        }
        out
    }
}

/// Keeps every session not keyed by the given address.
pub open spec fn keep_addr_pred(addr: u64) -> spec_fn(Session) -> bool {
    |s: Session| s.addr != addr
}

/// Selects the recipients of a channel-scoped relay from one sender.
pub open spec fn relay_pred(sender: u64, ch: Seq<char>) -> spec_fn(Session) -> bool {
    |s: Session| s.addr != sender && s.is_authenticated && s.current_channel@ == ch
}

/// Selects the recipients of a cross-channel relay from one sender.
pub open spec fn auth_peer_pred(sender: u64) -> spec_fn(Session) -> bool {
    |s: Session| s.addr != sender && s.is_authenticated
}

pub open spec fn addr_fn() -> spec_fn(Session) -> u64 {
    |s: Session| s.addr
}

/// The full membership snapshot over a channel list.
pub open spec fn snapshot_of(sessions: Seq<Session>, channels: Seq<String>) -> Seq<
    ChannelMembersV,
> {
    channels.map_values(
        |c: String| ChannelMembersV { channel: c@, members: members_of(sessions, c@) },
    )
}

/// A by-value copy of a session record.
fn clone_session(s: &Session) -> (r: Session)
    ensures
        r == *s,
{
    Session {
        addr: s.addr,
        username: s.username.clone(),
        current_channel: s.current_channel.clone(),
        last_seen: s.last_seen,
        is_authenticated: s.is_authenticated,
        role: s.role,
        is_muted: s.is_muted,
        status: s.status.clone(),
        nick_color: s.nick_color.clone(),
    }
}

/// The stock white nickname color of a fresh session.
fn hash_white() -> (r: String)
    ensures
        r@ == "#FFFFFF"@,
{
    let s = "#FFFFFF";
    s.to_owned()
}

/// Two distinct positions of a filtered session list come from distinct
/// positions of the original, so their addresses differ whenever the
/// original's do.
proof fn lemma_filter_distinct_addrs(
    s: Seq<Session>,
    pred: spec_fn(Session) -> bool,
    i: int,
    j: int,
)
    requires
        forall|a: int, b: int|
            0 <= a < b < s.len() ==> #[trigger] s[a].addr != #[trigger] s[b].addr,
        0 <= i < j < s.filter(pred).len(),
    ensures
        s.filter(pred)[i].addr != s.filter(pred)[j].addr,
    decreases s.len(),
{
    reveal(Seq::filter);
    let f = s.filter(pred);
    if s.len() > 0 {
        let d = s.drop_last();
        assert forall|a: int, b: int| 0 <= a < b < d.len() implies #[trigger] d[a].addr
            != #[trigger] d[b].addr by {
            assert(d[a] == s[a]);
            assert(d[b] == s[b]);
        }
        if pred(s.last()) {
            if j < f.len() - 1 {
                lemma_filter_distinct_addrs(d, pred, i, j);
            } else {
                // f[j] is s.last(); f[i] is an element of d that passed the
                // filter, hence an earlier element of s.
                lemma_filter_sub(d, pred);
                assert(f[i] == d.filter(pred)[i]);
                assert(d.contains(d.filter(pred)[i]));
                let k = choose|k: int| 0 <= k < d.len() && d[k] == d.filter(pred)[i];
                assert(s[k] == f[i]);
                assert(s[k].addr != s[s.len() - 1].addr);
            }
        } else {
            lemma_filter_distinct_addrs(d, pred, i, j);
        }
    }
}

/// The index of the session keyed by an address; meaningful under `wf`
/// whenever `has_addr` holds.
pub open spec fn session_index(reg: Registry, addr: u64) -> int {
    choose|i: int| 0 <= i < reg.sessions@.len() && #[trigger] reg.sessions@[i].addr == addr
}

/// The session keyed by an address.
pub open spec fn the_session(reg: Registry, addr: u64) -> Session {
    reg.sessions@[session_index(reg, addr)]
}

/// Under unique addresses, any position holding the address holds the
/// session of that address.
pub proof fn lemma_the_session(reg: Registry, addr: u64, i: int)
    requires
        reg.wf(),
        0 <= i < reg.sessions@.len(),
        reg.sessions@[i].addr == addr,
    ensures
        session_index(reg, addr) == i,
        the_session(reg, addr) == reg.sessions@[i],
{
    assert(reg.has_addr(addr));
    let j = session_index(reg, addr);
    if i != j {
        if i < j {
            assert(reg.sessions@[i].addr != reg.sessions@[j].addr);
        } else {
            assert(reg.sessions@[j].addr != reg.sessions@[i].addr);
        }
    }
}

/// Muting or unmuting a user never changes who is visible in membership:
/// after the flag flip `set_muted_by_name` performs, every channel lists
/// the same users, in the same order, with the same role and presentation —
/// only the mute flag itself may differ.
pub proof fn lemma_mute_keeps_membership(
    pre: Seq<Session>,
    post: Seq<Session>,
    target: Seq<char>,
    muted: bool,
    ch: Seq<char>,
)
    requires
        post.len() == pre.len(),
        forall|i: int|
            0 <= i < pre.len() ==> #[trigger] post[i] == (if pre[i].username@ == target {
                Session { is_muted: muted, ..pre[i] }
            } else {
                pre[i]
            }),
    ensures
        members_of(post, ch).len() == members_of(pre, ch).len(),
        forall|k: int|
            0 <= k < members_of(pre, ch).len() ==> (#[trigger] members_of(post, ch)[k]).username
                == members_of(pre, ch)[k].username && members_of(post, ch)[k].role == members_of(
                pre,
                ch,
            )[k].role && members_of(post, ch)[k].status == members_of(pre, ch)[k].status
                && members_of(post, ch)[k].nick_color == members_of(pre, ch)[k].nick_color,
    decreases pre.len(),
{
    reveal(Seq::filter);
    if pre.len() == 0 {
        assert(pre.filter(in_channel_pred(ch)) =~= Seq::<Session>::empty());
        assert(post.filter(in_channel_pred(ch)) =~= Seq::<Session>::empty());
    } else {
        let pd = pre.drop_last();
        let qd = post.drop_last();
        assert forall|i: int| 0 <= i < pd.len() implies #[trigger] qd[i] == (if pd[i].username@
            == target {
            Session { is_muted: muted, ..pd[i] }
        } else {
            pd[i]
        }) by {
            assert(qd[i] == post[i]);
            assert(pd[i] == pre[i]);
        }
        lemma_mute_keeps_membership(pd, qd, target, muted, ch);
        assert(post.last() == post[pre.len() - 1]);
        assert(pre.last() == pre[pre.len() - 1]);
        let keep = in_channel_pred(ch)(pre.last());
        assert(in_channel_pred(ch)(post.last()) == keep);
        let mp = pd.filter(in_channel_pred(ch)).map_values(member_info_fn());
        let mq = qd.filter(in_channel_pred(ch)).map_values(member_info_fn());
        if keep {
            assert(members_of(pre, ch) =~= mp.push(member_info(pre.last())));
            assert(members_of(post, ch) =~= mq.push(member_info(post.last())));
        } else {
            assert(members_of(pre, ch) =~= mp);
            assert(members_of(post, ch) =~= mq);
        }
    }
}

/// Exactly the authenticated sessions whose channel matches appear in a
/// membership broadcast, each projected to its public attributes; an
/// unauthenticated session never appears.
pub proof fn lemma_membership_exact(sessions: Seq<Session>, ch: Seq<char>, info: UserInfoV)
    ensures
        members_of(sessions, ch).contains(info) <==> exists|k: int|
            0 <= k < sessions.len() && (#[trigger] sessions[k]).is_authenticated
                && sessions[k].current_channel@ == ch && member_info(sessions[k]) == info,
{
    let filtered = sessions.filter(in_channel_pred(ch));
    #[allow(deprecated)]
    sessions.filter_lemma(in_channel_pred(ch));
    lemma_filter_sub(sessions, in_channel_pred(ch));
    let mapped = filtered.map_values(member_info_fn());
    if members_of(sessions, ch).contains(info) {
        let m = choose|m: int| 0 <= m < mapped.len() && mapped[m] == info;
        assert(sessions.contains(filtered[m]));
        let k = choose|k: int| 0 <= k < sessions.len() && sessions[k] == filtered[m];
        assert(sessions[k].is_authenticated && sessions[k].current_channel@ == ch);
        assert(member_info(sessions[k]) == info);
    }
    if exists|k: int|
        0 <= k < sessions.len() && (#[trigger] sessions[k]).is_authenticated
            && sessions[k].current_channel@ == ch && member_info(sessions[k]) == info {
        let k = choose|k: int|
            0 <= k < sessions.len() && (#[trigger] sessions[k]).is_authenticated
                && sessions[k].current_channel@ == ch && member_info(sessions[k]) == info;
        assert(in_channel_pred(ch)(sessions[k]));
        assert(sessions.contains(sessions[k]));
        assert(filtered.contains(sessions[k]));
        let m = choose|m: int| 0 <= m < filtered.len() && filtered[m] == sessions[k];
        assert(mapped[m] == info);
        assert(mapped.contains(info));
    }
}

} // verus!
