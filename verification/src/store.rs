//! The durable side of the relay: accounts, channels, chat, direct and file
//! messages, and reactions, modeled as append-only logical tables.
use vstd::prelude::*;

use crate::packet::Role;

verus! {

/// A registered identity. Never deleted; a ban only flags it.
pub struct Account {
    pub username: String,
    pub password_hash: String,
    pub role: Role,
    pub is_banned: bool,
    pub status: String,
    pub nick_color: String,
    pub avatar_url: String,
    pub bio: String,
}

/// The public part of an account another user may ask for.
#[derive(Clone, PartialEq, Debug)]
pub struct UserProfile {
    pub username: String,
    pub avatar_url: String,
    pub bio: String,
}

/// One persisted channel chat message.
pub struct ChatRecord {
    pub id: u128,
    pub username: String,
    pub channel: String,
    pub message: Vec<u8>,
    pub timestamp: u64,
}

/// One persisted direct message.
pub struct PrivateRecord {
    pub id: u128,
    pub sender: String,
    pub recipient: String,
    pub message: Vec<u8>,
    pub timestamp: u64,
}

/// One persisted, fully reassembled file message.
pub struct FileRecord {
    pub id: u128,
    pub sender: String,
    pub channel: String,
    pub recipient: Option<String>,
    pub filename: String,
    pub data: Vec<u8>,
    pub is_image: bool,
    pub timestamp: u64,
}

/// One reaction aimed at an earlier message id.
pub struct ReactionRecord {
    pub msg_id: u128,
    pub username: String,
    pub emoji: String,
}

/// The durable record of the server: every logical table it persists.
pub struct Store {
    pub accounts: Vec<Account>,
    pub channels: Vec<String>,
    pub chat_messages: Vec<ChatRecord>,
    pub private_messages: Vec<PrivateRecord>,
    pub file_messages: Vec<FileRecord>,
    pub reactions: Vec<ReactionRecord>,
}

impl Store {
    /// Account usernames and channel names are unique keys.
    pub open spec fn wf(self) -> bool {
        &&& forall|i: int, j: int|
            0 <= i < j < self.accounts@.len() ==> #[trigger] self.accounts@[i].username@
                != #[trigger] self.accounts@[j].username@
        &&& forall|i: int, j: int|
            0 <= i < j < self.channels@.len() ==> #[trigger] self.channels@[i]@
                != #[trigger] self.channels@[j]@
    }

    pub open spec fn has_account(self, name: Seq<char>) -> bool {
        exists|i: int| 0 <= i < self.accounts@.len() && #[trigger] self.accounts@[i].username@
            == name
    }

    pub open spec fn spec_has_channel(self, name: Seq<char>) -> bool {
        exists|i: int| 0 <= i < self.channels@.len() && #[trigger] self.channels@[i]@ == name
    }

    /// The role the next registration receives: the very first account ever
    /// created is the admin, every later one a plain user.
    pub open spec fn next_role(self) -> Role {
        if self.accounts@.len() == 0 {
            Role::Admin
        } else {
            Role::User
        }
    }

    pub fn new() -> (r: Store)
        ensures
            r.wf(),
            r.accounts@.len() == 0,
            r.channels@.len() == 0,
            r.chat_messages@.len() == 0,
            r.private_messages@.len() == 0,
            r.file_messages@.len() == 0,
            r.reactions@.len() == 0,
    {
        Store {
            accounts: Vec::new(),
            channels: Vec::new(),
            chat_messages: Vec::new(),
            private_messages: Vec::new(),
            file_messages: Vec::new(),
            reactions: Vec::new(),
        }
    }

    /// The index of the account registered under `name`, if any.
    pub fn find_account(&self, name: &String) -> (r: Option<usize>)
        ensures
            match r {
                Some(i) => i < self.accounts@.len() && self.accounts@[i as int].username@
                    == name@,
                None => !self.has_account(name@),
            },
    {
        let mut i: usize = 0;
        while i < self.accounts.len()
            invariant
                i <= self.accounts@.len(),
                forall|j: int| 0 <= j < i ==> #[trigger] self.accounts@[j].username@ != name@,
            decreases self.accounts@.len() - i,
        {
            if self.accounts[i].username == *name {
                return Some(i);
            }
            i += 1;
        }
        None
    }

    /// Creates an account under a fresh username; the first account ever is
    /// the admin. A duplicate username changes nothing and is refused.
    pub fn register(&mut self, username: String, password_hash: String) -> (success: bool)
        requires
            old(self).wf(),
        ensures
            final(self).wf(),
            success == !old(self).has_account(username@),
            success ==> {
                &&& final(self).accounts@.len() == old(self).accounts@.len() + 1
                &&& final(self).accounts@.take(old(self).accounts@.len() as int) == old(
                    self,
                ).accounts@
                &&& final(self).accounts@.last() == (Account {
                    username: username,
                    password_hash: password_hash,
                    role: old(self).next_role(),
                    is_banned: false,
                    status: final(self).accounts@.last().status,
                    nick_color: final(self).accounts@.last().nick_color,
                    avatar_url: final(self).accounts@.last().avatar_url,
                    bio: final(self).accounts@.last().bio,
                })
                &&& final(self).accounts@.last().status@ == Seq::<char>::empty()
                &&& final(self).accounts@.last().nick_color@ == "#FFFFFF"@
                &&& final(self).accounts@.last().avatar_url@ == Seq::<char>::empty()
                &&& final(self).accounts@.last().bio@ == Seq::<char>::empty()
            },
            !success ==> final(self).accounts@ == old(self).accounts@,
            final(self).channels@ == old(self).channels@,
            final(self).chat_messages@ == old(self).chat_messages@,
            final(self).private_messages@ == old(self).private_messages@,
            final(self).file_messages@ == old(self).file_messages@,
            final(self).reactions@ == old(self).reactions@,
    {
        if let Some(_) = self.find_account(&username) {
            return false;
        }
        let role = if self.accounts.len() == 0 {
            Role::Admin
        } else {
            Role::User
        };
        let white = "#FFFFFF";
        let account = Account {
            username,
            password_hash,
            role,
            is_banned: false,
            status: String::new(),
            nick_color: white.to_owned(),
            avatar_url: String::new(),
            bio: String::new(),
        };
        self.accounts.push(account);
        true
    }

    /// Durably flags the named account banned; anything else is untouched.
    pub fn set_banned(&mut self, username: &String)
        requires
            old(self).wf(),
        ensures
            final(self).wf(),
            final(self).accounts@.len() == old(self).accounts@.len(),
            forall|i: int|
                0 <= i < old(self).accounts@.len() ==> #[trigger] final(self).accounts@[i]
                    == (if old(self).accounts@[i].username@ == username@ {
                    Account { is_banned: true, ..old(self).accounts@[i] }
                } else {
                    old(self).accounts@[i]
                }),
            final(self).channels@ == old(self).channels@,
            final(self).chat_messages@ == old(self).chat_messages@,
            final(self).private_messages@ == old(self).private_messages@,
            final(self).file_messages@ == old(self).file_messages@,
            final(self).reactions@ == old(self).reactions@,
    {
        match self.find_account(username) {
            Some(i) => {
                let mut account = self.accounts.remove(i);
                account.is_banned = true;
                self.accounts.insert(i, account);
                proof {
                    assert(final(self).accounts@ =~= old(self).accounts@.update(
                        i as int,
                        Account { is_banned: true, ..old(self).accounts@[i as int] },
                    ));
                }
            },
            None => {},
        }
    }

    /// Stores the presentation attributes a profile update carries.
    pub fn set_presentation(&mut self, username: &String, status: String, nick_color: String)
        requires
            old(self).wf(),
        ensures
            final(self).wf(),
            final(self).accounts@.len() == old(self).accounts@.len(),
            forall|i: int|
                0 <= i < old(self).accounts@.len() ==> #[trigger] final(self).accounts@[i]
                    == (if old(self).accounts@[i].username@ == username@ {
                    Account {
                        status: status,
                        nick_color: nick_color,
                        ..old(self).accounts@[i]
                    }
                } else {
                    old(self).accounts@[i]
                }),
            final(self).channels@ == old(self).channels@,
            final(self).chat_messages@ == old(self).chat_messages@,
            final(self).private_messages@ == old(self).private_messages@,
            final(self).file_messages@ == old(self).file_messages@,
            final(self).reactions@ == old(self).reactions@,
    {
        match self.find_account(username) {
            Some(i) => {
                let mut account = self.accounts.remove(i);
                account.status = status;
                account.nick_color = nick_color;
                self.accounts.insert(i, account);
                proof {
                    assert(final(self).accounts@ =~= old(self).accounts@.update(
                        i as int,
                        Account {
                            status: status,
                            nick_color: nick_color,
                            ..old(self).accounts@[i as int]
                        },
                    ));
                }
            },
            None => {},
        }
    }

    /// Stores the avatar and bio of a profile update.
    pub fn set_profile(&mut self, username: &String, avatar_url: String, bio: String)
        requires
            old(self).wf(),
        ensures
            final(self).wf(),
            final(self).accounts@.len() == old(self).accounts@.len(),
            forall|i: int|
                0 <= i < old(self).accounts@.len() ==> #[trigger] final(self).accounts@[i]
                    == (if old(self).accounts@[i].username@ == username@ {
                    Account { avatar_url: avatar_url, bio: bio, ..old(self).accounts@[i] }
                } else {
                    old(self).accounts@[i]
                }),
            final(self).channels@ == old(self).channels@,
            final(self).chat_messages@ == old(self).chat_messages@,
            final(self).private_messages@ == old(self).private_messages@,
            final(self).file_messages@ == old(self).file_messages@,
            final(self).reactions@ == old(self).reactions@,
    {
        match self.find_account(username) {
            Some(i) => {
                let mut account = self.accounts.remove(i);
                account.avatar_url = avatar_url;
                account.bio = bio;
                self.accounts.insert(i, account);
                proof {
                    assert(final(self).accounts@ =~= old(self).accounts@.update(
                        i as int,
                        Account {
                            avatar_url: avatar_url,
                            bio: bio,
                            ..old(self).accounts@[i as int]
                        },
                    ));
                }
            },
            None => {},
        }
    }

    /// The avatar and bio registered under a username; both empty when the
    /// user is unknown, as a profile request must never fail.
    pub fn profile_of(&self, username: &String) -> (r: UserProfile)
        ensures
            r.username@ == username@,
            self.has_account(username@) ==> exists|i: int|
                0 <= i < self.accounts@.len() && #[trigger] self.accounts@[i].username@
                    == username@ && r.avatar_url@ == self.accounts@[i].avatar_url@ && r.bio@
                    == self.accounts@[i].bio@,
            !self.has_account(username@) ==> r.avatar_url@ == Seq::<char>::empty() && r.bio@
                == Seq::<char>::empty(),
    {
        match self.find_account(username) {
            Some(i) => UserProfile {
                username: username.clone(),
                avatar_url: self.accounts[i].avatar_url.clone(),
                bio: self.accounts[i].bio.clone(),
            },
            None => UserProfile {
                username: username.clone(),
                avatar_url: String::new(),
                bio: String::new(),
            },
        }
    }

    pub fn has_channel(&self, name: &String) -> (r: bool)
        ensures
            r == self.spec_has_channel(name@),
    {
        let mut i: usize = 0;
        while i < self.channels.len()
            invariant
                i <= self.channels@.len(),
                forall|j: int| 0 <= j < i ==> #[trigger] self.channels@[j]@ != name@,
            decreases self.channels@.len() - i,
        {
            if self.channels[i] == *name {
                return true;
            }
            i += 1;
        }
        false
    }

    /// Idempotently adds a durable channel; reports whether it is new.
    pub fn create_channel(&mut self, name: String) -> (created: bool)
        requires
            old(self).wf(),
        ensures
            final(self).wf(),
            created == !old(self).spec_has_channel(name@),
            created ==> final(self).channels@ == old(self).channels@.push(name),
            !created ==> final(self).channels@ == old(self).channels@,
            final(self).accounts@ == old(self).accounts@,
            final(self).chat_messages@ == old(self).chat_messages@,
            final(self).private_messages@ == old(self).private_messages@,
            final(self).file_messages@ == old(self).file_messages@,
            final(self).reactions@ == old(self).reactions@,
    {
        if self.has_channel(&name) {
            return false;
        }
        self.channels.push(name);
        true
    }
}

/// The index of the account registered under a name; meaningful under `wf`
/// whenever `has_account` holds.
pub open spec fn account_index(st: Store, name: Seq<char>) -> int {
    choose|i: int| 0 <= i < st.accounts@.len() && #[trigger] st.accounts@[i].username@ == name
}

/// The account registered under a name.
pub open spec fn account_of(st: Store, name: Seq<char>) -> Account {
    st.accounts@[account_index(st, name)]
}

/// Under unique usernames, any position holding the name holds the account
/// of that name.
pub proof fn lemma_the_account(st: Store, name: Seq<char>, i: int)
    requires
        st.wf(),
        0 <= i < st.accounts@.len(),
        st.accounts@[i].username@ == name,
    ensures
        account_index(st, name) == i,
        account_of(st, name) == st.accounts@[i],
{
    assert(st.has_account(name));
    let j = account_index(st, name);
    if i != j {
        if i < j {
            assert(st.accounts@[i].username@ != st.accounts@[j].username@);
        } else {
            assert(st.accounts@[j].username@ != st.accounts@[i].username@);
        }
    }
}

} // verus!
