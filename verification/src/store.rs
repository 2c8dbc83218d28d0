//! The model of the durable store: users, chats with their memberships,
//! and the append-only message log. Every mutation keeps the store's
//! well-formedness invariant: identifiers are unique and below their
//! counters, usernames are unique, a direct chat has exactly two
//! distinct participants, and persisted timestamps never decrease.

use vstd::prelude::*;
use crate::errors::AppError;
use crate::models::{
    ChatId, ChatType, ChatView, CreateUser, MessageId, MessageView, User, UserId, UserView, FileId,
};

verus! {

/// The durable state of the core. Messages are kept in persistence
/// order: the order in which the store committed them, which is also
/// non-decreasing timestamp order.
pub struct Store {
    pub users: Vec<User>,
    pub chats: Vec<crate::models::Chat>,
    pub messages: Vec<crate::models::Message>,
    pub next_user_id: UserId,
    pub next_chat_id: ChatId,
    pub next_message_id: MessageId,
    pub next_file_id: FileId,
    pub last_timestamp: i64,
}

#[verifier::ext_equal]
pub ghost struct StoreView {
    pub users: Seq<UserView>,
    pub chats: Seq<ChatView>,
    pub messages: Seq<MessageView>,
    pub next_user_id: UserId,
    pub next_chat_id: ChatId,
    pub next_message_id: MessageId,
    pub next_file_id: FileId,
    pub last_timestamp: i64,
}

impl View for Store {
    type V = StoreView;

    open spec fn view(&self) -> StoreView {
        StoreView {
            users: self.users@.map_values(|u: User| u@),
            chats: self.chats@.map_values(|c: crate::models::Chat| c@),
            messages: self.messages@.map_values(|m: crate::models::Message| m@),
            next_user_id: self.next_user_id,
            next_chat_id: self.next_chat_id,
            next_message_id: self.next_message_id,
            next_file_id: self.next_file_id,
            last_timestamp: self.last_timestamp,
        }
    }
}

/// A chat record is consistent: its membership rows point back at it,
/// no user is a member twice, and a direct chat has exactly two
/// distinct participants.
pub open spec fn chat_wf(c: ChatView) -> bool {
    &&& forall|k: int|
        0 <= k < c.participants.len() ==> (#[trigger] c.participants[k]).chat_id == c.id
    &&& forall|a: int, b: int|
        0 <= a < b < c.participants.len() ==> c.participants[a].user_id
            != c.participants[b].user_id
    &&& c.chat_type == ChatType::Direct ==> c.participants.len() == 2
}

/// A persisted message is consistent with the store's counters and
/// clock: its identifiers were allocated below the counters and its
/// timestamp never exceeds the newest stamp handed out.
pub open spec fn message_wf(
    m: MessageView,
    next_message_id: MessageId,
    next_file_id: FileId,
    last_timestamp: i64,
) -> bool {
    &&& 1 <= m.id < next_message_id
    &&& m.timestamp <= last_timestamp
    &&& forall|k: int| 0 <= k < m.files.len() ==> 1 <= (#[trigger] m.files[k]).id < next_file_id
}

impl StoreView {
    /// The store's invariant; every constructor establishes it and every
    /// mutation preserves it.
    pub open spec fn wf(self) -> bool {
        &&& 1 <= self.next_user_id
        &&& 1 <= self.next_chat_id
        &&& 1 <= self.next_message_id
        &&& 1 <= self.next_file_id
        &&& 0 <= self.last_timestamp
        &&& forall|i: int|
            0 <= i < self.users.len() ==> 1 <= (#[trigger] self.users[i]).id < self.next_user_id
        &&& forall|i: int, j: int|
            0 <= i < j < self.users.len() ==> self.users[i].id != self.users[j].id
                && self.users[i].username != self.users[j].username
        &&& forall|i: int|
            0 <= i < self.chats.len() ==> 1 <= (#[trigger] self.chats[i]).id < self.next_chat_id
        &&& forall|i: int, j: int|
            0 <= i < j < self.chats.len() ==> self.chats[i].id != self.chats[j].id
        &&& forall|i: int| 0 <= i < self.chats.len() ==> chat_wf(#[trigger] self.chats[i])
        &&& forall|i: int|
            0 <= i < self.chats.len() ==> (#[trigger] self.chats[i]).created_at
                <= self.last_timestamp
        &&& forall|i: int, j: int|
            0 <= i <= j < self.chats.len() ==> self.chats[i].created_at
                <= self.chats[j].created_at
        &&& forall|i: int|
            0 <= i < self.messages.len() ==> message_wf(
                #[trigger] self.messages[i],
                self.next_message_id,
                self.next_file_id,
                self.last_timestamp,
            )
        &&& forall|i: int, j: int|
            0 <= i < j < self.messages.len() ==> self.messages[i].id < self.messages[j].id
        &&& forall|i: int, j: int|
            0 <= i <= j < self.messages.len() ==> self.messages[i].timestamp
                <= self.messages[j].timestamp
    }

    pub open spec fn has_chat(self, chat_id: ChatId) -> bool {
        exists|i: int| 0 <= i < self.chats.len() && self.chats[i].id == chat_id
    }

    /// The position of the chat with `chat_id`; meaningful only when
    /// `has_chat` holds (well-formedness makes it unique).
    pub open spec fn chat_index(self, chat_id: ChatId) -> int {
        choose|i: int| 0 <= i < self.chats.len() && self.chats[i].id == chat_id
    }

    pub open spec fn chat_at(self, chat_id: ChatId) -> ChatView {
        self.chats[self.chat_index(chat_id)]
    }

    /// Committed membership: whether `user_id` is currently a
    /// participant of `chat_id`.
    pub open spec fn is_participant(self, chat_id: ChatId, user_id: UserId) -> bool {
        self.has_chat(chat_id) && self.chat_at(chat_id).has_member(user_id)
    }

    pub open spec fn has_user(self, user_id: UserId) -> bool {
        exists|i: int| 0 <= i < self.users.len() && self.users[i].id == user_id
    }

    pub open spec fn user_index(self, user_id: UserId) -> int {
        choose|i: int| 0 <= i < self.users.len() && self.users[i].id == user_id
    }

    pub open spec fn user_at(self, user_id: UserId) -> UserView {
        self.users[self.user_index(user_id)]
    }

    pub open spec fn has_user_named(self, name: Seq<char>) -> bool {
        exists|i: int| 0 <= i < self.users.len() && self.users[i].username == name
    }

    pub open spec fn user_named_index(self, name: Seq<char>) -> int {
        choose|i: int| 0 <= i < self.users.len() && self.users[i].username == name
    }

    pub open spec fn user_named(self, name: Seq<char>) -> UserView {
        self.users[self.user_named_index(name)]
    }

    /// The persisted history of one chat, in persistence order.
    pub open spec fn messages_in(self, chat_id: ChatId) -> Seq<MessageView> {
        self.messages.filter(|m: MessageView| m.chat_id == chat_id)
    }
}

impl Store {
    /// An empty store: no users, chats or messages; counters start at 1.
    pub fn new() -> (r: Store)
        ensures
            r@.wf(),
            r@.users.len() == 0,
            r@.chats.len() == 0,
            r@.messages.len() == 0,
            r@.last_timestamp == 0,
    {
        Store {
            users: Vec::new(),
            chats: Vec::new(),
            messages: Vec::new(),
            next_user_id: 1,
            next_chat_id: 1,
            next_message_id: 1,
            next_file_id: 1,
            last_timestamp: 0,
        }
    }

    /// Finds the position of the chat with `chat_id`, if it exists.
    #[verifier::loop_isolation(false)]
    pub fn find_chat_index(&self, chat_id: ChatId) -> (r: Option<usize>)
        requires
            self@.wf(),
        ensures
            match r {
                Option::Some(i) => self@.has_chat(chat_id) && i == self@.chat_index(chat_id) && i
                    < self@.chats.len() && self@.chats[i as int].id == chat_id,
                Option::None => !self@.has_chat(chat_id),
            },
    {
        let n = self.chats.len();
        let mut k: usize = 0;
        while k < n
            invariant
                k <= n,
                forall|i: int| 0 <= i < k ==> self@.chats[i].id != chat_id,
            decreases n - k,
        {
            if self.chats[k].id == chat_id {
                proof {
                    assert(self@.has_chat(chat_id));
                    let ci = self@.chat_index(chat_id);
                    assert(0 <= ci < self@.chats.len() && self@.chats[ci].id == chat_id);
                    if ci != k {
                        assert(self@.chats[ci].id != self@.chats[k as int].id);
                        assert(false);
                    }
                }
                return Some(k);
            }
            k = k + 1;
        }
        None
    }

    /// The authorization read of the pipeline: whether `user_id` has a
    /// committed membership row in `chat_id` right now.
    #[verifier::loop_isolation(false)]
    pub fn is_participant(&self, chat_id: ChatId, user_id: UserId) -> (r: bool)
        requires
            self@.wf(),
        ensures
            r == self@.is_participant(chat_id, user_id),
    {
        let ci = match self.find_chat_index(chat_id) {
            Option::Some(i) => i,
            Option::None => {
                return false;
            },
        };
        let n = self.chats[ci].participants.len();
        let mut k: usize = 0;
        while k < n
            invariant
                ci < self@.chats.len(),
                n == self@.chats[ci as int].participants.len(),
                k <= n,
                forall|i: int|
                    0 <= i < k ==> self@.chats[ci as int].participants[i].user_id != user_id,
            decreases n - k,
        {
            if self.chats[ci].participants[k].user_id == user_id {
                proof {
                    assert(self@.chat_at(chat_id).has_member(user_id));
                }
                return true;
            }
            k = k + 1;
        }
        proof {
            assert(!self@.chat_at(chat_id).has_member(user_id));
        }
        false
    }

    /// Looks a user up by identity.
    #[verifier::loop_isolation(false)]
    pub fn user_by_id(&self, user_id: UserId) -> (r: Option<&User>)
        requires
            self@.wf(),
        ensures
            match r {
                Option::Some(u) => self@.has_user(user_id) && u@ == self@.user_at(user_id),
                Option::None => !self@.has_user(user_id),
            },
    {
        let n = self.users.len();
        let mut k: usize = 0;
        while k < n
            invariant
                k <= n,
                forall|i: int| 0 <= i < k ==> self@.users[i].id != user_id,
            decreases n - k,
        {
            if self.users[k].id == user_id {
                proof {
                    assert(self@.has_user(user_id));
                    let ui = self@.user_index(user_id);
                    assert(0 <= ui < self@.users.len() && self@.users[ui].id == user_id);
                    if ui != k {
                        assert(self@.users[ui].id != self@.users[k as int].id);
                        assert(false);
                    }
                }
                return Some(&self.users[k]);
            }
            k = k + 1;
        }
        None
    }

    /// Looks a user up by username.
    #[verifier::loop_isolation(false)]
    pub fn user_by_username(&self, name: &String) -> (r: Option<&User>)
        requires
            self@.wf(),
        ensures
            match r {
                Option::Some(u) => self@.has_user_named(name@) && u@ == self@.user_named(name@),
                Option::None => !self@.has_user_named(name@),
            },
    {
        let n = self.users.len();
        let mut k: usize = 0;
        while k < n
            invariant
                k <= n,
                forall|i: int| 0 <= i < k ==> self@.users[i].username != name@,
            decreases n - k,
        {
            if self.users[k].username == *name {
                proof {
                    assert(self@.has_user_named(name@));
                    let ui = self@.user_named_index(name@);
                    assert(0 <= ui < self@.users.len() && self@.users[ui].username == name@);
                    if ui != k {
                        assert(self@.users[ui].username != self@.users[k as int].username);
                        assert(false);
                    }
                }
                return Some(&self.users[k]);
            }
            k = k + 1;
        }
        None
    }

    /// The login flow's store half: an existing username is returned as
    /// is, an unknown one registers a new user with a fresh identity.
    /// Only a user-identifier counter with no room left is refused.
    pub fn login_or_register(&mut self, req: &CreateUser) -> (r: Result<User, AppError>)
        requires
            old(self)@.wf(),
        ensures
            final(self)@.wf(),
            old(self)@.has_user_named(req.username@) ==> r is Ok && final(self)@ == old(self)@ && r->Ok_0@
                == old(self)@.user_named(req.username@),
            !old(self)@.has_user_named(req.username@) && old(self)@.next_user_id == i64::MAX ==> r
                == Err::<User, AppError>(AppError::StorageError) && final(self)@ == old(self)@,
            !old(self)@.has_user_named(req.username@) && old(self)@.next_user_id < i64::MAX ==> {
                &&& r is Ok
                &&& r->Ok_0@ == (UserView {
                    id: old(self)@.next_user_id,
                    username: req.username@,
                    image_id: Option::None,
                })
                &&& final(self)@.users == old(self)@.users.push(r->Ok_0@)
                &&& final(self)@.next_user_id == old(self)@.next_user_id + 1
                &&& final(self)@.chats == old(self)@.chats
                &&& final(self)@.messages == old(self)@.messages
                &&& final(self)@.next_chat_id == old(self)@.next_chat_id
                &&& final(self)@.next_message_id == old(self)@.next_message_id
                &&& final(self)@.next_file_id == old(self)@.next_file_id
                &&& final(self)@.last_timestamp == old(self)@.last_timestamp
            },
    {
        let ghost pre = self@;
        match self.user_by_username(&req.username) {
            Option::Some(u) => {
                let found = u.clone();
                return Ok(found);
            },
            Option::None => {},
        }
        if self.next_user_id == i64::MAX {
            return Err(AppError::StorageError);
        }
        let user = User { id: self.next_user_id, username: req.username.clone(), image_id: None };
        let result = user.clone();
        self.users.push(user);
        self.next_user_id = self.next_user_id + 1;
        proof {
            assert(self@.users =~~= pre.users.push(
                UserView { id: pre.next_user_id, username: req.username@, image_id: Option::None },
            ));
            assert(self@.chats =~~= pre.chats);
            assert(self@.messages =~~= pre.messages);
            assert forall|i: int, j: int|
                0 <= i < j < self@.users.len() implies self@.users[i].id != self@.users[j].id
                && self@.users[i].username != self@.users[j].username by {
                if j < pre.users.len() {
                    assert(pre.users[i].id != pre.users[j].id && pre.users[i].username
                        != pre.users[j].username);
                } else {
                    assert(self@.users[i] == pre.users[i]);
                    assert(pre.users[i].id < pre.next_user_id);
                    assert(pre.users[i].username != req.username@);
                }
            }
        }
        Ok(result)
    }
}

/// Whether `needle` occurs in `hay` as a contiguous run of characters;
/// the empty sequence occurs in everything.
pub open spec fn contains_substring(hay: Seq<char>, needle: Seq<char>) -> bool {
    exists|i: int|
        0 <= i <= hay.len() - needle.len() && #[trigger] hay.subrange(i, i + needle.len() as int)
            == needle
}

/// Relies on str::contains with a string pattern: true exactly when the
/// pattern occurs as a contiguous substring of the haystack.
#[verifier::external_body]
fn str_contains(hay: &str, needle: &str) -> (r: bool)
    ensures
        r == contains_substring(hay@, needle@),
{
    hay.contains(needle)
}

impl Store {
    /// Looks a user up by identity for the profile read; an unknown
    /// identity is reported as not found.
    pub fn get_user(&self, user_id: UserId) -> (r: Result<User, AppError>)
        requires
            self@.wf(),
        ensures
            r is Ok <==> self@.has_user(user_id),
            r is Ok ==> r->Ok_0@ == self@.user_at(user_id),
            r is Err ==> r == Err::<User, AppError>(AppError::NotFoundError),
    {
        match self.user_by_id(user_id) {
            Option::Some(u) => Ok(u.clone()),
            Option::None => Err(AppError::NotFoundError),
        }
    }

    /// The user search: with a query, every user whose username contains
    /// it as a substring, in registration order; without one, every
    /// user.
    #[verifier::loop_isolation(false)]
    pub fn search_users(&self, username: Option<&String>) -> (r: Vec<User>)
        requires
            self@.wf(),
        ensures
            match username {
                Option::Some(p) => r@.map_values(|u: User| u@) == self@.users.filter(
                    |u: UserView| contains_substring(u.username, p@),
                ),
                Option::None => r@.map_values(|u: User| u@) == self@.users,
            },
    {
        let n = self.users.len();
        let mut out: Vec<User> = Vec::new();
        match username {
            Option::Some(p) => {
                let ghost pred = |u: UserView| contains_substring(u.username, p@);
                let mut k: usize = 0;
                while k < n
                    invariant
                        n == self@.users.len(),
                        k <= n,
                        out@.map_values(|u: User| u@) == self@.users.subrange(0, k as int).filter(
                            pred,
                        ),
                    decreases n - k,
                {
                    let ghost prefix = self@.users.subrange(0, k as int);
                    let ghost next_prefix = self@.users.subrange(0, k + 1);
                    proof {
                        reveal_with_fuel(Seq::<_>::filter, 2);
                        assert(next_prefix.drop_last() =~= prefix);
                        assert(next_prefix.last() == self@.users[k as int]);
                    }
                    if str_contains(self.users[k].username.as_str(), p.as_str()) {
                        out.push(self.users[k].clone());
                    }
                    proof {
                        reveal_with_fuel(Seq::<_>::filter, 2);
                        assert(out@.map_values(|u: User| u@) =~= next_prefix.filter(pred));
                    }
                    k = k + 1;
                }
                proof {
                    assert(self@.users.subrange(0, n as int) =~= self@.users);
                }
            },
            Option::None => {
                let mut k: usize = 0;
                while k < n
                    invariant
                        n == self@.users.len(),
                        k <= n,
                        out@.len() == k,
                        forall|i: int| 0 <= i < k ==> (#[trigger] out@[i])@ == self@.users[i],
                    decreases n - k,
                {
                    out.push(self.users[k].clone());
                    k = k + 1;
                }
                proof {
                    assert(out@.map_values(|u: User| u@) =~= self@.users);
                }
            },
        }
        out
    }
}

} // verus!
