//! The chat resolver: idempotently finds or creates the canonical direct
//! chat between two users. The lookup is read-only; only a miss opens a
//! creation, which installs the chat and both membership rows at once.
//! In this sequential model the lookup and the creation cannot
//! interleave, so at most one direct chat ever exists per unordered
//! pair.

use vstd::prelude::*;
use crate::errors::AppError;
use crate::models::{
    AuthenticatedUser, Chat, ChatParticipant, ChatStatus, ChatType, ChatView, ChatId,
    InitiateChat, InitiateDirectChatResponse, UserId,
};
use crate::store::{chat_wf, Store, StoreView};

verus! {

/// Whether `c` is a direct chat whose membership covers both `a` and
/// `b`; for distinct users of a well-formed store this pins the chat's
/// participant set to exactly the pair.
pub open spec fn direct_pair(c: ChatView, a: UserId, b: UserId) -> bool {
    c.chat_type == ChatType::Direct && c.has_member(a) && c.has_member(b)
}

impl StoreView {
    /// Whether some direct chat between `a` and `b` is on record.
    pub open spec fn has_direct_chat(self, a: UserId, b: UserId) -> bool {
        exists|i: int| 0 <= i < self.chats.len() && direct_pair(self.chats[i], a, b)
    }
}

/// The timestamp the store assigns next, given the wall clock `now`:
/// never behind the newest stamp already handed out, so stamps never
/// decrease.
pub open spec fn stamp_of(now: i64, last: i64) -> i64 {
    if now > last {
        now
    } else {
        last
    }
}

/// The chat record a creation for `(a, b)` installs.
pub open spec fn new_direct_chat(id: ChatId, a: UserId, b: UserId, stamp: i64) -> ChatView {
    ChatView {
        id: id,
        name: Option::None,
        chat_type: ChatType::Direct,
        created_at: stamp,
        participants: seq![
            ChatParticipant { chat_id: id, user_id: a, joined_at: stamp },
            ChatParticipant { chat_id: id, user_id: b, joined_at: stamp },
        ],
    }
}

/// Resolves the canonical direct chat between the authenticated caller
/// and the user named in the request: an existing chat is reported
/// `Exists` and nothing changes; otherwise one is created and reported
/// `Created`. An unknown target is refused, and so is a chat with
/// oneself, which could never satisfy the two-distinct-participants
/// invariant of a direct chat.
#[verifier::loop_isolation(false)]
pub fn initiate_direct_chat(
    store: &mut Store,
    auth: &AuthenticatedUser,
    req: &InitiateChat,
    now: i64,
) -> (r: Result<InitiateDirectChatResponse, AppError>)
    requires
        old(store)@.wf(),
        now >= 0,
    ensures
        final(store)@.wf(),
        !old(store)@.has_user_named(req.target_username@) ==> r == Err::<
            InitiateDirectChatResponse,
            AppError,
        >(AppError::NotFoundError) && final(store)@ == old(store)@,
        old(store)@.has_user_named(req.target_username@) ==> {
            let target = old(store)@.user_named(req.target_username@);
            &&& target.id == auth.user_id ==> r == Err::<InitiateDirectChatResponse, AppError>(
                AppError::ValidationError,
            ) && final(store)@ == old(store)@
            &&& target.id != auth.user_id && old(store)@.has_direct_chat(auth.user_id, target.id)
                ==> {
                &&& r is Ok
                &&& r->Ok_0.status == ChatStatus::Exists
                &&& final(store)@ == old(store)@
                &&& exists|i: int|
                    0 <= i < old(store)@.chats.len() && direct_pair(
                        #[trigger] old(store)@.chats[i],
                        auth.user_id,
                        target.id,
                    ) && old(store)@.chats[i].id == r->Ok_0.chat_id
            }
            &&& target.id != auth.user_id && !old(store)@.has_direct_chat(auth.user_id, target.id)
                && old(store)@.next_chat_id == i64::MAX ==> r == Err::<
                InitiateDirectChatResponse,
                AppError,
            >(AppError::StorageError) && final(store)@ == old(store)@
            &&& target.id != auth.user_id && !old(store)@.has_direct_chat(auth.user_id, target.id)
                && old(store)@.next_chat_id < i64::MAX ==> {
                let stamp = stamp_of(now, old(store)@.last_timestamp);
                &&& r is Ok
                &&& r->Ok_0.status == ChatStatus::Created
                &&& r->Ok_0.chat_id == old(store)@.next_chat_id
                &&& final(store)@.chats == old(store)@.chats.push(
                    new_direct_chat(old(store)@.next_chat_id, auth.user_id, target.id, stamp),
                )
                &&& final(store)@.users == old(store)@.users
                &&& final(store)@.messages == old(store)@.messages
                &&& final(store)@.next_chat_id == old(store)@.next_chat_id + 1
                &&& final(store)@.next_user_id == old(store)@.next_user_id
                &&& final(store)@.next_message_id == old(store)@.next_message_id
                &&& final(store)@.next_file_id == old(store)@.next_file_id
                &&& final(store)@.last_timestamp == stamp
                &&& forall|i: int|
                    0 <= i < final(store)@.chats.len() && direct_pair(
                        #[trigger] final(store)@.chats[i],
                        auth.user_id,
                        target.id,
                    ) ==> final(store)@.chats[i].id == r->Ok_0.chat_id
            }
        },
{
    let ghost pre = store@;
    let target = match store.user_by_username(&req.target_username) {
        Option::Some(u) => u.clone(),
        Option::None => {
            return Err(AppError::NotFoundError);
        },
    };
    if target.id == auth.user_id {
        return Err(AppError::ValidationError);
    }
    let n = store.chats.len();
    let mut k: usize = 0;
    while k < n
        invariant
            n == pre.chats.len(),
            k <= n,
            forall|i: int| 0 <= i < k ==> !direct_pair(#[trigger] pre.chats[i], auth.user_id, target.id),
        decreases n - k,
    {
        let is_direct = match store.chats[k].chat_type {
            ChatType::Direct => true,
            ChatType::Group => false,
            ChatType::Server => false,
        };
        if is_direct && chat_has_member(&store.chats[k], auth.user_id) && chat_has_member(
            &store.chats[k],
            target.id,
        ) {
            proof {
                assert(direct_pair(pre.chats[k as int], auth.user_id, target.id));
            }
            return Ok(
                InitiateDirectChatResponse {
                    chat_id: store.chats[k].id,
                    status: ChatStatus::Exists,
                },
            );
        }
        k = k + 1;
    }
    if store.next_chat_id == i64::MAX {
        return Err(AppError::StorageError);
    }
    let stamp = if now > store.last_timestamp {
        now
    } else {
        store.last_timestamp
    };
    let cid = store.next_chat_id;
    let mut participants: Vec<ChatParticipant> = Vec::new();
    participants.push(ChatParticipant { chat_id: cid, user_id: auth.user_id, joined_at: stamp });
    participants.push(ChatParticipant { chat_id: cid, user_id: target.id, joined_at: stamp });
    let chat = Chat {
        id: cid,
        name: None,
        chat_type: ChatType::Direct,
        created_at: stamp,
        participants,
    };
    store.chats.push(chat);
    store.next_chat_id = store.next_chat_id + 1;
    store.last_timestamp = stamp;
    proof {
        let nc = new_direct_chat(cid, auth.user_id, target.id, stamp);
        assert(store@.chats =~~= pre.chats.push(nc));
        assert(store@.users =~~= pre.users);
        assert(store@.messages =~~= pre.messages);
        assert(chat_wf(nc));
        assert forall|i: int, j: int|
            0 <= i < j < store@.chats.len() implies store@.chats[i].id != store@.chats[j].id by {
            if j < pre.chats.len() {
                assert(pre.chats[i].id != pre.chats[j].id);
            } else {
                assert(pre.chats[i].id < pre.next_chat_id);
            }
        }
        assert forall|i: int|
            0 <= i < store@.chats.len() && direct_pair(
                #[trigger] store@.chats[i],
                auth.user_id,
                target.id,
            ) implies store@.chats[i].id == cid by {
            if i < pre.chats.len() {
                assert(!direct_pair(pre.chats[i], auth.user_id, target.id));
            }
        }
    }
    Ok(InitiateDirectChatResponse { chat_id: cid, status: ChatStatus::Created })
}

/// Whether `user_id` has a membership row in the chat record `c`.
#[verifier::loop_isolation(false)]
pub fn chat_has_member(c: &Chat, user_id: UserId) -> (r: bool)
    ensures
        r == c@.has_member(user_id),
{
    let n = c.participants.len();
    let mut k: usize = 0;
    while k < n
        invariant
            n == c@.participants.len(),
            k <= n,
            forall|i: int| 0 <= i < k ==> c@.participants[i].user_id != user_id,
        decreases n - k,
    {
        if c.participants[k].user_id == user_id {
            return true;
        }
        k = k + 1;
    }
    false
}

/// Law: resolving a pair is symmetric in its two users; the pair is
/// unordered.
pub proof fn lemma_direct_pair_symmetric(c: ChatView, a: UserId, b: UserId)
    ensures
        direct_pair(c, a, b) == direct_pair(c, b, a),
{
}

/// Law: after a creation for a pair with no prior direct chat, a
/// renewed resolution for the same unordered pair finds the created
/// chat and can find no other, so it reports the same chat id.
pub proof fn lemma_direct_resolution_idempotent(
    pre: StoreView,
    post: StoreView,
    a: UserId,
    b: UserId,
    c: ChatView,
)
    requires
        forall|i: int| 0 <= i < pre.chats.len() ==> !direct_pair(#[trigger] pre.chats[i], a, b),
        post.chats == pre.chats.push(c),
        direct_pair(c, a, b),
    ensures
        post.has_direct_chat(a, b),
        post.has_direct_chat(b, a),
        forall|i: int|
            0 <= i < post.chats.len() && (direct_pair(#[trigger] post.chats[i], a, b)
                || direct_pair(post.chats[i], b, a)) ==> post.chats[i].id == c.id,
{
    assert(post.chats[pre.chats.len() as int] == c);
    assert(direct_pair(c, b, a));
    assert forall|i: int|
        0 <= i < post.chats.len() && (direct_pair(#[trigger] post.chats[i], a, b) || direct_pair(
            post.chats[i],
            b,
            a,
        )) implies post.chats[i].id == c.id by {
        if i < pre.chats.len() {
            assert(!direct_pair(pre.chats[i], a, b));
            assert(post.chats[i] == pre.chats[i]);
        }
    }
}

} // verus!
