//! The message pipeline: the single choke point every chat message
//! passes through. A submission is validated, authorized against
//! committed membership, persisted atomically (the message and all its
//! attachment records together, or nothing), and then fanned out
//! best-effort to the live channel of every participant. Persistence is
//! the durability boundary: fan-out failures are deliberately invisible
//! to the sender.

use vstd::prelude::*;
use vstd::pervasive::unreached;
use crate::content::{validate_message, validation_rejects};
use crate::errors::AppError;
use crate::models::{
    AuthenticatedUser, ChatId, ChatView, FileId, MediaAsset, MediaAssetView, Message, MessageView,
    UserId, WsMessageIn, WsMessageInView, FileAssetIn,
};
use crate::registry::{channel_after_publish, Registry};
use crate::resolver::stamp_of;
use crate::store::{message_wf, Store, StoreView};

verus! {

/// Whether the store's identifier counters have room for one more
/// message carrying `n_files` attachments.
pub open spec fn can_allocate(s: StoreView, n_files: int) -> bool {
    s.next_message_id < i64::MAX && s.next_file_id <= i64::MAX - n_files
}

/// The attachment record persisted for the inbound reference `f` under
/// the identity `id`, stamped with the message's timestamp.
pub open spec fn asset_of(f: crate::models::FileAssetInView, id: int, stamp: i64) -> MediaAssetView {
    MediaAssetView {
        id: id as FileId,
        file_type: f.file_type,
        url: f.url,
        filename: f.filename,
        mime_type: f.mime_type,
        size_bytes: f.size_bytes,
        created_at: stamp,
    }
}

/// The message a submission persists: identity and attachment
/// identities taken from the store's counters, the timestamp assigned
/// by the server at persistence time.
pub open spec fn persisted_message(
    s: StoreView,
    sender: UserId,
    w: WsMessageInView,
    stamp: i64,
) -> MessageView {
    MessageView {
        id: s.next_message_id,
        chat_id: w.chat_id,
        sender_id: sender,
        content: w.content,
        timestamp: stamp,
        files: Seq::new(
            w.files_or_empty().len(),
            |i: int| asset_of(w.files_or_empty()[i], s.next_file_id + i, stamp),
        ),
    }
}

/// Whether participant `j` of chat record `c` resolves, through the
/// store's user table, to the username `name`.
pub open spec fn participant_name_is(
    s: StoreView,
    c: ChatView,
    j: int,
    name: Seq<char>,
) -> bool {
    &&& s.has_user(c.participants[j].user_id)
    &&& s.user_at(c.participants[j].user_id).username == name
}

/// Whether one of the first `k` participants of `c` resolves to `name`.
pub open spec fn prefix_recipient(s: StoreView, c: ChatView, k: int, name: Seq<char>) -> bool {
    exists|j: int| 0 <= j < k && participant_name_is(s, c, j, name)
}

/// Whether `name` is the username of some current participant of
/// `chat_id`: the fan-out recipients of a message to that chat.
pub open spec fn is_recipient_name(s: StoreView, chat_id: ChatId, name: Seq<char>) -> bool {
    prefix_recipient(s, s.chat_at(chat_id), s.chat_at(chat_id).participants.len() as int, name)
}

/// The sequential contract of the pipeline: validate, authorize,
/// persist, fan out. A rejected submission leaves the store and the
/// registry exactly as they were; an accepted one persists the message
/// together with all its attachment records and nothing else, stamps it
/// with a timestamp no older than any stamp handed out before, and
/// delivers it best-effort to every participant's live channel,
/// including the sender's.
#[verifier::loop_isolation(false)]
pub fn submit(
    store: &mut Store,
    registry: &mut Registry,
    auth: &AuthenticatedUser,
    request: WsMessageIn,
    now: i64,
) -> (r: Result<Message, AppError>)
    requires
        old(store)@.wf(),
        old(registry)@.wf(),
        now >= 0,
    ensures
        final(store)@.wf(),
        final(registry)@.wf(),
        r is Err ==> final(store)@ == old(store)@ && final(registry)@ == old(registry)@,
        r == Err::<Message, AppError>(AppError::ValidationError) <==> validation_rejects(
            request@.content,
            request@.files_or_empty(),
        ),
        !validation_rejects(request@.content, request@.files_or_empty()) ==> (r == Err::<
            Message,
            AppError,
        >(AppError::AuthorizationError) <==> !old(store)@.is_participant(
            request.chat_id,
            auth.user_id,
        )),
        !validation_rejects(request@.content, request@.files_or_empty()) && old(
            store,
        )@.is_participant(request.chat_id, auth.user_id) ==> (r == Err::<Message, AppError>(
            AppError::StorageError,
        ) <==> !can_allocate(old(store)@, request@.files_or_empty().len() as int)),
        !validation_rejects(request@.content, request@.files_or_empty()) && old(
            store,
        )@.is_participant(request.chat_id, auth.user_id) && can_allocate(
            old(store)@,
            request@.files_or_empty().len() as int,
        ) ==> r is Ok,
        r is Ok ==> {
            let stamp = stamp_of(now, old(store)@.last_timestamp);
            let m = persisted_message(old(store)@, auth.user_id, request@, stamp);
            &&& r->Ok_0@ == m
            &&& final(store)@.messages == old(store)@.messages.push(m)
            &&& final(store)@.users == old(store)@.users
            &&& final(store)@.chats == old(store)@.chats
            &&& final(store)@.next_user_id == old(store)@.next_user_id
            &&& final(store)@.next_chat_id == old(store)@.next_chat_id
            &&& final(store)@.next_message_id == old(store)@.next_message_id + 1
            &&& final(store)@.next_file_id == old(store)@.next_file_id
                + request@.files_or_empty().len()
            &&& final(store)@.last_timestamp == stamp
            &&& final(registry)@.channels.len() == old(registry)@.channels.len()
            &&& forall|i: int|
                0 <= i < old(registry)@.channels.len() && is_recipient_name(
                    final(store)@,
                    request.chat_id,
                    old(registry)@.channels[i].username,
                ) ==> channel_after_publish(
                    old(registry)@.channels[i],
                    final(registry)@.channels[i],
                    m,
                )
            &&& forall|i: int|
                0 <= i < old(registry)@.channels.len() && !is_recipient_name(
                    final(store)@,
                    request.chat_id,
                    old(registry)@.channels[i].username,
                ) ==> final(registry)@.channels[i] == old(registry)@.channels[i]
        },
{
    let ghost pre = store@;
    let ghost w = request@;
    let WsMessageIn { chat_id, content, files } = request;
    let files_in: Vec<FileAssetIn> = match files {
        Option::Some(v) => v,
        Option::None => Vec::new(),
    };
    proof {
        assert(files_in@.map_values(|a: FileAssetIn| a@) =~= w.files_or_empty());
    }
    match validate_message(&content, &files_in) {
        Ok(()) => {},
        Err(e) => {
            return Err(e);
        },
    }
    if !store.is_participant(chat_id, auth.user_id) {
        return Err(AppError::AuthorizationError);
    }
    let nf = files_in.len();
    proof {
        assert(nf <= crate::content::MAX_FILES_PER_MESSAGE);
    }
    if store.next_message_id == i64::MAX {
        return Err(AppError::StorageError);
    }
    if store.next_file_id > i64::MAX - (nf as i64) {
        return Err(AppError::StorageError);
    }
    let stamp = if now > store.last_timestamp {
        now
    } else {
        store.last_timestamp
    };
    let mid = store.next_message_id;
    let first_file_id = store.next_file_id;
    let mut assets: Vec<MediaAsset> = Vec::new();
    let mut k: usize = 0;
    while k < nf
        invariant
            nf == files_in.len(),
            k <= nf,
            assets@.len() == k,
            first_file_id + nf <= i64::MAX,
            1 <= first_file_id,
            forall|i: int|
                0 <= i < k ==> assets@[i]@ == asset_of(
                    w.files_or_empty()[i],
                    first_file_id + i,
                    stamp,
                ),
        decreases nf - k,
    {
        let f = &files_in[k];
        assets.push(
            MediaAsset {
                id: first_file_id + (k as i64),
                file_type: f.file_type,
                url: f.url.clone(),
                filename: f.filename.clone(),
                mime_type: crate::models::clone_opt_string(&f.mime_type),
                size_bytes: f.size_bytes,
                created_at: stamp,
            },
        );
        k = k + 1;
    }
    let msg = Message {
        id: mid,
        chat_id: chat_id,
        sender_id: auth.user_id,
        content: content,
        timestamp: stamp,
        files: assets,
    };
    let out = msg.clone();
    let ghost m = persisted_message(pre, auth.user_id, w, stamp);
    proof {
        assert(msg@.files =~= m.files);
        assert(msg@ == m);
    }
    store.messages.push(msg);
    store.next_message_id = mid + 1;
    store.next_file_id = first_file_id + (nf as i64);
    store.last_timestamp = stamp;
    proof {
        assert(store@.messages =~~= pre.messages.push(m));
        assert(store@.users =~~= pre.users);
        assert(store@.chats =~~= pre.chats);
        assert forall|i: int|
            0 <= i < store@.messages.len() implies message_wf(
            #[trigger] store@.messages[i],
            store@.next_message_id,
            store@.next_file_id,
            store@.last_timestamp,
        ) by {
            if i < pre.messages.len() {
                assert(message_wf(
                    pre.messages[i],
                    pre.next_message_id,
                    pre.next_file_id,
                    pre.last_timestamp,
                ));
            } else {
                assert forall|x: int|
                    0 <= x < m.files.len() implies 1 <= (#[trigger] m.files[x]).id
                    < store@.next_file_id by {
                    assert(m.files[x].id == first_file_id + x);
                }
            }
        }
        assert forall|i: int, j: int|
            0 <= i < j < store@.messages.len() implies store@.messages[i].id
            < store@.messages[j].id by {
            if j < pre.messages.len() {
                assert(pre.messages[i].id < pre.messages[j].id);
            } else {
                assert(message_wf(
                    pre.messages[i],
                    pre.next_message_id,
                    pre.next_file_id,
                    pre.last_timestamp,
                ));
            }
        }
        assert forall|i: int, j: int|
            0 <= i <= j < store@.messages.len() implies store@.messages[i].timestamp
            <= store@.messages[j].timestamp by {
            if j < pre.messages.len() {
                assert(pre.messages[i].timestamp <= pre.messages[j].timestamp);
            } else if i < pre.messages.len() {
                assert(message_wf(
                    pre.messages[i],
                    pre.next_message_id,
                    pre.next_file_id,
                    pre.last_timestamp,
                ));
            }
        }
        assert(store@.wf());
        assert(store@.has_chat(chat_id));
    }
    fan_out(registry, store, chat_id, &out);
    Ok(out)
}

/// Pushes the persisted message onto the fan-out channel of every
/// current participant of the chat. Participants without a user record
/// or without a live channel are skipped; a full subscriber queue drops
/// the message. Nothing here can fail.
#[verifier::loop_isolation(false)]
pub fn fan_out(registry: &mut Registry, store: &Store, chat_id: ChatId, msg: &Message)
    requires
        old(registry)@.wf(),
        store@.wf(),
        store@.has_chat(chat_id),
    ensures
        final(registry)@.wf(),
        final(registry)@.channels.len() == old(registry)@.channels.len(),
        forall|i: int|
            0 <= i < old(registry)@.channels.len() && is_recipient_name(
                store@,
                chat_id,
                old(registry)@.channels[i].username,
            ) ==> channel_after_publish(
                old(registry)@.channels[i],
                final(registry)@.channels[i],
                msg@,
            ),
        forall|i: int|
            0 <= i < old(registry)@.channels.len() && !is_recipient_name(
                store@,
                chat_id,
                old(registry)@.channels[i].username,
            ) ==> final(registry)@.channels[i] == old(registry)@.channels[i],
{
    let ghost reg_pre = registry@;
    let ghost c = store@.chat_at(chat_id);
    let ci = match store.find_chat_index(chat_id) {
        Option::Some(i) => i,
        Option::None => unreached(),
    };
    let n = store.chats[ci].participants.len();
    let mut k: usize = 0;
    while k < n
        invariant
            registry@.wf(),
            n == c.participants.len(),
            ci == store@.chat_index(chat_id),
            ci < store@.chats.len(),
            c == store@.chats[ci as int],
            k <= n,
            registry@.channels.len() == reg_pre.channels.len(),
            forall|i: int|
                0 <= i < reg_pre.channels.len() && prefix_recipient(
                    store@,
                    c,
                    k as int,
                    reg_pre.channels[i].username,
                ) ==> channel_after_publish(
                    reg_pre.channels[i],
                    registry@.channels[i],
                    msg@,
                ),
            forall|i: int|
                0 <= i < reg_pre.channels.len() && !prefix_recipient(
                    store@,
                    c,
                    k as int,
                    reg_pre.channels[i].username,
                ) ==> registry@.channels[i] == reg_pre.channels[i],
        decreases n - k,
    {
        let ghost reg_mid = registry@;
        let uid = store.chats[ci].participants[k].user_id;
        match store.user_by_id(uid) {
            Option::Some(u) => {
                let ghost name_k = u.username@;
                registry.publish(&u.username, msg);
                proof {
                    assert(participant_name_is(store@, c, k as int, name_k));
                    assert forall|i: int|
                        0 <= i < reg_pre.channels.len() && prefix_recipient(
                            store@,
                            c,
                            k + 1,
                            reg_pre.channels[i].username,
                        ) implies channel_after_publish(
                        reg_pre.channels[i],
                        registry@.channels[i],
                        msg@,
                    ) by {
                        let name = reg_pre.channels[i].username;
                        if prefix_recipient(store@, c, k as int, name) {
                            // Already delivered before this step; this step's
                            // publish cannot have touched the channel again,
                            // because two distinct participants bear distinct
                            // usernames.
                            assert(channel_after_publish(
                                reg_pre.channels[i],
                                reg_mid.channels[i],
                                msg@,
                            ));
                            if name == name_k {
                                let j = choose|j: int|
                                    0 <= j < k && participant_name_is(store@, c, j, name);
                                let uj = c.participants[j].user_id;
                                assert(uj != uid);
                                let a = store@.user_index(uj);
                                let b = store@.user_index(uid);
                                assert(store@.users[a].id == uj && store@.users[b].id == uid);
                                assert(a != b);
                                assert(store@.users[a].username != store@.users[b].username);
                                assert(false);
                            }
                            assert(reg_mid.channels[i].username == reg_pre.channels[i].username);
                            assert(registry@.channels[i] == reg_mid.channels[i]);
                        } else {
                            let j = choose|j: int|
                                0 <= j < k + 1 && participant_name_is(store@, c, j, name);
                            assert(j == k && name == name_k);
                            assert(reg_mid.channels[i] == reg_pre.channels[i]);
                            assert(channel_after_publish(
                                reg_mid.channels[i],
                                registry@.channels[i],
                                msg@,
                            ));
                        }
                    }
                    assert forall|i: int|
                        0 <= i < reg_pre.channels.len() && !prefix_recipient(
                            store@,
                            c,
                            k + 1,
                            reg_pre.channels[i].username,
                        ) implies registry@.channels[i] == reg_pre.channels[i] by {
                        let name = reg_pre.channels[i].username;
                        assert(!prefix_recipient(store@, c, k as int, name));
                        assert(reg_mid.channels[i] == reg_pre.channels[i]);
                        assert(!participant_name_is(store@, c, k as int, name));
                        assert(reg_mid.channels[i].username != name_k);
                        assert(registry@.channels[i] == reg_mid.channels[i]);
                    }
                }
            },
            Option::None => {
                proof {
                    assert forall|name: Seq<char>|
                        #[trigger] prefix_recipient(store@, c, k + 1, name) implies prefix_recipient(
                        store@,
                        c,
                        k as int,
                        name,
                    ) by {
                        let j = choose|j: int|
                            0 <= j < k + 1 && participant_name_is(store@, c, j, name);
                        assert(j < k);
                    }
                }
            },
        }
        k = k + 1;
    }
}

/// Relies on chrono's `Utc::now`, read as milliseconds since the Unix
/// epoch. Nothing is assumed of the value: the pipeline's stamping
/// keeps timestamps monotone whatever the clock returns.
#[verifier::external_body]
fn current_millis() -> (r: i64) {
    chrono::Utc::now().timestamp_millis()
}

/// `submit` with the server's own clock: reads the wall clock and runs
/// the pipeline. The exact timestamp depends on the clock, so the
/// contract pins every field of the outcome through the message's own
/// timestamp, which is never older than any stamp handed out before.
pub fn submit_now(
    store: &mut Store,
    registry: &mut Registry,
    auth: &AuthenticatedUser,
    request: WsMessageIn,
) -> (r: Result<Message, AppError>)
    requires
        old(store)@.wf(),
        old(registry)@.wf(),
    ensures
        final(store)@.wf(),
        final(registry)@.wf(),
        r is Err ==> final(store)@ == old(store)@ && final(registry)@ == old(registry)@,
        r == Err::<Message, AppError>(AppError::ValidationError) <==> validation_rejects(
            request@.content,
            request@.files_or_empty(),
        ),
        !validation_rejects(request@.content, request@.files_or_empty()) ==> (r == Err::<
            Message,
            AppError,
        >(AppError::AuthorizationError) <==> !old(store)@.is_participant(
            request.chat_id,
            auth.user_id,
        )),
        !validation_rejects(request@.content, request@.files_or_empty()) && old(
            store,
        )@.is_participant(request.chat_id, auth.user_id) ==> (r == Err::<Message, AppError>(
            AppError::StorageError,
        ) <==> !can_allocate(old(store)@, request@.files_or_empty().len() as int)),
        !validation_rejects(request@.content, request@.files_or_empty()) && old(
            store,
        )@.is_participant(request.chat_id, auth.user_id) && can_allocate(
            old(store)@,
            request@.files_or_empty().len() as int,
        ) ==> r is Ok,
        r is Ok ==> {
            let m = r->Ok_0@;
            &&& m.timestamp >= old(store)@.last_timestamp
            &&& m == persisted_message(old(store)@, auth.user_id, request@, m.timestamp)
            &&& final(store)@.messages == old(store)@.messages.push(m)
            &&& final(store)@.users == old(store)@.users
            &&& final(store)@.chats == old(store)@.chats
            &&& final(store)@.next_user_id == old(store)@.next_user_id
            &&& final(store)@.next_chat_id == old(store)@.next_chat_id
            &&& final(store)@.next_message_id == old(store)@.next_message_id + 1
            &&& final(store)@.next_file_id == old(store)@.next_file_id
                + request@.files_or_empty().len()
            &&& final(store)@.last_timestamp == m.timestamp
            &&& final(registry)@.channels.len() == old(registry)@.channels.len()
            &&& forall|i: int|
                0 <= i < old(registry)@.channels.len() && is_recipient_name(
                    final(store)@,
                    request.chat_id,
                    old(registry)@.channels[i].username,
                ) ==> channel_after_publish(
                    old(registry)@.channels[i],
                    final(registry)@.channels[i],
                    m,
                )
            &&& forall|i: int|
                0 <= i < old(registry)@.channels.len() && !is_recipient_name(
                    final(store)@,
                    request.chat_id,
                    old(registry)@.channels[i].username,
                ) ==> final(registry)@.channels[i] == old(registry)@.channels[i]
        },
{
    let t = current_millis();
    let now: i64 = if t > 0 {
        t
    } else {
        0
    };
    submit(store, registry, auth, request, now)
}

/// The ordered history read: after the same authorization check as a
/// submission, every persisted message of the chat, each with all its
/// attachment records, in persistence order.
#[verifier::loop_isolation(false)]
pub fn get_history(store: &Store, auth: &AuthenticatedUser, chat_id: ChatId) -> (r: Result<
    Vec<Message>,
    AppError,
>)
    requires
        store@.wf(),
    ensures
        r is Err <==> !store@.is_participant(chat_id, auth.user_id),
        r is Err ==> r == Err::<Vec<Message>, AppError>(AppError::AuthorizationError),
        r is Ok ==> r->Ok_0@.map_values(|m: Message| m@) == store@.messages_in(chat_id),
{
    if !store.is_participant(chat_id, auth.user_id) {
        return Err(AppError::AuthorizationError);
    }
    let ghost pred = |m: MessageView| m.chat_id == chat_id;
    let n = store.messages.len();
    let mut out: Vec<Message> = Vec::new();
    let mut k: usize = 0;
    while k < n
        invariant
            n == store@.messages.len(),
            k <= n,
            out@.map_values(|m: Message| m@) == store@.messages.subrange(0, k as int).filter(pred),
        decreases n - k,
    {
        let ghost prefix = store@.messages.subrange(0, k as int);
        let ghost next_prefix = store@.messages.subrange(0, k + 1);
        proof {
            reveal_with_fuel(Seq::<_>::filter, 2);
            assert(next_prefix.drop_last() =~= prefix);
            assert(next_prefix.last() == store@.messages[k as int]);
        }
        if store.messages[k].chat_id == chat_id {
            out.push(store.messages[k].clone());
            proof {
                reveal_with_fuel(Seq::<_>::filter, 2);
                assert(out@.map_values(|m: Message| m@) =~= next_prefix.filter(pred));
            }
        } else {
            proof {
                reveal_with_fuel(Seq::<_>::filter, 2);
                assert(out@.map_values(|m: Message| m@) =~= next_prefix.filter(pred));
            }
        }
        k = k + 1;
    }
    proof {
        assert(store@.messages.subrange(0, n as int) =~= store@.messages);
    }
    Ok(out)
}

/// Helper for the ordering law: filtering keeps a timestamp-sorted
/// message sequence sorted, and never raises the newest timestamp.
proof fn lemma_filter_keeps_sorted(s: Seq<MessageView>, pred: spec_fn(MessageView) -> bool)
    requires
        forall|i: int, j: int|
            0 <= i <= j < s.len() ==> s[i].timestamp <= s[j].timestamp,
    ensures
        forall|i: int, j: int|
            0 <= i <= j < s.filter(pred).len() ==> s.filter(pred)[i].timestamp <= s.filter(
                pred,
            )[j].timestamp,
        s.filter(pred).len() > 0 && s.len() > 0 ==> s.filter(pred).last().timestamp
            <= s.last().timestamp,
    decreases s.len(),
{
    reveal_with_fuel(Seq::<_>::filter, 2);
    if s.len() == 0 {
        assert(s.filter(pred).len() == 0);
    } else {
        let d = s.drop_last();
        lemma_filter_keeps_sorted(d, pred);
        if pred(s.last()) {
            assert(s.filter(pred) == d.filter(pred).push(s.last()));
            if d.len() > 0 {
                assert(d.last().timestamp <= s.last().timestamp);
            }
        } else {
            assert(s.filter(pred) == d.filter(pred));
            if d.len() > 0 {
                assert(d.last().timestamp <= s.last().timestamp);
            }
        }
    }
}

/// Law: the history of any chat of a well-formed store is in
/// non-decreasing timestamp order; together with `get_history`'s
/// contract, a history read returns exactly the persisted messages of
/// the chat, each with all its attachments, once, ordered by timestamp
/// with ties in persistence order.
pub proof fn lemma_history_ordered(s: StoreView, chat_id: ChatId)
    requires
        s.wf(),
    ensures
        forall|i: int, j: int|
            0 <= i <= j < s.messages_in(chat_id).len() ==> s.messages_in(chat_id)[i].timestamp
                <= s.messages_in(chat_id)[j].timestamp,
{
    let pred = |m: MessageView| m.chat_id == chat_id;
    lemma_filter_keeps_sorted(s.messages, pred);
    assert(s.messages_in(chat_id) == s.messages.filter(pred));
}

/// The chat record itself, with its participant set, after the same
/// authorization check as a submission.
pub fn get_chat(store: &Store, auth: &AuthenticatedUser, chat_id: ChatId) -> (r: Result<
    crate::models::Chat,
    AppError,
>)
    requires
        store@.wf(),
    ensures
        r is Err <==> !store@.is_participant(chat_id, auth.user_id),
        r is Err ==> r == Err::<crate::models::Chat, AppError>(AppError::AuthorizationError),
        r is Ok ==> r->Ok_0@ == store@.chat_at(chat_id),
{
    if !store.is_participant(chat_id, auth.user_id) {
        return Err(AppError::AuthorizationError);
    }
    let ci = match store.find_chat_index(chat_id) {
        Option::Some(i) => i,
        Option::None => unreached(),
    };
    Ok(store.chats[ci].clone())
}

/// Every chat the caller belongs to, newest creation first.
#[verifier::loop_isolation(false)]
pub fn list_chats(store: &Store, auth: &AuthenticatedUser) -> (r: Vec<crate::models::Chat>)
    requires
        store@.wf(),
    ensures
        r@.map_values(|c: crate::models::Chat| c@) == store@.chats.filter(
            |c: ChatView| c.has_member(auth.user_id),
        ).reverse(),
{
    let ghost pred = |c: ChatView| c.has_member(auth.user_id);
    let n = store.chats.len();
    let mut member_chats: Vec<crate::models::Chat> = Vec::new();
    let mut k: usize = 0;
    while k < n
        invariant
            n == store@.chats.len(),
            k <= n,
            member_chats@.map_values(|c: crate::models::Chat| c@) == store@.chats.subrange(
                0,
                k as int,
            ).filter(pred),
        decreases n - k,
    {
        let ghost prefix = store@.chats.subrange(0, k as int);
        let ghost next_prefix = store@.chats.subrange(0, k + 1);
        proof {
            reveal_with_fuel(Seq::<_>::filter, 2);
            assert(next_prefix.drop_last() =~= prefix);
            assert(next_prefix.last() == store@.chats[k as int]);
        }
        if crate::resolver::chat_has_member(&store.chats[k], auth.user_id) {
            member_chats.push(store.chats[k].clone());
        }
        proof {
            reveal_with_fuel(Seq::<_>::filter, 2);
            assert(member_chats@.map_values(|c: crate::models::Chat| c@) =~= next_prefix.filter(
                pred,
            ));
        }
        k = k + 1;
    }
    proof {
        assert(store@.chats.subrange(0, n as int) =~= store@.chats);
    }
    let ghost forward = member_chats@.map_values(|c: crate::models::Chat| c@);
    let mut out: Vec<crate::models::Chat> = Vec::new();
    while member_chats.len() > 0
        invariant
            out@.len() + member_chats@.len() == forward.len(),
            member_chats@.map_values(|c: crate::models::Chat| c@) == forward.subrange(
                0,
                member_chats@.len() as int,
            ),
            forall|i: int|
                0 <= i < out@.len() ==> (#[trigger] out@[i])@ == forward[forward.len() - 1 - i],
        decreases member_chats.len(),
    {
        let ghost before = member_chats@;
        let c = match member_chats.pop() {
            Option::Some(c) => c,
            Option::None => unreached(),
        };
        proof {
            let bm = before.map_values(|x: crate::models::Chat| x@);
            assert(bm == forward.subrange(0, before.len() as int));
            assert(bm[before.len() - 1] == c@);
            assert(forward.subrange(0, before.len() as int)[before.len() - 1] == forward[before.len()
                - 1]);
            assert(member_chats@.map_values(|x: crate::models::Chat| x@) =~= forward.subrange(
                0,
                member_chats@.len() as int,
            ));
        }
        out.push(c);
    }
    proof {
        assert(out@.map_values(|c: crate::models::Chat| c@) =~= forward.reverse());
    }
    out
}

} // verus!
