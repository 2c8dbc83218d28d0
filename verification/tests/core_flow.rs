//! End-to-end flows through the core: login, direct-chat resolution,
//! message submission with fan-out, and history retrieval.

use chat_core::errors::AppError;
use chat_core::models::{
    AuthenticatedUser, ChatStatus, ChatType, CreateUser, FileAssetIn, FileType, InitiateChat,
    WsMessageIn,
};
use chat_core::pipeline::{get_chat, get_history, list_chats, submit, submit_now};
use chat_core::registry::Registry;
use chat_core::resolver::initiate_direct_chat;
use chat_core::store::Store;

fn login(store: &mut Store, name: &str) -> AuthenticatedUser {
    let user = store
        .login_or_register(&CreateUser { username: name.to_string() })
        .expect("login should succeed");
    AuthenticatedUser { user_id: user.id, username: user.username }
}

fn direct_chat(store: &mut Store, auth: &AuthenticatedUser, target: &str, now: i64) -> i64 {
    let resp = initiate_direct_chat(
        store,
        auth,
        &InitiateChat { target_username: target.to_string() },
        now,
    )
    .expect("resolution should succeed");
    resp.chat_id
}

fn text_message(chat_id: i64, text: &str) -> WsMessageIn {
    WsMessageIn { chat_id, content: Some(text.to_string()), files: None }
}

fn picture(name: &str, size_bytes: i64) -> FileAssetIn {
    FileAssetIn {
        file_type: FileType::Picture,
        url: format!("/uploads/{}", name),
        filename: name.to_string(),
        mime_type: Some("image/png".to_string()),
        size_bytes,
    }
}

#[test]
fn login_registers_once_per_username() {
    let mut store = Store::new();
    let a1 = login(&mut store, "alice");
    let a2 = login(&mut store, "alice");
    let b = login(&mut store, "bob");
    assert_eq!(a1.user_id, a2.user_id);
    assert_ne!(a1.user_id, b.user_id);
}

#[test]
fn direct_chat_created_then_exists_with_same_id() {
    let mut store = Store::new();
    let alice = login(&mut store, "alice");
    let bob = login(&mut store, "bob");
    let req = InitiateChat { target_username: "bob".to_string() };
    let first = initiate_direct_chat(&mut store, &alice, &req, 10).expect("first resolution");
    assert!(matches!(first.status, ChatStatus::Created));
    let second = initiate_direct_chat(&mut store, &alice, &req, 20).expect("second resolution");
    assert!(matches!(second.status, ChatStatus::Exists));
    assert_eq!(first.chat_id, second.chat_id);
    // The pair is unordered: resolving from the other side finds the same chat.
    let from_bob = initiate_direct_chat(
        &mut store,
        &bob,
        &InitiateChat { target_username: "alice".to_string() },
        30,
    )
    .expect("reverse resolution");
    assert!(matches!(from_bob.status, ChatStatus::Exists));
    assert_eq!(from_bob.chat_id, first.chat_id);
}

#[test]
fn direct_chat_with_unknown_target_is_not_found() {
    let mut store = Store::new();
    let alice = login(&mut store, "alice");
    let r = initiate_direct_chat(
        &mut store,
        &alice,
        &InitiateChat { target_username: "nobody".to_string() },
        5,
    );
    assert!(matches!(r, Err(AppError::NotFoundError)));
}

#[test]
fn direct_chat_with_oneself_is_rejected() {
    let mut store = Store::new();
    let alice = login(&mut store, "alice");
    let r = initiate_direct_chat(
        &mut store,
        &alice,
        &InitiateChat { target_username: "alice".to_string() },
        5,
    );
    assert!(matches!(r, Err(AppError::ValidationError)));
}

#[test]
fn message_reaches_live_participant_and_history() {
    let mut store = Store::new();
    let mut registry = Registry::new();
    let alice = login(&mut store, "alice");
    let _bob = login(&mut store, "bob");
    let chat_id = direct_chat(&mut store, &alice, "bob", 100);

    let bob_handle = registry.register(&"bob".to_string());
    let bob_sub = registry.subscribe(bob_handle);

    let sent = submit(&mut store, &mut registry, &alice, text_message(chat_id, "hi"), 200)
        .expect("submission should succeed");
    assert_eq!(sent.chat_id, chat_id);
    assert_eq!(sent.sender_id, alice.user_id);
    assert_eq!(sent.content.as_deref(), Some("hi"));

    let pushed = registry.try_next(bob_handle, bob_sub).expect("bob is live and subscribed");
    assert_eq!(pushed.content.as_deref(), Some("hi"));
    assert_eq!(pushed.sender_id, alice.user_id);
    assert_eq!(pushed.id, sent.id);
    assert!(registry.try_next(bob_handle, bob_sub).is_none());

    let history = get_history(&store, &alice, chat_id).expect("alice may read her chat");
    assert_eq!(history.len(), 1);
    assert_eq!(history[0].content.as_deref(), Some("hi"));
    assert_eq!(history[0].id, sent.id);
}

#[test]
fn sender_receives_own_message_on_other_sessions() {
    let mut store = Store::new();
    let mut registry = Registry::new();
    let alice = login(&mut store, "alice");
    let _bob = login(&mut store, "bob");
    let chat_id = direct_chat(&mut store, &alice, "bob", 1);

    let alice_handle = registry.register(&"alice".to_string());
    let first_session = registry.subscribe(alice_handle);
    let second_session = registry.subscribe(alice_handle);

    submit(&mut store, &mut registry, &alice, text_message(chat_id, "ping"), 2)
        .expect("submission should succeed");

    let on_first = registry.try_next(alice_handle, first_session).expect("first session");
    let on_second = registry.try_next(alice_handle, second_session).expect("second session");
    assert_eq!(on_first.content.as_deref(), Some("ping"));
    assert_eq!(on_second.content.as_deref(), Some("ping"));
}

#[test]
fn eleven_attachments_are_rejected_and_nothing_persists() {
    let mut store = Store::new();
    let mut registry = Registry::new();
    let alice = login(&mut store, "alice");
    let _bob = login(&mut store, "bob");
    let chat_id = direct_chat(&mut store, &alice, "bob", 1);

    let files: Vec<FileAssetIn> = (0..11).map(|i| picture(&format!("f{}.png", i), 10)).collect();
    let r = submit(
        &mut store,
        &mut registry,
        &alice,
        WsMessageIn { chat_id, content: None, files: Some(files) },
        2,
    );
    assert!(matches!(r, Err(AppError::ValidationError)));
    let history = get_history(&store, &alice, chat_id).expect("alice may read her chat");
    assert!(history.is_empty());
}

#[test]
fn ten_attachments_within_size_are_accepted() {
    let mut store = Store::new();
    let mut registry = Registry::new();
    let alice = login(&mut store, "alice");
    let _bob = login(&mut store, "bob");
    let chat_id = direct_chat(&mut store, &alice, "bob", 1);

    let files: Vec<FileAssetIn> =
        (0..10).map(|i| picture(&format!("f{}.png", i), 10 * 1024 * 1024)).collect();
    let sent = submit(
        &mut store,
        &mut registry,
        &alice,
        WsMessageIn { chat_id, content: None, files: Some(files) },
        2,
    )
    .expect("ten attachments at the size limit are fine");
    assert_eq!(sent.files.len(), 10);
    let history = get_history(&store, &alice, chat_id).expect("alice may read her chat");
    assert_eq!(history.len(), 1);
    assert_eq!(history[0].files.len(), 10);
    assert_eq!(history[0].files[0].created_at, history[0].timestamp);
}

#[test]
fn oversized_attachment_is_rejected() {
    let mut store = Store::new();
    let mut registry = Registry::new();
    let alice = login(&mut store, "alice");
    let _bob = login(&mut store, "bob");
    let chat_id = direct_chat(&mut store, &alice, "bob", 1);

    let r = submit(
        &mut store,
        &mut registry,
        &alice,
        WsMessageIn {
            chat_id,
            content: None,
            files: Some(vec![picture("big.png", 10 * 1024 * 1024 + 1)]),
        },
        2,
    );
    assert!(matches!(r, Err(AppError::ValidationError)));
}

#[test]
fn non_participant_submission_is_unauthorized_and_persists_nothing() {
    let mut store = Store::new();
    let mut registry = Registry::new();
    let alice = login(&mut store, "alice");
    let bob = login(&mut store, "bob");
    let mallory = login(&mut store, "mallory");
    let chat_id = direct_chat(&mut store, &alice, "bob", 1);

    let r = submit(&mut store, &mut registry, &mallory, text_message(chat_id, "hi"), 2);
    assert!(matches!(r, Err(AppError::AuthorizationError)));
    let history = get_history(&store, &bob, chat_id).expect("bob may read his chat");
    assert!(history.is_empty());
}

#[test]
fn history_is_ordered_and_keeps_every_attachment_once() {
    let mut store = Store::new();
    let mut registry = Registry::new();
    let alice = login(&mut store, "alice");
    let bob = login(&mut store, "bob");
    let chat_id = direct_chat(&mut store, &alice, "bob", 1);

    submit(&mut store, &mut registry, &alice, text_message(chat_id, "one"), 50).expect("first");
    // A clock that runs backwards cannot push timestamps backwards.
    submit(
        &mut store,
        &mut registry,
        &bob,
        WsMessageIn {
            chat_id,
            content: Some("two".to_string()),
            files: Some(vec![picture("a.png", 1), picture("b.png", 2)]),
        },
        10,
    )
    .expect("second");
    submit(&mut store, &mut registry, &alice, text_message(chat_id, "three"), 70).expect("third");

    let history = get_history(&store, &bob, chat_id).expect("bob may read his chat");
    assert_eq!(history.len(), 3);
    assert_eq!(history[0].content.as_deref(), Some("one"));
    assert_eq!(history[1].content.as_deref(), Some("two"));
    assert_eq!(history[2].content.as_deref(), Some("three"));
    assert!(history[0].timestamp <= history[1].timestamp);
    assert!(history[1].timestamp <= history[2].timestamp);
    assert_eq!(history[0].timestamp, 50);
    assert_eq!(history[1].timestamp, 50);
    assert_eq!(history[2].timestamp, 70);
    assert_eq!(history[1].files.len(), 2);
    assert_eq!(history[1].files[0].filename, "a.png");
    assert_eq!(history[1].files[1].filename, "b.png");
    assert_ne!(history[1].files[0].id, history[1].files[1].id);
}

#[test]
fn history_of_foreign_chat_is_unauthorized() {
    let mut store = Store::new();
    let mut registry = Registry::new();
    let alice = login(&mut store, "alice");
    let _bob = login(&mut store, "bob");
    let mallory = login(&mut store, "mallory");
    let chat_id = direct_chat(&mut store, &alice, "bob", 1);
    submit(&mut store, &mut registry, &alice, text_message(chat_id, "secret"), 2)
        .expect("submission");
    let r = get_history(&store, &mallory, chat_id);
    assert!(matches!(r, Err(AppError::AuthorizationError)));
}

#[test]
fn submit_now_stamps_monotonically() {
    let mut store = Store::new();
    let mut registry = Registry::new();
    let alice = login(&mut store, "alice");
    let _bob = login(&mut store, "bob");
    let chat_id = direct_chat(&mut store, &alice, "bob", 1);
    let first = submit_now(&mut store, &mut registry, &alice, text_message(chat_id, "a"))
        .expect("first");
    let second = submit_now(&mut store, &mut registry, &alice, text_message(chat_id, "b"))
        .expect("second");
    assert!(first.timestamp <= second.timestamp);
    assert!(first.id < second.id);
}

#[test]
fn get_chat_returns_record_to_members_only() {
    let mut store = Store::new();
    let alice = login(&mut store, "alice");
    let bob = login(&mut store, "bob");
    let mallory = login(&mut store, "mallory");
    let chat_id = direct_chat(&mut store, &alice, "bob", 7);

    let chat = get_chat(&store, &alice, chat_id).expect("alice is a member");
    assert_eq!(chat.id, chat_id);
    assert!(matches!(chat.chat_type, ChatType::Direct));
    assert_eq!(chat.created_at, 7);
    let mut members: Vec<i64> = chat.participants.iter().map(|p| p.user_id).collect();
    members.sort();
    let mut expected = vec![alice.user_id, bob.user_id];
    expected.sort();
    assert_eq!(members, expected);

    assert!(matches!(get_chat(&store, &mallory, chat_id), Err(AppError::AuthorizationError)));
}

#[test]
fn list_chats_is_newest_first_and_member_only() {
    let mut store = Store::new();
    let alice = login(&mut store, "alice");
    let _bob = login(&mut store, "bob");
    let _carol = login(&mut store, "carol");
    let with_bob = direct_chat(&mut store, &alice, "bob", 10);
    let with_carol = direct_chat(&mut store, &alice, "carol", 20);

    let chats = list_chats(&store, &alice);
    assert_eq!(chats.len(), 2);
    assert_eq!(chats[0].id, with_carol);
    assert_eq!(chats[1].id, with_bob);

    let carol_auth = login(&mut store, "carol");
    let carols = list_chats(&store, &carol_auth);
    assert_eq!(carols.len(), 1);
    assert_eq!(carols[0].id, with_carol);
}

#[test]
fn exhausted_counters_surface_as_storage_errors() {
    let mut store = Store::new();
    store.next_user_id = i64::MAX;
    let r = store.login_or_register(&CreateUser { username: "alice".to_string() });
    assert!(matches!(r, Err(AppError::StorageError)));

    let mut store = Store::new();
    let mut registry = Registry::new();
    let alice = login(&mut store, "alice");
    let _bob = login(&mut store, "bob");
    let chat_id = direct_chat(&mut store, &alice, "bob", 1);
    store.next_message_id = i64::MAX;
    let r = submit(&mut store, &mut registry, &alice, text_message(chat_id, "hi"), 2);
    assert!(matches!(r, Err(AppError::StorageError)));

    store.next_message_id = 1;
    store.next_file_id = i64::MAX;
    let r = submit(
        &mut store,
        &mut registry,
        &alice,
        WsMessageIn { chat_id, content: None, files: Some(vec![picture("p.png", 1)]) },
        2,
    );
    assert!(matches!(r, Err(AppError::StorageError)));
}

#[test]
fn content_is_validated_before_authorization() {
    let mut store = Store::new();
    let mut registry = Registry::new();
    let alice = login(&mut store, "alice");
    let _bob = login(&mut store, "bob");
    let mallory = login(&mut store, "mallory");
    let chat_id = direct_chat(&mut store, &alice, "bob", 1);

    // A non-participant sending an empty frame is told about the
    // content first: validation is the pipeline's first step.
    let r = submit(
        &mut store,
        &mut registry,
        &mallory,
        WsMessageIn { chat_id, content: None, files: None },
        2,
    );
    assert!(matches!(r, Err(AppError::ValidationError)));
}
