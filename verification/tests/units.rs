//! Unit-level behaviour: content validation, the registry's bounded
//! best-effort delivery, user lookup and search, the session policy,
//! claims, and upload naming.

use chat_core::auth::{authenticated_from_claims, claims_for, TOKEN_LIFETIME_SECS};
use chat_core::content::{str_is_blank, validate_message};
use chat_core::errors::AppError;
use chat_core::models::{
    AuthenticatedUser, CreateUser, FileAssetIn, FileType, Message, User, WsMessageIn,
};
use chat_core::registry::{Registry, CHANNEL_CAPACITY};
use chat_core::session::{next_inbound_action, InboundEvent, SessionAction};
use chat_core::store::Store;
use chat_core::upload::build_file_upload;

fn file_of_size(size_bytes: i64) -> FileAssetIn {
    FileAssetIn {
        file_type: FileType::File,
        url: "/uploads/x.bin".to_string(),
        filename: "x.bin".to_string(),
        mime_type: None,
        size_bytes,
    }
}

fn plain_message(text: &str) -> Message {
    Message {
        id: 1,
        chat_id: 1,
        sender_id: 1,
        content: Some(text.to_string()),
        timestamp: 1,
        files: Vec::new(),
    }
}

#[test]
fn blank_detection_follows_unicode_whitespace() {
    assert!(str_is_blank(""));
    assert!(str_is_blank("   "));
    assert!(str_is_blank("\t\r\n"));
    assert!(str_is_blank("\u{00A0}\u{2003}"));
    assert!(!str_is_blank(" a "));
    assert!(!str_is_blank("hi"));
}

#[test]
fn empty_message_is_rejected() {
    assert!(matches!(
        validate_message(&None, &Vec::new()),
        Err(AppError::ValidationError)
    ));
    assert!(matches!(
        validate_message(&Some("   ".to_string()), &Vec::new()),
        Err(AppError::ValidationError)
    ));
}

#[test]
fn text_only_files_only_or_both_are_accepted() {
    assert!(validate_message(&Some("hi".to_string()), &Vec::new()).is_ok());
    assert!(validate_message(&None, &vec![file_of_size(1)]).is_ok());
    assert!(validate_message(&Some("   ".to_string()), &vec![file_of_size(1)]).is_ok());
    assert!(validate_message(&Some("hi".to_string()), &vec![file_of_size(1)]).is_ok());
}

#[test]
fn attachment_count_boundary_is_ten() {
    let ten: Vec<FileAssetIn> = (0..10).map(|_| file_of_size(1)).collect();
    assert!(validate_message(&None, &ten).is_ok());
    let eleven: Vec<FileAssetIn> = (0..11).map(|_| file_of_size(1)).collect();
    assert!(matches!(validate_message(&None, &eleven), Err(AppError::ValidationError)));
}

#[test]
fn attachment_size_boundary_is_ten_mebibytes() {
    assert!(validate_message(&None, &vec![file_of_size(10 * 1024 * 1024)]).is_ok());
    assert!(matches!(
        validate_message(&None, &vec![file_of_size(10 * 1024 * 1024 + 1)]),
        Err(AppError::ValidationError)
    ));
}

#[test]
fn register_is_idempotent_per_username() {
    let mut registry = Registry::new();
    let h1 = registry.register(&"alice".to_string());
    let h2 = registry.register(&"alice".to_string());
    let other = registry.register(&"bob".to_string());
    assert_eq!(h1, h2);
    assert_ne!(h1, other);
}

#[test]
fn publish_without_registration_is_a_silent_no_op() {
    let mut registry = Registry::new();
    registry.publish(&"ghost".to_string(), &plain_message("hello"));
    let h = registry.register(&"ghost".to_string());
    let sub = registry.subscribe(h);
    // Nothing was queued before the registration existed.
    assert!(registry.try_next(h, sub).is_none());
}

#[test]
fn publish_reaches_every_subscriber_of_the_user() {
    let mut registry = Registry::new();
    let h = registry.register(&"alice".to_string());
    let s1 = registry.subscribe(h);
    let s2 = registry.subscribe(h);
    let other = registry.register(&"bob".to_string());
    let bob_sub = registry.subscribe(other);

    registry.publish(&"alice".to_string(), &plain_message("fan"));
    assert_eq!(registry.try_next(h, s1).unwrap().content.as_deref(), Some("fan"));
    assert_eq!(registry.try_next(h, s2).unwrap().content.as_deref(), Some("fan"));
    assert!(registry.try_next(other, bob_sub).is_none());
}

#[test]
fn full_queue_drops_newest_and_never_errors() {
    let mut registry = Registry::new();
    let h = registry.register(&"alice".to_string());
    let sub = registry.subscribe(h);
    for i in 0..(CHANNEL_CAPACITY + 5) {
        registry.publish(&"alice".to_string(), &plain_message(&format!("m{}", i)));
    }
    let mut received = 0;
    while let Some(m) = registry.try_next(h, sub) {
        assert_eq!(m.content.as_deref(), Some(format!("m{}", received).as_str()));
        received += 1;
    }
    assert_eq!(received, CHANNEL_CAPACITY);
}

#[test]
fn dequeue_is_first_in_first_out() {
    let mut registry = Registry::new();
    let h = registry.register(&"alice".to_string());
    let sub = registry.subscribe(h);
    registry.publish(&"alice".to_string(), &plain_message("first"));
    registry.publish(&"alice".to_string(), &plain_message("second"));
    assert_eq!(registry.try_next(h, sub).unwrap().content.as_deref(), Some("first"));
    assert_eq!(registry.try_next(h, sub).unwrap().content.as_deref(), Some("second"));
    assert!(registry.try_next(h, sub).is_none());
}

#[test]
fn user_lookup_and_search() {
    let mut store = Store::new();
    let alice = store.login_or_register(&CreateUser { username: "alice".to_string() }).unwrap();
    store.login_or_register(&CreateUser { username: "bob".to_string() }).unwrap();
    store.login_or_register(&CreateUser { username: "charlie".to_string() }).unwrap();

    let found = store.get_user(alice.id).expect("alice exists");
    assert_eq!(found.username, "alice");
    assert!(matches!(store.get_user(9999), Err(AppError::NotFoundError)));

    let all = store.search_users(None);
    assert_eq!(all.len(), 3);

    let pattern = "li".to_string();
    let hits: Vec<User> = store.search_users(Some(&pattern));
    let names: Vec<String> = hits.into_iter().map(|u| u.username).collect();
    assert_eq!(names, vec!["alice".to_string(), "charlie".to_string()]);

    let none = store.search_users(Some(&"zzz".to_string()));
    assert!(none.is_empty());
}

#[test]
fn inbound_policy_delivers_ignores_and_terminates() {
    let frame = WsMessageIn { chat_id: 3, content: Some("hi".to_string()), files: None };
    match next_inbound_action(InboundEvent::Frame(frame)) {
        SessionAction::Deliver(d) => {
            assert_eq!(d.chat_id, 3);
            assert_eq!(d.content.as_deref(), Some("hi"));
        },
        _ => panic!("a message frame must be delivered"),
    }
    assert!(matches!(next_inbound_action(InboundEvent::MalformedFrame), SessionAction::Ignore));
    assert!(matches!(next_inbound_action(InboundEvent::OtherFrame), SessionAction::Ignore));
    assert!(matches!(next_inbound_action(InboundEvent::CloseFrame), SessionAction::Terminate));
    assert!(matches!(
        next_inbound_action(InboundEvent::TransportClosed),
        SessionAction::Terminate
    ));
}

#[test]
fn claims_carry_identity_and_expiry() {
    let user = User { id: 42, username: "alice".to_string(), image_id: None };
    let claims = claims_for(&user, 1000);
    assert_eq!(claims.sub, "alice");
    assert_eq!(claims.username, "alice");
    assert_eq!(claims.user_id, 42);
    assert_eq!(claims.exp, 1000 + TOKEN_LIFETIME_SECS);

    let auth: AuthenticatedUser = authenticated_from_claims(&claims);
    assert_eq!(auth.user_id, 42);
    assert_eq!(auth.username, "alice");
}

#[test]
fn upload_naming_keeps_extension_and_echoes_metadata() {
    let r = build_file_upload(&"photo.png".to_string(), Some("image/png".to_string()), 123);
    assert!(r.url.starts_with("/uploads/"));
    assert!(r.url.ends_with(".png"));
    assert_eq!(r.url.len(), "/uploads/".len() + 36 + ".png".len());
    assert_eq!(r.filename, "photo.png");
    assert_eq!(r.mime_type.as_deref(), Some("image/png"));
    assert_eq!(r.size_bytes, 123);

    let tarball = build_file_upload(&"archive.tar.gz".to_string(), None, 1);
    assert!(tarball.url.ends_with(".gz"));

    let bare = build_file_upload(&"README".to_string(), None, 1);
    assert!(bare.url.ends_with(".bin"));

    let trailing_dot = build_file_upload(&"odd.".to_string(), None, 1);
    assert!(trailing_dot.url.ends_with(".bin"));

    let a = build_file_upload(&"a.png".to_string(), None, 1);
    let b = build_file_upload(&"a.png".to_string(), None, 1);
    assert_ne!(a.url, b.url);
}
