use chat::connection::{verify_message_sender, Action, AuthVerdict, Connection, ServerError};
use chat::protocol::{ChatMessage, ChatMessageContent, ChatProtocolError, Datagram, ServerResponse};
use chat::registry::Registry;
use chat::store::{
    auth_verdict, check_password, password_record, StoreError, StoredMessage, FILE_CONTENT, IMAGE_CONTENT,
    TEXT_CONTENT,
};

fn login(name: &str, password: &str) -> Result<Datagram, ChatProtocolError> {
    Ok(Datagram::Login { username: name.to_string(), password: password.to_string() })
}

fn text(sender: &str, body: &str) -> ChatMessage {
    ChatMessage::new(sender.to_string(), ChatMessageContent::Text(body.to_string()))
}

fn logged_in(name: &str, password: &str) -> Connection {
    let mut c = Connection::new();
    match c.on_read(login(name, password)) {
        Action::Authenticate { username, password: p } => {
            assert_eq!(username, name);
            assert_eq!(p, password);
        }
        _ => panic!("a login must be checked"),
    }
    match c.on_auth(AuthVerdict::Accepted) {
        Action::Admit { username } => assert_eq!(username, name),
        _ => panic!("an accepted login must be admitted"),
    }
    c
}

#[test]
fn test_verify_message_sender() {
    let message = text("Bob", "test message");
    assert!(verify_message_sender("Bob", &message).is_ok());
    assert_eq!(verify_message_sender("Alice", &message), Err(ServerError::SpoofingError));
}

#[test]
fn spoofed_message_closes_connection() {
    let mut c = logged_in("alice", "pw1");
    assert_eq!(c.username().unwrap(), "alice");
    let a = c.on_read(Ok(Datagram::Message(text("bob", "hi"))));
    assert!(matches!(a, Action::Close(ServerError::SpoofingError)));
    assert!(c.is_closed());
    let later = c.on_read(Ok(Datagram::Message(text("alice", "hi"))));
    assert!(matches!(later, Action::Ignore));
}

#[test]
fn refused_login_never_admitted() {
    let mut c = Connection::new();
    assert!(matches!(c.on_read(login("alice", "bad")), Action::Authenticate { .. }));
    assert!(matches!(c.on_auth(AuthVerdict::Rejected), Action::Refuse));
    assert!(c.is_closed());
    assert!(matches!(c.on_read(login("alice", "pw1")), Action::Ignore));
    assert!(matches!(c.on_auth(AuthVerdict::Accepted), Action::Ignore));
    assert!(c.username().is_none());
}

#[test]
fn first_datagram_must_be_login() {
    let mut c = Connection::new();
    let a = c.on_read(Ok(Datagram::ServerResponse(ServerResponse::LoginOk)));
    assert!(matches!(a, Action::Close(ServerError::LoginError)));
    let mut m = Connection::new();
    assert!(matches!(
        m.on_read(Err(ChatProtocolError::MalformedMessage)),
        Action::Close(ServerError::MalformedMessage)
    ));
    let mut b = Connection::new();
    assert!(matches!(b.on_read(Err(ChatProtocolError::IOError)), Action::Close(ServerError::BrokenStream)));
    let mut s = Connection::new();
    s.on_read(login("alice", "pw1"));
    assert!(matches!(s.on_auth(AuthVerdict::Unavailable), Action::Close(ServerError::StoreUnavailable)));
}

#[test]
fn authenticated_connection_ignores_noise_and_closes_on_io_error() {
    let mut c = logged_in("alice", "pw1");
    assert!(matches!(c.on_read(login("alice", "pw1")), Action::Ignore));
    assert!(matches!(c.on_read(Err(ChatProtocolError::MalformedMessage)), Action::Ignore));
    assert!(!c.is_closed());
    assert!(matches!(c.on_read(Err(ChatProtocolError::IOError)), Action::Close(ServerError::BrokenStream)));
    assert!(c.is_closed());
}

#[test]
fn alice_text_reaches_bob_only() {
    let mut registry: Registry<&str> = Registry::new();
    let a = logged_in("alice", "pw1");
    registry.add(1, a.username().unwrap().clone(), "to-a");
    let b = logged_in("bob", "pw2");
    registry.add(2, b.username().unwrap().clone(), "to-b");
    let mut a = a;
    let relayed = match a.on_read(Ok(Datagram::Message(text("alice", "hi")))) {
        Action::Relay(m) => m,
        _ => panic!("a genuine message is relayed"),
    };
    assert_eq!(relayed, text("alice", "hi"));
    assert_eq!(registry.recipients(1), vec![2]);
    assert_eq!(registry.handle(2), Some(&"to-b"));
    assert_eq!(registry.username(2).unwrap(), "bob");
}

#[test]
fn broadcast_reaches_every_other_session_once() {
    let mut registry: Registry<u32> = Registry::new();
    registry.add(10, "a".to_string(), 100);
    registry.add(20, "b".to_string(), 200);
    registry.add(30, "c".to_string(), 300);
    registry.add(20, "b2".to_string(), 201);
    assert_eq!(registry.len(), 3);
    let mut r = registry.recipients(20);
    r.sort();
    assert_eq!(r, vec![10, 30]);
    let mut all = registry.recipients(99);
    all.sort();
    assert_eq!(all, vec![10, 20, 30]);
    assert_eq!(registry.username(20).unwrap(), "b2");
    assert_eq!(registry.handle(20), Some(&201));
}

#[test]
fn failed_recipient_is_evicted() {
    let mut registry: Registry<u32> = Registry::new();
    registry.add(1, "a".to_string(), 1);
    registry.add(2, "b".to_string(), 2);
    registry.add(3, "c".to_string(), 3);
    let targets = registry.recipients(1);
    assert_eq!(targets.len(), 2);
    registry.evict(&vec![3]);
    assert!(!registry.contains(3));
    assert!(registry.contains(2));
    assert_eq!(registry.recipients(1), vec![2]);
    assert_eq!(registry.recipients(2), vec![1]);
    registry.remove(42);
    registry.remove(2);
    assert_eq!(registry.len(), 1);
    assert!(registry.handle(2).is_none());
}

#[test]
fn stored_rows_per_content() {
    let t = StoredMessage::of(text("alice", "hi"));
    assert_eq!((t.sender.as_str(), t.content_type), ("alice", TEXT_CONTENT));
    assert_eq!(t.text.as_deref(), Some("hi"));
    assert!(t.filename.is_none() && t.content.is_none());
    let i = StoredMessage::of(ChatMessage::new("bob".to_string(), ChatMessageContent::Image(vec![1, 2])));
    assert_eq!(i.content_type, IMAGE_CONTENT);
    assert_eq!(i.content, Some(vec![1, 2]));
    assert!(i.text.is_none() && i.filename.is_none());
    let f = StoredMessage::of(ChatMessage::new(
        "bob".to_string(),
        ChatMessageContent::File("x.bin".to_string(), vec![]),
    ));
    assert_eq!(f.content_type, FILE_CONTENT);
    assert_eq!(f.filename.as_deref(), Some("x.bin"));
    assert_eq!(f.content, Some(vec![]));
}

const SALT: &str = "c29tZXNhbHQ";

#[test]
fn registered_password_checks() {
    let hash = password_record("aaa", Some(SALT)).unwrap();
    assert!(hash.starts_with("$argon2id$"));
    assert_ne!(hash, "aaa");
    assert_eq!(check_password(Some(hash), "aaa"), Ok(true));
}

#[test]
fn wrong_password_fails() {
    let hash = password_record("aaa", Some(SALT)).unwrap();
    assert_eq!(check_password(Some(hash), "bbb"), Ok(false));
}

#[test]
fn store_errors() {
    assert_eq!(check_password(None, "aaa"), Err(StoreError::NoSuchUser));
    assert_eq!(check_password(Some("not a hash".to_string()), "aaa"), Err(StoreError::MalformedHash));
    assert_eq!(password_record("aaa", None), Err(StoreError::MissingSalt));
    assert_eq!(password_record("aaa", Some("!")), Err(StoreError::HashFailed));
}

#[test]
fn session_registered_only_while_logged_in() {
    let mut registry: Registry<u8> = Registry::new();
    let mut c = Connection::new();
    let steps: Vec<Action> = vec![
        c.on_read(login("carol", "pw")),
        c.on_auth(AuthVerdict::Accepted),
        c.on_read(Ok(Datagram::Message(text("carol", "hello")))),
        c.on_read(Err(ChatProtocolError::IOError)),
    ];
    let mut seen = Vec::new();
    for action in steps {
        match action {
            Action::Admit { username } => registry.add(5, username, 0),
            Action::Close(_) => registry.remove(5),
            _ => {}
        }
        seen.push(registry.contains(5));
    }
    assert_eq!(seen, vec![false, true, true, false]);
}

#[test]
fn unknown_user_is_refused() {
    assert_eq!(auth_verdict(Ok(true)), AuthVerdict::Accepted);
    assert_eq!(auth_verdict(Ok(false)), AuthVerdict::Rejected);
    assert_eq!(auth_verdict(Err(StoreError::NoSuchUser)), AuthVerdict::Rejected);
    assert_eq!(auth_verdict(Err(StoreError::Database)), AuthVerdict::Unavailable);
    assert_eq!(auth_verdict(Err(StoreError::MalformedHash)), AuthVerdict::Unavailable);
    let mut c = Connection::new();
    c.on_read(login("catie", "aaa"));
    assert!(matches!(c.on_auth(auth_verdict(Err(StoreError::NoSuchUser))), Action::Refuse));
    assert!(c.is_closed());
}

#[test]
fn failed_persistence_ends_connection() {
    let mut c = logged_in("alice", "pw1");
    assert!(matches!(c.on_read(Ok(Datagram::Message(text("alice", "a")))), Action::Relay(_)));
    assert!(matches!(c.on_persisted(true), Action::Ignore));
    assert!(!c.is_closed());
    assert!(matches!(c.on_read(Ok(Datagram::Message(text("alice", "b")))), Action::Relay(_)));
    assert!(matches!(c.on_persisted(false), Action::Close(ServerError::StoreUnavailable)));
    assert!(c.is_closed());
}
