use chat::client::{
    basename, file_content, incoming, is_png_file, login_outcome, outgoing, saved_file_name, ClientError,
    Incoming, UserCommand,
};
use chat::protocol::{ChatMessage, ChatMessageContent, ChatProtocolError, Datagram, ServerResponse};

#[test]
fn test_basename() {
    let z = basename("a/b/c.txt");
    assert_eq!(z, "c.txt");
}

#[test]
fn test_user_command_from_str() {
    assert!(matches!(UserCommand::from_str("this is a text"), UserCommand::Text(_)));

    let file_command = UserCommand::File("test.txt".to_string());
    assert!(UserCommand::from_str(".file test.txt") == file_command);

    let image_command = UserCommand::Image("test.jpg".to_string());
    assert!(UserCommand::from_str(".image test.jpg") == image_command);

    assert!(matches!(UserCommand::from_str(".quit  "), UserCommand::Text(_)));

    assert!(matches!(UserCommand::from_str(".quit"), UserCommand::Quit));
}

#[test]
fn command_arguments_are_trimmed() {
    assert_eq!(UserCommand::from_str(".file   a b.txt  "), UserCommand::File("a b.txt".to_string()));
    assert_eq!(UserCommand::from_str(".image"), UserCommand::Image(String::new()));
    assert_eq!(UserCommand::from_str("hello .quit"), UserCommand::Text("hello .quit".to_string()));
    assert_eq!(UserCommand::from_str(""), UserCommand::Text(String::new()));
}

#[test]
fn basename_falls_back() {
    assert_eq!(basename("/"), "unknown.bin");
    assert_eq!(basename("dir/.."), "unknown.bin");
    assert_eq!(basename("plain"), "plain");
    assert_eq!(saved_file_name(Some("x/y.png".to_string()), "t.png".to_string()), "y.png");
    assert_eq!(saved_file_name(None, "2024-01-01.png".to_string()), "2024-01-01.png");
}

#[test]
fn login_replies() {
    assert_eq!(login_outcome(Ok(Datagram::ServerResponse(ServerResponse::LoginOk))), Ok(()));
    assert_eq!(
        login_outcome(Ok(Datagram::ServerResponse(ServerResponse::LoginFailed))),
        Err(ClientError::LoginFailed)
    );
    assert_eq!(login_outcome(Err(ChatProtocolError::IOError)), Err(ClientError::BrokenStream));
    assert_eq!(login_outcome(Err(ChatProtocolError::MalformedMessage)), Err(ClientError::LoginFailed));
}

#[test]
fn incoming_datagrams() {
    let t = Datagram::Message(ChatMessage::new("alice".to_string(), ChatMessageContent::Text("hi".to_string())));
    match incoming(Ok(t)) {
        Incoming::Show(line) => assert_eq!(line, "[alice] hi"),
        _ => panic!("text is shown"),
    }
    let f = Datagram::Message(ChatMessage::new(
        "bob".to_string(),
        ChatMessageContent::File("a.txt".to_string(), vec![7]),
    ));
    match incoming(Ok(f)) {
        Incoming::SaveFile { sender, filename, data } => {
            assert_eq!((sender.as_str(), filename.as_str(), data), ("bob", "a.txt", vec![7]));
        }
        _ => panic!("files are saved"),
    }
    let i = Datagram::Message(ChatMessage::new("bob".to_string(), ChatMessageContent::Image(vec![9])));
    assert!(matches!(incoming(Ok(i)), Incoming::SaveImage { .. }));
    assert!(matches!(incoming(Ok(Datagram::ServerResponse(ServerResponse::LoginOk))), Incoming::Skip));
    assert!(matches!(incoming(Err(ChatProtocolError::MalformedMessage)), Incoming::Malformed));
    assert!(matches!(incoming(Err(ChatProtocolError::IOError)), Incoming::Disconnected));
}

#[test]
fn outgoing_messages() {
    let d = outgoing("alice", ChatMessageContent::Text("hi".to_string()));
    assert_eq!(
        d,
        Datagram::Message(ChatMessage::new("alice".to_string(), ChatMessageContent::Text("hi".to_string())))
    );
    assert_eq!(file_content("docs/a.txt", vec![1]), ChatMessageContent::File("a.txt".to_string(), vec![1]));
}

#[test]
fn png_files_are_sent_as_they_are() {
    assert!(is_png_file("photo.png"));
    assert!(is_png_file("dir/PHOTO.PNG"));
    assert!(!is_png_file("photo.jpg"));
    assert!(!is_png_file("png"));
    assert!(!is_png_file("photo.Png"));
}

#[test]
fn unicode_white_space_is_trimmed() {
    assert_eq!(
        UserCommand::from_str(".file \u{3000}\tnotes.txt\u{a0}"),
        UserCommand::File("notes.txt".to_string())
    );
}

#[test]
fn dot_files_have_no_extension() {
    assert!(!is_png_file(".png"));
    assert!(is_png_file("dir/.hidden.png"));
    assert!(!is_png_file("photo.png."));
}
