//! The pure side of the chat client: reading a typed line as a command,
//! telling whether a login went through, and deciding what to do with each
//! datagram that the server forwards.
use vstd::prelude::*;
use std::path::Path;
use crate::protocol::{
    ChatMessage, ChatMessageContent, ChatProtocolError, Datagram, DatagramModel, ServerResponse,
};

verus! {

/// Why the client stops, or why a command failed.
#[derive(Clone, Copy, Debug, PartialEq, Eq, Structural)]
pub enum ClientError {
    /// A file to send could not be read or converted.
    FileOperationFailed,
    /// The connection to the server broke.
    BrokenStream,
    /// The server refused the credentials.
    LoginFailed,
}

/// A line typed by the user.
#[derive(Clone, Debug, PartialEq, Eq)]
pub enum UserCommand {
    /// Send the line as text.
    Text(String),
    /// Send the named file.
    File(String),
    /// Send the named image, as PNG.
    Image(String),
    /// Leave.
    Quit,
}

/// Mathematical value of a `UserCommand`.
pub enum CommandModel {
    Text(Seq<char>),
    File(Seq<char>),
    Image(Seq<char>),
    Quit,
}

impl View for UserCommand {
    type V = CommandModel;

    open spec fn view(&self) -> CommandModel {
        match self {
            UserCommand::Text(s) => CommandModel::Text(s@),
            UserCommand::File(s) => CommandModel::File(s@),
            UserCommand::Image(s) => CommandModel::Image(s@),
            UserCommand::Quit => CommandModel::Quit,
        }
    }
}

/// A character with the Unicode White_Space property, as `char::is_whitespace`
/// tells them.
pub open spec fn is_white_space(c: char) -> bool {
    let u = c as u32;
    (0x9 <= u <= 0xd) || u == 0x20 || u == 0x85 || u == 0xa0 || u == 0x1680 || (0x2000 <= u
        <= 0x200a) || u == 0x2028 || u == 0x2029 || u == 0x202f || u == 0x205f || u == 0x3000
}

pub open spec fn trim_start(s: Seq<char>) -> Seq<char>
    decreases s.len(),
{
    if s.len() > 0 && is_white_space(s[0]) {
        trim_start(s.drop_first())
    } else {
        s
    }
}

pub open spec fn trim_end(s: Seq<char>) -> Seq<char>
    decreases s.len(),
{
    if s.len() > 0 && is_white_space(s.last()) {
        trim_end(s.drop_last())
    } else {
        s
    }
}

/// A string without its leading and trailing white space.
pub open spec fn trimmed(s: Seq<char>) -> Seq<char> {
    trim_end(trim_start(s))
}

/// What `Path::file_name` gives for a path: its last component, if any.
pub uninterp spec fn file_name_of(path: Seq<char>) -> Option<Seq<char>>;

/// Relies on `str::trim`, which removes leading and trailing characters with
/// the White_Space property.
#[verifier::external_body]
fn trim(s: &str) -> (r: &str)
    ensures
        r@ == trimmed(s@),
{
    s.trim()
}

/// Relies on `Path::file_name`; the name of a path given as a `str` is itself
/// valid text.
#[verifier::external_body]
fn file_name(path: &str) -> (r: Option<String>)
    ensures
        match r {
            Some(n) => file_name_of(path@) == Some(n@),
            None => file_name_of(path@) is None,
        },
{
    Path::new(path).file_name().and_then(|n| n.to_str()).map(|n| n.to_string())
}

pub open spec fn quit_word() -> Seq<char> {
    seq!['.', 'q', 'u', 'i', 't']
}

pub open spec fn file_word() -> Seq<char> {
    seq!['.', 'f', 'i', 'l', 'e']
}

pub open spec fn image_word() -> Seq<char> {
    seq!['.', 'i', 'm', 'a', 'g', 'e']
}

/// `k` is the position of the first space in `s`.
pub open spec fn is_first_space(s: Seq<char>, k: int) -> bool {
    0 <= k < s.len() && s[k] == ' ' && forall|j: int| 0 <= j < k ==> s[j] != ' '
}

/// A line split at its first space into a command word and the rest, the rest
/// keeping one trailing space; a line without spaces is all command word.
pub open spec fn command_parts(line: Seq<char>) -> (Seq<char>, Seq<char>) {
    if exists|k: int| is_first_space(line, k) {
        let k = choose|k: int| is_first_space(line, k);
        (line.take(k), line.skip(k + 1) + seq![' '])
    } else {
        (line, Seq::empty())
    }
}

/// The command a typed line stands for.
pub open spec fn command_of(line: Seq<char>) -> CommandModel {
    let (word, rest) = command_parts(line);
    if word == quit_word() && rest.len() == 0 {
        CommandModel::Quit
    } else if word == file_word() {
        CommandModel::File(trimmed(rest))
    } else if word == image_word() {
        CommandModel::Image(trimmed(rest))
    } else {
        CommandModel::Text(line)
    }
}

/// Whether two strings hold the same characters.
pub(crate) fn same_chars(a: &str, b: &str) -> (r: bool)
    ensures
        r == (a@ == b@),
{
    let n = a.unicode_len();
    if n != b.unicode_len() {
        return false;
    }
    let mut i: usize = 0;
    while i < n
        invariant
            n == a@.len() == b@.len(),
            i <= n,
            forall|j: int| 0 <= j < i ==> a@[j] == b@[j],
        decreases n - i,
    {
        if a.get_char(i) != b.get_char(i) {
            return false;
        }
        i = i + 1;
    }
    assert(a@ =~= b@);
    true
}

impl UserCommand {
    /// Reads a typed line: `.quit` alone leaves, `.file <name>` and
    /// `.image <name>` send a file or an image, and anything else is text.
    pub fn from_str(line: &str) -> (r: UserCommand)
        ensures
            r@ == command_of(line@),
    {
        let n = line.unicode_len();
        let mut k: usize = 0;
        while k < n && line.get_char(k) != ' '
            invariant
                n == line@.len(),
                k <= n,
                forall|j: int| 0 <= j < k ==> line@[j] != ' ',
            decreases n - k,
        {
            k = k + 1;
        }
        let word: &str;
        let rest: String;
        if k < n {
            assert(is_first_space(line@, k as int));
            proof {
                let c = choose|c: int| is_first_space(line@, c);
                assert(c == k) by {
                    if c < k {
                        assert(line@[c] != ' ');
                    } else if c > k {
                        assert(line@[k as int] != ' ');
                    }
                }
            }
            proof {
                reveal_strlit(" ");
            }
            word = line.substring_char(0, k);
            rest = String::from_str(line.substring_char(k + 1, n)).concat(" ");
            assert(word@ =~= line@.take(k as int));
            assert(rest@ =~= line@.skip(k + 1) + seq![' ']);
        } else {
            assert(!exists|c: int| is_first_space(line@, c));
            word = line;
            rest = String::new();
        }
        proof {
            reveal_strlit(".quit");
            reveal_strlit(".file");
            reveal_strlit(".image");
        }
        assert(".quit"@ =~= quit_word());
        assert(".file"@ =~= file_word());
        assert(".image"@ =~= image_word());
        if same_chars(word, ".quit") && rest.unicode_len() == 0 {
            UserCommand::Quit
        } else if same_chars(word, ".file") {
            UserCommand::File(String::from_str(trim(rest.as_str())))
        } else if same_chars(word, ".image") {
            UserCommand::Image(String::from_str(trim(rest.as_str())))
        } else {
            UserCommand::Text(String::from_str(line))
        }
    }
}

/// The position of the last dot in `s`, or -1 when there is none.
pub open spec fn last_dot(s: Seq<char>) -> int
    decreases s.len(),
{
    if s.len() == 0 {
        -1
    } else if s.last() == '.' {
        s.len() - 1
    } else {
        last_dot(s.drop_last())
    }
}

/// What `Path::extension` gives for a path: the text after the last dot of
/// its file name, unless the name has no dot or starts with its only one.
pub open spec fn extension_of(path: Seq<char>) -> Option<Seq<char>> {
    match file_name_of(path) {
        None => None,
        Some(n) => if last_dot(n) <= 0 {
            None
        } else {
            Some(n.skip(last_dot(n) + 1))
        },
    }
}

/// Relies on `Path::extension`, which splits the file name at its last dot;
/// the extension of a path given as a `str` is itself valid text.
#[verifier::external_body]
fn extension(path: &str) -> (r: Option<String>)
    ensures
        match r {
            Some(e) => extension_of(path@) == Some(e@),
            None => extension_of(path@) is None,
        },
{
    Path::new(path).extension().and_then(|e| e.to_str()).map(|e| e.to_string())
}

/// Whether an image file is sent as it is: its extension is `png` or `PNG`;
/// any other image is converted to PNG first.
pub fn is_png_file(filename: &str) -> (r: bool)
    ensures
        r == (extension_of(filename@) == Some(seq!['p', 'n', 'g']) || extension_of(filename@)
            == Some(seq!['P', 'N', 'G'])),
{
    match extension(filename) {
        Some(e) => {
            proof {
                reveal_strlit("png");
                reveal_strlit("PNG");
            }
            assert("png"@ =~= seq!['p', 'n', 'g']);
            assert("PNG"@ =~= seq!['P', 'N', 'G']);
            same_chars(e.as_str(), "png") || same_chars(e.as_str(), "PNG")
        },
        None => false,
    }
}

/// The name a received file is saved under.
pub open spec fn basename_of(path: Seq<char>) -> Seq<char> {
    match file_name_of(path) {
        Some(n) => n,
        None => seq!['u', 'n', 'k', 'n', 'o', 'w', 'n', '.', 'b', 'i', 'n'],
    }
}

/// The last component of a path, or `unknown.bin` when it has none.
pub fn basename(filename: &str) -> (r: String)
    ensures
        r@ == basename_of(filename@),
{
    match file_name(filename) {
        Some(n) => n,
        None => {
            proof {
                reveal_strlit("unknown.bin");
            }
            let r = String::from_str("unknown.bin");
            assert(r@ =~= seq!['u', 'n', 'k', 'n', 'o', 'w', 'n', '.', 'b', 'i', 'n']);
            r
        },
    }
}

/// The name under which a received file is saved: the base name of the
/// sender's file name, or of `fallback` (a time stamp) for an image.
pub fn saved_file_name(filename: Option<String>, fallback: String) -> (r: String)
    ensures
        r@ == basename_of(
            match filename {
                Some(f) => f@,
                None => fallback@,
            },
        ),
{
    match filename {
        Some(f) => basename(f.as_str()),
        None => basename(fallback.as_str()),
    }
}

/// Whether the server's reply to a login lets the client in.
pub fn login_outcome(reply: Result<Datagram, ChatProtocolError>) -> (r: Result<(), ClientError>)
    ensures
        match reply {
            Ok(d) => if d@ == DatagramModel::ServerResponse(ServerResponse::LoginOk) {
                r is Ok
            } else {
                r == Err::<(), ClientError>(ClientError::LoginFailed)
            },
            Err(ChatProtocolError::IOError) => r == Err::<(), ClientError>(
                ClientError::BrokenStream,
            ),
            Err(ChatProtocolError::MalformedMessage) => r == Err::<(), ClientError>(
                ClientError::LoginFailed,
            ),
        },
{
    match reply {
        Ok(Datagram::ServerResponse(ServerResponse::LoginOk)) => Ok(()),
        Ok(_) => Err(ClientError::LoginFailed),
        Err(ChatProtocolError::IOError) => Err(ClientError::BrokenStream),
        Err(ChatProtocolError::MalformedMessage) => Err(ClientError::LoginFailed),
    }
}

/// The datagram that sends `content` as the logged-in user.
pub fn outgoing(username: &str, content: ChatMessageContent) -> (r: Datagram)
    ensures
        r@ == DatagramModel::Message(
            crate::protocol::MessageModel { sender: username@, content: content@ },
        ),
{
    Datagram::Message(ChatMessage { sender: String::from_str(username), content })
}

/// The content that sends a file: its base name and its bytes.
pub fn file_content(filename: &str, data: Vec<u8>) -> (r: ChatMessageContent)
    ensures
        r@ == crate::protocol::ContentModel::File(basename_of(filename@), data@),
{
    ChatMessageContent::File(basename(filename), data)
}

/// What the client does with one read from the server.
pub enum Incoming {
    /// Print this line.
    Show(String),
    /// Save an image from `sender` under the image directory.
    SaveImage { sender: String, data: Vec<u8> },
    /// Save a file from `sender` under the file directory.
    SaveFile { sender: String, filename: String, data: Vec<u8> },
    /// Nothing to show.
    Skip,
    /// Warn that a malformed datagram arrived, and read on.
    Malformed,
    /// The connection is gone: stop.
    Disconnected,
}

/// The line shown for a text message: `[sender] text`.
pub open spec fn text_line(sender: Seq<char>, text: Seq<char>) -> Seq<char> {
    seq!['['] + sender + seq![']', ' '] + text
}

/// Decides what to do with one read from the server.
pub fn incoming(r: Result<Datagram, ChatProtocolError>) -> (a: Incoming)
    ensures
        match r {
            Ok(Datagram::Message(ChatMessage { sender, content })) => match content {
                ChatMessageContent::Text(t) => (a matches Incoming::Show(line) && line@
                    == text_line(sender@, t@)),
                ChatMessageContent::Image(d) => (a matches Incoming::SaveImage { sender: s, data }
                    && s@ == sender@ && data@ == d@),
                ChatMessageContent::File(n, d) => (a matches Incoming::SaveFile {
                    sender: s,
                    filename,
                    data,
                } && s@ == sender@ && filename@ == n@ && data@ == d@),
            },
            Ok(_) => a is Skip,
            Err(ChatProtocolError::MalformedMessage) => a is Malformed,
            Err(ChatProtocolError::IOError) => a is Disconnected,
        },
{
    match r {
        Ok(Datagram::Message(ChatMessage { sender, content })) => match content {
            ChatMessageContent::Text(t) => {
                proof {
                    reveal_strlit("[");
                    reveal_strlit("] ");
                }
                let line = String::from_str("[").concat(sender.as_str()).concat("] ").concat(
                    t.as_str(),
                );
                assert(line@ =~= text_line(sender@, t@));
                Incoming::Show(line)
            },
            ChatMessageContent::Image(data) => Incoming::SaveImage { sender, data },
            ChatMessageContent::File(filename, data) => Incoming::SaveFile {
                sender,
                filename,
                data,
            },
        },
        Ok(_) => Incoming::Skip,
        Err(ChatProtocolError::MalformedMessage) => Incoming::Malformed,
        Err(ChatProtocolError::IOError) => Incoming::Disconnected,
    }
}

} // verus!
