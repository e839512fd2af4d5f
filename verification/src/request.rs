//! The exchange between the library and its host: what the library asks the
//! operating system to do, and what comes back.
use vstd::prelude::*;

verus! {

/// Bytes hold nothing below their surface.
pub broadcast proof fn bytes_are_their_items(bytes: Vec<u8>)
    ensures
        #[trigger] bytes.deep_view() == bytes@,
{
    assert(bytes.deep_view() =~= bytes@);
}

/// A word handed to the operating system: text of this program, or raw bytes
/// that the operating system itself supplied.
#[derive(Debug, PartialEq, Eq)]
pub enum Word {
    Text(String),
    Raw(Vec<u8>),
}

/// What a [`Word`] stands for.
pub enum WordView {
    Text(Seq<char>),
    Raw(Seq<u8>),
}

impl DeepView for Word {
    type V = WordView;

    open spec fn deep_view(&self) -> WordView {
        match self {
            Word::Text(text) => WordView::Text(text@),
            Word::Raw(bytes) => WordView::Raw(bytes@),
        }
    }
}

/// What sort of thing a path or an open file is.
#[derive(Clone, Copy, Debug, PartialEq, Eq, Structural)]
pub enum FileKind {
    Directory,
    Regular,
    Other,
}

/// One thing that the host is asked to do.
///
/// The host keeps at most one child process, one open file and one connection;
/// a request that starts or opens another replaces the one before. Every
/// request may be answered by [`Reply::Error`] except those said to be answered
/// by [`Reply::Flag`] and the two that print; the other answer is named with
/// each request.
#[derive(Debug, PartialEq, Eq)]
pub enum Request {
    /// Run a program to its end: [`Reply::Exited`].
    Run { program: String, arguments: Vec<Word> },
    /// Run a program to its end and discard its standard output:
    /// [`Reply::Exited`].
    RunQuietly { program: String, arguments: Vec<Word> },
    /// Start a program as the child process, with a pipe as its standard input:
    /// [`Reply::Done`].
    Start { program: String },
    /// Whether the pipe to the child process is there: [`Reply::Flag`].
    HasInput,
    /// Write text to the pipe of the child process: [`Reply::Done`].
    WriteInput { text: String },
    /// Close the pipe and wait for the child process: [`Reply::Exited`].
    Wait,
    /// The kind of what stands at a path, without following a final link:
    /// [`Reply::Kind`].
    LinkKind { path: String },
    /// Whether anything stands at a path, links followed: [`Reply::Flag`].
    Exists { place: Word },
    /// Whether a directory stands at a path, links followed: [`Reply::Flag`].
    IsDirectory { place: Word },
    /// Whether a regular file stands at a path, links followed: [`Reply::Flag`].
    IsFile { place: Word },
    /// Create a directory and every missing parent: [`Reply::Done`].
    CreateDirectories { path: String },
    /// Open a directory for reading, refusing a final link: [`Reply::Done`].
    OpenDirectory { path: String },
    /// Open a file for reading and writing, refusing a final link:
    /// [`Reply::Done`].
    OpenFile { path: String },
    /// Create a file that must not exist, open for reading and writing, refusing
    /// a final link: [`Reply::Done`].
    CreateFile { path: String },
    /// Open a file for writing and empty it, refusing a final link:
    /// [`Reply::Done`].
    OpenEmptied { path: String },
    /// Open a file for reading: [`Reply::Done`].
    OpenReadable { path: String },
    /// The kind of the open file: [`Reply::Kind`].
    OpenKind,
    /// Set the permission bits of the open file: [`Reply::Done`].
    SetMode { mode: u32 },
    /// Write all of a text to the open file: [`Reply::Done`].
    WriteContents { text: String },
    /// Read one byte from the open file: [`Reply::Byte`].
    ReadByte,
    /// The target of a symbolic link: [`Reply::Bytes`].
    ReadLink { path: String },
    /// Create a symbolic link: [`Reply::Done`].
    CreateLink { link: String, target: String },
    /// Remove a directory and all below it: [`Reply::Done`].
    RemoveTree { path: String },
    /// An extended attribute of the open file: [`Reply::Bytes`], or
    /// [`Reply::Absent`] where it is not set.
    GetAttribute { name: String },
    /// Set an extended attribute of the open file: [`Reply::Done`].
    SetAttribute { name: String, value: Vec<u8> },
    /// Remove an extended attribute of the open file: [`Reply::Done`].
    RemoveAttribute { name: String },
    /// The names of the entries of a directory: [`Reply::Names`].
    ListDirectory { directory: Vec<u8> },
    /// Print a line to standard output: [`Reply::Done`].
    Print { line: String },
    /// Print a line to standard error: [`Reply::Done`].
    PrintError { line: String },
    /// Take a text for the socket address of the next connection:
    /// [`Reply::Done`].
    ParseAddress { address: String },
    /// Connect to the address taken last, within some seconds: [`Reply::Done`].
    Connect { seconds: u64 },
    /// Bound each read on the connection: [`Reply::Done`].
    SetReadTimeout { seconds: u64 },
    /// Bound each write on the connection: [`Reply::Done`].
    SetWriteTimeout { seconds: u64 },
    /// Write all of a text to the connection: [`Reply::Done`].
    Send { text: String },
    /// Read from the connection to its end, but no more than some bytes:
    /// [`Reply::Bytes`].
    Receive { limit: u64 },
}

/// What a [`Request`] stands for.
pub enum RequestView {
    Run { program: Seq<char>, arguments: Seq<WordView> },
    RunQuietly { program: Seq<char>, arguments: Seq<WordView> },
    Start { program: Seq<char> },
    HasInput,
    WriteInput { text: Seq<char> },
    Wait,
    LinkKind { path: Seq<char> },
    Exists { place: WordView },
    IsDirectory { place: WordView },
    IsFile { place: WordView },
    CreateDirectories { path: Seq<char> },
    OpenDirectory { path: Seq<char> },
    OpenFile { path: Seq<char> },
    CreateFile { path: Seq<char> },
    OpenEmptied { path: Seq<char> },
    OpenReadable { path: Seq<char> },
    OpenKind,
    SetMode { mode: u32 },
    WriteContents { text: Seq<char> },
    ReadByte,
    ReadLink { path: Seq<char> },
    CreateLink { link: Seq<char>, target: Seq<char> },
    RemoveTree { path: Seq<char> },
    GetAttribute { name: Seq<char> },
    SetAttribute { name: Seq<char>, value: Seq<u8> },
    RemoveAttribute { name: Seq<char> },
    ListDirectory { directory: Seq<u8> },
    Print { line: Seq<char> },
    PrintError { line: Seq<char> },
    ParseAddress { address: Seq<char> },
    Connect { seconds: u64 },
    SetReadTimeout { seconds: u64 },
    SetWriteTimeout { seconds: u64 },
    Send { text: Seq<char> },
    Receive { limit: u64 },
}

impl View for Request {
    type V = RequestView;

    open spec fn view(&self) -> RequestView {
        match self {
            Request::Run { program, arguments } => RequestView::Run {
                program: program@,
                arguments: arguments.deep_view(),
            },
            Request::RunQuietly { program, arguments } => RequestView::RunQuietly {
                program: program@,
                arguments: arguments.deep_view(),
            },
            Request::Start { program } => RequestView::Start { program: program@ },
            Request::HasInput => RequestView::HasInput,
            Request::WriteInput { text } => RequestView::WriteInput { text: text@ },
            Request::Wait => RequestView::Wait,
            Request::LinkKind { path } => RequestView::LinkKind { path: path@ },
            Request::Exists { place } => RequestView::Exists { place: place.deep_view() },
            Request::IsDirectory { place } => RequestView::IsDirectory { place: place.deep_view() },
            Request::IsFile { place } => RequestView::IsFile { place: place.deep_view() },
            Request::CreateDirectories { path } => RequestView::CreateDirectories { path: path@ },
            Request::OpenDirectory { path } => RequestView::OpenDirectory { path: path@ },
            Request::OpenFile { path } => RequestView::OpenFile { path: path@ },
            Request::CreateFile { path } => RequestView::CreateFile { path: path@ },
            Request::OpenEmptied { path } => RequestView::OpenEmptied { path: path@ },
            Request::OpenReadable { path } => RequestView::OpenReadable { path: path@ },
            Request::OpenKind => RequestView::OpenKind,
            Request::SetMode { mode } => RequestView::SetMode { mode: *mode },
            Request::WriteContents { text } => RequestView::WriteContents { text: text@ },
            Request::ReadByte => RequestView::ReadByte,
            Request::ReadLink { path } => RequestView::ReadLink { path: path@ },
            Request::CreateLink { link, target } => RequestView::CreateLink {
                link: link@,
                target: target@,
            },
            Request::RemoveTree { path } => RequestView::RemoveTree { path: path@ },
            Request::GetAttribute { name } => RequestView::GetAttribute { name: name@ },
            Request::SetAttribute { name, value } => RequestView::SetAttribute {
                name: name@,
                value: value@,
            },
            Request::RemoveAttribute { name } => RequestView::RemoveAttribute { name: name@ },
            Request::ListDirectory { directory } => RequestView::ListDirectory {
                directory: directory@,
            },
            Request::Print { line } => RequestView::Print { line: line@ },
            Request::PrintError { line } => RequestView::PrintError { line: line@ },
            Request::ParseAddress { address } => RequestView::ParseAddress { address: address@ },
            Request::Connect { seconds } => RequestView::Connect { seconds: *seconds },
            Request::SetReadTimeout { seconds } => RequestView::SetReadTimeout {
                seconds: *seconds,
            },
            Request::SetWriteTimeout { seconds } => RequestView::SetWriteTimeout {
                seconds: *seconds,
            },
            Request::Send { text } => RequestView::Send { text: text@ },
            Request::Receive { limit } => RequestView::Receive { limit: *limit },
        }
    }
}

/// The host's answer to one request.
#[derive(Debug, PartialEq, Eq)]
pub enum Reply {
    /// It was done.
    Done,
    /// A program ended: its exit code, if it exited, and its status in words.
    Exited { code: Option<i32>, status: String },
    /// Yes or no.
    Flag(bool),
    /// The kind of a file.
    Kind(FileKind),
    /// Some bytes.
    Bytes(Vec<u8>),
    /// The attribute is not set.
    Absent,
    /// One byte.
    Byte(u8),
    /// The names of directory entries.
    Names(Vec<Vec<u8>>),
    /// The operating system refused; whether because nothing stands there, and
    /// its reason in words.
    Error { not_found: bool, cause: String },
}

/// What a [`Reply`] stands for.
pub enum ReplyView {
    Done,
    Exited { code: Option<i32>, status: Seq<char> },
    Flag(bool),
    Kind(FileKind),
    Bytes(Seq<u8>),
    Absent,
    Byte(u8),
    Names(Seq<Seq<u8>>),
    Error { not_found: bool, cause: Seq<char> },
}

impl View for Reply {
    type V = ReplyView;

    open spec fn view(&self) -> ReplyView {
        match self {
            Reply::Done => ReplyView::Done,
            Reply::Exited { code, status } => ReplyView::Exited { code: *code, status: status@ },
            Reply::Flag(flag) => ReplyView::Flag(*flag),
            Reply::Kind(kind) => ReplyView::Kind(*kind),
            Reply::Bytes(bytes) => ReplyView::Bytes(bytes@),
            Reply::Absent => ReplyView::Absent,
            Reply::Byte(byte) => ReplyView::Byte(*byte),
            Reply::Names(names) => ReplyView::Names(names.deep_view()),
            Reply::Error { not_found, cause } => ReplyView::Error {
                not_found: *not_found,
                cause: cause@,
            },
        }
    }
}

} // verus!
