//! How a second start of the program wakes the one that runs: the name of the socket, and the frame
//! of a message, four bytes of length, the lowest first, in front of the body.

use vstd::prelude::*;

use crate::text;
use crate::text::{ends_with, push_decimal, starts_with};

verus! {

/// The longest body of a message. A message holds a path, for which this is ample.
pub const MAX_WAKE_MESSAGE_SIZE: usize = 65536;

/// How long to wait for the other side, in milliseconds.
pub const CONNECT_TIMEOUT_MS: u64 = 250;

/// A body is longer than a message may be.
#[derive(Clone, Copy, Debug, PartialEq, Eq, Structural)]
pub struct Oversize {
    /// The length of the body.
    pub length: usize,
}

/// What is said of a body that is too long.
pub open spec fn oversize_text(length: nat) -> Seq<char> {
    "GUI wake message exceeds 65536 bytes: "@ + text::decimal(length)
}

impl Oversize {
    /// What is said of the body.
    pub fn message(&self) -> (r: String)
        ensures
            r@ == oversize_text(self.length as nat),
    {
        let mut r: String = "GUI wake message exceeds 65536 bytes: ".to_owned();
        push_decimal(&mut r, self.length as u64);
        r
    }
}

/// A number as four bytes, the lowest first.
pub open spec fn length_bytes(n: nat) -> Seq<u8> {
    seq![
        (n % 256) as u8,
        (n / 256 % 256) as u8,
        (n / 65536 % 256) as u8,
        (n / 16777216 % 256) as u8,
    ]
}

/// The number that four bytes make, the lowest first.
pub open spec fn length_of(b: Seq<u8>) -> nat {
    (b[0] + 256 * b[1] + 65536 * b[2] + 16777216 * b[3]) as nat
}

/// A message: the length of the body, then the body.
pub open spec fn framed(body: Seq<u8>) -> Seq<u8> {
    length_bytes(body.len()) + body
}

/// The message with this body, unless it is too long.
pub fn frame(body: &Vec<u8>) -> (r: Result<Vec<u8>, Oversize>)
    ensures
        match r {
            Ok(message) => body@.len() <= MAX_WAKE_MESSAGE_SIZE && message@ == framed(body@),
            Err(e) => body@.len() > MAX_WAKE_MESSAGE_SIZE && e.length == body@.len(),
        },
{
    let n: usize = body.len();
    if n > MAX_WAKE_MESSAGE_SIZE {
        return Err(Oversize { length: n });
    }
    let mut message: Vec<u8> = Vec::new();
    message.push((n % 256) as u8);
    message.push((n / 256 % 256) as u8);
    message.push((n / 65536 % 256) as u8);
    message.push((n / 16777216 % 256) as u8);
    assert(message@ =~= length_bytes(n as nat));
    let mut i: usize = 0;
    assert(body@.take(0) =~= seq![]);
    while i < n
        invariant
            i <= n == body@.len(),
            message@ == length_bytes(n as nat) + body@.take(i as int),
        decreases n - i,
    {
        message.push(body[i]);
        assert(body@.take(i + 1) =~= body@.take(i as int).push(body@[i as int]));
        assert(message@ =~= length_bytes(n as nat) + body@.take(i + 1));
        i = i + 1;
    }
    assert(body@.take(i as int) =~= body@);
    Ok(message)
}

/// The length of the body that follows a header, unless it is too long.
pub fn body_length(header: [u8; 4]) -> (r: Result<usize, Oversize>)
    ensures
        match r {
            Ok(n) => n == length_of(header@) && n <= MAX_WAKE_MESSAGE_SIZE,
            Err(e) => e.length == length_of(header@) && e.length > MAX_WAKE_MESSAGE_SIZE,
        },
{
    let n: u32 = header[0] as u32 + 256 * (header[1] as u32) + 65536 * (header[2] as u32) + 16777216
        * (header[3] as u32);
    let length: usize = n as usize;
    if length > MAX_WAKE_MESSAGE_SIZE {
        Err(Oversize { length })
    } else {
        Ok(length)
    }
}

/// The header of a message gives the length of its body, and what follows the header is the body.
pub proof fn a_message_can_be_read_back(body: Seq<u8>)
    requires
        body.len() <= MAX_WAKE_MESSAGE_SIZE,
    ensures
        length_of(framed(body).take(4)) == body.len(),
        framed(body).skip(4) == body,
{
    let n = body.len();
    assert(framed(body).take(4) =~= length_bytes(n));
    assert(framed(body).skip(4) =~= body);
    assert(n % 256 + 256 * (n / 256 % 256) + 65536 * (n / 65536 % 256) + 16777216 * (n / 16777216
        % 256) == n);
}

/// The name of the directory that holds a user's sockets.
pub open spec fn runtime_dir_name(uid: u32) -> Seq<char> {
    "eggie-"@ + text::decimal(uid as nat)
}

/// The name of the socket. It holds the version of the protocol, so that programs of different
/// versions do not wake each other.
pub open spec fn socket_name(version: u64) -> Seq<char> {
    "gui-v"@ + text::decimal(version as nat) + ".sock"@
}

/// `dir`, a separator unless it ends with one or is empty, and `name`.
pub open spec fn joined(dir: Seq<char>, name: Seq<char>) -> Seq<char> {
    if dir.len() == 0 || dir.last() == '/' {
        dir + name
    } else {
        dir.push('/') + name
    }
}

fn push_component(path: &mut String, name: &str)
    ensures
        final(path)@ == joined(old(path)@, name@),
{
    let s: Vec<char> = text::chars_of(path.as_str());
    if s.len() > 0 && s[s.len() - 1] != '/' {
        path.push('/');
    }
    path.append(name);
    assert(path@ =~= joined(old(path)@, name@));
}

/// Where the socket of the program lies.
pub fn gui_socket_path(temp_dir: &str, uid: u32, version: u64) -> (r: String)
    ensures
        r@ == joined(joined(temp_dir@, runtime_dir_name(uid)), socket_name(version)),
{
    let mut dir: String = "eggie-".to_owned();
    push_decimal(&mut dir, uid as u64);
    let mut name: String = "gui-v".to_owned();
    push_decimal(&mut name, version);
    name.append(".sock");
    let mut path: String = temp_dir.to_owned();
    push_component(&mut path, dir.as_str());
    push_component(&mut path, name.as_str());
    path
}

/// Whether a file is a socket of this kind, of whatever version.
pub open spec fn is_socket_name(name: Seq<char>) -> bool {
    text::has_prefix(name, "gui-v"@) && text::has_suffix(name, ".sock"@)
}

/// Whether a file is a socket of this kind, of whatever version.
pub fn is_gui_socket(name: &str) -> (r: bool)
    ensures
        r == is_socket_name(name@),
{
    starts_with(name, "gui-v") && ends_with(name, ".sock")
}

/// Whether a file of the directory is left over: a socket of this kind that nobody listens on.
pub fn is_stale(name: &str, answers: bool) -> (r: bool)
    ensures
        r == (is_socket_name(name@) && !answers),
{
    is_gui_socket(name) && !answers
}

/// A socket is known by its name, whatever the version.
pub proof fn a_socket_is_known_by_its_name(version: u64)
    ensures
        is_socket_name(socket_name(version)),
{
    let name = socket_name(version);
    let prefix = "gui-v"@;
    let suffix = ".sock"@;
    assert(name.take(prefix.len() as int) =~= prefix);
    assert(name.skip(name.len() - suffix.len()) =~= suffix);
}

/// The socket of the background service is not one of this kind.
pub proof fn a_service_socket_is_left_alone(name: Seq<char>)
    requires
        text::has_prefix(name, "daemon-"@),
    ensures
        !is_socket_name(name),
{
    reveal_strlit("gui-v");
    reveal_strlit("daemon-");
    assert("gui-v"@[0] == 'g' && "daemon-"@[0] == 'd');
    if text::has_prefix(name, "gui-v"@) {
        assert(name.take("gui-v"@.len() as int)[0] == name[0]);
        assert(name.take("daemon-"@.len() as int)[0] == name[0]);
    }
}

/// The length of a message goes before it in four bytes, the lowest first.
pub proof fn a_length_is_sent_from_its_lowest_byte(n: nat)
    requires
        n < 0x1_0000_0000,
    ensures
        length_bytes(n).len() == 4,
        length_bytes(n)[0] + 256 * length_bytes(n)[1] + 65536 * length_bytes(n)[2] + 16777216
            * length_bytes(n)[3] == n,
        framed(seq![]).len() == 4,
{
    let a = n % 256;
    let b = n / 256 % 256;
    let c = n / 65536 % 256;
    let d = n / 16777216 % 256;
    assert(n / 65536 == n / 256 / 256) by (nonlinear_arith);
    assert(n / 16777216 == n / 256 / 256 / 256) by (nonlinear_arith);
}

/// A message that is too long is told with its length.
pub proof fn a_long_message_is_told_with_its_length(length: nat)
    ensures
        text::has_prefix(oversize_text(length), "GUI wake message exceeds 65536 bytes: "@),
        text::number_of(
            oversize_text(length).skip("GUI wake message exceeds 65536 bytes: "@.len() as int),
        ) == length,
{
    let front = "GUI wake message exceeds 65536 bytes: "@;
    let whole = oversize_text(length);
    text::a_decimal_form_reads_as_its_number(length);
    text::a_text_begins_with_its_front(front, text::decimal(length), front);
    assert(whole.skip(front.len() as int) =~= text::decimal(length));
}

/// Every user has a directory of their own, and every version a socket of its own.
pub proof fn users_and_versions_are_kept_apart(a: u32, b: u32, v: u64, w: u64)
    ensures
        text::has_prefix(runtime_dir_name(a), "eggie-"@),
        runtime_dir_name(a) == runtime_dir_name(b) ==> a == b,
        text::number_of(runtime_dir_name(a).skip(6)) == a,
        socket_name(v) == socket_name(w) ==> v == w,
        text::number_of(socket_name(v).subrange(5, socket_name(v).len() - 5)) == v,
{
    reveal_strlit("eggie-");
    reveal_strlit("gui-v");
    reveal_strlit(".sock");
    text::a_decimal_form_reads_as_its_number(a as nat);
    text::a_decimal_form_reads_as_its_number(b as nat);
    text::a_decimal_form_reads_as_its_number(v as nat);
    text::a_decimal_form_reads_as_its_number(w as nat);
    text::a_text_begins_with_its_front("eggie-"@, text::decimal(a as nat), "eggie-"@);
    assert(runtime_dir_name(a).skip(6) =~= text::decimal(a as nat));
    assert(runtime_dir_name(b).skip(6) =~= text::decimal(b as nat));
    assert(socket_name(v).subrange(5, socket_name(v).len() - 5) =~= text::decimal(v as nat));
    assert(socket_name(w).subrange(5, socket_name(w).len() - 5) =~= text::decimal(w as nat));
}

/// A name is joined to a directory with one separator, which is not doubled.
pub proof fn a_name_is_joined_with_one_separator(dir: Seq<char>, name: Seq<char>)
    ensures
        joined(seq![], name) == name,
        joined(dir.push('/'), name) == dir.push('/') + name,
        dir.len() > 0 && dir.last() != '/' ==> joined(dir, name) == dir + seq!['/'] + name,
{
    assert(dir.push('/').last() == '/');
    assert(seq![] + name =~= name);
    assert(dir.push('/') =~= dir + seq!['/']);
}

} // verus!
