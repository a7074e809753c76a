//! The wire: frames, messages, and where the socket may be.
//!
//! A client here is what a connection needs to remember. Bytes are written
//! and read elsewhere.
use crate::json::{
    integers_are_integral, object_is_readable, object_of, pairs_of, parsed_text, put,
    reading_depth, rendered, Json, Tree,
};
use crate::text::{glue, decimal, decimal_int, join_path, joined, write_u64};
use vstd::prelude::*;
use vstd::utf8::encode_utf8;

verus! {

/// The operation of a handshake.
pub const OP_HANDSHAKE: u32 = 0;

/// The operation of every other message.
pub const OP_FRAME: u32 = 1;

/// How large a reply may be. Real ones have kilobytes; anything larger means
/// that the stream is out of step.
pub const MAX_REPLY_BYTES: u32 = 1_048_576;

/// How many sockets are tried in each directory.
pub const MAX_IPC_SOCKETS: u8 = 10;

/// What is told when no socket answers.
pub const NO_SOCKET_MESSAGE: &'static str = "no Discord IPC socket found (is Discord running?)";

/// A number in four bytes, the lowest first.
pub open spec fn little_endian(n: nat) -> Seq<u8> {
    seq![
        (n % 256) as u8,
        (n / 256 % 256) as u8,
        (n / 65536 % 256) as u8,
        (n / 16777216 % 256) as u8,
    ]
}

/// The number in four bytes, the lowest first.
pub open spec fn from_little_endian(bytes: Seq<u8>) -> nat {
    (bytes[0] + bytes[1] * 256 + bytes[2] * 65536 + bytes[3] * 16777216) as nat
}

/// A frame: the operation, the length of the payload, the payload. The length
/// is written modulo its four bytes.
pub open spec fn frame(op: u32, payload: Seq<char>) -> Seq<u8> {
    little_endian(op as nat) + little_endian(encode_utf8(payload).len() % 0x1_0000_0000)
        + encode_utf8(payload)
}

/// Four bytes give back the number that was written into them.
pub proof fn little_endian_reads_back(n: nat)
    requires
        n < 0x1_0000_0000,
    ensures
        from_little_endian(little_endian(n)) == n,
        little_endian(n).len() == 4,
{
    let a = n % 256;
    let b = n / 256 % 256;
    let c = n / 65536 % 256;
    let d = n / 16777216 % 256;
    assert(n == a + b * 256 + c * 65536 + d * 16777216);
}

/// Appends a number in four bytes.
fn push_le(out: &mut Vec<u8>, n: u32)
    ensures
        final(out)@ == old(out)@ + little_endian(n as nat),
{
    out.push((n % 256) as u8);
    out.push((n / 256 % 256) as u8);
    out.push((n / 65536 % 256) as u8);
    out.push((n / 16777216 % 256) as u8);
    assert(out@ =~= old(out)@ + little_endian(n as nat));
}

/// Writes a frame.
pub fn encode_frame(op: u32, payload: &str) -> (r: Vec<u8>)
    ensures
        r@ == frame(op, payload@),
{
    let body = payload.as_bytes();
    let mut out: Vec<u8> = Vec::new();
    push_le(&mut out, op);
    let len: u32 = (body.len() as u64 % 0x1_0000_0000) as u32;
    push_le(&mut out, len);
    out.extend_from_slice(body);
    assert(out@ =~= frame(op, payload@));
    out
}

/// The length of a reply, read from its header; nothing when it is not sane.
pub open spec fn reply_len(header: Seq<u8>) -> Option<nat> {
    let len = from_little_endian(header.subrange(4, 8));
    if len > MAX_REPLY_BYTES {
        None
    } else {
        Some(len)
    }
}

/// Reads the length of a reply from its header. A reply that is too large is
/// refused before anything is set aside for it.
pub fn reply_length(header: [u8; 8]) -> (r: Option<u32>)
    ensures
        reply_len(header@) == match r {
            Some(len) => Some(len as nat),
            None => None,
        },
{
    let len: u64 = header[4] as u64 + header[5] as u64 * 256 + header[6] as u64 * 65536
        + header[7] as u64 * 16777216;
    assert(header@.subrange(4, 8)[0] == header@[4]);
    assert(header@.subrange(4, 8)[1] == header@[5]);
    assert(header@.subrange(4, 8)[2] == header@[6]);
    assert(header@.subrange(4, 8)[3] == header@[7]);
    if len > MAX_REPLY_BYTES as u64 {
        None
    } else {
        Some(len as u32)
    }
}

/// The header of a frame tells its length: what one side writes, the other
/// can take apart, as long as it is not larger than a reply may be.
pub proof fn frame_length_reads_back(op: u32, payload: Seq<char>)
    requires
        encode_utf8(payload).len() <= MAX_REPLY_BYTES,
    ensures
        reply_len(frame(op, payload).take(8)) == Some(encode_utf8(payload).len()),
        frame(op, payload).skip(8) == encode_utf8(payload),
        from_little_endian(frame(op, payload).take(4)) == op,
{
    let body = encode_utf8(payload);
    let f = frame(op, payload);
    little_endian_reads_back(op as nat);
    little_endian_reads_back(body.len() % 0x1_0000_0000);
    assert(body.len() % 0x1_0000_0000 == body.len());
    assert(f.take(4) =~= little_endian(op as nat));
    assert(f.take(8).subrange(4, 8) =~= little_endian(body.len()));
    assert(f.skip(8) =~= body);
}

/// The name of a socket.
pub open spec fn socket_name(n: int) -> Seq<char> {
    "discord-ipc-"@ + decimal(n as nat)
}

/// Where a socket may be, in the order of trying: all numbers under the
/// runtime directory, if there is one, then all under the temporary one.
pub open spec fn sockets(runtime_dir: Option<Seq<char>>, temp_dir: Seq<char>) -> Seq<Seq<char>> {
    let under = |base: Seq<char>|
        Seq::new(MAX_IPC_SOCKETS as nat, |n: int| joined(base, socket_name(n)));
    match runtime_dir {
        Some(base) => under(base) + under(temp_dir),
        None => under(temp_dir),
    }
}

/// What a list of paths holds.
pub open spec fn path_views(paths: Seq<String>) -> Seq<Seq<char>> {
    Seq::new(paths.len(), |i: int| paths[i]@)
}

/// Appends the sockets of one directory.
fn push_sockets(paths: &mut Vec<String>, base: &str)
    ensures
        path_views(final(paths)@) == path_views(old(paths)@) + Seq::new(
            MAX_IPC_SOCKETS as nat,
            |n: int| joined(base@, socket_name(n)),
        ),
{
    let ghost start = path_views(paths@);
    let mut n: u8 = 0;
    while n < MAX_IPC_SOCKETS
        invariant
            n <= MAX_IPC_SOCKETS,
            path_views(paths@) == start + Seq::new(
                n as nat,
                |n: int| joined(base@, socket_name(n)),
            ),
        decreases MAX_IPC_SOCKETS - n,
    {
        let ghost before = path_views(paths@);
        let name = glue("discord-ipc-", write_u64(n as u64).as_str());
        let path = join_path(base, name.as_str());
        paths.push(path);
        assert(path_views(paths@) =~= before.push(joined(base@, socket_name(n as int))));
        n += 1;
        assert(path_views(paths@) =~= start + Seq::new(
            n as nat,
            |n: int| joined(base@, socket_name(n)),
        ));
    }
}

/// Lists where a socket may be.
pub fn socket_paths(runtime_dir: Option<&str>, temp_dir: &str) -> (r: Vec<String>)
    ensures
        path_views(r@) == sockets(crate::text::opt_str(runtime_dir), temp_dir@),
{
    let mut paths: Vec<String> = Vec::new();
    assert(path_views(paths@) =~= Seq::<Seq<char>>::empty());
    if let Some(base) = runtime_dir {
        push_sockets(&mut paths, base);
    }
    push_sockets(&mut paths, temp_dir);
    assert(path_views(paths@) =~= sockets(crate::text::opt_str(runtime_dir), temp_dir@));
    paths
}

/// What a connection needs to remember.
#[derive(Debug)]
pub struct IpcClient {
    client_id: String,
    connected: bool,
    nonce: u64,
}

/// What a connection needs to remember, as data.
pub struct ClientView {
    pub client_id: Seq<char>,
    pub connected: bool,
    pub nonce: u64,
}

impl View for IpcClient {
    type V = ClientView;

    closed spec fn view(&self) -> ClientView {
        ClientView { client_id: self.client_id@, connected: self.connected, nonce: self.nonce }
    }
}

/// The payload of a handshake.
pub open spec fn handshake_tree(client_id: Seq<char>) -> Tree {
    Tree::Object(
        object_of(
            seq![("v"@, Tree::Number(decimal_int(1))), ("client_id"@, Tree::Text(client_id))],
        ),
    )
}

/// The payload that sets the activity of a process, or clears it.
pub open spec fn activity_tree(pid: u64, activity: Tree, nonce: u64) -> Tree {
    Tree::Object(
        object_of(
            seq![
                ("cmd"@, Tree::Text("SET_ACTIVITY"@)),
                (
                    "args"@,
                    Tree::Object(
                        object_of(
                            seq![
                                ("pid"@, Tree::Number(decimal_int(pid as int))),
                                ("activity"@, activity),
                            ],
                        ),
                    ),
                ),
                ("nonce"@, Tree::Text(decimal(nonce as nat))),
            ],
        ),
    )
}

impl ClientView {
    /// The number of the next message.
    pub open spec fn next_nonce(self) -> u64 {
        if self.nonce == u64::MAX {
            0
        } else {
            (self.nonce + 1) as u64
        }
    }

    /// The next message about a process, where there is a connection.
    pub open spec fn message(self, pid: u64, activity: Tree) -> Option<Seq<u8>> {
        if self.connected {
            Some(frame(OP_FRAME, rendered(activity_tree(pid, activity, self.next_nonce()))))
        } else {
            None
        }
    }
}

/// Bytes that may be missing.
pub open spec fn opt_bytes(bytes: Option<Vec<u8>>) -> Option<Seq<u8>> {
    match bytes {
        Some(bytes) => Some(bytes@),
        None => None,
    }
}

/// A message about an activity that can be read can be read itself.
pub proof fn messages_are_readable(pid: u64, activity: Tree, nonce: u64)
    requires
        activity.integral(),
        activity.within(125),
    ensures
        activity_tree(pid, activity, nonce).integral(),
        activity_tree(pid, activity, nonce).within(reading_depth()),
{
    integers_are_integral(pid as int);
    let args = seq![
        ("pid"@, Tree::Number(decimal_int(pid as int))),
        ("activity"@, activity),
    ];
    object_is_readable(args, 126);
    object_is_readable(
        seq![
            ("cmd"@, Tree::Text("SET_ACTIVITY"@)),
            ("args"@, Tree::Object(object_of(args))),
            ("nonce"@, Tree::Text(decimal(nonce as nat))),
        ],
        127,
    );
}

/// Two messages in a row never have the same number.
pub proof fn nonces_differ(client: ClientView)
    ensures
        client.next_nonce() != client.nonce,
        (ClientView { nonce: client.next_nonce(), ..client }).next_nonce() != client.next_nonce(),
{
}

/// Builds the payload that sets an activity.
fn activity_payload(pid: u64, activity: Json, nonce: u64) -> (r: Json)
    ensures
        r@ == activity_tree(pid, activity@, nonce),
{
    let ghost shown = activity@;
    let mut args: Vec<(String, Json)> = Vec::new();
    assert(pairs_of(args) =~= Seq::<(Seq<char>, Tree)>::empty());
    put(&mut args, "pid", Json::unsigned(pid));
    put(&mut args, "activity", activity);
    assert(pairs_of(args) =~= seq![
        ("pid"@, Tree::Number(decimal_int(pid as int))),
        ("activity"@, shown),
    ]);
    let args = Json::Object(args);
    let ghost told = args@;
    let mut members: Vec<(String, Json)> = Vec::new();
    assert(pairs_of(members) =~= Seq::<(Seq<char>, Tree)>::empty());
    put(&mut members, "cmd", Json::string("SET_ACTIVITY"));
    put(&mut members, "args", args);
    let number = write_u64(nonce);
    put(&mut members, "nonce", Json::string(number.as_str()));
    assert(pairs_of(members) =~= seq![
        ("cmd"@, Tree::Text("SET_ACTIVITY"@)),
        ("args"@, told),
        ("nonce"@, Tree::Text(decimal(nonce as nat))),
    ]);
    Json::Object(members)
}

impl IpcClient {
    /// A client for one application, not connected.
    pub fn new(client_id: String) -> (r: IpcClient)
        ensures
            r@ == (ClientView { client_id: client_id@, connected: false, nonce: 0 }),
    {
        IpcClient { client_id, connected: false, nonce: 0 }
    }

    /// Whether there is a connection: from a successful handshake until it is
    /// closed or a write fails.
    pub fn is_connected(&self) -> (r: bool)
        ensures
            r == self@.connected,
    {
        self.connected
    }

    /// The frame that opens a connection.
    pub fn handshake(&self) -> (r: Vec<u8>)
        ensures
            r@ == frame(OP_HANDSHAKE, rendered(handshake_tree(self@.client_id))),
    {
        let mut members: Vec<(String, Json)> = Vec::new();
        assert(pairs_of(members) =~= Seq::<(Seq<char>, Tree)>::empty());
        put(&mut members, "v", Json::integer(1));
        put(&mut members, "client_id", Json::string(self.client_id.as_str()));
        assert(pairs_of(members) =~= seq![
            ("v"@, Tree::Number(decimal_int(1))),
            ("client_id"@, Tree::Text(self.client_id@)),
        ]);
        let body = Json::Object(members).render();
        encode_frame(OP_HANDSHAKE, body.as_str())
    }

    /// Says whether the handshake was written.
    pub fn connect(&mut self, written: bool)
        ensures
            final(self)@ == (ClientView { connected: written, ..old(self)@ }),
    {
        self.connected = written;
    }

    /// The frame that shows an activity for a process; nothing without a
    /// connection. Whoever reads its payload gets the message back, with the
    /// process, the activity and the number, where the activity can be read at
    /// all.
    pub fn set_activity(&mut self, pid: u64, activity: Json) -> (r: Option<Vec<u8>>)
        ensures
            final(self)@ == (ClientView { nonce: old(self)@.next_nonce(), ..old(self)@ }),
            opt_bytes(r) == old(self)@.message(pid, activity@),
            r is Some && activity@.integral() && activity@.within(125) ==> parsed_text(
                rendered(activity_tree(pid, activity@, final(self)@.nonce)),
            ) == Some(activity_tree(pid, activity@, final(self)@.nonce)),
    {
        self.nonce = if self.nonce == u64::MAX {
            0
        } else {
            self.nonce + 1
        };
        if !self.connected {
            return None;
        }
        let ghost shown = activity@;
        let payload = activity_payload(pid, activity, self.nonce);
        proof {
            if shown.integral() && shown.within(125) {
                messages_are_readable(pid, shown, self.nonce);
            }
        }
        let body = payload.render();
        Some(encode_frame(OP_FRAME, body.as_str()))
    }

    /// The frame that clears the activity of a process; nothing without a
    /// connection.
    pub fn clear(&mut self, pid: u64) -> (r: Option<Vec<u8>>)
        ensures
            final(self)@ == (ClientView { nonce: old(self)@.next_nonce(), ..old(self)@ }),
            opt_bytes(r) == old(self)@.message(pid, Tree::Null),
    {
        self.set_activity(pid, Json::Null)
    }

    /// Says whether a frame was written. A failed write ends the connection.
    pub fn wrote(&mut self, written: bool)
        ensures
            final(self)@ == (ClientView { connected: old(self)@.connected && written, ..old(self)@
            }),
    {
        if !written {
            self.connected = false;
        }
    }

    /// Gives the connection up.
    pub fn close(&mut self)
        ensures
            final(self)@ == (ClientView { connected: false, ..old(self)@ }),
    {
        self.connected = false;
    }
}

/// A frame byte by byte: the operation and the length of the payload, each in
/// four bytes with the lowest first, then the payload.
pub proof fn frames_are_laid_out(op: u32, payload: &str, r: Vec<u8>)
    requires
        call_ensures(encode_frame, (op, payload), r),
    ensures
        ({
            let body = encode_utf8(payload@);
            &&& r@.len() == 8 + body.len()
            &&& r@[0] + r@[1] * 256 + r@[2] * 65536 + r@[3] * 16777216 == op
            &&& body.len() < 4294967296 ==> r@[4] + r@[5] * 256 + r@[6] * 65536 + r@[7] * 16777216
                == body.len()
            &&& r@.skip(8) == body
        }),
{
    let body = encode_utf8(payload@);
    little_endian_reads_back(op as nat);
    little_endian_reads_back(body.len() % 0x1_0000_0000);
    let (a, b) = (
        little_endian(op as nat),
        little_endian(body.len() % 0x1_0000_0000),
    );
    assert(r@ == a + b + body);
    assert(r@[0] == a[0] && r@[1] == a[1] && r@[2] == a[2] && r@[3] == a[3]);
    assert(r@[4] == b[0] && r@[5] == b[1] && r@[6] == b[2] && r@[7] == b[3]);
    assert(r@.skip(8) =~= body);
}

/// The length of a reply stands in the second four bytes of its header, and is
/// refused above 1048576.
pub proof fn replies_have_a_limit(header: [u8; 8], r: Option<u32>)
    requires
        call_ensures(reply_length, (header,), r),
    ensures
        ({
            let n = header@[4] + header@[5] * 256 + header@[6] * 65536 + header@[7] * 16777216;
            &&& n <= 1048576 ==> r is Some && r->Some_0 == n
            &&& n > 1048576 ==> r is None
        }),
{
    let part = header@.subrange(4, 8);
    assert(part[0] == header@[4] && part[1] == header@[5] && part[2] == header@[6] && part[3]
        == header@[7]);
}

/// The sockets are tried in this order: ten under the runtime directory where
/// there is one, then ten under the temporary one, by number.
pub proof fn sockets_are_tried_in_order(
    runtime_dir: Option<&str>,
    temp_dir: &str,
    r: Vec<String>,
    n: int,
)
    requires
        call_ensures(socket_paths, (runtime_dir, temp_dir), r),
        0 <= n < 10,
    ensures
        runtime_dir matches Some(base) ==> r@.len() == 20 && r@[n]@ == joined(
            base@,
            "discord-ipc-"@ + decimal(n as nat),
        ) && r@[10 + n]@ == joined(temp_dir@, "discord-ipc-"@ + decimal(n as nat)),
        runtime_dir is None ==> r@.len() == 10 && r@[n]@ == joined(
            temp_dir@,
            "discord-ipc-"@ + decimal(n as nat),
        ),
{
    let paths = path_views(r@);
    assert(paths.len() == r@.len());
    assert(paths[n] == r@[n]@);
    if runtime_dir is Some {
        assert(paths[10 + n] == r@[10 + n]@);
    }
}

proof fn handshake_members(client_id: Seq<char>)
    ensures
        handshake_tree(client_id) == Tree::Object(
            map![
                "v"@ => Tree::Number(decimal_int(1)),
                "client_id"@ => Tree::Text(client_id),
            ],
        ),
{
    let (a, b) = (
        ("v"@, Tree::Number(decimal_int(1))),
        ("client_id"@, Tree::Text(client_id)),
    );
    crate::json::object_of_one(a.0, a.1);
    crate::json::object_of_more(seq![a], b);
    assert(seq![a].push(b) =~= seq![a, b]);
}

/// A connection opens with the version of the protocol and the client's id,
/// under the operation for it.
pub proof fn handshakes_say_version_and_client(client: IpcClient, r: Vec<u8>)
    requires
        call_ensures(IpcClient::handshake, (&client,), r),
    ensures
        r@ == frame(
            0,
            rendered(
                Tree::Object(
                    map![
                        "v"@ => Tree::Number(decimal_int(1)),
                        "client_id"@ => Tree::Text(client@.client_id),
                    ],
                ),
            ),
        ),
{
    handshake_members(client@.client_id);
}

/// The message about a process, in full: the command, the pid with the
/// activity, and the number of the message in decimal.
pub proof fn messages_set_the_activity(pid: u64, activity: Tree, nonce: u64)
    ensures
        activity_tree(pid, activity, nonce) == Tree::Object(
            map![
                "cmd"@ => Tree::Text("SET_ACTIVITY"@),
                "args"@ => Tree::Object(
                    map![
                        "pid"@ => Tree::Number(decimal_int(pid as int)),
                        "activity"@ => activity,
                    ],
                ),
                "nonce"@ => Tree::Text(decimal(nonce as nat)),
            ],
        ),
{
    let (p, q) = (("pid"@, Tree::Number(decimal_int(pid as int))), ("activity"@, activity));
    crate::json::object_of_one(p.0, p.1);
    crate::json::object_of_more(seq![p], q);
    assert(seq![p].push(q) =~= seq![p, q]);
    let (a, b, c) = (
        ("cmd"@, Tree::Text("SET_ACTIVITY"@)),
        ("args"@, Tree::Object(object_of(seq![p, q]))),
        ("nonce"@, Tree::Text(decimal(nonce as nat))),
    );
    crate::json::object_of_one(a.0, a.1);
    crate::json::object_of_more(seq![a], b);
    crate::json::object_of_more(seq![a].push(b), c);
    assert(seq![a].push(b).push(c) =~= seq![a, b, c]);
}

/// A connected client sends the message under the operation for it, with the
/// next number, which is one more than the last and starts over after the
/// largest; without a connection nothing is sent.
pub proof fn clients_number_their_messages(client: ClientView, pid: u64, activity: Tree)
    ensures
        client.nonce < 18446744073709551615 ==> client.next_nonce() == client.nonce + 1,
        client.nonce == 18446744073709551615 ==> client.next_nonce() == 0,
        client.connected ==> client.message(pid, activity) == Some(
            frame(1, rendered(activity_tree(pid, activity, client.next_nonce()))),
        ),
        !client.connected ==> client.message(pid, activity) is None,
{
}

/// What calls do to a client: a message takes the next number whether or not
/// there is a connection, clearing is a message without an activity, and a
/// connection lasts from a handshake that was written to a write that was not.
pub proof fn clients_remember(
    client_id: String,
    fresh: IpcClient,
    connected: bool,
    pid: u64,
    activity: Json,
    written: bool,
    r: Option<Vec<u8>>,
)
    requires
        call_ensures(IpcClient::new, (client_id,), fresh),
        call_ensures(IpcClient::is_connected, (&fresh,), connected),
    ensures
        fresh@.client_id == client_id@ && !fresh@.connected && fresh@.nonce == 0,
        connected == fresh@.connected,
        forall|client: &mut IpcClient| #[trigger]
            call_ensures(IpcClient::set_activity, (client, pid, activity), r) ==> (
            *final(client))@.client_id == (*client)@.client_id && (*final(client))@.connected == (
            *client)@.connected && (*final(client))@.nonce == (*client)@.next_nonce()
                && opt_bytes(r) == (*client)@.message(pid, activity@),
        forall|client: &mut IpcClient| #[trigger]
            call_ensures(IpcClient::clear, (client, pid), r) ==> (*final(client))@.client_id == (
            *client)@.client_id && (*final(client))@.connected == (*client)@.connected && (
            *final(client))@.nonce == (*client)@.next_nonce() && opt_bytes(r) == (
            *client)@.message(pid, Tree::Null),
        forall|client: &mut IpcClient| #[trigger]
            call_ensures(IpcClient::connect, (client, written), ()) ==> (*final(client))@ == (
            ClientView { connected: written, ..(*client)@ }),
        forall|client: &mut IpcClient| #[trigger]
            call_ensures(IpcClient::wrote, (client, written), ()) ==> (*final(client))@ == (
            ClientView { connected: (*client)@.connected && written, ..(*client)@ }),
        forall|client: &mut IpcClient| #[trigger]
            call_ensures(IpcClient::close, (client,), ()) ==> (*final(client))@ == (ClientView {
                connected: false,
                ..(*client)@
            }),
{
}

} // verus!
