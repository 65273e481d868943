//! The message protocol: what a client may ask, what the server answers and
//! how each answer is written on the wire.

use vstd::prelude::*;
use vstd::string::StringExecFns;
use crate::json::{json_member, json_quoted, quote, read_member, read_view, Member, MemberView};
use crate::text::{decimal, push_decimal, push_signed_decimal, signed_decimal, signed_decimal_text,
    str_eq};

verus! {

/// Why a request was refused.
#[derive(Debug, Clone, Copy, PartialEq, Eq, Structural)]
pub enum ProtocolError {
    /// The message is not JSON.
    InvalidJson,
    /// The message has no `type` that the protocol knows.
    UnknownMessageType,
    /// A join without a seat, or with one that is neither text nor an integer.
    InvalidSeat,
    /// A join for a seat that is claimed already.
    SeatTaken,
    /// A join for which no unused client identifier could be had.
    IdUnavailable,
    /// A rejoin without a client identifier.
    RejoinMissingId,
    /// A rejoin with a client identifier that no seat is bound to.
    SessionNotFound,
    /// A ready request without a client identifier.
    ReadyMissingId,
    /// A ready request with a client identifier that no seat is bound to.
    ClientInvalid,
    /// A ready request from a seat whose name is not an index.
    SeatNotNumeric,
    /// A file request without the identifier of the content.
    MissingFileId,
    /// A file request without the kind of the content.
    MissingFileType,
    /// A file request for a kind other than `patch` and `sheet`.
    UnknownFileType,
    /// A file request for content that the palette of its kind does not hold.
    FileNotFound,
}

impl ProtocolError {
    /// The sentence that tells the client what went wrong.
    pub open spec fn message(self) -> Seq<char> {
        match self {
            ProtocolError::InvalidJson => "Invalid JSON"@,
            ProtocolError::UnknownMessageType => "Unknown message type"@,
            ProtocolError::InvalidSeat => "Invalid seat format"@,
            ProtocolError::SeatTaken => "Seat is already taken"@,
            ProtocolError::IdUnavailable => "Could not allocate client id"@,
            ProtocolError::RejoinMissingId => "Rejoin failed: missing id"@,
            ProtocolError::SessionNotFound => "Rejoin failed: session not found"@,
            ProtocolError::ReadyMissingId => "missing id"@,
            ProtocolError::ClientInvalid => "Client ID is no longer valid"@,
            ProtocolError::SeatNotNumeric => "Seat must be a valid number"@,
            ProtocolError::MissingFileId => "missing file id"@,
            ProtocolError::MissingFileType => "missing fileType"@,
            ProtocolError::UnknownFileType => "unknown fileType"@,
            ProtocolError::FileNotFound => "file not found"@,
        }
    }

    /// The sentence that tells the client what went wrong.
    pub fn message_text(&self) -> (text: &'static str)
        ensures
            text@ == self.message(),
    {
        match self {
            ProtocolError::InvalidJson => "Invalid JSON",
            ProtocolError::UnknownMessageType => "Unknown message type",
            ProtocolError::InvalidSeat => "Invalid seat format",
            ProtocolError::SeatTaken => "Seat is already taken",
            ProtocolError::IdUnavailable => "Could not allocate client id",
            ProtocolError::RejoinMissingId => "Rejoin failed: missing id",
            ProtocolError::SessionNotFound => "Rejoin failed: session not found",
            ProtocolError::ReadyMissingId => "missing id",
            ProtocolError::ClientInvalid => "Client ID is no longer valid",
            ProtocolError::SeatNotNumeric => "Seat must be a valid number",
            ProtocolError::MissingFileId => "missing file id",
            ProtocolError::MissingFileType => "missing fileType",
            ProtocolError::UnknownFileType => "unknown fileType",
            ProtocolError::FileNotFound => "file not found",
        }
    }

    /// The error reply as it goes over the wire. None of the sentences holds
    /// a character that JSON escapes, so each stands between plain quotes.
    pub open spec fn wire_text(self) -> Seq<char> {
        "{\"type\":\"error\",\"message\":\""@ + self.message() + "\"}"@
    }

    /// Writes the error reply.
    pub fn to_json(&self) -> (text: String)
        ensures
            text@ == self.wire_text(),
    {
        let mut text = String::from_str("{\"type\":\"error\",\"message\":\"");
        text.append(self.message_text());
        text.append("\"}");
        text
    }
}

/// One line of an integrity manifest: a content identifier and the hash of
/// its file.
#[derive(Debug)]
pub struct ManifestEntry {
    pub name: String,
    /// The SHA-256 digest of the file, in lower-case hexadecimal.
    pub hash: String,
}

pub struct ManifestEntryView {
    pub name: Seq<char>,
    pub hash: Seq<char>,
}

impl DeepView for ManifestEntry {
    type V = ManifestEntryView;

    open spec fn deep_view(&self) -> ManifestEntryView {
        ManifestEntryView { name: self.name@, hash: self.hash@ }
    }
}

impl View for ManifestEntry {
    type V = ManifestEntryView;

    open spec fn view(&self) -> ManifestEntryView {
        self.deep_view()
    }
}

/// What the server answers to one request.
#[derive(Debug)]
pub enum Reply {
    /// The answer to a ping.
    Pong,
    /// A seat is bound to a client identifier until `expires_at`.
    Joined { id: String, seat: String, expires_at: u64 },
    /// The request was refused.
    Error(ProtocolError),
    /// The client's clock reading, echoed, beside the server's.
    TimeResult { client_time: i64, server_time: i64 },
    /// The files that a seat needs across all phases, with their hashes.
    FileManifest { patch_files: Vec<ManifestEntry>, sheet_files: Vec<ManifestEntry> },
}

pub enum ReplyView {
    Pong,
    Joined { id: Seq<char>, seat: Seq<char>, expires_at: u64 },
    Error(ProtocolError),
    TimeResult { client_time: i64, server_time: i64 },
    FileManifest { patch_files: Seq<ManifestEntryView>, sheet_files: Seq<ManifestEntryView> },
}

impl View for Reply {
    type V = ReplyView;

    open spec fn view(&self) -> ReplyView {
        match self {
            Reply::Pong => ReplyView::Pong,
            Reply::Joined { id, seat, expires_at } => ReplyView::Joined {
                id: id@,
                seat: seat@,
                expires_at: *expires_at,
            },
            Reply::Error(e) => ReplyView::Error(*e),
            Reply::TimeResult { client_time, server_time } => ReplyView::TimeResult {
                client_time: *client_time,
                server_time: *server_time,
            },
            Reply::FileManifest { patch_files, sheet_files } => ReplyView::FileManifest {
                patch_files: patch_files.deep_view(),
                sheet_files: sheet_files.deep_view(),
            },
        }
    }
}

/// One manifest entry on the wire.
pub open spec fn entry_wire_text(entry: ManifestEntryView) -> Seq<char> {
    "{\"name\":"@ + json_quoted(entry.name) + ",\"hash\":"@ + json_quoted(entry.hash) + "}"@
}

/// The entries of a manifest on the wire, with commas between them.
pub open spec fn entries_wire_text(entries: Seq<ManifestEntryView>) -> Seq<char>
    decreases entries.len(),
{
    if entries.len() == 0 {
        Seq::empty()
    } else if entries.len() == 1 {
        entry_wire_text(entries[0])
    } else {
        entries_wire_text(entries.drop_last()) + ","@ + entry_wire_text(entries.last())
    }
}

impl ReplyView {
    /// The reply as it goes over the wire: one JSON object, the `type` first.
    pub open spec fn wire_text(self) -> Seq<char> {
        match self {
            ReplyView::Pong => "{\"type\":\"pong\"}"@,
            ReplyView::Joined { id, seat, expires_at } => "{\"type\":\"joined\",\"id\":"@
                + json_quoted(id) + ",\"seat\":"@ + json_quoted(seat) + ",\"expiresAt\":"@
                + decimal(expires_at as nat) + "}"@,
            ReplyView::Error(e) => e.wire_text(),
            ReplyView::TimeResult { client_time, server_time } =>
                "{\"type\":\"tq_result\",\"client_time\":"@ + signed_decimal(client_time as int)
                    + ",\"server_time\":"@ + signed_decimal(server_time as int) + "}"@,
            ReplyView::FileManifest { patch_files, sheet_files } =>
                "{\"type\":\"file_manifest\",\"patch_files\":["@ + entries_wire_text(patch_files)
                    + "],\"sheet_files\":["@ + entries_wire_text(sheet_files) + "]}"@,
        }
    }
}

/// Appends the entries of a manifest, with commas between them.
fn push_entries(out: &mut String, entries: &Vec<ManifestEntry>)
    ensures
        final(out)@ == old(out)@ + entries_wire_text(entries.deep_view()),
{
    let ghost all = entries.deep_view();
    let mut i: usize = 0;
    assert(all.take(0) =~= Seq::empty());
    while i < entries.len()
        invariant
            i <= entries@.len(),
            all == entries.deep_view(),
            out@ == old(out)@ + entries_wire_text(all.take(i as int)),
        decreases entries@.len() - i,
    {
        let ghost before = out@;
        if i > 0 {
            out.append(",");
        }
        out.append("{\"name\":");
        out.append(quote(entries[i].name.as_str()).as_str());
        out.append(",\"hash\":");
        out.append(quote(entries[i].hash.as_str()).as_str());
        out.append("}");
        proof {
            let next = all.take(i + 1);
            assert(next.drop_last() =~= all.take(i as int));
            assert(next.last() == entries@[i as int]@);
            assert(next.len() == i + 1);
            if i > 0 {
                assert(out@ =~= before + ","@ + entry_wire_text(next.last()));
            } else {
                assert(entries_wire_text(all.take(0)) =~= Seq::empty());
                assert(out@ =~= before + entry_wire_text(next.last()));
                assert(next[0] == next.last());
            }
            assert(out@ =~= old(out)@ + entries_wire_text(next));
        }
        i += 1;
    }
    assert(all.take(entries@.len() as int) =~= all);
}

impl Reply {
    /// Writes the reply as the text that goes over the wire.
    pub fn to_json(&self) -> (text: String)
        ensures
            text@ == self@.wire_text(),
    {
        match self {
            Reply::Pong => String::from_str("{\"type\":\"pong\"}"),
            Reply::Joined { id, seat, expires_at } => {
                let mut text = String::from_str("{\"type\":\"joined\",\"id\":");
                text.append(quote(id.as_str()).as_str());
                text.append(",\"seat\":");
                text.append(quote(seat.as_str()).as_str());
                text.append(",\"expiresAt\":");
                push_decimal(&mut text, *expires_at);
                text.append("}");
                text
            },
            Reply::Error(e) => e.to_json(),
            Reply::TimeResult { client_time, server_time } => {
                let mut text = String::from_str("{\"type\":\"tq_result\",\"client_time\":");
                push_signed_decimal(&mut text, *client_time);
                text.append(",\"server_time\":");
                push_signed_decimal(&mut text, *server_time);
                text.append("}");
                text
            },
            Reply::FileManifest { patch_files, sheet_files } => {
                let mut text = String::from_str("{\"type\":\"file_manifest\",\"patch_files\":[");
                push_entries(&mut text, patch_files);
                text.append("],\"sheet_files\":[");
                push_entries(&mut text, sheet_files);
                text.append("]}");
                text
            },
        }
    }
}

/// A request, as the server reads it out of a message.
#[allow(inconsistent_fields)]
#[derive(Debug)]
pub enum Request {
    Ping,
    /// Claim a seat. The seat is empty where the message names none.
    Join { seat: String },
    /// Come back to a seat under the identifier that the join gave out; the
    /// identifier is empty where the message names none.
    Rejoin { id: String },
    /// Ask for the server's clock. The client's own reading is 0 where the
    /// message gives none.
    TimeRequest { client_time: i64 },
    /// Ask for the manifest of the seat bound to `id`; the identifier is
    /// empty where the message names none.
    Ready { id: String },
    /// Ask for one file of the palette of kind `file_type`.
    FileRequest { id: Option<String>, file_type: Option<String> },
}

#[allow(inconsistent_fields)]
pub enum RequestView {
    Ping,
    Join { seat: Seq<char> },
    Rejoin { id: Seq<char> },
    TimeRequest { client_time: i64 },
    Ready { id: Seq<char> },
    FileRequest { id: Option<Seq<char>>, file_type: Option<Seq<char>> },
}

impl View for Request {
    type V = RequestView;

    open spec fn view(&self) -> RequestView {
        match self {
            Request::Ping => RequestView::Ping,
            Request::Join { seat } => RequestView::Join { seat: seat@ },
            Request::Rejoin { id } => RequestView::Rejoin { id: id@ },
            Request::TimeRequest { client_time } => RequestView::TimeRequest {
                client_time: *client_time,
            },
            Request::Ready { id } => RequestView::Ready { id: id@ },
            Request::FileRequest { id, file_type } => RequestView::FileRequest {
                id: id.deep_view(),
                file_type: file_type.deep_view(),
            },
        }
    }
}

/// The member `key` of a message; absent where the message cannot be read.
pub open spec fn member_of(msg: Seq<char>, key: Seq<char>) -> MemberView {
    match json_member(msg, key) {
        Some(member) => member,
        None => MemberView::Absent,
    }
}

/// A member as text: its characters where it is a string, else nothing.
pub open spec fn text_of(member: MemberView) -> Option<Seq<char>> {
    match member {
        MemberView::Text(s) => Some(s),
        _ => None,
    }
}

/// A member as text, empty where it is not a string.
pub open spec fn text_or_empty(member: MemberView) -> Seq<char> {
    match member {
        MemberView::Text(s) => s,
        _ => Seq::empty(),
    }
}

/// A member as an integer, zero where it is not one.
pub open spec fn integer_or_zero(member: MemberView) -> i64 {
    match member {
        MemberView::Integer(n) => n,
        _ => 0,
    }
}

/// The seat that a join names: the member where it is a string, its
/// decimal form where it is an integer, and the empty text otherwise.
pub open spec fn seat_of(member: MemberView) -> Seq<char> {
    match member {
        MemberView::Text(s) => s,
        MemberView::Integer(n) => signed_decimal(n as int),
        _ => Seq::empty(),
    }
}

/// What the members of a message ask for. `tag` is the member `type`, or
/// nothing where the message is not JSON. A message that is not JSON, and
/// one whose `type` is missing, not a string or not one of the six known, is
/// refused here.
pub open spec fn request_of_members(
    tag: Option<MemberView>,
    seat: MemberView,
    id: MemberView,
    client_time: MemberView,
    file_type: MemberView,
) -> Result<RequestView, ProtocolError> {
    match tag {
        None => Err(ProtocolError::InvalidJson),
        Some(tag) => {
            let kind = text_or_empty(tag);
            if kind == "ping"@ {
                Ok(RequestView::Ping)
            } else if kind == "j"@ {
                Ok(RequestView::Join { seat: seat_of(seat) })
            } else if kind == "rj"@ {
                Ok(RequestView::Rejoin { id: text_or_empty(id) })
            } else if kind == "time_request"@ {
                Ok(RequestView::TimeRequest { client_time: integer_or_zero(client_time) })
            } else if kind == "ready"@ {
                Ok(RequestView::Ready { id: text_or_empty(id) })
            } else if kind == "file_request"@ {
                Ok(RequestView::FileRequest { id: text_of(id), file_type: text_of(file_type) })
            } else {
                Err(ProtocolError::UnknownMessageType)
            }
        },
    }
}

/// What a message asks for: what its members `type`, `seat`, `id`,
/// `client_time` and `fileType` ask for.
pub open spec fn request_of_message(msg: Seq<char>) -> Result<RequestView, ProtocolError> {
    request_of_members(
        json_member(msg, "type"@),
        member_of(msg, "seat"@),
        member_of(msg, "id"@),
        member_of(msg, "client_time"@),
        member_of(msg, "fileType"@),
    )
}

/// The result of decoding, seen through the view of the request.
pub open spec fn decoded_view(decoded: Result<Request, ProtocolError>) -> Result<
    RequestView,
    ProtocolError,
> {
    match decoded {
        Ok(request) => Ok(request@),
        Err(e) => Err(e),
    }
}

fn member(msg: &str, key: &str) -> (found: Member)
    ensures
        found@ == member_of(msg@, key@),
{
    match read_member(msg, key) {
        Some(found) => found,
        None => Member::Absent,
    }
}

fn into_text(member: Member) -> (text: Option<String>)
    ensures
        text.deep_view() == text_of(member@),
{
    match member {
        Member::Text(s) => Some(s),
        _ => None,
    }
}

fn into_text_or_empty(member: Member) -> (text: String)
    ensures
        text@ == text_or_empty(member@),
{
    match member {
        Member::Text(s) => s,
        _ => String::new(),
    }
}

impl Request {
    /// Makes a request out of the members of a message. `tag` is the member
    /// `type`, or nothing where the message is not JSON; `id` serves a
    /// rejoin, a ready request and a file request alike.
    pub fn of_members(
        tag: Option<Member>,
        seat: Member,
        id: Member,
        client_time: Member,
        file_type: Member,
    ) -> (decoded: Result<Request, ProtocolError>)
        ensures
            decoded_view(decoded) == request_of_members(
                read_view(tag),
                seat@,
                id@,
                client_time@,
                file_type@,
            ),
    {
        let tag = match tag {
            Some(tag) => tag,
            None => {
                return Err(ProtocolError::InvalidJson);
            },
        };
        let kind = into_text_or_empty(tag);
        if str_eq(kind.as_str(), "ping") {
            Ok(Request::Ping)
        } else if str_eq(kind.as_str(), "j") {
            let seat = match seat {
                Member::Text(s) => s,
                Member::Integer(n) => signed_decimal_text(n),
                _ => String::new(),
            };
            Ok(Request::Join { seat })
        } else if str_eq(kind.as_str(), "rj") {
            Ok(Request::Rejoin { id: into_text_or_empty(id) })
        } else if str_eq(kind.as_str(), "time_request") {
            let client_time = match client_time {
                Member::Integer(n) => n,
                _ => 0,
            };
            Ok(Request::TimeRequest { client_time })
        } else if str_eq(kind.as_str(), "ready") {
            Ok(Request::Ready { id: into_text_or_empty(id) })
        } else if str_eq(kind.as_str(), "file_request") {
            Ok(Request::FileRequest { id: into_text(id), file_type: into_text(file_type) })
        } else {
            Err(ProtocolError::UnknownMessageType)
        }
    }

    /// Reads a request out of the text of a message: reads the five members
    /// that the protocol knows and hands them to [`Request::of_members`].
    pub fn decode(msg: &str) -> (decoded: Result<Request, ProtocolError>)
        ensures
            decoded_view(decoded) == request_of_message(msg@),
    {
        let tag = read_member(msg, "type");
        if tag.is_none() {
            return Request::of_members(
                tag,
                Member::Absent,
                Member::Absent,
                Member::Absent,
                Member::Absent,
            );
        }
        let seat = member(msg, "seat");
        let id = member(msg, "id");
        let client_time = member(msg, "client_time");
        let file_type = member(msg, "fileType");
        Request::of_members(tag, seat, id, client_time, file_type)
    }
}

} // verus!
