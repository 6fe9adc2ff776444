//! A language-server client: framing, requests and the diagnostics that a server pushes.
//!
//! The caller owns the process and its pipes. It hands over each header line and each
//! message that came in, and writes the messages that are built here.

use crate::json::{document_text, member, string_member, uint_member, Json, JsonView};
use crate::text::{
    after_prefix, chars_of, decimal_size, digits, is_digit, law_decimal_round_trip, owned,
    parse_size, parsed_number, strip_prefix, text_of, without_plus,
};
use crate::text_map::TextMap;
use crate::user_input::copy_opt;
use std::collections::HashSet;
use vstd::prelude::*;

verus! {

broadcast use vstd::std_specs::hash::group_hash_axioms;

/// A place in a document, counted from zero.
#[derive(Clone, Copy, Debug, PartialEq, Eq, Structural)]
pub struct Position {
    pub line: u32,
    pub character: u32,
}

#[derive(Clone, Copy, Debug, PartialEq, Eq, Structural)]
pub struct DiagnosticRange {
    pub start: Position,
    pub end: Position,
}

/// What a server says of a place.
#[derive(Debug)]
pub struct Diagnostic {
    pub range: DiagnosticRange,
    pub severity: Option<u8>,
    pub message: String,
    pub source: Option<String>,
}

impl Diagnostic {
    pub fn copy(&self) -> (r: Diagnostic)
        ensures
            r == *self,
    {
        Diagnostic {
            range: self.range,
            severity: self.severity,
            message: self.message.clone(),
            source: copy_opt(&self.source),
        }
    }
}

pub fn copy_diagnostics(v: &Vec<Diagnostic>) -> (r: Vec<Diagnostic>)
    ensures
        r@ == v@,
{
    let mut r: Vec<Diagnostic> = Vec::new();
    let mut i: usize = 0;
    while i < v.len()
        invariant
            i <= v@.len(),
            r@ == v@.take(i as int),
        decreases v@.len() - i,
    {
        r.push(v[i].copy());
        assert(v@.take(i + 1) =~= v@.take(i as int).push(v@[i as int]));
        i += 1;
    }
    assert(v@.take(i as int) =~= v@);
    r
}

// Framing.

pub const LENGTH_PREFIX: &'static str = "Content-Length: ";

/// What stands before a message of a number of bytes.
pub open spec fn header_text(len: nat) -> Seq<char> {
    LENGTH_PREFIX@ + digits(len) + "\r\n\r\n"@
}

/// What stands before a message of a number of bytes.
pub fn frame_header(len: usize) -> (r: String)
    ensures
        r@ == header_text(len as nat),
{
    let mut r = owned(LENGTH_PREFIX);
    r.push_str(decimal_size(len).as_str());
    r.push_str("\r\n\r\n");
    r
}

/// A line without the line ends behind it.
pub open spec fn without_ends(line: Seq<char>) -> Seq<char>
    decreases line.len(),
{
    if line.len() > 0 && (line.last() == '\r' || line.last() == '\n') {
        without_ends(line.drop_last())
    } else {
        line
    }
}

fn strip_ends(line: &str) -> (r: String)
    ensures
        r@ == without_ends(line@),
{
    let v = chars_of(line);
    let mut n: usize = v.len();
    assert(v@.take(n as int) =~= v@);
    while n > 0 && (v[n - 1] == '\r' || v[n - 1] == '\n')
        invariant
            n <= v@.len(),
            without_ends(v@) == without_ends(v@.take(n as int)),
        decreases n,
    {
        assert(v@.take(n as int).drop_last() =~= v@.take(n - 1));
        n -= 1;
    }
    assert(v@.subrange(0, n as int) =~= v@.take(n as int));
    text_of(&v, 0, n)
}

/// What is known of the length of a message after a header line.
pub open spec fn length_after(known: Option<nat>, line: Seq<char>) -> Option<nat> {
    match after_prefix(without_ends(line), LENGTH_PREFIX@) {
        Some(rest) => parsed_number(rest, usize::MAX as nat),
        None => known,
    }
}

/// The header of a message, as far as it was read.
#[derive(Debug)]
pub struct FrameHeader {
    pub content_length: Option<usize>,
}

/// What a header line leads to.
#[derive(Clone, Copy, Debug, PartialEq, Eq, Structural)]
pub enum HeaderStep {
    /// There are more header lines.
    More,
    /// A message of this many bytes follows.
    Body(usize),
    /// The header ended without a length.
    Missing,
}

pub open spec fn known_length(h: FrameHeader) -> Option<nat> {
    match h.content_length {
        Some(n) => Some(n as nat),
        None => None,
    }
}

pub const MISSING_LENGTH: &'static str = "LSP frame missing Content-Length";

impl FrameHeader {
    pub fn new() -> (r: FrameHeader)
        ensures
            known_length(r) is None,
    {
        FrameHeader { content_length: None }
    }

    /// Takes a header line, with its end. An empty line ends the header; of two lengths the
    /// later holds, also where it is no number.
    pub fn line(&mut self, line: &str) -> (r: HeaderStep)
        ensures
            if without_ends(line@).len() == 0 {
                known_length(*final(self)) == known_length(*old(self)) && match known_length(
                    *old(self),
                ) {
                    Some(n) => r matches HeaderStep::Body(len) && len == n,
                    None => r is Missing,
                }
            } else {
                r is More && known_length(*final(self)) == length_after(
                    known_length(*old(self)),
                    line@,
                )
            },
    {
        let text = strip_ends(line);
        if text.as_str().is_empty() {
            return match self.content_length {
                Some(n) => HeaderStep::Body(n),
                None => HeaderStep::Missing,
            };
        }
        if let Some(rest) = strip_prefix(text.as_str(), LENGTH_PREFIX) {
            self.content_length = parse_size(rest.as_str());
        }
        HeaderStep::More
    }
}

/// A frame that was written is read back: the header is one line that gives the length of
/// the message, and an empty line.
pub proof fn law_frame_header_round_trip(len: nat, known: Option<nat>)
    requires
        len <= usize::MAX,
    ensures
        header_text(len) == LENGTH_PREFIX@ + digits(len) + "\r\n"@ + "\r\n"@,
        length_after(known, LENGTH_PREFIX@ + digits(len) + "\r\n"@) == Some(len),
        without_ends(LENGTH_PREFIX@ + digits(len) + "\r\n"@).len() > 0,
        without_ends("\r\n"@).len() == 0,
{
    reveal_strlit("\r\n");
    reveal_strlit("\r\n\r\n");
    reveal_with_fuel(without_ends, 3);
    law_decimal_round_trip(len);
    let d = digits(len);
    let text = LENGTH_PREFIX@ + d;
    let line = text + "\r\n"@;
    assert(header_text(len) =~= line + "\r\n"@);
    assert("\r\n"@.drop_last().drop_last().len() == 0);
    assert(line.drop_last().drop_last() =~= text);
    assert(line.last() == '\n');
    assert(line.drop_last().last() == '\r');
    assert(text.last() == d.last());
    assert(is_digit(d[d.len() - 1]));
    assert(without_ends(line) == text);
    assert(text.skip(LENGTH_PREFIX@.len() as int) =~= d);
    assert(text.take(LENGTH_PREFIX@.len() as int) =~= LENGTH_PREFIX@);
    assert(is_digit(d[0]));
    assert(without_plus(d) == d);
}

// Messages.

/// How long a request is waited for, in seconds.
pub const REQUEST_TIMEOUT_SECS: u64 = 15;

pub open spec fn params_view(params: Option<Json>) -> JsonView {
    match params {
        Some(p) => p@,
        None => JsonView::Null,
    }
}

fn params_of(params: Option<Json>) -> (r: Json)
    ensures
        r@ == params_view(params),
{
    match params {
        Some(p) => p,
        None => Json::Null,
    }
}

/// A notification.
pub fn notification(method: &str, params: Option<Json>) -> (r: Json)
    ensures
        r@ == JsonView::Object(
            Map::empty().insert("jsonrpc"@, JsonView::Str("2.0"@)).insert(
                "method"@,
                JsonView::Str(method@),
            ).insert("params"@, params_view(params)),
        ),
{
    Json::object().with("jsonrpc", Json::text("2.0")).with("method", Json::text(method)).with(
        "params",
        params_of(params),
    )
}

/// The parameters of `initialize`.
pub open spec fn initialize_view(process_id: nat, root_uri: Seq<char>, version: Seq<char>) -> JsonView {
    JsonView::Object(
        Map::empty().insert("processId"@, JsonView::UInt(process_id)).insert(
            "rootUri"@,
            JsonView::Str(root_uri),
        ).insert(
            "capabilities"@,
            JsonView::Object(
                Map::empty().insert(
                    "textDocument"@,
                    JsonView::Object(
                        Map::empty().insert(
                            "synchronization"@,
                            JsonView::Object(
                                Map::empty().insert("didSave"@, JsonView::Bool(true)),
                            ),
                        ).insert("publishDiagnostics"@, JsonView::Object(Map::empty())),
                    ),
                ),
            ),
        ).insert(
            "clientInfo"@,
            JsonView::Object(
                Map::empty().insert("name"@, JsonView::Str("theway"@)).insert(
                    "version"@,
                    JsonView::Str(version),
                ),
            ),
        ),
    )
}

/// The parameters of `initialize`.
pub fn initialize_params(process_id: u32, root_uri: &str, version: &str) -> (r: Json)
    ensures
        r@ == initialize_view(process_id as nat, root_uri@, version@),
{
    let text_document = Json::object().with(
        "synchronization",
        Json::object().with("didSave", Json::Bool(true)),
    ).with("publishDiagnostics", Json::object());
    Json::object().with("processId", Json::UInt(process_id as u64)).with(
        "rootUri",
        Json::text(root_uri),
    ).with("capabilities", Json::object().with("textDocument", text_document)).with(
        "clientInfo",
        Json::object().with("name", Json::text("theway")).with("version", Json::text(version)),
    )
}

/// The parameters of `textDocument/didOpen`.
pub fn did_open_params(uri: &str, language_id: &str, text: &str) -> (r: Json)
    ensures
        r@ == JsonView::Object(
            Map::empty().insert(
                "textDocument"@,
                JsonView::Object(
                    Map::empty().insert("uri"@, JsonView::Str(uri@)).insert(
                        "languageId"@,
                        JsonView::Str(language_id@),
                    ).insert("version"@, JsonView::UInt(1)).insert("text"@, JsonView::Str(text@)),
                ),
            ),
        ),
{
    Json::object().with(
        "textDocument",
        Json::object().with("uri", Json::text(uri)).with(
            "languageId",
            Json::text(language_id),
        ).with("version", Json::UInt(1)).with("text", Json::text(text)),
    )
}

/// What a response says: its result, null where it has none, or its error.
pub fn response_result(value: &Json) -> (r: Result<Json, String>)
    ensures
        match member(value@, "error"@) {
            Some(e) => r matches Err(m) && m@ == "LSP server error: "@ + document_text(e),
            None => r matches Ok(v) && v@ == (match member(value@, "result"@) {
                Some(result) => result,
                None => JsonView::Null,
            }),
        },
{
    if let Some(e) = value.get("error") {
        let mut m = owned("LSP server error: ");
        m.push_str(e.render().as_str());
        return Err(m);
    }
    match value.get("result") {
        Some(result) => Ok(result.copy()),
        None => Ok(Json::Null),
    }
}

/// The error of a request whose answer did not come in time.
pub fn timeout_message(method: &str) -> (r: String)
    ensures
        r@ == "LSP request "@ + method@ + " timed out after 15s"@,
{
    let mut r = owned("LSP request ");
    r.push_str(method);
    r.push_str(" timed out after 15s");
    r
}

/// The error of a request whose answer can no longer come.
pub const CHANNEL_CLOSED: &'static str = "LSP response channel closed";

/// What a message that came in is for.
#[derive(Debug)]
pub enum Incoming {
    /// The answer to this request, which is no longer waited for.
    Answer(u64),
    /// The parameters of a push of diagnostics.
    Diagnostics(Json),
    Ignored,
}

/// The requests that wait for an answer, and the diagnostics that came in last.
#[derive(Debug)]
pub struct LspState {
    pub next_id: u64,
    pub inflight: HashSet<u64>,
    pub diagnostics: TextMap<Vec<Diagnostic>>,
}

/// Whether a request with a number of its own, which is waited for from now on, leads from a
/// state to another.
pub open spec fn requests(s: LspState, id: u64, after: LspState) -> bool {
    &&& id == s.next_id
    &&& after.next_id == s.next_id.wrapping_add(1)
    &&& after.inflight@ == s.inflight@.insert(id)
    &&& after.diagnostics@ == s.diagnostics@
}

/// Whether a message that came in leads from a state to another. An answer goes to the request
/// that waits for it, once.
pub open spec fn receives(s: LspState, message: JsonView, r: Incoming, after: LspState) -> bool {
    &&& after.next_id == s.next_id
    &&& after.diagnostics@ == s.diagnostics@
    &&& match uint_member(message, "id"@) {
        Some(id) => if member(message, "method"@) is None && s.inflight@.contains(id as u64) {
            (r matches Incoming::Answer(n) && n == id) && after.inflight@ == s.inflight@.remove(
                id as u64,
            )
        } else {
            r is Ignored && after.inflight@ == s.inflight@
        },
        None => after.inflight@ == s.inflight@ && match member(message, "params"@) {
            Some(params) => if string_member(message, "method"@) == Some(
                "textDocument/publishDiagnostics"@,
            ) {
                r matches Incoming::Diagnostics(p) && p@ == params
            } else {
                r is Ignored
            },
            None => r is Ignored,
        },
    }
}

impl LspState {
    pub fn new() -> (r: LspState)
        ensures
            r.next_id == 1,
            r.inflight@ == Set::<u64>::empty(),
            r.diagnostics@ == Map::<Seq<char>, Vec<Diagnostic>>::empty(),
    {
        LspState { next_id: 1, inflight: HashSet::new(), diagnostics: TextMap::new() }
    }

    /// A request with a number of its own, which is waited for from now on.
    pub fn request(&mut self, method: &str, params: Option<Json>) -> (r: (u64, Json))
        ensures
            requests(*old(self), r.0, *final(self)),
            r.1@ == JsonView::Object(
                Map::empty().insert("jsonrpc"@, JsonView::Str("2.0"@)).insert(
                    "id"@,
                    JsonView::UInt(r.0 as nat),
                ).insert("method"@, JsonView::Str(method@)).insert("params"@, params_view(params)),
            ),
    {
        let id: u64 = self.next_id;
        self.next_id = id.wrapping_add(1);
        self.inflight.insert(id);
        let message = Json::object().with("jsonrpc", Json::text("2.0")).with(
            "id",
            Json::UInt(id),
        ).with("method", Json::text(method)).with("params", params_of(params));
        (id, message)
    }

    /// Stops waiting for a request.
    pub fn give_up(&mut self, id: u64)
        ensures
            final(self).inflight@ == old(self).inflight@.remove(id),
            final(self).next_id == old(self).next_id,
            final(self).diagnostics@ == old(self).diagnostics@,
    {
        self.inflight.remove(&id);
    }

    /// Takes a message that came in. An answer goes to the request that waits for it, once;
    /// requests of the server and other notifications are ignored.
    pub fn receive(&mut self, value: &Json) -> (r: Incoming)
        ensures
            receives(*old(self), value@, r, *final(self)),
    {
        if let Some(id) = value.uint_field("id") {
            if value.get("method").is_none() {
                if self.inflight.remove(&id) {
                    return Incoming::Answer(id);
                }
                assert(self.inflight@ =~= old(self).inflight@);
            }
            return Incoming::Ignored;
        }
        let method = match value.text_member("method") {
            Some(m) => m,
            None => {
                return Incoming::Ignored;
            },
        };
        if method.as_str().eq("textDocument/publishDiagnostics") {
            if let Some(params) = value.get("params") {
                return Incoming::Diagnostics(params.copy());
            }
        }
        Incoming::Ignored
    }

    /// Keeps the diagnostics of a document in place of those it had.
    pub fn record(&mut self, uri: String, diagnostics: Vec<Diagnostic>)
        ensures
            final(self).diagnostics@ == old(self).diagnostics@.insert(uri@, diagnostics),
            final(self).next_id == old(self).next_id,
            final(self).inflight@ == old(self).inflight@,
    {
        self.diagnostics.insert(uri, diagnostics);
    }

    /// The diagnostics of a document that came in last.
    pub fn diagnostics_for(&self, uri: &str) -> (r: Vec<Diagnostic>)
        ensures
            r@ == (if self.diagnostics@.dom().contains(uri@) {
                self.diagnostics@[uri@]@
            } else {
                Seq::empty()
            }),
    {
        match self.diagnostics.get(uri) {
            Some(v) => copy_diagnostics(v),
            None => Vec::new(),
        }
    }
}

// Laws.

/// A request is answered by the first message that has its number and is no request itself,
/// and by no later one.
pub proof fn law_requests_are_answered_once(
    s: LspState,
    id: u64,
    asked: LspState,
    answer: JsonView,
    first: Incoming,
    answered: LspState,
    second: Incoming,
    after: LspState,
)
    requires
        requests(s, id, asked),
        uint_member(answer, "id"@) == Some(id as nat),
        member(answer, "method"@) is None,
        receives(asked, answer, first, answered),
        receives(answered, answer, second, after),
    ensures
        first matches Incoming::Answer(n) && n == id,
        second is Ignored,
        after.inflight@ == s.inflight@.remove(id),
{
    assert(after.inflight@ =~= s.inflight@.remove(id));
}

/// Nothing is answered that is not waited for, and a request of the server answers nothing.
pub proof fn law_only_awaited_requests_are_answered(
    s: LspState,
    message: JsonView,
    r: Incoming,
    after: LspState,
)
    requires
        receives(s, message, r, after),
    ensures
        r matches Incoming::Answer(n) ==> s.inflight@.contains(n) && member(message, "method"@)
            is None,
        !(r is Answer) ==> after.inflight@ == s.inflight@,
{
}

/// Whether two messages hold the same under a name, or both nothing.
pub open spec fn same_under(a: JsonView, b: JsonView, key: Seq<char>) -> bool {
    a matches JsonView::Object(m) && b matches JsonView::Object(n) && m.contains_key(key)
        == n.contains_key(key) && (m.contains_key(key) ==> m[key] == n[key])
}

/// A push of diagnostics is taken with exactly its parameters, whatever else the message holds:
/// it is a message without a number of its own whose method is that of such pushes.
pub proof fn law_pushed_diagnostics_are_taken(
    s: LspState,
    members: Map<Seq<char>, JsonView>,
    r: Incoming,
    after: LspState,
)
    requires
        members.contains_key("id"@) ==> !(members["id"@] is UInt),
        members.contains_key("method"@),
        members["method"@] == JsonView::Str("textDocument/publishDiagnostics"@),
        members.contains_key("params"@),
        receives(s, JsonView::Object(members), r, after),
    ensures
        r matches Incoming::Diagnostics(p) && p@ == members["params"@],
        after.inflight@ == s.inflight@,
        after.next_id == s.next_id,
{
}

/// Only a push of diagnostics is taken as one, and only with its own parameters.
pub proof fn law_only_pushes_are_diagnostics(
    s: LspState,
    message: JsonView,
    r: Incoming,
    after: LspState,
)
    requires
        receives(s, message, r, after),
    ensures
        r matches Incoming::Diagnostics(p) ==> {
            &&& message matches JsonView::Object(m)
            &&& !(m.contains_key("id"@) && m["id"@] is UInt)
            &&& m.contains_key("method"@)
            &&& m["method"@] == JsonView::Str("textDocument/publishDiagnostics"@)
            &&& m.contains_key("params"@)
            &&& m["params"@] == p@
        },
{
}

/// The first answer to a request that is waited for reaches it, whatever else the message
/// holds, and every other request is waited for as before.
pub proof fn law_awaited_answers_arrive(
    s: LspState,
    members: Map<Seq<char>, JsonView>,
    id: u64,
    r: Incoming,
    after: LspState,
)
    requires
        members.contains_key("id"@),
        members["id"@] == JsonView::UInt(id as nat),
        !members.contains_key("method"@),
        s.inflight@.contains(id),
        receives(s, JsonView::Object(members), r, after),
    ensures
        r == Incoming::Answer(id),
        !after.inflight@.contains(id),
        forall|other: u64|
            other != id ==> (#[trigger] after.inflight@.contains(other) <==> s.inflight@.contains(
                other,
            )),
{
}

/// A message leads to what its number, its method and its parameters say: other members, such
/// as the version of the protocol, change nothing.
pub proof fn law_other_members_change_nothing(
    s: LspState,
    a: JsonView,
    b: JsonView,
    of_a: Incoming,
    after_a: LspState,
    of_b: Incoming,
    after_b: LspState,
)
    requires
        same_under(a, b, "id"@),
        same_under(a, b, "method"@),
        same_under(a, b, "params"@),
        receives(s, a, of_a, after_a),
        receives(s, b, of_b, after_b),
    ensures
        match of_a {
            Incoming::Answer(id) => of_b == Incoming::Answer(id),
            Incoming::Diagnostics(p) => of_b matches Incoming::Diagnostics(q) && q@ == p@,
            Incoming::Ignored => of_b is Ignored,
        },
        after_a.inflight@ == after_b.inflight@,
{
}

/// Requests get numbers of their own: the next one gets another, and is waited for as well.
pub proof fn law_requests_have_their_own_numbers(
    s: LspState,
    first: u64,
    between: LspState,
    second: u64,
    after: LspState,
)
    requires
        requests(s, first, between),
        requests(between, second, after),
    ensures
        first != second,
        after.inflight@.contains(first) && after.inflight@.contains(second),
        s.next_id < u64::MAX ==> second == first + 1,
{
}

proof fn lemma_without_ends(line: Seq<char>)
    ensures
        without_ends(line).len() <= line.len(),
        without_ends(line) == line.take(without_ends(line).len() as int),
        without_ends(line).len() > 0 ==> without_ends(line).last() != '\r' && without_ends(
            line,
        ).last() != '\n',
        forall|i: int|
            without_ends(line).len() <= i < line.len() ==> (#[trigger] line[i]) == '\r' || line[i]
                == '\n',
    decreases line.len(),
{
    if line.len() > 0 && (line.last() == '\r' || line.last() == '\n') {
        let front = line.drop_last();
        lemma_without_ends(front);
        let n = without_ends(front).len() as int;
        assert(front.take(n) =~= line.take(n));
        assert forall|i: int| n <= i < line.len() implies (#[trigger] line[i]) == '\r' || line[i]
            == '\n' by {
            if i < front.len() {
                assert(front[i] == line[i]);
            }
        }
    } else {
        assert(line.take(line.len() as int) =~= line);
    }
}

/// The line ends behind a line are taken away, all of them and nothing else.
pub proof fn law_line_ends_are_taken_away(line: Seq<char>, ends: Seq<char>)
    requires
        line.len() > 0 ==> line.last() != '\r' && line.last() != '\n',
        forall|i: int| 0 <= i < ends.len() ==> (#[trigger] ends[i]) == '\r' || ends[i] == '\n',
    ensures
        without_ends(line + ends) == line,
{
    let all = line + ends;
    lemma_without_ends(all);
    let n = without_ends(all).len() as int;
    if n > line.len() {
        assert(without_ends(all).last() == all[n - 1]);
        assert(all[n - 1] == ends[n - 1 - line.len()]);
    }
    if n < line.len() {
        assert(all[line.len() - 1] == line.last());
    }
    assert(all.take(n) =~= line);
}

/// Header lines other than the length change nothing of what is known of the length.
pub proof fn law_other_headers_change_nothing(known: Option<nat>, line: Seq<char>)
    requires
        line.len() == 0 || line[0] != 'C',
    ensures
        length_after(known, line) == known,
{
    reveal_strlit("Content-Length: ");
    lemma_without_ends(line);
    let text = without_ends(line);
    assert(LENGTH_PREFIX@[0] == 'C');
    if text.len() >= LENGTH_PREFIX@.len() && text.take(LENGTH_PREFIX@.len() as int)
        == LENGTH_PREFIX@ {
        assert(text.take(LENGTH_PREFIX@.len() as int)[0] == text[0]);
        assert(text[0] == line[0]);
    }
}

/// The first request tells the server the process, the root and the version that it is made of,
/// each under its own name.
pub proof fn law_servers_are_told_who_asks(
    process_id: nat,
    root_uri: Seq<char>,
    version: Seq<char>,
)
    ensures
        ({
            let told = initialize_view(process_id, root_uri, version);
            &&& uint_member(told, "processId"@) == Some(process_id)
            &&& string_member(told, "rootUri"@) == Some(root_uri)
            &&& member(told, "clientInfo"@) matches Some(client) && string_member(
                client,
                "version"@,
            ) == Some(version) && string_member(client, "name"@) == Some("theway"@)
        }),
{
    reveal_strlit("processId");
    reveal_strlit("rootUri");
    reveal_strlit("capabilities");
    reveal_strlit("clientInfo");
    reveal_strlit("name");
    reveal_strlit("version");
    assert("processId"@.len() == 9);
    assert("rootUri"@.len() == 7);
    assert("capabilities"@.len() == 12);
    assert("clientInfo"@.len() == 10);
    assert("name"@.len() == 4);
    assert("version"@.len() == 7);
}

} // verus!
