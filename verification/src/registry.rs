//! The client of a package registry: the requests of its operations, the
//! framing of an upload, and what a response means.
//!
//! The client does not talk to the network itself. It is made with a
//! transport, a function that sends one request and gives the response, and
//! says of each operation which request the transport is handed and what the
//! operation returns for each response.

use crate::errors::{human, plain_chain, CargoError};
use crate::json::{
    docs, lemma_docs, lemma_lookup_last, lemma_member_docs, lemma_nests_more, lemma_strings_nest, member_docs, optional_doc, parsed_json, read_json,
    rendered_json, string_docs, JsonDoc, JsonError, JsonValue, RepresentsJSON, ToJson,
};
use crate::limits::{verdict, Verdict, MAX_DEPTH};
use crate::text::{decimal, decimal_digits, join, joined, texts};
use vstd::prelude::*;
use vstd::slice::slice_to_vec;
use vstd::string::*;
use vstd::utf8::{decode_utf8, encode_utf8, valid_utf8};

verus! {

/// The four bytes of a number, the least significant first.
pub open spec fn le_bytes(n: u32) -> Seq<u8> {
    seq![
        (n % 256) as u8,
        ((n / 256) % 256) as u8,
        ((n / 65536) % 256) as u8,
        (n / 16777216) as u8,
    ]
}

/// The number that four bytes stand for, the least significant first.
pub open spec fn le_value(bytes: Seq<u8>) -> nat {
    (bytes[0] + 256 * bytes[1] + 65536 * bytes[2] + 16777216 * bytes[3]) as nat
}

/// The low 32 bits of a length: the length itself where it fits in four
/// bytes.
pub open spec fn low32(n: nat) -> u32 {
    (n % 0x1_0000_0000) as u32
}

/// The head of an upload: the length of the metadata in four bytes, the
/// metadata, and the length of the archive in four bytes.
pub open spec fn upload_header_bytes(metadata: Seq<u8>, archive_len: nat) -> Seq<u8> {
    le_bytes(low32(metadata.len())) + metadata + le_bytes(low32(archive_len))
}

/// Four bytes, the least significant first, read back give the number.
pub proof fn lemma_le_round_trip(n: u32)
    ensures
        le_bytes(n).len() == 4,
        le_value(le_bytes(n)) == n,
{
    let q1 = n / 256;
    let q2 = n / 65536;
    let q3 = n / 16777216;
    assert(n == 256 * q1 + n % 256);
    assert(q2 == q1 / 256);
    assert(q1 == 256 * q2 + q1 % 256);
    assert(q3 == q2 / 256);
    assert(q2 == 256 * q3 + q2 % 256);
    assert(q3 < 256);
    let bytes = le_bytes(n);
    assert(bytes[0] == n % 256);
    assert(bytes[1] == q1 % 256);
    assert(bytes[2] == q2 % 256);
    assert(bytes[3] == q3);
}

/// The framing of an upload can be read back: where the length of the
/// metadata and the length of the archive both fit in four bytes, the head is
/// eight bytes longer than the metadata, its first four bytes give the length
/// of the metadata, the metadata follows, and the four bytes after the
/// metadata give the length of the archive.
pub proof fn lemma_upload_framing(metadata: Seq<u8>, archive_len: nat)
    requires
        metadata.len() <= u32::MAX,
        archive_len <= u32::MAX,
    ensures
        upload_header_bytes(metadata, archive_len).len() == 4 + metadata.len() + 4,
        le_value(upload_header_bytes(metadata, archive_len).subrange(0, 4)) == metadata.len(),
        upload_header_bytes(metadata, archive_len).subrange(4, 4 + metadata.len() as int)
            == metadata,
        le_value(
            upload_header_bytes(metadata, archive_len).subrange(
                metadata.len() as int + 4,
                metadata.len() as int + 8,
            ),
        ) == archive_len,
{
    let header = upload_header_bytes(metadata, archive_len);
    let l1 = metadata.len() as int;
    let first = le_bytes(low32(metadata.len()));
    let second = le_bytes(low32(archive_len));
    assert(low32(metadata.len()) == metadata.len());
    assert(low32(archive_len) == archive_len);
    lemma_le_round_trip(low32(metadata.len()));
    lemma_le_round_trip(low32(archive_len));
    assert(header == first + metadata + second);
    assert(header.len() == 4 + l1 + 4);
    assert(header.subrange(0, 4) =~= first);
    assert(header.subrange(4, 4 + l1) =~= metadata);
    assert(header.subrange(l1 + 4, l1 + 8) =~= second);
}

fn push_le_u32(out: &mut Vec<u8>, n: u32)
    ensures
        final(out)@ == old(out)@ + le_bytes(n),
{
    out.push((n % 256) as u8);
    out.push(((n / 256) % 256) as u8);
    out.push(((n / 65536) % 256) as u8);
    out.push((n / 16777216) as u8);
    assert(final(out)@ =~= old(out)@ + le_bytes(n));
}

/// Frames the head of an upload from the encoded metadata and the length of
/// the archive. A length that does not fit in four bytes is cut to its low 32
/// bits.
pub fn upload_header(metadata: &str, archive_len: u64) -> (header: Vec<u8>)
    ensures
        header@ == upload_header_bytes(metadata.spec_bytes(), archive_len as nat),
{
    let bytes = metadata.as_bytes();
    let mut header: Vec<u8> = Vec::new();
    push_le_u32(&mut header, ((bytes.len() as u64) % 0x1_0000_0000) as u32);
    let mut copy = slice_to_vec(bytes);
    header.append(&mut copy);
    push_le_u32(&mut header, (archive_len % 0x1_0000_0000) as u32);
    assert(header@ =~= upload_header_bytes(metadata.spec_bytes(), archive_len as nat));
    header
}

/// The verb of a request.
#[derive(Clone, Copy, PartialEq, Eq, Debug, Structural)]
pub enum Method {
    Put,
    Delete,
}

/// One request to the registry, as the transport is handed it.
///
/// `body` holds the bytes that are sent from memory. Where `archive` names a
/// file, the bytes of that file follow the body and are streamed; then
/// `content_length` declares the length of both together.
#[derive(Debug, Clone)]
pub struct Request {
    pub method: Method,
    pub url: String,
    pub headers: Vec<(String, String)>,
    pub body: Option<Vec<u8>>,
    pub archive: Option<String>,
    pub content_length: Option<u64>,
}

/// The model of a [`Request`].
pub struct RequestView {
    pub method: Method,
    pub url: Seq<char>,
    pub headers: Seq<(Seq<char>, Seq<char>)>,
    pub body: Option<Seq<u8>>,
    pub archive: Option<Seq<char>>,
    pub content_length: Option<u64>,
}

/// The models of the headers of a request, in order.
pub open spec fn header_views(headers: Seq<(String, String)>) -> Seq<(Seq<char>, Seq<char>)> {
    Seq::new(headers.len(), |i: int| (headers[i].0@, headers[i].1@))
}

impl View for Request {
    type V = RequestView;

    open spec fn view(&self) -> RequestView {
        RequestView {
            method: self.method,
            url: self.url@,
            headers: header_views(self.headers@),
            body: match self.body {
                Some(bytes) => Some(bytes@),
                None => None,
            },
            archive: match self.archive {
                Some(path) => Some(path@),
                None => None,
            },
            content_length: self.content_length,
        }
    }
}

/// The address of a path of the registry's interface on a host.
pub open spec fn api_url(host: Seq<char>, path: Seq<char>) -> Seq<char> {
    host + "/api/v1"@ + path
}

/// The headers that every request carries: the token that authorizes it, and
/// that JSON is accepted in answer.
pub open spec fn auth_headers(token: Seq<char>) -> Seq<(Seq<char>, Seq<char>)> {
    seq![("Authorization"@, token), ("Accept"@, "application/json"@)]
}

/// The headers of a request whose body is JSON.
pub open spec fn json_headers(token: Seq<char>) -> Seq<(Seq<char>, Seq<char>)> {
    auth_headers(token).push(("Content-Type"@, "application/json"@))
}

/// The request that puts a JSON body to a path.
pub open spec fn put_request(
    host: Seq<char>,
    token: Seq<char>,
    path: Seq<char>,
    body: Seq<u8>,
) -> RequestView {
    RequestView {
        method: Method::Put,
        url: api_url(host, path),
        headers: json_headers(token),
        body: Some(body),
        archive: None,
        content_length: None,
    }
}

/// The request that deletes a path: with a JSON body it says so in its
/// headers, without one it carries none.
pub open spec fn delete_request(
    host: Seq<char>,
    token: Seq<char>,
    path: Seq<char>,
    body: Option<Seq<u8>>,
) -> RequestView {
    RequestView {
        method: Method::Delete,
        url: api_url(host, path),
        headers: if body is Some {
            json_headers(token)
        } else {
            auth_headers(token)
        },
        body,
        archive: None,
        content_length: None,
    }
}

/// The sum of two lengths as 64 bits hold it: the sum itself where it fits.
pub open spec fn total_length(head: nat, archive_len: u64) -> u64 {
    ((head + archive_len) % 0x1_0000_0000_0000_0000) as u64
}

/// The request that uploads a package: the framed head from memory, the
/// archive streamed after it, the length of both declared, and no content
/// type, since the body is binary.
pub open spec fn upload_request(
    host: Seq<char>,
    token: Seq<char>,
    metadata: Seq<u8>,
    archive: Seq<char>,
    archive_len: u64,
) -> RequestView {
    RequestView {
        method: Method::Put,
        url: api_url(host, "/crates/new"@),
        headers: auth_headers(token),
        body: Some(upload_header_bytes(metadata, archive_len as nat)),
        archive: Some(archive),
        content_length: Some(
            total_length(upload_header_bytes(metadata, archive_len as nat).len(), archive_len),
        ),
    }
}

fn api_address(host: &str, path: &str) -> (url: String)
    ensures
        url@ == api_url(host@, path@),
{
    let mut url = String::from_str(host);
    url.append("/api/v1");
    url.append(path);
    url
}

fn headers_for(token: &str, json_body: bool) -> (headers: Vec<(String, String)>)
    ensures
        header_views(headers@) == if json_body {
            json_headers(token@)
        } else {
            auth_headers(token@)
        },
{
    let mut headers: Vec<(String, String)> = Vec::new();
    headers.push((String::from_str("Authorization"), String::from_str(token)));
    headers.push((String::from_str("Accept"), String::from_str("application/json")));
    if json_body {
        headers.push((String::from_str("Content-Type"), String::from_str("application/json")));
        assert(header_views(headers@) =~= json_headers(token@));
    } else {
        assert(header_views(headers@) =~= auth_headers(token@));
    }
    headers
}

impl Request {
    /// The request that puts a JSON body to a path of the registry's
    /// interface.
    pub fn put(host: &str, token: &str, path: &str, body: &[u8]) -> (request: Request)
        ensures
            request@ == put_request(host@, token@, path@, body@),
    {
        Request {
            method: Method::Put,
            url: api_address(host, path),
            headers: headers_for(token, true),
            body: Some(slice_to_vec(body)),
            archive: None,
            content_length: None,
        }
    }

    /// The request that deletes a path of the registry's interface, with a
    /// JSON body or without one.
    pub fn delete(host: &str, token: &str, path: &str, body: Option<&[u8]>) -> (request: Request)
        ensures
            request@ == delete_request(
                host@,
                token@,
                path@,
                match body {
                    Some(bytes) => Some(bytes@),
                    None => None,
                },
            ),
    {
        let (headers, bytes) = match body {
            Some(b) => (headers_for(token, true), Some(slice_to_vec(b))),
            None => (headers_for(token, false), None),
        };
        Request {
            method: Method::Delete,
            url: api_address(host, path),
            headers,
            body: bytes,
            archive: None,
            content_length: None,
        }
    }

    /// The request that uploads a package from its encoded metadata, the path
    /// of its archive and the length of the archive.
    pub fn upload(host: &str, token: &str, metadata: &str, archive: &str, archive_len: u64) -> (request:
        Request)
        ensures
            request@ == upload_request(
                host@,
                token@,
                metadata.spec_bytes(),
                archive@,
                archive_len,
            ),
    {
        let header = upload_header(metadata, archive_len);
        let size = (header.len() as u64).wrapping_add(archive_len);
        Request {
            method: Method::Put,
            url: api_address(host, "/crates/new"),
            headers: headers_for(token, false),
            body: Some(header),
            archive: Some(String::from_str(archive)),
            content_length: Some(size),
        }
    }
}

/// What the registry answered: the status, the headers and the body.
#[derive(Debug, Clone)]
pub struct Response {
    pub code: u32,
    pub headers: Vec<(String, String)>,
    pub body: Vec<u8>,
}

/// A failure of the transport: its code and what it says.
#[derive(Debug, Clone)]
pub struct TransportError {
    pub code: u32,
    pub description: String,
}

/// A failure to read a local file.
#[derive(Debug, Clone)]
pub struct IoFailure {
    pub description: String,
}

/// Why the transport gave no response: it failed itself, or the archive to
/// send could not be read.
#[derive(Debug, Clone)]
pub enum SendError {
    Transport(TransportError),
    Io(IoFailure),
}

/// Why an operation of the registry failed.
#[derive(Debug, Clone)]
pub enum Error {
    /// The transport failed.
    CurlError(TransportError),
    /// The registry answered with a status that is neither success nor 403.
    NotOkResponse(Response),
    /// The body of a successful response is not UTF-8.
    NonUtf8Body,
    /// The registry reported errors of its own inside a successful response.
    ApiErrors(Vec<String>),
    /// The registry answered with status 403.
    Unauthorized,
    /// A local file could not be read.
    IoError(IoFailure),
}

/// One error that the registry reports.
#[derive(Debug, Clone)]
pub struct ApiError {
    pub detail: String,
}

/// The envelope in which the registry reports errors of its own:
/// `{"errors": [{"detail": ...}, ...]}`.
#[derive(Debug, Clone)]
pub struct ApiErrorList {
    pub errors: Vec<ApiError>,
}

/// The answer of the registry to an operation that changes something:
/// `{"ok": ...}`.
#[derive(Debug, Clone)]
pub struct R {
    pub ok: bool,
}

/// The detail of one reported error: the string member `detail` of an object.
pub open spec fn error_detail(doc: JsonDoc) -> Option<Seq<char>> {
    match doc.find("detail"@) {
        Some(detail) => detail.as_string(),
        None => None,
    }
}

/// The details that an error envelope reports, in the order of the response:
/// the member `errors` of an object must be an array, and each of its items an
/// object with a string member `detail`. `None` for any other document.
pub open spec fn error_details(doc: JsonDoc) -> Option<Seq<Seq<char>>> {
    match doc.find("errors"@) {
        Some(list) => match list.as_array() {
            Some(items) => if forall|i: int|
                0 <= i < items.len() ==> (#[trigger] error_detail(items[i])) is Some {
                Some(Seq::new(items.len(), |i: int| error_detail(items[i])->0))
            } else {
                None
            },
            None => None,
        },
        None => None,
    }
}

/// Whether the registry acknowledged an operation: the boolean member `ok` of
/// an object. `None` for a document without one.
pub open spec fn acknowledgement(doc: JsonDoc) -> Option<bool> {
    match doc.find("ok"@) {
        Some(ok) => ok.as_boolean(),
        None => None,
    }
}

/// The details of a list of reported errors, in order.
pub open spec fn details_of(errors: Seq<ApiError>) -> Seq<Seq<char>> {
    Seq::new(errors.len(), |i: int| errors[i].detail@)
}

impl RepresentsJSON for ApiError {
    open spec fn decodable(doc: JsonDoc) -> bool {
        error_detail(doc) is Some
    }

    open spec fn represents(doc: JsonDoc, value: ApiError) -> bool {
        error_detail(doc) == Some(value.detail@)
    }

    fn decode(doc: &JsonValue) -> (r: Option<ApiError>) {
        match doc.find("detail") {
            Some(detail) => match detail.as_string() {
                Some(text) => Some(ApiError { detail: text.clone() }),
                None => None,
            },
            None => None,
        }
    }
}

impl RepresentsJSON for ApiErrorList {
    open spec fn decodable(doc: JsonDoc) -> bool {
        error_details(doc) is Some
    }

    open spec fn represents(doc: JsonDoc, value: ApiErrorList) -> bool {
        error_details(doc) == Some(details_of(value.errors@))
    }

    fn decode(doc: &JsonValue) -> (r: Option<ApiErrorList>) {
        let list = match doc.find("errors") {
            Some(list) => list,
            None => {
                return None;
            },
        };
        let items = match list.as_array() {
            Some(items) => items,
            None => {
                return None;
            },
        };
        let ghost found = list@.as_array()->0;
        let mut errors: Vec<ApiError> = Vec::new();
        let mut i: usize = 0;
        while i < items.len()
            invariant
                i <= items@.len(),
                doc@.find("errors"@) == Some(list@),
                list@.as_array() == Some(found),
                found.len() == items@.len(),
                forall|j: int| 0 <= j < items@.len() ==> found[j] == items@[j]@,
                errors@.len() == i,
                forall|j: int|
                    0 <= j < i ==> (#[trigger] error_detail(found[j])) == Some(errors@[j].detail@),
            decreases items@.len() - i,
        {
            match ApiError::decode(&items[i]) {
                Some(error) => {
                    errors.push(error);
                },
                None => {
                    proof {
                        assert(found[i as int] == items@[i as int]@);
                        assert(!ApiError::decodable(found[i as int]));
                        assert(error_detail(found[i as int]) is None);
                        assert(doc@.find("errors"@) == Some(list@));
                        assert(list@.as_array() == Some(found));
                        assert(error_details(doc@) is None);
                    }
                    return None;
                },
            }
            i = i + 1;
        }
        proof {
            assert(error_details(doc@)->0 =~= details_of(errors@));
        }
        Some(ApiErrorList { errors })
    }
}

impl RepresentsJSON for R {
    open spec fn decodable(doc: JsonDoc) -> bool {
        acknowledgement(doc) is Some
    }

    open spec fn represents(doc: JsonDoc, value: R) -> bool {
        acknowledgement(doc) == Some(value.ok)
    }

    fn decode(doc: &JsonValue) -> (r: Option<R>) {
        match doc.find("ok") {
            Some(ok) => match ok.as_boolean() {
                Some(b) => Some(R { ok: b }),
                None => None,
            },
            None => None,
        }
    }
}

/// Calls `String::from_utf8`. The contract claims what std documents: the
/// text is given exactly where the bytes are valid UTF-8, and it is the text
/// that the bytes encode.
#[verifier::external_body]
fn string_from_utf8(bytes: Vec<u8>) -> (r: Option<String>)
    ensures
        r is Some <==> valid_utf8(bytes@),
        r matches Some(text) ==> text@ == decode_utf8(bytes@),
{
    String::from_utf8(bytes).ok()
}

/// Whether `r` is what a successful response with the text `body` gives,
/// where `parsed` is what the text was read as: the reported errors where the
/// text was read as an error envelope, and the body as it is for any other
/// text. A text that is no JSON and a text that passes a limit of the parser
/// are both read as no document, so both give the body.
pub open spec fn body_outcome(
    body: Seq<char>,
    parsed: Result<JsonDoc, JsonError>,
    r: Result<String, Error>,
) -> bool {
    if parsed is Ok && error_details(parsed->Ok_0) is Some {
        r matches Err(Error::ApiErrors(details)) && texts(details@) == error_details(
            parsed->Ok_0,
        )->0
    } else {
        r matches Ok(text) && text@ == body
    }
}

/// Whether `r` is what the response of the transport means.
///
/// A failure of the transport or of reading the archive is handed on. Status
/// 403 is `Unauthorized`, whatever the body holds. Any status but 0 and 200 is
/// `NotOkResponse` with the whole response. A successful response must have a
/// body in UTF-8, and then `body_outcome` decides.
///
/// The body is looked into for an error envelope only where the JSON parser
/// can be handed it (see `limits`). An envelope that passes a limit of the
/// parser therefore comes back as the body, not as `ApiErrors`.
pub open spec fn handled(response: Result<Response, SendError>, r: Result<String, Error>) -> bool {
    match response {
        Err(SendError::Transport(e)) => r == Err::<String, Error>(Error::CurlError(e)),
        Err(SendError::Io(e)) => r == Err::<String, Error>(Error::IoError(e)),
        Ok(response) => if response.code == 403 {
            r == Err::<String, Error>(Error::Unauthorized)
        } else if response.code != 0 && response.code != 200 {
            r == Err::<String, Error>(Error::NotOkResponse(response))
        } else if !valid_utf8(response.body@) {
            r == Err::<String, Error>(Error::NonUtf8Body)
        } else {
            body_outcome(decode_utf8(response.body@), read_json(decode_utf8(response.body@)), r)
        },
    }
}

/// The model of what a text was read as.
pub open spec fn reading_view(parsed: Result<JsonValue, JsonError>) -> Result<JsonDoc, JsonError> {
    match parsed {
        Ok(doc) => Ok(doc@),
        Err(e) => Err(e),
    }
}

/// Decides what a successful response with the text `body` gives, from what
/// the text was read as.
pub fn interpret_body(body: String, parsed: Result<JsonValue, JsonError>) -> (r: Result<
    String,
    Error,
>)
    ensures
        body_outcome(body@, reading_view(parsed), r),
{
    match parsed {
        Err(_) => Ok(body),
        Ok(doc) => match ApiErrorList::decode(&doc) {
            Some(list) => {
                let mut details: Vec<String> = Vec::new();
                let mut errors = list.errors;
                let ghost all = errors@;
                let mut i: usize = 0;
                while i < errors.len()
                    invariant
                        i <= errors@.len(),
                        errors@.len() == all.len(),
                        forall|j: int| i <= j < all.len() ==> errors@[j].detail@ == all[j].detail@,
                        details@.len() == i,
                        forall|j: int| 0 <= j < i ==> details@[j]@ == all[j].detail@,
                    decreases errors@.len() - i,
                {
                    details.push(errors[i].detail.clone());
                    i = i + 1;
                }
                proof {
                    assert(texts(details@) =~= details_of(all));
                }
                Err(Error::ApiErrors(details))
            },
            None => Ok(body),
        },
    }
}

/// Says what the response of the transport means: the body of a successful
/// response, or the error of the operation.
pub fn handle(response: Result<Response, SendError>) -> (r: Result<String, Error>)
    ensures
        handled(response, r),
{
    let response = match response {
        Ok(response) => response,
        Err(SendError::Transport(e)) => {
            return Err(Error::CurlError(e));
        },
        Err(SendError::Io(e)) => {
            return Err(Error::IoError(e));
        },
    };
    if response.code == 403 {
        return Err(Error::Unauthorized);
    }
    if response.code != 0 && response.code != 200 {
        return Err(Error::NotOkResponse(response));
    }
    let body = match string_from_utf8(response.body) {
        Some(body) => body,
        None => {
            return Err(Error::NonUtf8Body);
        },
    };
    let parsed = JsonValue::parse(body.as_str());
    interpret_body(body, parsed)
}

/// The view of an optional text.
pub open spec fn optional_view(text: Option<String>) -> Option<Seq<char>> {
    match text {
        Some(t) => Some(t@),
        None => None,
    }
}

/// The views of a list of borrowed texts, in order.
pub open spec fn str_texts(list: Seq<&str>) -> Seq<Seq<char>> {
    Seq::new(list.len(), |i: int| list[i]@)
}

/// The body of a request that names owners: `{"users": [...]}`.
pub struct OwnersReq<'a> {
    pub users: &'a [&'a str],
}

/// The document of a request that names the owners `users`.
pub open spec fn owners_doc(users: Seq<Seq<char>>) -> JsonDoc {
    JsonDoc::Object(seq![("users"@, JsonDoc::Array(string_docs(users)))])
}

/// The document of a request that names owners is nested in two levels.
pub proof fn lemma_owners_doc_nests(users: Seq<Seq<char>>)
    ensures
        owners_doc(users).nests_within(2),
        owners_doc(users).nests_within(MAX_DEPTH as nat),
{
    lemma_strings_nest(users);
    reveal_with_fuel(JsonDoc::nests_within, 2);
    assert(owners_doc(users).nests_within(2));
    lemma_nests_more(owners_doc(users), 2, MAX_DEPTH as nat);
}

impl<'a> ToJson for OwnersReq<'a> {
    open spec fn json(&self) -> JsonDoc {
        owners_doc(str_texts(self.users@))
    }

    fn to_json(&self) -> (doc: JsonValue) {
        let mut items: Vec<JsonValue> = Vec::new();
        let mut i: usize = 0;
        while i < self.users.len()
            invariant
                i <= self.users@.len(),
                items@.len() == i,
                forall|j: int|
                    0 <= j < i ==> (#[trigger] items@[j])@ == JsonDoc::String(self.users@[j]@),
            decreases self.users@.len() - i,
        {
            items.push(JsonValue::string(self.users[i]));
            i = i + 1;
        }
        let mut members: Vec<(String, JsonValue)> = Vec::new();
        proof {
            lemma_docs(items@);
            assert(docs(items@) =~= string_docs(str_texts(self.users@)));
        }
        members.push((String::from_str("users"), JsonValue::array(items)));
        proof {
            lemma_member_docs(members@);
            assert(member_docs(members@) =~= seq![
                ("users"@, JsonDoc::Array(string_docs(str_texts(self.users@)))),
            ]);
        }
        JsonValue::object(members)
    }
}

/// One dependency of a package to publish.
#[derive(Debug, Clone)]
pub struct NewCrateDependency {
    pub optional: bool,
    pub default_features: bool,
    pub name: String,
    pub features: Vec<String>,
    pub version_req: String,
    pub target: Option<String>,
}

/// The metadata of a package to publish.
///
/// `features` maps the name of each feature to what it turns on. A name is
/// meant to occur once (`features_distinct`). Where one occurs twice, the
/// later entry is the one that counts: it is the one that the document of the
/// package gives for that name, and the one that is written.
#[derive(Debug, Clone)]
pub struct NewCrate {
    pub name: String,
    pub vers: String,
    pub deps: Vec<NewCrateDependency>,
    pub features: Vec<(String, Vec<String>)>,
    pub authors: Vec<String>,
    pub description: Option<String>,
    pub documentation: Option<String>,
    pub homepage: Option<String>,
    pub readme: Option<String>,
    pub keywords: Vec<String>,
    pub license: Option<String>,
    pub repository: Option<String>,
}

impl ToJson for NewCrateDependency {
    open spec fn json(&self) -> JsonDoc {
        JsonDoc::Object(
            seq![
                ("optional"@, JsonDoc::Boolean(self.optional)),
                ("default_features"@, JsonDoc::Boolean(self.default_features)),
                ("name"@, JsonDoc::String(self.name@)),
                ("features"@, JsonDoc::Array(string_docs(texts(self.features@)))),
                ("version_req"@, JsonDoc::String(self.version_req@)),
                ("target"@, optional_doc(optional_view(self.target))),
            ],
        )
    }

    fn to_json(&self) -> (doc: JsonValue) {
        let mut members: Vec<(String, JsonValue)> = Vec::new();
        members.push((String::from_str("optional"), JsonValue::Boolean(self.optional)));
        members.push(
            (String::from_str("default_features"), JsonValue::Boolean(self.default_features)),
        );
        members.push((String::from_str("name"), JsonValue::string(self.name.as_str())));
        members.push((String::from_str("features"), JsonValue::strings(&self.features)));
        members.push(
            (String::from_str("version_req"), JsonValue::string(self.version_req.as_str())),
        );
        members.push((String::from_str("target"), JsonValue::optional(&self.target)));
        proof {
            lemma_member_docs(members@);
            assert(member_docs(members@) =~= self.json()->Object_0);
        }
        JsonValue::object(members)
    }
}

/// The document of a dependency is nested in two levels.
pub proof fn lemma_dependency_nests(dependency: NewCrateDependency)
    ensures
        dependency.json().nests_within(2),
{
    lemma_strings_nest(texts(dependency.features@));
    reveal_with_fuel(JsonDoc::nests_within, 2);
}

/// The documents of a list of dependencies, in order.
pub open spec fn dependency_docs(deps: Seq<NewCrateDependency>) -> Seq<JsonDoc> {
    Seq::new(deps.len(), |i: int| deps[i].json())
}

/// The members of the object of a feature map: for each feature, in order,
/// its name and the array of what it turns on.
pub open spec fn feature_docs(features: Seq<(String, Vec<String>)>) -> Seq<(Seq<char>, JsonDoc)> {
    Seq::new(
        features.len(),
        |i: int| (features[i].0@, JsonDoc::Array(string_docs(texts(features[i].1@)))),
    )
}

fn dependencies_to_json(deps: &Vec<NewCrateDependency>) -> (doc: JsonValue)
    ensures
        doc@ == JsonDoc::Array(dependency_docs(deps@)),
{
    let mut items: Vec<JsonValue> = Vec::new();
    let mut i: usize = 0;
    while i < deps.len()
        invariant
            i <= deps@.len(),
            items@.len() == i,
            forall|j: int| 0 <= j < i ==> (#[trigger] items@[j])@ == deps@[j].json(),
        decreases deps@.len() - i,
    {
        items.push(deps[i].to_json());
        i = i + 1;
    }
    proof {
        lemma_docs(items@);
        assert(docs(items@) =~= dependency_docs(deps@));
    }
    JsonValue::array(items)
}

fn features_to_json(features: &Vec<(String, Vec<String>)>) -> (doc: JsonValue)
    ensures
        doc@ == JsonDoc::Object(feature_docs(features@)),
{
    let mut members: Vec<(String, JsonValue)> = Vec::new();
    let mut i: usize = 0;
    while i < features.len()
        invariant
            i <= features@.len(),
            members@.len() == i,
            forall|j: int|
                0 <= j < i ==> (#[trigger] members@[j]).0@ == features@[j].0@ && members@[j].1@
                    == JsonDoc::Array(string_docs(texts(features@[j].1@))),
        decreases features@.len() - i,
    {
        members.push((features[i].0.clone(), JsonValue::strings(&features[i].1)));
        i = i + 1;
    }
    proof {
        lemma_member_docs(members@);
        assert(member_docs(members@) =~= feature_docs(features@));
    }
    JsonValue::object(members)
}

/// The document of a package is nested in four levels, so it can always be
/// written.
pub proof fn lemma_crate_nests(krate: NewCrate)
    ensures
        krate.json().nests_within(4),
        krate.json().nests_within(MAX_DEPTH as nat),
{
    let deps = JsonDoc::Array(dependency_docs(krate.deps@));
    assert(deps.nests_within(3)) by {
        assert forall|i: int| 0 <= i < krate.deps@.len() implies (#[trigger] dependency_docs(
            krate.deps@,
        )[i]).nests_within(2) by {
            lemma_dependency_nests(krate.deps@[i]);
        }
    }
    let features = JsonDoc::Object(feature_docs(krate.features@));
    assert(features.nests_within(3)) by {
        assert forall|i: int| 0 <= i < krate.features@.len() implies (#[trigger] feature_docs(
            krate.features@,
        )[i]).1.nests_within(2) by {
            lemma_strings_nest(texts(krate.features@[i].1@));
            lemma_nests_more(feature_docs(krate.features@)[i].1, 1, 2);
        }
    }
    lemma_strings_nest(texts(krate.authors@));
    lemma_nests_more(JsonDoc::Array(string_docs(texts(krate.authors@))), 1, 3);
    lemma_strings_nest(texts(krate.keywords@));
    lemma_nests_more(JsonDoc::Array(string_docs(texts(krate.keywords@))), 1, 3);
    assert(krate.json().nests_within(4)) by {
        reveal_with_fuel(JsonDoc::nests_within, 2);
    }
    lemma_nests_more(krate.json(), 4, MAX_DEPTH as nat);
}

impl NewCrate {
    /// Whether no feature is named twice.
    pub open spec fn features_distinct(&self) -> bool {
        forall|i: int, j: int|
            0 <= i < j < self.features@.len() ==> (#[trigger] self.features@[i]).0@ != (
            #[trigger] self.features@[j]).0@
    }
}

/// In the document of a package, what a feature turns on is what the last
/// entry with its name says.
pub proof fn lemma_later_feature_counts(krate: NewCrate, i: int)
    requires
        0 <= i < krate.features@.len(),
        forall|j: int|
            i < j < krate.features@.len() ==> (#[trigger] krate.features@[j]).0@
                != krate.features@[i].0@,
    ensures
        JsonDoc::Object(feature_docs(krate.features@)).find(krate.features@[i].0@) == Some(
            JsonDoc::Array(string_docs(texts(krate.features@[i].1@))),
        ),
{
    let members = feature_docs(krate.features@);
    assert forall|j: int| i < j < members.len() implies (#[trigger] members[j]).0
        != krate.features@[i].0@ by {
        assert(members[j].0 == krate.features@[j].0@);
    }
    lemma_lookup_last(members, krate.features@[i].0@, i);
}

impl ToJson for NewCrate {
    open spec fn json(&self) -> JsonDoc {
        JsonDoc::Object(
            seq![
                ("name"@, JsonDoc::String(self.name@)),
                ("vers"@, JsonDoc::String(self.vers@)),
                ("deps"@, JsonDoc::Array(dependency_docs(self.deps@))),
                ("features"@, JsonDoc::Object(feature_docs(self.features@))),
                ("authors"@, JsonDoc::Array(string_docs(texts(self.authors@)))),
                ("description"@, optional_doc(optional_view(self.description))),
                ("documentation"@, optional_doc(optional_view(self.documentation))),
                ("homepage"@, optional_doc(optional_view(self.homepage))),
                ("readme"@, optional_doc(optional_view(self.readme))),
                ("keywords"@, JsonDoc::Array(string_docs(texts(self.keywords@)))),
                ("license"@, optional_doc(optional_view(self.license))),
                ("repository"@, optional_doc(optional_view(self.repository))),
            ],
        )
    }

    fn to_json(&self) -> (doc: JsonValue) {
        let mut members: Vec<(String, JsonValue)> = Vec::new();
        members.push((String::from_str("name"), JsonValue::string(self.name.as_str())));
        members.push((String::from_str("vers"), JsonValue::string(self.vers.as_str())));
        members.push((String::from_str("deps"), dependencies_to_json(&self.deps)));
        members.push((String::from_str("features"), features_to_json(&self.features)));
        members.push((String::from_str("authors"), JsonValue::strings(&self.authors)));
        members.push((String::from_str("description"), JsonValue::optional(&self.description)));
        members.push(
            (String::from_str("documentation"), JsonValue::optional(&self.documentation)),
        );
        members.push((String::from_str("homepage"), JsonValue::optional(&self.homepage)));
        members.push((String::from_str("readme"), JsonValue::optional(&self.readme)));
        members.push((String::from_str("keywords"), JsonValue::strings(&self.keywords)));
        members.push((String::from_str("license"), JsonValue::optional(&self.license)));
        members.push((String::from_str("repository"), JsonValue::optional(&self.repository)));
        proof {
            lemma_member_docs(members@);
            assert(member_docs(members@) =~= self.json()->Object_0);
        }
        JsonValue::object(members)
    }
}

/// The status of a response decides its class: 403 is `Unauthorized`
/// whatever the body holds, any status but 0, 200 and 403 is `NotOkResponse`
/// with the response, and with status 0 or 200 the body alone decides.
pub proof fn lemma_status_decides(response: Response, r: Result<String, Error>)
    requires
        handled(Ok(response), r),
    ensures
        response.code == 403 ==> r == Err::<String, Error>(Error::Unauthorized),
        response.code != 0 && response.code != 200 && response.code != 403 ==> r == Err::<
            String,
            Error,
        >(Error::NotOkResponse(response)),
        response.code == 0 || response.code == 200 ==> if valid_utf8(response.body@) {
            body_outcome(decode_utf8(response.body@), read_json(decode_utf8(response.body@)), r)
        } else {
            r == Err::<String, Error>(Error::NonUtf8Body)
        },
{
}

/// An error envelope in the body of a successful response is a failure:
/// where the parser can be handed the body and reads an error envelope from
/// it, the outcome is `ApiErrors` with one entry for each item of `errors`,
/// the `detail` of that item, in the order of the response.
pub proof fn lemma_envelope_is_failure(response: Response, doc: JsonDoc, r: Result<String, Error>)
    requires
        handled(Ok(response), r),
        response.code == 0 || response.code == 200,
        valid_utf8(response.body@),
        verdict(encode_utf8(decode_utf8(response.body@))) == Verdict::Fine,
        parsed_json(decode_utf8(response.body@)) == Some(doc),
        error_details(doc) is Some,
    ensures
        r matches Err(Error::ApiErrors(details)) && texts(details@) == error_details(doc)->0,
        doc.find("errors"@) is Some,
        doc.find("errors"@)->0.as_array() is Some,
        error_details(doc)->0.len() == doc.find("errors"@)->0.as_array()->0.len(),
        forall|i: int|
            0 <= i < error_details(doc)->0.len() ==> Some(#[trigger] error_details(doc)->0[i])
                == error_detail(doc.find("errors"@)->0.as_array()->0[i]),
{
}

/// An operation succeeds exactly where the transport gave a response with
/// status 0 or 200 whose body is UTF-8 and is not read as an error envelope;
/// the body is then returned as it is.
pub proof fn lemma_success(response: Result<Response, SendError>, r: Result<String, Error>)
    requires
        handled(response, r),
    ensures
        r is Ok <==> (response matches Ok(answer) && (answer.code == 0 || answer.code == 200)
            && valid_utf8(answer.body@) && !(read_json(decode_utf8(answer.body@)) matches Ok(doc)
            && error_details(doc) is Some)),
        r matches Ok(text) ==> response matches Ok(answer) && text@ == decode_utf8(answer.body@),
{
}

/// The headers of a response as one text: each as `name: value, `.
pub open spec fn headers_text(headers: Seq<(Seq<char>, Seq<char>)>) -> Seq<char>
    decreases headers.len(),
{
    if headers.len() == 0 {
        Seq::empty()
    } else {
        headers_text(headers.drop_last()) + headers.last().0 + ": "@ + headers.last().1 + ", "@
    }
}

/// The body of a response as text: the text itself where the body is UTF-8,
/// and otherwise the number of its bytes.
pub open spec fn body_text(body: Seq<u8>) -> Seq<char> {
    if valid_utf8(body) {
        decode_utf8(body)
    } else {
        "bytes["@ + decimal_digits(body.len()) + "]"@
    }
}

/// A response as one text: the status, the headers and the body. The form is
/// this library's own.
pub open spec fn response_text(response: Response) -> Seq<char> {
    "Response {"@ + decimal_digits(response.code as nat) + ", "@ + headers_text(
        header_views(response.headers@),
    ) + body_text(response.body@) + "}"@
}

/// What an error says.
pub open spec fn error_text(error: Error) -> Seq<char> {
    match error {
        Error::NonUtf8Body => "reponse body was not utf-8"@,
        Error::CurlError(e) => "http error: "@ + e.description@,
        Error::NotOkResponse(response) => "failed to get a 200 OK response: "@ + response_text(
            response,
        ),
        Error::ApiErrors(errors) => "api errors: "@ + joined(texts(errors@), ", "@),
        Error::Unauthorized => "unauthorized API access"@,
        Error::IoError(e) => "io error: "@ + e.description@,
    }
}

impl Response {
    /// The response as one text.
    pub fn to_string(&self) -> (text: String)
        ensures
            text@ == response_text(*self),
    {
        let mut text = String::from_str("Response {");
        text.append(decimal(self.code as u64).as_str());
        text.append(", ");
        let ghost start = text@;
        let mut i: usize = 0;
        while i < self.headers.len()
            invariant
                i <= self.headers@.len(),
                text@ == start + headers_text(header_views(self.headers@).take(i as int)),
            decreases self.headers@.len() - i,
        {
            text.append(self.headers[i].0.as_str());
            text.append(": ");
            text.append(self.headers[i].1.as_str());
            text.append(", ");
            proof {
                let all = header_views(self.headers@);
                assert(all.take(i as int + 1).drop_last() =~= all.take(i as int));
                assert(all.take(i as int + 1).last() == all[i as int]);
                assert(text@ =~= start + headers_text(all.take(i as int + 1)));
            }
            i = i + 1;
        }
        proof {
            let all = header_views(self.headers@);
            assert(all.take(all.len() as int) =~= all);
        }
        match string_from_utf8(self.body.clone()) {
            Some(body) => {
                text.append(body.as_str());
            },
            None => {
                text.append("bytes[");
                text.append(decimal(self.body.len() as u64).as_str());
                text.append("]");
            },
        }
        text.append("}");
        assert(text@ =~= response_text(*self));
        text
    }
}

impl Error {
    /// What the error says.
    pub fn to_string(&self) -> (text: String)
        ensures
            text@ == error_text(*self),
    {
        match self {
            Error::NonUtf8Body => String::from_str("reponse body was not utf-8"),
            Error::CurlError(e) => {
                let mut text = String::from_str("http error: ");
                text.append(e.description.as_str());
                text
            },
            Error::NotOkResponse(response) => {
                let mut text = String::from_str("failed to get a 200 OK response: ");
                text.append(response.to_string().as_str());
                text
            },
            Error::ApiErrors(errors) => {
                let mut text = String::from_str("api errors: ");
                text.append(join(errors, ", ").as_str());
                text
            },
            Error::Unauthorized => String::from_str("unauthorized API access"),
            Error::IoError(e) => {
                let mut text = String::from_str("io error: ");
                text.append(e.description.as_str());
                text
            },
        }
    }

    /// The error for the user to read, with what the error says as its
    /// description.
    pub fn to_cargo_error(&self) -> (error: CargoError)
        ensures
            error@ == plain_chain(error_text(*self)),
    {
        human(self.to_string().as_str())
    }
}

/// The path of the owners of a package.
pub open spec fn owners_path(krate: Seq<char>) -> Seq<char> {
    "/crates/"@ + krate + "/owners"@
}

/// The path that a version of a package is yanked at.
pub open spec fn yank_path(krate: Seq<char>, version: Seq<char>) -> Seq<char> {
    "/crates/"@ + krate + "/"@ + version + "/yank"@
}

/// The path that a version of a package is restored at.
pub open spec fn unyank_path(krate: Seq<char>, version: Seq<char>) -> Seq<char> {
    "/crates/"@ + krate + "/"@ + version + "/unyank"@
}

/// Whether the body of an answer acknowledges an operation, from what the
/// body was read as: it was read as an object whose member `ok` is true. A body
/// that was read as no document acknowledges nothing.
pub open spec fn acknowledges(parsed: Result<JsonDoc, JsonError>) -> bool {
    parsed matches Ok(doc) && acknowledgement(doc) == Some(true)
}

/// Whether `r` is the outcome of an operation that the registry answers with
/// an acknowledgement, where `reply` is what its response means: the error of
/// the response, or whether the body acknowledges the operation.
pub open spec fn confirmed(reply: Result<String, Error>, r: Result<bool, Error>) -> bool {
    match reply {
        Ok(body) => r == Ok::<bool, Error>(acknowledges(read_json(body@))),
        Err(e) => r == Err::<bool, Error>(e),
    }
}

/// Whether `r` is the outcome of an upload, where `reply` is what its
/// response means: the body of a successful response is dropped.
pub open spec fn uploaded(reply: Result<String, Error>, r: Result<(), Error>) -> bool {
    match reply {
        Ok(_) => r == Ok::<(), Error>(()),
        Err(e) => r == Err::<(), Error>(e),
    }
}

/// Says whether the body of an answer acknowledges an operation, from what
/// the body was read as.
pub fn acknowledged(parsed: Result<JsonValue, JsonError>) -> (ok: bool)
    ensures
        ok == acknowledges(reading_view(parsed)),
{
    match parsed {
        Ok(doc) => match R::decode(&doc) {
            Some(answer) => answer.ok,
            None => false,
        },
        Err(_) => false,
    }
}

/// Turns what a response means into the outcome of an operation that the
/// registry answers with an acknowledgement.
pub fn confirm(reply: Result<String, Error>) -> (r: Result<bool, Error>)
    ensures
        confirmed(reply, r),
{
    match reply {
        Ok(body) => Ok(acknowledged(JsonValue::parse(body.as_str()))),
        Err(e) => Err(e),
    }
}

fn owners_address(krate: &str) -> (path: String)
    ensures
        path@ == owners_path(krate@),
{
    let mut path = String::from_str("/crates/");
    path.append(krate);
    path.append("/owners");
    path
}

fn version_address(krate: &str, version: &str, action: &str) -> (path: String)
    ensures
        path@ == "/crates/"@ + krate@ + "/"@ + version@ + action@,
{
    let mut path = String::from_str("/crates/");
    path.append(krate);
    path.append("/");
    path.append(version);
    path.append(action);
    path
}

/// A client of the registry on one host, with the token that authorizes its
/// requests and the transport that sends them.
pub struct Registry<H> {
    host: String,
    token: String,
    handle: H,
}

impl<H: Fn(&Request) -> Result<Response, SendError>> Registry<H> {
    /// The host of the registry.
    pub closed spec fn host(&self) -> Seq<char> {
        self.host@
    }

    /// The token that authorizes the requests.
    pub closed spec fn token(&self) -> Seq<char> {
        self.token@
    }

    /// The transport that sends the requests.
    pub closed spec fn transport(&self) -> H {
        self.handle
    }

    /// Whether the transport takes every request.
    pub open spec fn ready(&self) -> bool {
        forall|request: &Request| call_requires(self.transport(), (request,))
    }

    /// Whether the transport was handed a request with the model `request`
    /// and what it gave means `reply`.
    pub open spec fn sent(&self, request: RequestView, reply: Result<String, Error>) -> bool {
        exists|sent: Request, response: Result<Response, SendError>|
            sent@ == request && call_ensures(self.transport(), (&sent,), response) && handled(
                response,
                reply,
            )
    }

    /// A client that sends its requests with `handle`.
    pub fn new_handle(host: String, token: String, handle: H) -> (registry: Registry<H>)
        ensures
            registry.host() == host@,
            registry.token() == token@,
            registry.transport() == handle,
    {
        Registry { host, token, handle }
    }

    fn send(&self, request: Request) -> (r: Result<String, Error>)
        requires
            self.ready(),
        ensures
            self.sent(request@, r),
    {
        assert(call_requires(self.transport(), (&request,)));
        let response = (self.handle)(&request);
        handle(response)
    }

    /// Puts a JSON body to a path of the registry's interface and says what
    /// the response means.
    pub fn put(&self, path: &str, b: &[u8]) -> (r: Result<String, Error>)
        requires
            self.ready(),
        ensures
            self.sent(put_request(self.host(), self.token(), path@, b@), r),
    {
        self.send(Request::put(self.host.as_str(), self.token.as_str(), path, b))
    }

    /// Deletes a path of the registry's interface, with a JSON body or
    /// without one, and says what the response means.
    pub fn delete(&self, path: &str, b: Option<&[u8]>) -> (r: Result<String, Error>)
        requires
            self.ready(),
        ensures
            self.sent(
                delete_request(
                    self.host(),
                    self.token(),
                    path@,
                    match b {
                        Some(bytes) => Some(bytes@),
                        None => None,
                    },
                ),
                r,
            ),
    {
        self.send(Request::delete(self.host.as_str(), self.token.as_str(), path, b))
    }

    /// Makes the users `owners` owners of the package `krate`. Gives whether
    /// the registry acknowledged it.
    pub fn add_owners(&self, krate: &str, owners: &[&str]) -> (r: Result<bool, Error>)
        requires
            self.ready(),
        ensures
            exists|reply: Result<String, Error>|
                self.sent(
                    put_request(
                        self.host(),
                        self.token(),
                        owners_path(krate@),
                        encode_utf8(rendered_json(owners_doc(str_texts(owners@)))),
                    ),
                    reply,
                ) && confirmed(reply, r),
    {
        proof {
            lemma_owners_doc_nests(str_texts(owners@));
        }
        let body = OwnersReq { users: owners }.to_json().render_shallow();
        let path = owners_address(krate);
        let reply = self.put(path.as_str(), body.as_str().as_bytes());
        confirm(reply)
    }

    /// Takes the users `owners` from the owners of the package `krate`. Gives
    /// whether the registry acknowledged it.
    pub fn remove_owners(&self, krate: &str, owners: &[&str]) -> (r: Result<bool, Error>)
        requires
            self.ready(),
        ensures
            exists|reply: Result<String, Error>|
                self.sent(
                    delete_request(
                        self.host(),
                        self.token(),
                        owners_path(krate@),
                        Some(encode_utf8(rendered_json(owners_doc(str_texts(owners@))))),
                    ),
                    reply,
                ) && confirmed(reply, r),
    {
        proof {
            lemma_owners_doc_nests(str_texts(owners@));
        }
        let body = OwnersReq { users: owners }.to_json().render_shallow();
        let path = owners_address(krate);
        let reply = self.delete(path.as_str(), Some(body.as_str().as_bytes()));
        confirm(reply)
    }

    /// Uploads a package: its metadata `krate` and the archive at `tarball`,
    /// whose length in bytes is `size`, or the failure to find it out.
    ///
    /// Without the length nothing is sent and the failure is returned.
    pub fn publish(&self, krate: &NewCrate, tarball: &str, size: Result<u64, IoFailure>) -> (r:
        Result<(), Error>)
        requires
            self.ready(),
        ensures
            match size {
                Err(e) => r == Err::<(), Error>(Error::IoError(e)),
                Ok(archive_len) => exists|reply: Result<String, Error>|
                    self.sent(
                        upload_request(
                            self.host(),
                            self.token(),
                            encode_utf8(rendered_json(krate.json())),
                            tarball@,
                            archive_len,
                        ),
                        reply,
                    ) && uploaded(reply, r),
            },
    {
        proof {
            lemma_crate_nests(*krate);
        }
        let json = krate.to_json().render_shallow();
        let archive_len = match size {
            Ok(n) => n,
            Err(e) => {
                return Err(Error::IoError(e));
            },
        };
        let request = Request::upload(
            self.host.as_str(),
            self.token.as_str(),
            json.as_str(),
            tarball,
            archive_len,
        );
        let reply = self.send(request);
        let ghost meaning = reply;
        let r = match reply {
            Ok(_) => Ok(()),
            Err(e) => Err(e),
        };
        assert(self.sent(request@, meaning) && uploaded(meaning, r));
        r
    }

    /// Yanks the version `version` of the package `krate`. Gives whether the
    /// registry acknowledged it.
    pub fn yank(&self, krate: &str, version: &str) -> (r: Result<bool, Error>)
        requires
            self.ready(),
        ensures
            exists|reply: Result<String, Error>|
                self.sent(
                    delete_request(self.host(), self.token(), yank_path(krate@, version@), None),
                    reply,
                ) && confirmed(reply, r),
    {
        let path = version_address(krate, version, "/yank");
        let reply = self.delete(path.as_str(), None);
        confirm(reply)
    }

    /// Restores the yanked version `version` of the package `krate`. Gives
    /// whether the registry acknowledged it.
    pub fn unyank(&self, krate: &str, version: &str) -> (r: Result<bool, Error>)
        requires
            self.ready(),
        ensures
            exists|reply: Result<String, Error>|
                self.sent(
                    put_request(
                        self.host(),
                        self.token(),
                        unyank_path(krate@, version@),
                        Seq::empty(),
                    ),
                    reply,
                ) && confirmed(reply, r),
    {
        let path = version_address(krate, version, "/unyank");
        let empty: Vec<u8> = Vec::new();
        let reply = self.put(path.as_str(), empty.as_slice());
        confirm(reply)
    }
}

} // verus!
