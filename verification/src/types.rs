//! The request and response data model.

use vstd::prelude::*;
use vstd::utf8::decode_utf8;
use vstd::utf8::valid_utf8;
use crate::error::HushError;
use crate::error::HushResult;
use crate::strmap::StringMap;
use crate::text::bytes_of;
use crate::text::concat;
use crate::text::concat3;
use crate::text::decode_text;
use crate::text::str_eq;
use crate::text::to_bytes;
use crate::text::to_uppercase;
use crate::text::uppercase_of;

verus! {

/// The standard HTTP verbs.
#[derive(Debug, Clone, Copy, PartialEq, Eq, Structural)]
pub enum HttpMethod {
    GET,
    POST,
    PUT,
    DELETE,
    PATCH,
    HEAD,
    OPTIONS,
}

/// The verb whose canonical, upper-case name is `s`.
pub open spec fn method_named(s: Seq<char>) -> Option<HttpMethod> {
    if s == "GET"@ {
        Some(HttpMethod::GET)
    } else if s == "POST"@ {
        Some(HttpMethod::POST)
    } else if s == "PUT"@ {
        Some(HttpMethod::PUT)
    } else if s == "DELETE"@ {
        Some(HttpMethod::DELETE)
    } else if s == "PATCH"@ {
        Some(HttpMethod::PATCH)
    } else if s == "HEAD"@ {
        Some(HttpMethod::HEAD)
    } else if s == "OPTIONS"@ {
        Some(HttpMethod::OPTIONS)
    } else {
        None
    }
}

impl HttpMethod {
    /// The canonical name of the verb.
    pub open spec fn name(self) -> Seq<char> {
        match self {
            HttpMethod::GET => "GET"@,
            HttpMethod::POST => "POST"@,
            HttpMethod::PUT => "PUT"@,
            HttpMethod::DELETE => "DELETE"@,
            HttpMethod::PATCH => "PATCH"@,
            HttpMethod::HEAD => "HEAD"@,
            HttpMethod::OPTIONS => "OPTIONS"@,
        }
    }

    /// The verb with the canonical name `upper`, which must already be in
    /// upper case.
    pub fn from_canonical(upper: &str) -> (m: Option<HttpMethod>)
        ensures
            m == method_named(upper@),
    {
        if str_eq(upper, "GET") {
            Some(HttpMethod::GET)
        } else if str_eq(upper, "POST") {
            Some(HttpMethod::POST)
        } else if str_eq(upper, "PUT") {
            Some(HttpMethod::PUT)
        } else if str_eq(upper, "DELETE") {
            Some(HttpMethod::DELETE)
        } else if str_eq(upper, "PATCH") {
            Some(HttpMethod::PATCH)
        } else if str_eq(upper, "HEAD") {
            Some(HttpMethod::HEAD)
        } else if str_eq(upper, "OPTIONS") {
            Some(HttpMethod::OPTIONS)
        } else {
            None
        }
    }

    /// Reads a verb, in any letter case. A text that names no verb is an
    /// invalid input, and the error quotes it.
    pub fn from_str(method: &str) -> (r: HushResult<HttpMethod>)
        ensures
            match method_named(uppercase_of(method@)) {
                Some(m) => r == Ok::<HttpMethod, HushError>(m),
                None => r matches Err(HushError::InvalidInput(msg)) && msg@
                    == "Unknown HTTP method: "@ + method@,
            },
    {
        let upper = to_uppercase(method);
        match HttpMethod::from_canonical(upper.as_str()) {
            Some(m) => Ok(m),
            None => Err(HushError::InvalidInput(concat("Unknown HTTP method: ", method))),
        }
    }

    /// The canonical name of the verb.
    pub fn as_str(&self) -> (s: &'static str)
        ensures
            s@ == self.name(),
    {
        match self {
            HttpMethod::GET => "GET",
            HttpMethod::POST => "POST",
            HttpMethod::PUT => "PUT",
            HttpMethod::DELETE => "DELETE",
            HttpMethod::PATCH => "PATCH",
            HttpMethod::HEAD => "HEAD",
            HttpMethod::OPTIONS => "OPTIONS",
        }
    }
}

/// The statuses that the framework produces.
#[derive(Debug, Clone, Copy, PartialEq, Eq, Structural)]
pub enum HttpStatus {
    OK,
    Created,
    NoContent,
    BadRequest,
    Unauthorized,
    Forbidden,
    NotFound,
    MethodNotAllowed,
    TooManyRequests,
    InternalServerError,
    NotImplemented,
    ServiceUnavailable,
}

/// The status with the numeric code `code`; a code that the framework does
/// not produce reads as an internal server error.
pub open spec fn status_of_code(code: int) -> HttpStatus {
    if code == 200 {
        HttpStatus::OK
    } else if code == 201 {
        HttpStatus::Created
    } else if code == 204 {
        HttpStatus::NoContent
    } else if code == 400 {
        HttpStatus::BadRequest
    } else if code == 401 {
        HttpStatus::Unauthorized
    } else if code == 403 {
        HttpStatus::Forbidden
    } else if code == 404 {
        HttpStatus::NotFound
    } else if code == 405 {
        HttpStatus::MethodNotAllowed
    } else if code == 429 {
        HttpStatus::TooManyRequests
    } else if code == 501 {
        HttpStatus::NotImplemented
    } else if code == 503 {
        HttpStatus::ServiceUnavailable
    } else {
        HttpStatus::InternalServerError
    }
}

impl HttpStatus {
    /// The numeric code of the status.
    pub open spec fn code(self) -> int {
        match self {
            HttpStatus::OK => 200,
            HttpStatus::Created => 201,
            HttpStatus::NoContent => 204,
            HttpStatus::BadRequest => 400,
            HttpStatus::Unauthorized => 401,
            HttpStatus::Forbidden => 403,
            HttpStatus::NotFound => 404,
            HttpStatus::MethodNotAllowed => 405,
            HttpStatus::TooManyRequests => 429,
            HttpStatus::InternalServerError => 500,
            HttpStatus::NotImplemented => 501,
            HttpStatus::ServiceUnavailable => 503,
        }
    }

    /// The canonical reason phrase of the status.
    pub open spec fn reason(self) -> Seq<char> {
        match self {
            HttpStatus::OK => "OK"@,
            HttpStatus::Created => "Created"@,
            HttpStatus::NoContent => "No Content"@,
            HttpStatus::BadRequest => "Bad Request"@,
            HttpStatus::Unauthorized => "Unauthorized"@,
            HttpStatus::Forbidden => "Forbidden"@,
            HttpStatus::NotFound => "Not Found"@,
            HttpStatus::MethodNotAllowed => "Method Not Allowed"@,
            HttpStatus::TooManyRequests => "Too Many Requests"@,
            HttpStatus::InternalServerError => "Internal Server Error"@,
            HttpStatus::NotImplemented => "Not Implemented"@,
            HttpStatus::ServiceUnavailable => "Service Unavailable"@,
        }
    }

    /// The numeric code of the status.
    pub fn as_u16(&self) -> (code: u16)
        ensures
            code == self.code(),
    {
        match self {
            HttpStatus::OK => 200,
            HttpStatus::Created => 201,
            HttpStatus::NoContent => 204,
            HttpStatus::BadRequest => 400,
            HttpStatus::Unauthorized => 401,
            HttpStatus::Forbidden => 403,
            HttpStatus::NotFound => 404,
            HttpStatus::MethodNotAllowed => 405,
            HttpStatus::TooManyRequests => 429,
            HttpStatus::InternalServerError => 500,
            HttpStatus::NotImplemented => 501,
            HttpStatus::ServiceUnavailable => 503,
        }
    }

    /// The status for a numeric code.
    pub fn from_u16(code: u16) -> (status: HttpStatus)
        ensures
            status == status_of_code(code as int),
    {
        if code == 200 {
            HttpStatus::OK
        } else if code == 201 {
            HttpStatus::Created
        } else if code == 204 {
            HttpStatus::NoContent
        } else if code == 400 {
            HttpStatus::BadRequest
        } else if code == 401 {
            HttpStatus::Unauthorized
        } else if code == 403 {
            HttpStatus::Forbidden
        } else if code == 404 {
            HttpStatus::NotFound
        } else if code == 405 {
            HttpStatus::MethodNotAllowed
        } else if code == 429 {
            HttpStatus::TooManyRequests
        } else if code == 501 {
            HttpStatus::NotImplemented
        } else if code == 503 {
            HttpStatus::ServiceUnavailable
        } else {
            HttpStatus::InternalServerError
        }
    }

    /// The canonical reason phrase of the status.
    pub fn reason_phrase(&self) -> (phrase: &'static str)
        ensures
            phrase@ == self.reason(),
    {
        match self {
            HttpStatus::OK => "OK",
            HttpStatus::Created => "Created",
            HttpStatus::NoContent => "No Content",
            HttpStatus::BadRequest => "Bad Request",
            HttpStatus::Unauthorized => "Unauthorized",
            HttpStatus::Forbidden => "Forbidden",
            HttpStatus::NotFound => "Not Found",
            HttpStatus::MethodNotAllowed => "Method Not Allowed",
            HttpStatus::TooManyRequests => "Too Many Requests",
            HttpStatus::InternalServerError => "Internal Server Error",
            HttpStatus::NotImplemented => "Not Implemented",
            HttpStatus::ServiceUnavailable => "Service Unavailable",
        }
    }
}

/// Reading a status back from its own code gives the same status.
pub proof fn lemma_status_code_round_trip(status: HttpStatus)
    ensures
        status_of_code(status.code()) == status,
{
}

/// Whether `c` is a digit or one of the letters `a` to `f`.
pub open spec fn is_lower_hex(c: char) -> bool {
    ('0' <= c <= '9') || ('a' <= c <= 'f')
}

/// The shape of a trace identifier: 36 characters, hyphens at positions 8,
/// 13, 18 and 23, lower-case hexadecimal digits everywhere else.
pub open spec fn is_trace_id(s: Seq<char>) -> bool {
    &&& s.len() == 36
    &&& forall|i: int|
        0 <= i < 36 ==> if i == 8 || i == 13 || i == 18 || i == 23 {
            #[trigger] s[i] == '-'
        } else {
            is_lower_hex(s[i])
        }
}

/// `uuid::Uuid::new_v4`, formatted with `Display`: a random identifier in
/// the hyphenated lower-case form. Nothing is claimed of which one.
#[verifier::external_body]
fn fresh_trace_id() -> (id: String)
    ensures
        is_trace_id(id@),
{
    uuid::Uuid::new_v4().to_string()
}

/// A point in time as the system clock reports it. Nothing of it is known
/// here but what the functions below return.
#[verifier::external_type_specification]
#[verifier::external_body]
pub struct ExSystemTime(std::time::SystemTime);

/// `std::time::SystemTime::now`: the time of day. Nothing is claimed of it.
#[verifier::external_body]
fn clock_now() -> (now: std::time::SystemTime) {
    std::time::SystemTime::now()
}

/// `std::time::SystemTime::duration_since`, from the Unix epoch: how long
/// after the epoch `time` is, or nothing where it is before it.
#[verifier::external_body]
fn since_epoch(time: &std::time::SystemTime) -> (span: Option<core::time::Duration>) {
    time.duration_since(std::time::UNIX_EPOCH).ok()
}

/// `core::time::Duration::as_millis`: the whole milliseconds of a span.
#[verifier::external_body]
fn whole_millis(span: &core::time::Duration) -> (millis: u128) {
    span.as_millis()
}

/// A count of milliseconds held to the range of `u64`: the count itself
/// where it fits, the greatest `u64` where it does not.
pub fn millis_in_range(millis: u128) -> (held: u64)
    ensures
        held == (if millis > u64::MAX {
            u64::MAX as int
        } else {
            millis as int
        }),
{
    if millis > 0xffff_ffff_ffff_ffff {
        0xffff_ffff_ffff_ffff
    } else {
        millis as u64
    }
}

/// The time of day in milliseconds since the Unix epoch, held to the range
/// of `u64`; zero where the clock is set before the epoch. It is what the
/// clock says, so nothing is promised of the number.
pub fn unix_millis() -> (now: u64) {
    let time = clock_now();
    match since_epoch(&time) {
        Some(span) => millis_in_range(whole_millis(&span)),
        None => 0,
    }
}

/// One inbound request, with everything a stage or a handler may want to
/// know of it.
#[derive(Debug)]
pub struct RequestContext {
    pub method: HttpMethod,
    pub path: String,
    pub query_params: StringMap,
    pub headers: StringMap,
    pub body: Vec<u8>,
    pub user_data: StringMap,
    /// Milliseconds since the Unix epoch at which the request was created.
    pub start_time: u64,
    pub trace_id: String,
}

impl RequestContext {
    /// A request with the given creation time and trace identifier, and
    /// nothing else set.
    pub fn with_identity(method: HttpMethod, path: String, start_time: u64, trace_id: String) -> (r:
        Self)
        ensures
            r.method == method,
            r.path == path,
            r.query_params@ == Map::<Seq<char>, Seq<char>>::empty(),
            r.headers@ == Map::<Seq<char>, Seq<char>>::empty(),
            r.body@ == Seq::<u8>::empty(),
            r.user_data@ == Map::<Seq<char>, Seq<char>>::empty(),
            r.start_time == start_time,
            r.trace_id == trace_id,
    {
        RequestContext {
            method,
            path,
            query_params: StringMap::new(),
            headers: StringMap::new(),
            body: Vec::new(),
            user_data: StringMap::new(),
            start_time,
            trace_id,
        }
    }

    /// A request created now, with a fresh trace identifier.
    pub fn new(method: HttpMethod, path: String) -> (r: Self)
        ensures
            r.method == method,
            r.path == path,
            r.query_params@ == Map::<Seq<char>, Seq<char>>::empty(),
            r.headers@ == Map::<Seq<char>, Seq<char>>::empty(),
            r.body@ == Seq::<u8>::empty(),
            r.user_data@ == Map::<Seq<char>, Seq<char>>::empty(),
            is_trace_id(r.trace_id@),
    {
        let now = unix_millis();
        let id = fresh_trace_id();
        RequestContext::with_identity(method, path, now, id)
    }

    pub fn set_body(&mut self, body: Vec<u8>)
        ensures
            final(self).body == body,
            final(self).method == old(self).method,
            final(self).path == old(self).path,
            final(self).query_params == old(self).query_params,
            final(self).headers == old(self).headers,
            final(self).user_data == old(self).user_data,
            final(self).start_time == old(self).start_time,
            final(self).trace_id == old(self).trace_id,
    {
        self.body = body;
    }

    /// Sets a header; a second write to the same name replaces the first.
    pub fn add_header(&mut self, key: String, value: String)
        ensures
            final(self).headers@ == old(self).headers@.insert(key@, value@),
            final(self).method == old(self).method,
            final(self).path == old(self).path,
            final(self).query_params == old(self).query_params,
            final(self).body == old(self).body,
            final(self).user_data == old(self).user_data,
            final(self).start_time == old(self).start_time,
            final(self).trace_id == old(self).trace_id,
    {
        self.headers.insert(key, value);
    }

    /// Sets a query parameter; the last write to a name wins.
    pub fn add_query_param(&mut self, key: String, value: String)
        ensures
            final(self).query_params@ == old(self).query_params@.insert(key@, value@),
            final(self).method == old(self).method,
            final(self).path == old(self).path,
            final(self).headers == old(self).headers,
            final(self).body == old(self).body,
            final(self).user_data == old(self).user_data,
            final(self).start_time == old(self).start_time,
            final(self).trace_id == old(self).trace_id,
    {
        self.query_params.insert(key, value);
    }

    /// Leaves a note for a later handler; the last write to a key wins.
    pub fn set_user_data(&mut self, key: String, value: String)
        ensures
            final(self).user_data@ == old(self).user_data@.insert(key@, value@),
            final(self).method == old(self).method,
            final(self).path == old(self).path,
            final(self).query_params == old(self).query_params,
            final(self).headers == old(self).headers,
            final(self).body == old(self).body,
            final(self).start_time == old(self).start_time,
            final(self).trace_id == old(self).trace_id,
    {
        self.user_data.insert(key, value);
    }

    /// The header with exactly this name; letter case is not normalised.
    pub fn get_header(&self, key: &str) -> (value: Option<&String>)
        ensures
            value is Some <==> self.headers@.contains_key(key@),
            value matches Some(v) ==> v@ == self.headers@[key@],
    {
        self.headers.get(key)
    }

    pub fn get_query_param(&self, key: &str) -> (value: Option<&String>)
        ensures
            value is Some <==> self.query_params@.contains_key(key@),
            value matches Some(v) ==> v@ == self.query_params@[key@],
    {
        self.query_params.get(key)
    }

    pub fn get_user_data(&self, key: &str) -> (value: Option<&String>)
        ensures
            value is Some <==> self.user_data@.contains_key(key@),
            value matches Some(v) ==> v@ == self.user_data@[key@],
    {
        self.user_data.get(key)
    }

    /// The body as text. A body that is not well-formed UTF-8 is an invalid
    /// input; nothing is replaced or dropped to make it fit.
    pub fn body_as_string(&self) -> (r: HushResult<String>)
        ensures
            valid_utf8(self.body@) ==> (r matches Ok(s) && s@ == decode_utf8(self.body@)),
            !valid_utf8(self.body@) ==> (r matches Err(HushError::InvalidInput(m)) && m@
                == "Invalid UTF-8 in request body"@),
    {
        match decode_text(copy_bytes(&self.body)) {
            Some(s) => Ok(s),
            None => Err(HushError::InvalidInput("Invalid UTF-8 in request body".to_owned())),
        }
    }

    /// A copy that is equal in every part.
    pub fn duplicate(&self) -> (copy: Self)
        ensures
            copy.method == self.method,
            copy.path@ == self.path@,
            copy.query_params@ == self.query_params@,
            copy.query_params.pairs() == self.query_params.pairs(),
            copy.headers@ == self.headers@,
            copy.headers.pairs() == self.headers.pairs(),
            copy.body@ == self.body@,
            copy.user_data@ == self.user_data@,
            copy.user_data.pairs() == self.user_data.pairs(),
            copy.start_time == self.start_time,
            copy.trace_id@ == self.trace_id@,
    {
        RequestContext {
            method: self.method,
            path: self.path.clone(),
            query_params: self.query_params.duplicate(),
            headers: self.headers.duplicate(),
            body: copy_bytes(&self.body),
            user_data: self.user_data.duplicate(),
            start_time: self.start_time,
            trace_id: self.trace_id.clone(),
        }
    }
}

impl Clone for RequestContext {
    fn clone(&self) -> (copy: Self)
        ensures
            copy.method == self.method,
            copy.path@ == self.path@,
            copy.query_params@ == self.query_params@,
            copy.headers@ == self.headers@,
            copy.body@ == self.body@,
            copy.user_data@ == self.user_data@,
            copy.start_time == self.start_time,
            copy.trace_id@ == self.trace_id@,
    {
        self.duplicate()
    }
}

/// A copy of a byte buffer.
pub fn copy_bytes(bytes: &Vec<u8>) -> (copy: Vec<u8>)
    ensures
        copy@ == bytes@,
{
    let mut copy: Vec<u8> = Vec::new();
    let mut i: usize = 0;
    while i < bytes.len()
        invariant
            i <= bytes@.len(),
            copy@ == bytes@.take(i as int),
        decreases bytes.len() - i,
    {
        copy.push(bytes[i]);
        i = i + 1;
    }
    assert(bytes@.take(bytes@.len() as int) =~= bytes@);
    copy
}

/// One outbound response.
#[derive(Debug)]
pub struct ResponseContext {
    pub status: HttpStatus,
    pub headers: StringMap,
    pub body: Vec<u8>,
}

impl ResponseContext {
    /// A response with no headers and no body.
    pub fn new(status: HttpStatus) -> (r: Self)
        ensures
            r.status == status,
            r.headers@ == Map::<Seq<char>, Seq<char>>::empty(),
            r.body@ == Seq::<u8>::empty(),
    {
        ResponseContext { status, headers: StringMap::new(), body: Vec::new() }
    }

    pub fn with_body(status: HttpStatus, body: Vec<u8>) -> (r: Self)
        ensures
            r.status == status,
            r.headers@ == Map::<Seq<char>, Seq<char>>::empty(),
            r.body == body,
    {
        ResponseContext { status, headers: StringMap::new(), body }
    }

    /// A response whose body is the UTF-8 encoding of `text`.
    pub fn with_text(status: HttpStatus, text: &str) -> (r: Self)
        ensures
            r.status == status,
            r.headers@ == Map::<Seq<char>, Seq<char>>::empty(),
            r.body@ == bytes_of(text@),
    {
        ResponseContext { status, headers: StringMap::new(), body: to_bytes(text) }
    }

    /// A response whose body is `json`, declared as `application/json`.
    pub fn with_json(status: HttpStatus, json: &str) -> (r: Self)
        ensures
            r.status == status,
            r.headers@ == Map::<Seq<char>, Seq<char>>::empty().insert(
                "Content-Type"@,
                "application/json"@,
            ),
            r.body@ == bytes_of(json@),
    {
        let mut response = ResponseContext::with_text(status, json);
        response.add_header("Content-Type".to_owned(), "application/json".to_owned());
        response
    }

    /// Sets a header; a second write to the same name replaces the first.
    pub fn add_header(&mut self, key: String, value: String)
        ensures
            final(self).headers@ == old(self).headers@.insert(key@, value@),
            final(self).status == old(self).status,
            final(self).body == old(self).body,
    {
        self.headers.insert(key, value);
    }

    pub fn set_body(&mut self, body: Vec<u8>)
        ensures
            final(self).body == body,
            final(self).status == old(self).status,
            final(self).headers == old(self).headers,
    {
        self.body = body;
    }

    /// The header with exactly this name.
    pub fn get_header(&self, key: &str) -> (value: Option<&String>)
        ensures
            value is Some <==> self.headers@.contains_key(key@),
            value matches Some(v) ==> v@ == self.headers@[key@],
    {
        self.headers.get(key)
    }

    /// The body as text; a body that is not well-formed UTF-8 is an invalid
    /// input.
    pub fn body_as_string(&self) -> (r: HushResult<String>)
        ensures
            valid_utf8(self.body@) ==> (r matches Ok(s) && s@ == decode_utf8(self.body@)),
            !valid_utf8(self.body@) ==> (r matches Err(HushError::InvalidInput(m)) && m@
                == "Invalid UTF-8 in response body"@),
    {
        match decode_text(copy_bytes(&self.body)) {
            Some(s) => Ok(s),
            None => Err(HushError::InvalidInput("Invalid UTF-8 in response body".to_owned())),
        }
    }

    /// A copy that is equal in every part.
    pub fn duplicate(&self) -> (copy: Self)
        ensures
            copy.status == self.status,
            copy.headers@ == self.headers@,
            copy.headers.pairs() == self.headers.pairs(),
            copy.body@ == self.body@,
    {
        ResponseContext {
            status: self.status,
            headers: self.headers.duplicate(),
            body: copy_bytes(&self.body),
        }
    }
}

impl Clone for ResponseContext {
    fn clone(&self) -> (copy: Self)
        ensures
            copy.status == self.status,
            copy.headers@ == self.headers@,
            copy.body@ == self.body@,
    {
        self.duplicate()
    }
}

/// The canonical key of a route: the verb, a colon, the path pattern.
pub open spec fn route_key_of(method: HttpMethod, path: Seq<char>) -> Seq<char> {
    method.name() + ":"@ + path
}

/// The canonical key of a route.
pub fn make_route_key(method: HttpMethod, path: &str) -> (key: String)
    ensures
        key@ == route_key_of(method, path@),
{
    concat3(method.as_str(), ":", path)
}

/// What is known of one registered route.
#[derive(Debug)]
pub struct RouteInfo {
    pub method: HttpMethod,
    pub path: String,
    pub handler_name: String,
}

impl RouteInfo {
    pub fn new(method: HttpMethod, path: String, handler_name: String) -> (info: Self)
        ensures
            info.method == method,
            info.path == path,
            info.handler_name == handler_name,
    {
        RouteInfo { method, path, handler_name }
    }

    /// The canonical key of this route.
    pub fn route_key(&self) -> (key: String)
        ensures
            key@ == route_key_of(self.method, self.path@),
    {
        make_route_key(self.method, self.path.as_str())
    }
}

impl Clone for RouteInfo {
    fn clone(&self) -> (copy: Self)
        ensures
            copy.method == self.method,
            copy.path@ == self.path@,
            copy.handler_name@ == self.handler_name@,
    {
        RouteInfo {
            method: self.method,
            path: self.path.clone(),
            handler_name: self.handler_name.clone(),
        }
    }
}

} // verus!
