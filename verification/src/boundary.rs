//! The foreign boundary: what may cross it, in which form, and what comes
//! of what crosses back.
//!
//! Text crosses as bytes with a terminating zero. A buffer that is made for
//! a call is an owned value; it lives exactly as long as the call that it
//! was made for, whatever the other side returns. A pointer that may be
//! null is an `Option` here, and whoever holds the real pointer reads it
//! into one.

use std::sync::Arc;
use vstd::prelude::*;
use vstd::utf8::decode_utf8;
use vstd::utf8::decode_utf8_encode_utf8;
use vstd::utf8::valid_utf8;
use crate::error::class_of;
use crate::error::set_last_error;
use crate::error::ErrorCode;
use crate::error::HushError;
use crate::error::HushResult;
use crate::error::LastError;
use crate::middleware::builtin::Stage;
use crate::middleware::chain::priorities_of;
use crate::middleware::chain::ran;
use crate::middleware::chain::slot;
use crate::middleware::chain::StageOf;
use crate::strmap::StringMap;
use crate::middleware::chain::fresh;
use crate::middleware::chain::Middleware;
use crate::middleware::chain::MiddlewareChain;
use crate::middleware::chain::MiddlewareContext;
use crate::middleware::chain::MiddlewareResult;
use crate::middleware::chain::Outcome;
use crate::text::bytes_of;
use crate::text::concat;
use crate::text::decimal;
use crate::text::decimal_text;
use crate::text::decode_text;
use crate::text::to_bytes;
use crate::text::uppercase_of;
use crate::types::copy_bytes;
use crate::types::method_named;
use crate::types::status_of_code;
use crate::types::HttpMethod;
use crate::types::HttpStatus;
use crate::types::RequestContext;
use crate::types::ResponseContext;
use crate::web::handler::Answer;
use crate::web::handler::Handler;

verus! {

/// The result of an operation at the boundary: the value, or the class of
/// the error.
pub type FFIResult<T> = Result<T, ErrorCode>;

/// Whether a zero byte occurs.
pub open spec fn has_nul(bytes: Seq<u8>) -> bool {
    exists|i: int| 0 <= i < bytes.len() && bytes[i] == 0
}

/// A text in the form in which it crosses: its UTF-8 bytes and one zero.
pub open spec fn terminated(text: Seq<char>) -> Seq<u8> {
    bytes_of(text).push(0)
}

fn holds_nul(bytes: &Vec<u8>) -> (yes: bool)
    ensures
        yes == has_nul(bytes@),
{
    let mut i: usize = 0;
    while i < bytes.len()
        invariant
            i <= bytes@.len(),
            forall|k: int| 0 <= k < i ==> bytes@[k] != 0,
        decreases bytes.len() - i,
    {
        if bytes[i] == 0 {
            return true;
        }
        i = i + 1;
    }
    false
}

/// Puts a text into the form in which it crosses. A text that holds a zero
/// byte cannot cross.
pub fn to_c_string(s: &str) -> (r: HushResult<Vec<u8>>)
    ensures
        has_nul(bytes_of(s@)) ==> (r matches Err(HushError::FFIError(m)) && m@
            == "Failed to create C string"@),
        !has_nul(bytes_of(s@)) ==> (r matches Ok(b) && b@ == terminated(s@)),
{
    let mut bytes = to_bytes(s);
    if holds_nul(&bytes) {
        return Err(HushError::FFIError("Failed to create C string".to_owned()));
    }
    bytes.push(0);
    Ok(bytes)
}

/// Reads a text that has crossed. `ptr` is what the pointer leads to, up to
/// its terminating zero, or nothing for a null pointer.
pub fn from_c_string(ptr: Option<&[u8]>) -> (r: HushResult<String>)
    ensures
        match ptr {
            None => r == Err::<String, HushError>(HushError::NullPointer),
            Some(bytes) => if valid_utf8(bytes@) {
                r matches Ok(s) && s@ == decode_utf8(bytes@)
            } else {
                r matches Err(HushError::FFIError(m)) && m@ == "Invalid UTF-8 in C string"@
            },
        },
{
    match ptr {
        None => Err(HushError::NullPointer),
        Some(bytes) => match decode_text(vstd::slice::slice_to_vec(bytes)) {
            Some(s) => Ok(s),
            None => Err(HushError::FFIError("Invalid UTF-8 in C string".to_owned())),
        },
    }
}

/// Turns a result into its form for the boundary. An error is recorded in
/// the diagnostic slot, and its class is returned.
pub fn handle_ffi_result<T>(result: HushResult<T>, last: &mut LastError) -> (r: FFIResult<T>)
    ensures
        match result {
            Ok(value) => r == Ok::<T, ErrorCode>(value) && *final(last) == *old(last),
            Err(error) => r == Err::<T, ErrorCode>(class_of(error)) && final(last).slot == Some(
                error,
            ),
        },
{
    match result {
        Ok(value) => Ok(value),
        Err(error) => {
            let code = error.code();
            set_last_error(last, error);
            Err(code)
        },
    }
}

/// Checks a pointer that must not be null.
pub fn check_null_ptr<T>(ptr: Option<&T>, name: &str) -> (r: HushResult<()>)
    ensures
        ptr is Some ==> r is Ok,
        ptr is None ==> r == Err::<(), HushError>(HushError::InvalidParameter),
{
    match ptr {
        Some(_) => Ok(()),
        None => Err(HushError::InvalidParameter),
    }
}

/// Checks a pointer to something mutable that must not be null.
pub fn check_null_mut_ptr<T>(ptr: &Option<T>, name: &str) -> (r: HushResult<()>)
    ensures
        ptr is Some ==> r is Ok,
        ptr is None ==> r == Err::<(), HushError>(HushError::InvalidParameter),
{
    match ptr {
        Some(_) => Ok(()),
        None => Err(HushError::InvalidParameter),
    }
}

/// The length of a text for a caller across the boundary: its number of
/// bytes, held to the range of `i32`. A null pointer and a text that is not
/// UTF-8 are recorded in the diagnostic slot and show as -1.
pub fn string_length(ptr: Option<&[u8]>, last: &mut LastError) -> (n: i32)
    ensures
        match ptr {
            None => n == -1 && final(last).slot == Some(HushError::NullPointer),
            Some(bytes) => if !valid_utf8(bytes@) {
                n == -1 && (final(last).slot matches Some(HushError::FFIError(m)) && m@
                    == "Invalid UTF-8 string"@)
            } else {
                *final(last) == *old(last) && n == (if bytes@.len() > 0x7fff_ffff {
                    0x7fff_ffff
                } else {
                    bytes@.len() as int
                })
            },
        },
{
    match from_c_string(ptr) {
        Ok(_) => {
            let bytes = ptr.unwrap();
            if bytes.len() > 0x7fff_ffff {
                0x7fff_ffff
            } else {
                bytes.len() as i32
            }
        },
        Err(HushError::NullPointer) => {
            set_last_error(last, HushError::NullPointer);
            -1
        },
        Err(_) => {
            set_last_error(last, HushError::FFIError("Invalid UTF-8 string".to_owned()));
            -1
        },
    }
}

/// Whether `a` comes before `b` in the order of texts: byte by byte, and a
/// text before every text that it begins.
pub open spec fn comes_before(a: Seq<u8>, b: Seq<u8>) -> bool
    decreases a.len(),
{
    if b.len() == 0 {
        false
    } else if a.len() == 0 {
        true
    } else if a[0] != b[0] {
        a[0] < b[0]
    } else {
        comes_before(a.skip(1), b.skip(1))
    }
}

/// Compares two byte strings in the order of texts: -1, 0 or 1.
pub fn order_of(a: &[u8], b: &[u8]) -> (n: i32)
    ensures
        n == (if a@ == b@ {
            0int
        } else if comes_before(a@, b@) {
            -1
        } else {
            1
        }),
{
    let mut i: usize = 0;
    assert(a@.skip(0) =~= a@ && b@.skip(0) =~= b@);
    assert(a@.take(0) =~= b@.take(0));
    while i < a.len() && i < b.len()
        invariant
            i <= a@.len(),
            i <= b@.len(),
            a@.take(i as int) == b@.take(i as int),
            comes_before(a@, b@) == comes_before(a@.skip(i as int), b@.skip(i as int)),
        decreases a.len() - i,
    {
        let ghost x = a@.skip(i as int);
        let ghost y = b@.skip(i as int);
        assert(x[0] == a@[i as int] && y[0] == b@[i as int]);
        assert(x.skip(1) =~= a@.skip(i + 1) && y.skip(1) =~= b@.skip(i + 1));
        if a[i] != b[i] {
            assert(a@ != b@);
            return if a[i] < b[i] {
                -1
            } else {
                1
            };
        }
        assert(a@.take(i + 1) =~= a@.take(i as int).push(a@[i as int]));
        assert(b@.take(i + 1) =~= b@.take(i as int).push(b@[i as int]));
        i = i + 1;
    }
    assert(a@.take(a@.len() as int) =~= a@);
    assert(b@.take(b@.len() as int) =~= b@);
    if a.len() == b.len() {
        0
    } else if a.len() < b.len() {
        assert(a@ != b@);
        -1
    } else {
        assert(a@ != b@);
        1
    }
}

/// Compares two texts for a caller across the boundary: 0 for equal, -1 and
/// 1 for before and after. A null pointer and a text that is not UTF-8 are
/// recorded in the diagnostic slot and show as -2.
pub fn string_compare(first: Option<&[u8]>, second: Option<&[u8]>, last: &mut LastError) -> (n:
    i32)
    ensures
        first is None || second is None ==> n == -2 && final(last).slot == Some(
            HushError::NullPointer,
        ),
        first is Some && second is Some ==> {
            let a = first->0@;
            let b = second->0@;
            if valid_utf8(a) && valid_utf8(b) {
                *final(last) == *old(last) && n == (if a == b {
                    0int
                } else if comes_before(a, b) {
                    -1
                } else {
                    1
                })
            } else {
                n == -2 && (final(last).slot matches Some(HushError::FFIError(m)) && m@
                    == "String comparison failed"@)
            }
        },
{
    if first.is_none() || second.is_none() {
        set_last_error(last, HushError::NullPointer);
        return -2;
    }
    match (from_c_string(first), from_c_string(second)) {
        (Ok(_), Ok(_)) => order_of(first.unwrap(), second.unwrap()),
        _ => {
            set_last_error(last, HushError::FFIError("String comparison failed".to_owned()));
            -2
        },
    }
}

/// Makes and copies the buffers that cross the boundary.
pub struct MemoryManager {}

impl MemoryManager {
    pub fn new() -> (m: Self) {
        MemoryManager {  }
    }

    /// A fresh buffer with `s` in the form in which it crosses.
    pub fn allocate_c_string(&self, s: &str) -> (r: HushResult<Vec<u8>>)
        ensures
            has_nul(bytes_of(s@)) ==> (r matches Err(HushError::FFIError(m)) && m@
                == "Failed to create C string"@),
            !has_nul(bytes_of(s@)) ==> (r matches Ok(b) && b@ == terminated(s@)),
    {
        to_c_string(s)
    }

    /// A fresh buffer with the text that `ptr` leads to. A null pointer and
    /// a text that is not UTF-8 are errors.
    pub fn clone_c_string(&self, ptr: Option<&[u8]>) -> (r: HushResult<Vec<u8>>)
        ensures
            ptr is None ==> r == Err::<Vec<u8>, HushError>(HushError::NullPointer),
            ptr matches Some(bytes) ==> {
                if !valid_utf8(bytes@) {
                    r matches Err(HushError::FFIError(m)) && m@ == "Invalid UTF-8 in C string"@
                } else if has_nul(bytes@) {
                    r matches Err(HushError::FFIError(m)) && m@ == "Failed to create C string"@
                } else {
                    r matches Ok(b) && b@ == bytes@.push(0)
                }
            },
    {
        match from_c_string(ptr) {
            Ok(text) => {
                proof {
                    decode_utf8_encode_utf8(ptr->0@);
                }
                to_c_string(text.as_str())
            },
            Err(e) => Err(e),
        }
    }
}

/// The memory manager. It holds no state, so every caller may have one.
pub fn get_memory_manager() -> (m: Arc<MemoryManager>) {
    Arc::new(MemoryManager::new())
}

/// A text in the form in which it crosses, owned until it is dropped or
/// given away.
pub struct CStringWrapper {
    bytes: Vec<u8>,
}

impl CStringWrapper {
    /// The bytes, terminating zero included.
    pub closed spec fn bytes(&self) -> Seq<u8> {
        self.bytes@
    }

    pub fn new(s: &str, manager: &MemoryManager) -> (r: HushResult<Self>)
        ensures
            has_nul(bytes_of(s@)) ==> (r matches Err(HushError::FFIError(m)) && m@
                == "Failed to create C string"@),
            !has_nul(bytes_of(s@)) ==> (r matches Ok(w) && w.bytes() == terminated(s@)),
    {
        match manager.allocate_c_string(s) {
            Ok(bytes) => Ok(CStringWrapper { bytes }),
            Err(e) => Err(e),
        }
    }

    /// The bytes, for the time of a call.
    pub fn as_bytes(&self) -> (b: &Vec<u8>)
        ensures
            b@ == self.bytes(),
    {
        &self.bytes
    }

    /// Gives the buffer away; whoever takes it owns it.
    pub fn into_raw(self) -> (b: Vec<u8>)
        ensures
            b@ == self.bytes(),
    {
        self.bytes
    }
}

/// A byte buffer on its way across the boundary.
pub struct ByteArray {
    data: Vec<u8>,
}

impl ByteArray {
    pub closed spec fn bytes(&self) -> Seq<u8> {
        self.data@
    }

    pub fn from_vec(vec: Vec<u8>) -> (a: Self)
        ensures
            a.bytes() == vec@,
    {
        ByteArray { data: vec }
    }

    pub fn as_slice(&self) -> (s: &[u8])
        ensures
            s@ == self.bytes(),
    {
        self.data.as_slice()
    }

    pub fn len(&self) -> (n: usize)
        ensures
            n == self.bytes().len(),
    {
        self.data.len()
    }

    pub fn into_vec(self) -> (vec: Vec<u8>)
        ensures
            vec@ == self.bytes(),
    {
        self.data
    }
}

/// A request in the form in which it crosses: verb, path and body, each as
/// terminated text.
pub struct ForeignRequest {
    pub method: Vec<u8>,
    pub path: Vec<u8>,
    pub body: Vec<u8>,
}

/// What marshalling a request gives. A body that is not UTF-8 is an error,
/// and so is a zero byte in any of the three texts; nothing is replaced or
/// dropped to make a request fit.
pub open spec fn marshals(request: RequestContext, r: HushResult<ForeignRequest>) -> bool {
    if !valid_utf8(request.body@) {
        r matches Err(HushError::FFIError(m)) && m@ == "Invalid UTF-8 in request body"@
    } else if has_nul(bytes_of(request.method.name())) || has_nul(bytes_of(request.path@))
        || has_nul(request.body@) {
        r matches Err(HushError::FFIError(m)) && m@ == "Failed to create C string"@
    } else {
        r matches Ok(f) && f.method@ == terminated(request.method.name()) && f.path@ == terminated(
            request.path@,
        ) && f.body@ == request.body@.push(0)
    }
}

/// Puts a request into the form in which it crosses.
pub fn marshal_request(request: &RequestContext) -> (r: HushResult<ForeignRequest>)
    ensures
        marshals(*request, r),
{
    let body_text = match decode_text(copy_bytes(&request.body)) {
        Some(text) => text,
        None => {
            return Err(HushError::FFIError("Invalid UTF-8 in request body".to_owned()));
        },
    };
    proof {
        decode_utf8_encode_utf8(request.body@);
    }
    let method = match to_c_string(request.method.as_str()) {
        Ok(bytes) => bytes,
        Err(e) => {
            return Err(e);
        },
    };
    let path = match to_c_string(request.path.as_str()) {
        Ok(bytes) => bytes,
        Err(e) => {
            return Err(e);
        },
    };
    let body = match to_c_string(body_text.as_str()) {
        Ok(bytes) => bytes,
        Err(e) => {
            return Err(e);
        },
    };
    Ok(ForeignRequest { method, path, body })
}

/// What becomes of what a foreign handler returned. Nothing at all, which
/// is a null pointer, means that there is no handler for the request, and
/// reads as `RouteNotFound`. Bytes that are not UTF-8 are a marshalling
/// error. Anything else is the body of a `200 OK`.
pub open spec fn adapts(returned: Option<Vec<u8>>, answer: Answer) -> bool {
    match returned {
        None => answer == Err::<ResponseContext, HushError>(HushError::RouteNotFound),
        Some(bytes) => if valid_utf8(bytes@) {
            answer matches Ok(r) && r.status == HttpStatus::OK && r.headers@
                == Map::<Seq<char>, Seq<char>>::empty() && r.body@ == bytes@
        } else {
            answer matches Err(HushError::FFIError(m)) && m@ == "Invalid UTF-8 in response body"@
        },
    }
}

/// Makes an answer of what a foreign handler returned. `returned` is what
/// its pointer leads to, up to the terminating zero, or nothing for null.
pub fn adapt_reply(returned: Option<Vec<u8>>) -> (answer: Answer)
    ensures
        adapts(returned, answer),
{
    match returned {
        None => Err(HushError::RouteNotFound),
        Some(bytes) => {
            let ghost given = bytes@;
            match decode_text(bytes) {
                Some(text) => {
                    proof {
                        decode_utf8_encode_utf8(given);
                    }
                    Ok(ResponseContext::with_text(HttpStatus::OK, text.as_str()))
                },
                None => Err(HushError::FFIError("Invalid UTF-8 in response body".to_owned())),
            }
        },
    }
}

/// What a structured reply from the foreign side reads as: the status for
/// its code, and its body, which must be UTF-8 where there is one.
pub fn response_from_foreign(status_code: u16, body: Option<&[u8]>) -> (r: HushResult<
    ResponseContext,
>)
    ensures
        match body {
            None => r matches Ok(x) && x.status == status_of_code(status_code as int) && x.headers@
                == Map::<Seq<char>, Seq<char>>::empty() && x.body@ == Seq::<u8>::empty(),
            Some(bytes) => if valid_utf8(bytes@) {
                r matches Ok(x) && x.status == status_of_code(status_code as int) && x.headers@
                    == Map::<Seq<char>, Seq<char>>::empty() && x.body@ == bytes@
            } else {
                r matches Err(HushError::FFIError(m)) && m@ == "Invalid UTF-8 in response body"@
            },
        },
{
    let status = HttpStatus::from_u16(status_code);
    match body {
        None => Ok(ResponseContext::new(status)),
        Some(bytes) => match decode_text(vstd::slice::slice_to_vec(bytes)) {
            Some(text) => {
                proof {
                    decode_utf8_encode_utf8(bytes@);
                }
                Ok(ResponseContext::with_text(status, text.as_str()))
            },
            None => Err(HushError::FFIError("Invalid UTF-8 in response body".to_owned())),
        },
    }
}

/// A handler that lives on the other side of the boundary. The function
/// makes the call; it gets the marshalled request, which it must not keep,
/// and returns what the pointer that came back leads to.
pub struct ForeignHandler<F: Fn(&ForeignRequest) -> Option<Vec<u8>>> {
    call: F,
}

impl<F: Fn(&ForeignRequest) -> Option<Vec<u8>>> ForeignHandler<F> {
    #[verifier::type_invariant]
    spec fn accepts_every_request(&self) -> bool {
        forall|f: &ForeignRequest| call_requires(self.call, (f,))
    }

    /// What the call may return for the marshalled request `f`.
    pub closed spec fn yields(&self, f: ForeignRequest, returned: Option<Vec<u8>>) -> bool {
        call_ensures(self.call, (&f,), returned)
    }

    pub fn new(call: F) -> (h: Self)
        requires
            forall|f: &ForeignRequest| call_requires(call, (f,)),
        ensures
            forall|f: ForeignRequest, returned: Option<Vec<u8>>|
                h.yields(f, returned) == call_ensures(call, (&f,), returned),
    {
        ForeignHandler { call }
    }
}

/// Names the two things that a call across the boundary goes through: the
/// result of marshalling and what came back. It holds of any two values.
pub open spec fn crossing(marshalled: HushResult<ForeignRequest>, returned: Option<Vec<u8>>) -> bool {
    true
}

impl<F: Fn(&ForeignRequest) -> Option<Vec<u8>> + Send + Sync> Handler for ForeignHandler<F> {
    open spec fn answers(&self, request: RequestContext, answer: Answer) -> bool {
        exists|marshalled: HushResult<ForeignRequest>, returned: Option<Vec<u8>>|
            {
                &&& #[trigger] crossing(marshalled, returned)
                &&& marshals(request, marshalled)
                &&& match marshalled {
                    Err(e) => answer == Err::<ResponseContext, HushError>(e),
                    Ok(f) => self.yields(f, returned) && adapts(returned, answer),
                }
            }
    }

    fn handle(&self, context: &RequestContext) -> (answer: Answer) {
        proof {
            use_type_invariant(self);
        }
        let marshalled = marshal_request(context);
        match marshalled {
            Err(e) => {
                proof {
                    assert(crossing(marshalled, None));
                }
                Err(e)
            },
            Ok(f) => {
                let returned = (self.call)(&f);
                proof {
                    assert(crossing(marshalled, returned));
                }
                adapt_reply(returned)
            },
        }
    }
}

/// What a foreign stage decided, by the number it returned: zero lets the
/// request go on, one answers `200 OK` with a fixed text, and anything else
/// is an internal error.
pub open spec fn verdict(code: i32, result: MiddlewareResult) -> bool {
    if code == 0 {
        result is Continue
    } else if code == 1 {
        result matches MiddlewareResult::Response(r) && r.status == HttpStatus::OK && r.headers@
            == Map::<Seq<char>, Seq<char>>::empty() && r.body@ == bytes_of(
            "Middleware response"@,
        )
    } else {
        result matches MiddlewareResult::Error(HushError::InternalError(m)) && m@
            == "Middleware handler failed"@
    }
}

/// Reads the number that a foreign stage returned.
pub fn verdict_of(code: i32) -> (result: MiddlewareResult)
    ensures
        verdict(code, result),
{
    if code == 0 {
        MiddlewareResult::Continue
    } else if code == 1 {
        MiddlewareResult::Response(
            ResponseContext::with_text(HttpStatus::OK, "Middleware response"),
        )
    } else {
        MiddlewareResult::Error(HushError::InternalError("Middleware handler failed".to_owned()))
    }
}

/// A stage that lives on the other side of the boundary. The function
/// makes the call; it gets the marshalled request and the user data that
/// the stage was registered with, and returns the number that came back.
pub struct ForeignMiddleware<F: Fn(&ForeignRequest, &Option<String>) -> i32> {
    name: String,
    user_data: Option<String>,
    call: F,
}

impl<F: Fn(&ForeignRequest, &Option<String>) -> i32> ForeignMiddleware<F> {
    #[verifier::type_invariant]
    spec fn accepts_every_request(&self) -> bool {
        forall|f: &ForeignRequest, d: &Option<String>| call_requires(self.call, (f, d))
    }

    pub closed spec fn name_text(&self) -> Seq<char> {
        self.name@
    }

    pub closed spec fn data(&self) -> Option<String> {
        self.user_data
    }

    /// What the call may return for the marshalled request `f`.
    pub closed spec fn yields(&self, f: ForeignRequest, code: i32) -> bool {
        call_ensures(self.call, (&f, &self.user_data), code)
    }

    pub fn new(name: String, user_data: Option<String>, call: F) -> (m: Self)
        requires
            forall|f: &ForeignRequest, d: &Option<String>| call_requires(call, (f, d)),
        ensures
            m.name_text() == name@,
            m.data() == user_data,
            forall|f: ForeignRequest, code: i32|
                m.yields(f, code) == call_ensures(call, (&f, &user_data), code),
    {
        ForeignMiddleware { name, user_data, call }
    }
}

/// Names the two things that a call of a foreign stage goes through: the
/// result of marshalling and the number that came back. It holds of any two
/// values.
pub open spec fn asked(marshalled: HushResult<ForeignRequest>, code: i32) -> bool {
    true
}

impl<F: Fn(&ForeignRequest, &Option<String>) -> i32 + Send + Sync> Middleware for ForeignMiddleware<
    F,
> {
    open spec fn name_spec(&self) -> Seq<char> {
        self.name_text()
    }

    open spec fn priority_spec(&self) -> int {
        100
    }

    open spec fn before_spec(&self, pre: MiddlewareContext, post: MiddlewareContext, out: Outcome) -> bool {
        post == pre && exists|marshalled: HushResult<ForeignRequest>, code: i32|
            {
                &&& #[trigger] asked(marshalled, code)
                &&& marshals(pre.request, marshalled)
                &&& match marshalled {
                    Err(e) => out == Ok::<MiddlewareResult, HushError>(MiddlewareResult::Error(e)),
                    Ok(f) => self.yields(f, code) && (out matches Ok(result) && verdict(
                        code,
                        result,
                    )),
                }
            }
    }

    open spec fn after_spec(
        &self,
        pre: MiddlewareContext,
        inner: Outcome,
        post: MiddlewareContext,
        out: Outcome,
    ) -> bool {
        post == pre && out == inner
    }

    fn name(&self) -> (n: &str) {
        self.name.as_str()
    }

    fn priority(&self) -> (p: i32) {
        100
    }

    fn before(&self, context: &mut MiddlewareContext) -> (out: Outcome) {
        proof {
            use_type_invariant(self);
        }
        let marshalled = marshal_request(&context.request);
        match marshalled {
            Err(e) => {
                proof {
                    assert(asked(marshalled, 0));
                }
                Ok(MiddlewareResult::Error(e))
            },
            Ok(f) => {
                let code = (self.call)(&f, &self.user_data);
                proof {
                    assert(asked(marshalled, code));
                }
                Ok(verdict_of(code))
            },
        }
    }

    fn after(&self, context: &mut MiddlewareContext, inner: Outcome) -> (out: Outcome) {
        inner
    }
}

/// The name that the `n`-th custom stage of a chain gets.
pub open spec fn custom_name(n: nat) -> Seq<char> {
    "custom_middleware_"@ + decimal(n)
}

impl<C: Fn(&ForeignRequest, &Option<String>) -> i32 + Send + Sync> StageOf<
    Stage<ForeignMiddleware<C>>,
> for ForeignMiddleware<C> {
    open spec fn as_stage(self) -> Stage<ForeignMiddleware<C>> {
        Stage::Other(self)
    }

    fn into_stage(self) -> (stage: Stage<ForeignMiddleware<C>>) {
        Stage::Other(self)
    }
}

/// Registers a foreign stage with a chain, under a name that tells how many
/// stages the chain had. The stage has the default priority, 100, and goes
/// where the chain puts it; it asks `call` with the user data that it was
/// registered with.
pub fn add_foreign_middleware<C>(
    chain: &mut MiddlewareChain<Stage<ForeignMiddleware<C>>>,
    user_data: Option<String>,
    call: C,
) where C: Fn(&ForeignRequest, &Option<String>) -> i32 + Send + Sync
    requires
        forall|f: &ForeignRequest, d: &Option<String>| call_requires(call, (f, d)),
    ensures
        ({
            let at = slot(priorities_of(old(chain).stages()), 100);
            &&& 0 <= at <= old(chain).stages().len()
            &&& final(chain).stages().len() == old(chain).stages().len() + 1
            &&& final(chain).stages().remove(at) == old(chain).stages()
            &&& final(chain).stages()[at] matches Stage::Other(m)
            &&& m.name_text() == custom_name(old(chain).stages().len())
            &&& m.data() == user_data
            &&& forall|f: ForeignRequest, code: i32|
                m.yields(f, code) == call_ensures(call, (&f, &user_data), code)
        }),
{
    let ghost before = chain.stages();
    let name = concat("custom_middleware_", decimal_text(chain.len() as u64).as_str());
    chain.add(ForeignMiddleware::new(name, user_data, call));
    proof {
        assert(chain.stages().remove(slot(priorities_of(before), 100)) =~= before);
    }
}

/// What three texts that came as pointers read as. The verb and the path
/// must be there; a missing body counts as empty. The texts must be UTF-8
/// and the verb must be known. The request that they make has the verb, the
/// path and the body, and nothing else.
pub open spec fn reads_as(
    method: Option<&[u8]>,
    path: Option<&[u8]>,
    body: Option<&[u8]>,
    r: HushResult<RequestContext>,
) -> bool {
    if method is None || path is None {
        r == Err::<RequestContext, HushError>(HushError::NullPointer)
    } else if !valid_utf8(method->0@) || !valid_utf8(path->0@) || (body is Some && !valid_utf8(
        body->0@,
    )) {
        r matches Err(HushError::FFIError(m)) && m@ == "Invalid UTF-8 in C string"@
    } else if method_named(uppercase_of(decode_utf8(method->0@))) is None {
        r matches Err(HushError::InvalidInput(m)) && m@ == "Unknown HTTP method: "@ + decode_utf8(
            method->0@,
        )
    } else {
        &&& r matches Ok(request)
        &&& Some(request.method) == method_named(uppercase_of(decode_utf8(method->0@)))
        &&& request.path@ == decode_utf8(path->0@)
        &&& request.body@ == (if body is Some {
            body->0@
        } else {
            Seq::<u8>::empty()
        })
        &&& request.headers@ == Map::<Seq<char>, Seq<char>>::empty()
        &&& request.query_params@ == Map::<Seq<char>, Seq<char>>::empty()
        &&& request.user_data@ == Map::<Seq<char>, Seq<char>>::empty()
    }
}

/// Makes a request of three texts that came as pointers.
pub fn read_request(method: Option<&[u8]>, path: Option<&[u8]>, body: Option<&[u8]>) -> (r:
    HushResult<RequestContext>)
    ensures
        reads_as(method, path, body, r),
{
    if method.is_none() || path.is_none() {
        return Err(HushError::NullPointer);
    }
    let method_text = match from_c_string(method) {
        Ok(text) => text,
        Err(e) => {
            return Err(e);
        },
    };
    let path_text = match from_c_string(path) {
        Ok(text) => text,
        Err(e) => {
            return Err(e);
        },
    };
    let body_text = match body {
        None => String::new(),
        Some(bytes) => {
            proof {
                if valid_utf8(bytes@) {
                    decode_utf8_encode_utf8(bytes@);
                }
            }
            match from_c_string(body) {
                Ok(text) => text,
                Err(e) => {
                    return Err(e);
                },
            }
        },
    };
    let verb = match HttpMethod::from_str(method_text.as_str()) {
        Ok(verb) => verb,
        Err(e) => {
            return Err(e);
        },
    };
    let mut request = RequestContext::new(verb, path_text);
    let bytes = to_bytes(body_text.as_str());
    proof {
        if body is None {
            assert(bytes_of(Seq::<char>::empty()) =~= Seq::<u8>::empty()) by {
                reveal_with_fuel(vstd::utf8::encode_utf8, 1);
            }
        }
    }
    request.set_body(bytes);
    Ok(request)
}

/// What a caller across the boundary gets for what a chain delivered: the
/// body of the response as terminated text. An error, a body that is not
/// UTF-8 and a body that holds a zero byte are recorded in the diagnostic
/// slot and show as no result.
pub open spec fn hands_back(
    delivered: HushResult<ResponseContext>,
    r: Option<Vec<u8>>,
    before: LastError,
    after: LastError,
) -> bool {
    match delivered {
        Err(e) => r is None && after.slot == Some(e),
        Ok(response) => if !valid_utf8(response.body@) {
            r is None && (after.slot matches Some(HushError::InvalidInput(m)) && m@
                == "Invalid UTF-8 in response body"@)
        } else if has_nul(response.body@) {
            r is None && (after.slot matches Some(HushError::FFIError(m)) && m@
                == "Failed to create C string"@)
        } else {
            r matches Some(b) && b@ == response.body@.push(0) && after == before
        },
    }
}

/// Makes the result for a caller across the boundary.
pub fn hand_back(delivered: HushResult<ResponseContext>, last: &mut LastError) -> (r: Option<
    Vec<u8>,
>)
    ensures
        hands_back(delivered, r, *old(last), *final(last)),
{
    let response = match delivered {
        Ok(response) => response,
        Err(e) => {
            set_last_error(last, e);
            return None;
        },
    };
    let text = match response.body_as_string() {
        Ok(text) => text,
        Err(e) => {
            set_last_error(last, e);
            return None;
        },
    };
    proof {
        decode_utf8_encode_utf8(response.body@);
    }
    match to_c_string(text.as_str()) {
        Ok(bytes) => Some(bytes),
        Err(e) => {
            set_last_error(last, e);
            None
        },
    }
}

/// Names the three things that a run for a caller across the boundary goes
/// through: the fresh context of the request, the context that the chain
/// left, and what the chain delivered. It holds of any three values.
pub open spec fn called(
    context: MiddlewareContext,
    post: MiddlewareContext,
    delivered: HushResult<ResponseContext>,
) -> bool {
    true
}

/// What a run of a request for a caller across the boundary does. The
/// request runs through the chain in a fresh context that holds the
/// counters; the result is what `hands_back` makes of what the chain
/// delivered, and the counters are as the stages left them.
pub open spec fn executes_request<S: Middleware>(
    stages: Seq<S>,
    request: RequestContext,
    r: Option<Vec<u8>>,
    counters_before: StringMap,
    counters_after: StringMap,
    last_before: LastError,
    last_after: LastError,
) -> bool {
    exists|context: MiddlewareContext, post: MiddlewareContext, delivered: HushResult<ResponseContext>|
        {
            &&& #[trigger] called(context, post, delivered)
            &&& fresh(context, request, counters_before)
            &&& ran(stages, context, post, delivered)
            &&& hands_back(delivered, r, last_before, last_after)
            &&& counters_after == post.counters
        }
}

/// Runs a chain on a request for a caller across the boundary, with a text
/// as the result, as `executes_request` says.
pub fn execute_request<S: Middleware>(
    chain: &MiddlewareChain<S>,
    request: RequestContext,
    counters: &mut StringMap,
    last: &mut LastError,
) -> (r: Option<Vec<u8>>)
    ensures
        executes_request(
            chain.stages(),
            request,
            r,
            *old(counters),
            *final(counters),
            *old(last),
            *final(last),
        ),
{
    let mut stored = StringMap::new();
    core::mem::swap(&mut stored, counters);
    let context = MiddlewareContext::with_counters(request, stored);
    let ghost given = context;
    let account = chain.run(context);
    let ghost got = account.response;
    let ghost left = account.context;
    let r = hand_back(account.response, last);
    let mut context = account.context;
    core::mem::swap(&mut context.counters, counters);
    proof {
        assert(called(given, left, got));
    }
    r
}

/// What a run for a caller across the boundary does, on texts that came as
/// pointers. A request that cannot be read is recorded in the diagnostic
/// slot and shows as no result, and the counters stay as they are. A
/// request that can be read runs as `executes_request` says.
pub open spec fn executes_text<S: Middleware>(
    stages: Seq<S>,
    method: Option<&[u8]>,
    path: Option<&[u8]>,
    body: Option<&[u8]>,
    r: Option<Vec<u8>>,
    counters_before: StringMap,
    counters_after: StringMap,
    last_before: LastError,
    last_after: LastError,
) -> bool {
    exists|asked: HushResult<RequestContext>| #[trigger]
        reads_as(method, path, body, asked) && match asked {
            Err(e) => r is None && last_after.slot == Some(e) && counters_after == counters_before,
            Ok(request) => executes_request(
                stages,
                request,
                r,
                counters_before,
                counters_after,
                last_before,
                last_after,
            ),
        }
}

/// Runs a chain for a caller across the boundary, on texts that came as
/// pointers and with a text as the result, as `executes_text` says.
pub fn execute_text<S: Middleware>(
    chain: &MiddlewareChain<S>,
    method: Option<&[u8]>,
    path: Option<&[u8]>,
    body: Option<&[u8]>,
    counters: &mut StringMap,
    last: &mut LastError,
) -> (r: Option<Vec<u8>>)
    ensures
        executes_text(
            chain.stages(),
            method,
            path,
            body,
            r,
            *old(counters),
            *final(counters),
            *old(last),
            *final(last),
        ),
{
    let asked = read_request(method, path, body);
    let ghost read = asked;
    match asked {
        Err(e) => {
            set_last_error(last, e);
            proof {
                assert(reads_as(method, path, body, read));
            }
            None
        },
        Ok(request) => {
            let r = execute_request(chain, request, counters, last);
            proof {
                assert(reads_as(method, path, body, read));
            }
            r
        },
    }
}

} // verus!
