//! The Varnish request context as a Rust object.
use vstd::prelude::*;

use crate::error::VclError;
use crate::http::HttpHeaders;
use crate::workspace::Workspace;

verus! {

/// The state of a request or response body, mirroring Varnish's
/// `body_status_t`.
#[derive(Debug, Clone, Copy, PartialEq, Eq, Structural)]
pub enum BodyState {
    /// No body (Varnish's `BS_NONE`).
    NoBody,
    /// An error occurred while producing/reading the body.
    Error,
    /// Chunked transfer encoding; the length isn't known upfront.
    Chunked,
    /// A known length (e.g. `Content-Length`).
    Length,
    /// The body ends when the connection closes; the length isn't known upfront.
    Eof,
    /// The body has already been consumed by someone else.
    Taken,
    /// The body has been fully read and is cached as an object.
    Cached,
}

/// The client request object: the flags that control how Varnish looks the
/// request up in the cache, and the state of its body.
#[derive(Debug)]
pub struct Req {
    hash_always_miss: bool,
    hash_ignore_busy: bool,
    hash_ignore_vary: bool,
    body_status: BodyState,
}

impl Req {
    /// The state of the request body.
    pub closed spec fn spec_body_status(&self) -> BodyState {
        self.body_status
    }

    /// `req.hash_always_miss`.
    pub closed spec fn spec_hash_always_miss(&self) -> bool {
        self.hash_always_miss
    }

    /// `req.hash_ignore_busy`.
    pub closed spec fn spec_hash_ignore_busy(&self) -> bool {
        self.hash_ignore_busy
    }

    /// `req.hash_ignore_vary`.
    pub closed spec fn spec_hash_ignore_vary(&self) -> bool {
        self.hash_ignore_vary
    }

    /// A request whose body is in state `body_status`, with all cache-lookup
    /// flags cleared.
    pub fn new(body_status: BodyState) -> (r: Req)
        ensures
            r.spec_body_status() == body_status,
            !r.spec_hash_always_miss(),
            !r.spec_hash_ignore_busy(),
            !r.spec_hash_ignore_vary(),
    {
        Req { hash_always_miss: false, hash_ignore_busy: false, hash_ignore_vary: false, body_status }
    }

    /// The state of the request body.
    pub fn body_status(&self) -> (r: BodyState)
        ensures
            r == self.spec_body_status(),
    {
        self.body_status
    }

    /// Whether this request bypasses the cache lookup and is always treated
    /// as a miss (`req.hash_always_miss`).
    pub fn hash_always_miss(&self) -> (r: bool)
        ensures
            r == self.spec_hash_always_miss(),
    {
        self.hash_always_miss
    }

    /// Sets `req.hash_always_miss`.
    pub fn set_hash_always_miss(&mut self, val: bool)
        ensures
            final(self).spec_hash_always_miss() == val,
            final(self).spec_hash_ignore_busy() == old(self).spec_hash_ignore_busy(),
            final(self).spec_hash_ignore_vary() == old(self).spec_hash_ignore_vary(),
            final(self).spec_body_status() == old(self).spec_body_status(),
    {
        self.hash_always_miss = val;
    }

    /// Whether this request ignores busy cache objects instead of waiting on
    /// them (`req.hash_ignore_busy`).
    pub fn hash_ignore_busy(&self) -> (r: bool)
        ensures
            r == self.spec_hash_ignore_busy(),
    {
        self.hash_ignore_busy
    }

    /// Sets `req.hash_ignore_busy`.
    pub fn set_hash_ignore_busy(&mut self, val: bool)
        ensures
            final(self).spec_hash_ignore_busy() == val,
            final(self).spec_hash_always_miss() == old(self).spec_hash_always_miss(),
            final(self).spec_hash_ignore_vary() == old(self).spec_hash_ignore_vary(),
            final(self).spec_body_status() == old(self).spec_body_status(),
    {
        self.hash_ignore_busy = val;
    }

    /// Whether this request ignores `Vary` headers during cache lookup
    /// (`req.hash_ignore_vary`).
    pub fn hash_ignore_vary(&self) -> (r: bool)
        ensures
            r == self.spec_hash_ignore_vary(),
    {
        self.hash_ignore_vary
    }

    /// Sets `req.hash_ignore_vary`.
    pub fn set_hash_ignore_vary(&mut self, val: bool)
        ensures
            final(self).spec_hash_ignore_vary() == val,
            final(self).spec_hash_always_miss() == old(self).spec_hash_always_miss(),
            final(self).spec_hash_ignore_busy() == old(self).spec_hash_ignore_busy(),
            final(self).spec_body_status() == old(self).spec_body_status(),
    {
        self.hash_ignore_vary = val;
    }
}

/// The backend fetch of a context: the state of the client request body it
/// reads from, if it still has the client request, and whether the body has
/// already been cached as an object for it.
#[derive(Debug, Clone, Copy, PartialEq, Eq, Structural)]
pub struct BusyObj {
    /// The state of the client request's body, `None` when the fetch has no
    /// client request.
    pub req_body_status: Option<BodyState>,
    /// Whether the request body has been cached as an object for the fetch.
    pub has_bereq_body: bool,
}

/// How the request body is read out.
#[derive(Debug, Clone, Copy, PartialEq, Eq, Structural)]
pub enum BodyRead {
    /// There is no body: nothing is read and the result is `Ok(false)`.
    Nothing,
    /// Client context: the client request body is iterated directly.
    Client,
    /// Backend context, body cached as an object: the object is iterated and
    /// only a writer error fails the read.
    CachedBereq,
    /// Backend context, body streamed from the client: the client body is
    /// iterated, then the fetch's bookkeeping is updated.
    StreamedBereq,
}

/// Bookkeeping after a streamed backend request body has been read.
#[derive(Debug, Clone, Copy, PartialEq, Eq, Structural)]
pub struct StreamedReadFixup {
    /// The fetch must not be retried: the body was not cached.
    pub no_retry: bool,
    /// The client connection is closed for a body receive error and the fetch
    /// fails with status 400.
    pub close_rx_body: bool,
}

/// VCL context: the HTTP objects, the workspace, the client request and the
/// backend fetch that a VMOD function can reach.
#[derive(Debug)]
pub struct Ctx {
    pub http_req: Option<HttpHeaders>,
    pub http_req_top: Option<HttpHeaders>,
    pub http_resp: Option<HttpHeaders>,
    pub http_bereq: Option<HttpHeaders>,
    pub http_beresp: Option<HttpHeaders>,
    pub ws: Workspace,
    /// The client request, `None` outside client-facing contexts.
    pub req: Option<Req>,
    /// The backend fetch, `None` outside backend contexts.
    pub bo: Option<BusyObj>,
}

/// The state of the body that [`Ctx::req_body_state`] reports.
pub open spec fn body_state_of(req: Option<Req>, bo: Option<BusyObj>) -> Result<BodyState, VclError> {
    match bo {
        Some(b) => match b.req_body_status {
            Some(s) => Ok(s),
            None => if b.has_bereq_body {
                Ok(BodyState::Cached)
            } else {
                Ok(BodyState::NoBody)
            },
        },
        None => match req {
            Some(r) => Ok(r.spec_body_status()),
            None => Err(VclError::BodyUnavailable),
        },
    }
}

/// The way the request body is read out.
pub open spec fn body_read_of(req: Option<Req>, bo: Option<BusyObj>) -> Result<BodyRead, VclError> {
    match body_state_of(req, bo) {
        Err(e) => Err(e),
        Ok(s) => if s == BodyState::NoBody {
            Ok(BodyRead::Nothing)
        } else if bo is None {
            Ok(BodyRead::Client)
        } else if s == BodyState::Cached {
            Ok(BodyRead::CachedBereq)
        } else {
            Ok(BodyRead::StreamedBereq)
        },
    }
}

/// Whether there is a body is decided before anything else: in every
/// context, the body is read out exactly when it has one. A client request
/// without a body (a `GET`, say) is not read, nor is a backend fetch whose
/// client body is absent or that has no body of its own.
pub proof fn law_no_body_no_read(req: Option<Req>, bo: Option<BusyObj>)
    ensures
        (body_read_of(req, bo) == Ok::<BodyRead, VclError>(BodyRead::Nothing)) <==> (
        body_state_of(req, bo) == Ok::<BodyState, VclError>(BodyState::NoBody)),
        bo is None ==> match req {
            Some(r) => if r.spec_body_status() == BodyState::NoBody {
                body_read_of(req, bo) == Ok::<BodyRead, VclError>(BodyRead::Nothing)
            } else {
                body_read_of(req, bo) == Ok::<BodyRead, VclError>(BodyRead::Client)
            },
            None => body_read_of(req, bo) is Err,
        },
        bo matches Some(b) ==> {
            &&& b.req_body_status == Some(BodyState::NoBody) ==> body_read_of(req, bo) == Ok::<
                BodyRead,
                VclError,
            >(BodyRead::Nothing)
            &&& (b.req_body_status is None && !b.has_bereq_body) ==> body_read_of(req, bo) == Ok::<
                BodyRead,
                VclError,
            >(BodyRead::Nothing)
            &&& body_read_of(req, bo) != Ok::<BodyRead, VclError>(BodyRead::Client)
        },
{
}

impl Ctx {
    /// A backend fetch never both still reads from the client request and
    /// has the body cached as an object.
    pub open spec fn wf(&self) -> bool {
        self.bo matches Some(b) ==> !(b.req_body_status is Some && b.has_bereq_body)
    }

    /// A context over workspace `ws`, with the client request `req` and the
    /// backend fetch `bo`, and no HTTP object.
    pub fn new(ws: Workspace, req: Option<Req>, bo: Option<BusyObj>) -> (c: Ctx)
        ensures
            c.ws == ws,
            c.req == req,
            c.bo == bo,
            c.http_req is None && c.http_req_top is None && c.http_resp is None,
            c.http_bereq is None && c.http_beresp is None,
    {
        Ctx {
            http_req: None,
            http_req_top: None,
            http_resp: None,
            http_bereq: None,
            http_beresp: None,
            ws,
            req,
            bo,
        }
    }

    /// The client request object, if present.
    ///
    /// `None` outside of client-facing VCL contexts.
    pub fn req(&self) -> (r: Option<&Req>)
        ensures
            match self.req {
                Some(q) => r matches Some(rq) && *rq == q,
                None => r is None,
            },
    {
        self.req.as_ref()
    }

    /// The client request object, if present, for modification.
    ///
    /// `None` outside of client-facing VCL contexts.
    pub fn req_mut(&mut self) -> (r: Option<&mut Req>)
        ensures
            match old(self).req {
                Some(q) => r matches Some(rq) && *rq == q && final(self).req == Some(
                    *final(rq),
                ),
                None => r is None && final(self).req is None,
            },
            final(self).bo == old(self).bo,
            final(self).ws == old(self).ws,
    {
        self.req.as_mut()
    }

    /// The current state of the request body: `bereq`'s body from a backend
    /// context (the client body's state while the fetch still reads from the
    /// client, otherwise `Cached` or `NoBody`), or the client `req`'s body from
    /// a client context.
    ///
    /// Fails with [`VclError::BodyUnavailable`] outside both.
    pub fn req_body_state(&self) -> (r: Result<BodyState, VclError>)
        requires
            self.wf(),
        ensures
            r == body_state_of(self.req, self.bo),
    {
        match &self.bo {
            Some(b) => match b.req_body_status {
                Some(s) => Ok(s),
                None => if b.has_bereq_body {
                    Ok(BodyState::Cached)
                } else {
                    Ok(BodyState::NoBody)
                },
            },
            None => match &self.req {
                Some(r) => Ok(r.body_status()),
                None => Err(VclError::BodyUnavailable),
            },
        }
    }

    /// How the request body is to be copied out: not at all when there is no
    /// body, from the client request in a client context, from the cached
    /// object or from the client stream in a backend context.
    ///
    /// Fails as [`Ctx::req_body_state`] does.
    pub fn req_body_read(&self) -> (r: Result<BodyRead, VclError>)
        requires
            self.wf(),
        ensures
            r == body_read_of(self.req, self.bo),
            r == Ok::<BodyRead, VclError>(BodyRead::Nothing) <==> body_state_of(self.req, self.bo)
                == Ok::<BodyState, VclError>(BodyState::NoBody),
            r == Ok::<BodyRead, VclError>(BodyRead::Client) ==> self.bo is None,
    {
        let state = match self.req_body_state() {
            Ok(s) => s,
            Err(e) => {
                return Err(e);
            },
        };
        if state == BodyState::NoBody {
            return Ok(BodyRead::Nothing);
        }
        if self.bo.is_none() {
            return Ok(BodyRead::Client);
        }
        if state == BodyState::Cached {
            Ok(BodyRead::CachedBereq)
        } else {
            Ok(BodyRead::StreamedBereq)
        }
    }

    /// Checks that `local.socket` can be read: only where there is a client
    /// request or a backend fetch; [`VclError::LocalSocketUnavailable`]
    /// otherwise.
    pub fn local_socket_check(&self) -> (r: Result<(), VclError>)
        ensures
            (self.req is Some || self.bo is Some) ==> r is Ok,
            (self.req is None && self.bo is None) ==> r == Err::<(), VclError>(
                VclError::LocalSocketUnavailable,
            ),
    {
        if self.req.is_none() && self.bo.is_none() {
            return Err(VclError::LocalSocketUnavailable);
        }
        Ok(())
    }

    /// Checks that `local.endpoint` can be read: only where there is a client
    /// request or a backend fetch; [`VclError::LocalEndpointUnavailable`]
    /// otherwise.
    pub fn local_endpoint_check(&self) -> (r: Result<(), VclError>)
        ensures
            (self.req is Some || self.bo is Some) ==> r is Ok,
            (self.req is None && self.bo is None) ==> r == Err::<(), VclError>(
                VclError::LocalEndpointUnavailable,
            ),
    {
        if self.req.is_none() && self.bo.is_none() {
            return Err(VclError::LocalEndpointUnavailable);
        }
        Ok(())
    }

    /// Checks that the cached request body can be read: the context has a
    /// client request ([`VclError::NoReq`] otherwise) whose body has been
    /// cached ([`VclError::BodyNotCached`] otherwise).
    pub fn cached_req_body_check(&self) -> (r: Result<(), VclError>)
        ensures
            match self.req {
                None => r == Err::<(), VclError>(VclError::NoReq),
                Some(q) => if q.spec_body_status() == BodyState::Cached {
                    r is Ok
                } else {
                    r == Err::<(), VclError>(VclError::BodyNotCached)
                },
            },
    {
        match &self.req {
            None => Err(VclError::NoReq),
            Some(q) => if q.body_status() == BodyState::Cached {
                Ok(())
            } else {
                Err(VclError::BodyNotCached)
            },
        }
    }
}

/// The result of checking whether a subroutine can be called: allowed when
/// Varnish gave no reason against it, refused with that reason otherwise.
pub fn check_call_sub_result(reason: Option<String>) -> (r: Result<(), VclError>)
    ensures
        match reason {
            None => r is Ok,
            Some(m) => r == Err::<(), VclError>(VclError::Message(m)),
        },
{
    match reason {
        None => Ok(()),
        Some(m) => Err(VclError::Message(m)),
    }
}

/// What the body-iteration callback answers for one chunk: 0 to go on, 1 to
/// stop because the writer failed. Empty chunks are skipped without writing.
pub fn body_chunk_answer(len: isize, write_failed: bool) -> (r: i32)
    ensures
        len <= 0 ==> r == 0,
        len > 0 ==> r == (if write_failed {
            1i32
        } else {
            0i32
        }),
{
    if len <= 0 {
        return 0;
    }
    if write_failed {
        1
    } else {
        0
    }
}

/// The result of iterating the cached request body: the chunks when the
/// iteration returned 0, [`VclError::BodyIterationFailed`] otherwise.
pub fn cached_req_body_result(rv: i32, chunks: Vec<Vec<u8>>) -> (r: Result<Vec<Vec<u8>>, VclError>)
    ensures
        rv == 0 ==> r == Ok::<Vec<Vec<u8>>, VclError>(chunks),
        rv != 0 ==> r == Err::<Vec<Vec<u8>>, VclError>(VclError::BodyIterationFailed),
{
    if rv == 0 {
        Ok(chunks)
    } else {
        Err(VclError::BodyIterationFailed)
    }
}

/// Resolves a completed body iteration into the result of reading the body: a
/// writer error always takes priority over the iteration's return code, and
/// a negative return code reports `stream_err`.
pub fn resolve_iterate_result(rv: isize, writer_error: Option<String>, stream_err: VclError) -> (r:
    Result<bool, VclError>)
    ensures
        match writer_error {
            Some(e) => r == Err::<bool, VclError>(VclError::Message(e)),
            None => if rv < 0 {
                r == Err::<bool, VclError>(stream_err)
            } else {
                r == Ok::<bool, VclError>(true)
            },
        },
{
    if let Some(e) = writer_error {
        return Err(VclError::Message(e));
    }
    if rv < 0 {
        return Err(stream_err);
    }
    Ok(true)
}

/// The result of reading a cached backend request body: only a writer error
/// fails it.
pub fn resolve_cached_read_result(writer_error: Option<String>) -> (r: Result<bool, VclError>)
    ensures
        match writer_error {
            Some(e) => r == Err::<bool, VclError>(VclError::Message(e)),
            None => r == Ok::<bool, VclError>(true),
        },
{
    match writer_error {
        Some(e) => Err(VclError::Message(e)),
        None => Ok(true),
    }
}

/// The error that a failed read of the body stream reports: the client
/// body's for a client context, the streamed backend body's for a backend
/// context; a cached body, or none, has no stream to fail.
pub fn stream_read_error(read: BodyRead) -> (r: Option<VclError>)
    ensures
        read == BodyRead::Client ==> r == Some(VclError::ReqBodyReadError),
        read == BodyRead::StreamedBereq ==> r == Some(VclError::BereqBodyStreamReadError),
        (read == BodyRead::Nothing || read == BodyRead::CachedBereq) ==> r is None,
{
    match read {
        BodyRead::Client => Some(VclError::ReqBodyReadError),
        BodyRead::StreamedBereq => Some(VclError::BereqBodyStreamReadError),
        BodyRead::Nothing => None,
        BodyRead::CachedBereq => None,
    }
}

/// The bookkeeping after a streamed backend request body was read: the
/// fetch can no longer be retried unless the client body is cached, and a
/// client body left in error, when the writer did not fail, closes the
/// client connection.
pub fn streamed_read_fixup(status_after: BodyState, writer_failed: bool) -> (r: StreamedReadFixup)
    ensures
        r.no_retry == (status_after != BodyState::Cached),
        r.close_rx_body == (!writer_failed && status_after == BodyState::Error),
{
    StreamedReadFixup {
        no_retry: status_after != BodyState::Cached,
        close_rx_body: !writer_failed && status_after == BodyState::Error,
    }
}

/// A context together with the workspace it points to, for tests.
#[derive(Debug)]
pub struct TestCtx {
    ctx: Ctx,
}

impl TestCtx {
    /// The wrapped context.
    pub closed spec fn spec_ctx(&self) -> Ctx {
        self.ctx
    }

    /// A context with a workspace of `sz` bytes and nothing else.
    pub fn new(sz: usize) -> (t: TestCtx)
        ensures
            t.spec_ctx().ws.wf(),
            t.spec_ctx().ws.spec_capacity() == sz,
            t.spec_ctx().ws.spec_free() == sz,
            t.spec_ctx().req is None,
            t.spec_ctx().bo is None,
            t.spec_ctx().http_req is None,
            t.spec_ctx().http_req_top is None,
            t.spec_ctx().http_resp is None,
            t.spec_ctx().http_bereq is None,
            t.spec_ctx().http_beresp is None,
            t.spec_ctx().wf(),
    {
        TestCtx { ctx: Ctx::new(Workspace::new(sz), None, None) }
    }

    /// The context, for use in unit tests.
    pub fn ctx(&mut self) -> (c: &mut Ctx)
        ensures
            *c == old(self).spec_ctx(),
            final(self).spec_ctx() == *final(c),
    {
        &mut self.ctx
    }
}

/// The per-VCL state that generated VMOD code keeps: the user's data.
#[derive(Debug)]
pub struct PerVclState<T> {
    pub user_data: Option<Box<T>>,
}

impl<T> PerVclState<T> {
    /// A state without user data.
    pub fn new() -> (s: PerVclState<T>)
        ensures
            s.user_data is None,
    {
        PerVclState { user_data: None }
    }

    /// The user data, if set.
    pub fn get_user_data(&self) -> (r: Option<&T>)
        ensures
            match self.user_data {
                Some(b) => r matches Some(d) && *d == *b,
                None => r is None,
            },
    {
        match &self.user_data {
            Some(b) => Some(&**b),
            None => None,
        }
    }
}

} // verus!
