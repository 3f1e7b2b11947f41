use varnish::ctx::{
    cached_req_body_result, resolve_iterate_result, stream_read_error, streamed_read_fixup, BodyRead, BodyState,
    BusyObj, Ctx, PerVclState, Req, TestCtx,
};
use varnish::error::VclError;
use varnish::workspace::Workspace;

#[test]
fn ctx_test() {
    let mut test_ctx = TestCtx::new(100);
    test_ctx.ctx();
}

#[test]
fn test_ctx_workspace_size() {
    let mut test_ctx = TestCtx::new(100);
    let ctx = test_ctx.ctx();
    assert_eq!(ctx.ws.capacity(), 100);
    assert_eq!(ctx.ws.free(), 100);
    assert!(ctx.req().is_none());
    assert!(ctx.bo.is_none());
    assert!(ctx.http_req.is_none());
    assert!(ctx.http_req_top.is_none());
    assert!(ctx.http_resp.is_none());
    assert!(ctx.http_bereq.is_none());
    assert!(ctx.http_beresp.is_none());
}

#[test]
fn test_req_flags() {
    let mut ctx = Ctx::new(Workspace::new(10), Some(Req::new(BodyState::Length)), None);
    {
        let req = ctx.req_mut().unwrap();
        assert!(!req.hash_always_miss());
        req.set_hash_always_miss(true);
        req.set_hash_ignore_vary(true);
    }
    let req = ctx.req().unwrap();
    assert!(req.hash_always_miss());
    assert!(!req.hash_ignore_busy());
    assert!(req.hash_ignore_vary());
}

#[test]
fn test_req_body_state_client() {
    let ctx = Ctx::new(Workspace::new(10), Some(Req::new(BodyState::Chunked)), None);
    assert_eq!(ctx.req_body_state(), Ok(BodyState::Chunked));
    assert_eq!(ctx.req_body_read(), Ok(BodyRead::Client));
}

#[test]
fn test_req_body_state_unavailable() {
    let ctx = Ctx::new(Workspace::new(10), None, None);
    assert_eq!(ctx.req_body_state(), Err(VclError::BodyUnavailable));
    assert_eq!(ctx.req_body_read(), Err(VclError::BodyUnavailable));
}

#[test]
fn test_req_body_state_backend() {
    let bo = BusyObj { req_body_status: None, has_bereq_body: true };
    let ctx = Ctx::new(Workspace::new(10), None, Some(bo));
    assert_eq!(ctx.req_body_state(), Ok(BodyState::Cached));
    assert_eq!(ctx.req_body_read(), Ok(BodyRead::CachedBereq));

    let bo = BusyObj { req_body_status: None, has_bereq_body: false };
    let ctx = Ctx::new(Workspace::new(10), None, Some(bo));
    assert_eq!(ctx.req_body_state(), Ok(BodyState::NoBody));
    assert_eq!(ctx.req_body_read(), Ok(BodyRead::Nothing));

    let bo = BusyObj { req_body_status: Some(BodyState::Length), has_bereq_body: false };
    let ctx = Ctx::new(Workspace::new(10), Some(Req::new(BodyState::Cached)), Some(bo));
    assert_eq!(ctx.req_body_state(), Ok(BodyState::Length));
    assert_eq!(ctx.req_body_read(), Ok(BodyRead::StreamedBereq));
}

#[test]
fn test_cached_req_body() {
    let ctx = Ctx::new(Workspace::new(10), None, None);
    assert_eq!(ctx.cached_req_body_check(), Err(VclError::NoReq));
    let ctx = Ctx::new(Workspace::new(10), Some(Req::new(BodyState::Length)), None);
    assert_eq!(ctx.cached_req_body_check(), Err(VclError::BodyNotCached));
    let ctx = Ctx::new(Workspace::new(10), Some(Req::new(BodyState::Cached)), None);
    assert_eq!(ctx.cached_req_body_check(), Ok(()));
    assert_eq!(
        cached_req_body_result(0, vec![b"ab".to_vec()]),
        Ok(vec![b"ab".to_vec()])
    );
    assert_eq!(cached_req_body_result(-1, vec![]), Err(VclError::BodyIterationFailed));
}

#[test]
fn test_resolve_iterate_result() {
    assert_eq!(
        resolve_iterate_result(-1, Some("boom".to_string()), VclError::ReqBodyReadError),
        Err(VclError::Message("boom".to_string()))
    );
    assert_eq!(
        resolve_iterate_result(-1, None, VclError::ReqBodyReadError),
        Err(VclError::ReqBodyReadError)
    );
    assert_eq!(resolve_iterate_result(0, None, VclError::ReqBodyReadError), Ok(true));
}

#[test]
fn test_streamed_read_fixup() {
    let f = streamed_read_fixup(BodyState::Error, false);
    assert!(f.no_retry);
    assert!(f.close_rx_body);
    let f = streamed_read_fixup(BodyState::Error, true);
    assert!(!f.close_rx_body);
    let f = streamed_read_fixup(BodyState::Cached, false);
    assert!(!f.no_retry);
    assert!(!f.close_rx_body);
}

#[test]
fn test_per_vcl_state() {
    let mut s: PerVclState<u32> = PerVclState::new();
    assert!(s.get_user_data().is_none());
    s.user_data = Some(Box::new(7));
    assert_eq!(s.get_user_data(), Some(&7));
}

#[test]
fn test_stream_read_error() {
    assert_eq!(stream_read_error(BodyRead::Client), Some(VclError::ReqBodyReadError));
    assert_eq!(stream_read_error(BodyRead::StreamedBereq), Some(VclError::BereqBodyStreamReadError));
    assert_eq!(stream_read_error(BodyRead::CachedBereq), None);
    assert_eq!(stream_read_error(BodyRead::Nothing), None);
}
