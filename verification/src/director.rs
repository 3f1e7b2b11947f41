//! Directors: VMOD objects that pick another backend for each request.
use vstd::prelude::*;

use std::time::SystemTime;

use crate::backend::VCL_BACKEND;
use crate::ctx::Ctx;
use crate::error::VclError;

verus! {

/// The start of the UNIX epoch (`SystemTime::UNIX_EPOCH`).
#[verifier::external_body]
pub(crate) fn unix_epoch() -> SystemTime {
    SystemTime::UNIX_EPOCH
}

/// What a director implements.
pub trait VclDirector {
    /// Selects a backend for this request, `None` if none is available.
    fn resolve(&self, ctx: &mut Ctx) -> Option<VCL_BACKEND>;

    /// Whether the director is healthy, and when that last changed. Healthy
    /// since the UNIX epoch unless overridden.
    fn healthy(&self, ctx: &mut Ctx) -> (r: (bool, SystemTime))
        default_ensures
            r.0,
            *final(ctx) == *old(ctx),
    {
        (true, unix_epoch())
    }

    /// Releases the director's backend references (the VCL goes cold).
    fn release(&self);

    /// Called when the director is being destroyed.
    fn destroy(&self) {
    }
}

/// The backend that Varnish gets back from a director's selection: the
/// selected one, or the null backend when none was selected.
pub fn resolved_backend(r: Option<VCL_BACKEND>) -> (b: VCL_BACKEND)
    ensures
        match r {
            Some(x) => b == x,
            None => b.spec_is_null(),
        },
{
    match r {
        Some(x) => x,
        None => VCL_BACKEND(0),
    }
}

/// A director implementation registered with Varnish.
#[derive(Debug)]
pub struct Director<D: VclDirector> {
    ptr: VCL_BACKEND,
    inner: Box<D>,
}

impl<D: VclDirector> Director<D> {
    /// The director as Varnish knows it.
    pub closed spec fn spec_ptr(&self) -> VCL_BACKEND {
        self.ptr
    }

    /// The implementation.
    pub closed spec fn spec_inner(&self) -> D {
        *self.inner
    }

    /// The director that Varnish registered at `ptr` under `name`; fails with
    /// [`VclError::AddDirectorFailed`] and the name when it registered none.
    pub fn from_added(name: &str, ptr: VCL_BACKEND, director: D) -> (r: Result<Director<D>, VclError>)
        ensures
            ptr.spec_is_null() ==> (r matches Err(VclError::AddDirectorFailed(n)) && n@ == name@),
            !ptr.spec_is_null() ==> (r matches Ok(d) && d.spec_ptr() == ptr && d.spec_inner()
                == director),
    {
        if ptr.is_null() {
            return Err(VclError::AddDirectorFailed(String::from_str(name)));
        }
        Ok(Director { ptr, inner: Box::new(director) })
    }

    /// The director, for use in VCL.
    pub fn vcl_ptr(&self) -> (r: VCL_BACKEND)
        ensures
            r == self.spec_ptr(),
    {
        self.ptr
    }

    /// The implementation.
    pub fn get_inner(&self) -> (r: &D)
        ensures
            *r == self.spec_inner(),
    {
        &self.inner
    }
}

} // verus!
