//! Handles to VCL objects that VMOD functions receive as arguments.
use vstd::prelude::*;

verus! {

/// The address of a VCL subroutine.
#[allow(non_camel_case_types)]
#[derive(Debug, Clone, Copy, PartialEq, Eq, Structural)]
pub struct VCL_SUB(pub usize);

/// A VCL subroutine, as passed to VMOD functions.
#[derive(Debug, Clone, Copy)]
pub struct Subroutine(pub VCL_SUB);

impl Subroutine {
    /// The subroutine.
    pub fn vcl_ptr(self) -> (r: VCL_SUB)
        ensures
            r == self.0,
    {
        self.0
    }
}

/// The address of a VCL access control list.
#[allow(non_camel_case_types)]
#[derive(Debug, Clone, Copy, PartialEq, Eq, Structural)]
pub struct VCL_ACL(pub usize);

/// A VCL access control list, as passed to VMOD functions.
#[derive(Debug, Clone, Copy)]
pub struct Acl {
    pub raw: VCL_ACL,
}

impl Acl {
    /// The access control list.
    pub fn vcl_ptr(&self) -> (r: VCL_ACL)
        ensures
            r == self.raw,
    {
        self.raw
    }
}

} // verus!
