//! The Varnish VMOD support library, verified: HTTP header tables,
//! workspaces, request contexts, backends and directors, backend sets, and
//! the code-generation helpers of the VMOD macros.

pub mod error;
pub mod workspace;
pub mod txt;
pub mod http;
pub mod ctx;
pub mod backend;
pub mod backend_set;
pub mod strings;
pub mod metrics;
pub mod endpoint;
pub mod probe;
pub mod native_backend;
pub mod director;
pub mod vcl;
pub mod gen_objects;
pub mod panic;
