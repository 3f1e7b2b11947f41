//! Health check probe definitions for backends.
use vstd::prelude::*;

use std::borrow::Cow;
use std::time::Duration;

verus! {

/// The request sent to check backend health.
#[derive(Debug, Clone)]
pub enum Request<T> {
    /// Send an HTTP `GET` request to this URL path (e.g. `"/health"`).
    Url(T),
    /// Send a raw request string verbatim.
    Text(T),
}

/// A backend health check probe definition.
#[derive(Debug)]
pub struct Probe<T> {
    /// The request to send on each probe attempt.
    pub request: Request<T>,
    /// How long to wait for a response before considering the probe failed.
    pub timeout: Duration,
    /// How often to send probe requests.
    pub interval: Duration,
    /// The HTTP status code considered healthy; `0` means any 2xx status.
    pub exp_status: u32,
    /// Number of most recent probes to consider (sliding window size).
    pub window: u32,
    /// Minimum number of successful probes within the window.
    pub threshold: u32,
    /// Number of probes assumed successful when the backend starts up.
    pub initial: u32,
}

/// The request of a probe that Varnish hands over, which has exactly one of
/// a URL and a raw request text.
pub fn request_from(url: Option<String>, text: Option<String>) -> (r: Request<String>)
    requires
        url is Some != text is Some,
    ensures
        match url {
            Some(u) => r == Request::Url(u),
            None => r == Request::Text(text->0),
        },
{
    match url {
        Some(u) => Request::Url(u),
        None => match text {
            Some(t) => Request::Text(t),
            None => Request::Text(String::new()),
        },
    }
}

/// A probe that borrows its request string.
pub type CowProbe<'a> = Probe<Cow<'a, str>>;

/// The text of a borrowed or owned string.
pub open spec fn cow_text(c: Cow<'_, str>) -> Seq<char> {
    match c {
        Cow::Borrowed(b) => b@,
        Cow::Owned(o) => o@,
    }
}

/// An owned copy of a borrowed or owned string.
fn cow_to_string(c: &Cow<'_, str>) -> (s: String)
    ensures
        s@ == cow_text(*c),
{
    match c {
        Cow::Borrowed(b) => String::from_str(b),
        Cow::Owned(o) => o.clone(),
    }
}

impl<'a> Probe<Cow<'a, str>> {
    /// This probe with its request string owned.
    pub fn to_owned(&self) -> (p: Probe<String>)
        ensures
            match (self.request, p.request) {
                (Request::Url(a), Request::Url(b)) => b@ == cow_text(a),
                (Request::Text(a), Request::Text(b)) => b@ == cow_text(a),
                _ => false,
            },
            p.timeout == self.timeout,
            p.interval == self.interval,
            p.exp_status == self.exp_status,
            p.window == self.window,
            p.threshold == self.threshold,
            p.initial == self.initial,
    {
        let request = match &self.request {
            Request::Url(c) => Request::Url(cow_to_string(c)),
            Request::Text(c) => Request::Text(cow_to_string(c)),
        };
        Probe {
            request,
            timeout: self.timeout,
            interval: self.interval,
            exp_status: self.exp_status,
            window: self.window,
            threshold: self.threshold,
            initial: self.initial,
        }
    }
}

} // verus!
