//! A passthrough from a caller-supplied request descriptor to the host's
//! HTTP capability.

use vstd::prelude::*;

verus! {

use crate::bridge::{HttpRequest, HttpResponse, http_request};

pub struct HttpProxy {}

impl HttpProxy {
    pub fn new() -> (r: HttpProxy) {
        HttpProxy {  }
    }

    /// Forward the request as given. The response comes from the network,
    /// so nothing can be promised of it; a transport failure presents as
    /// a non-2xx status.
    pub fn request(&self, request: HttpRequest) -> (r: HttpResponse) {
        http_request(request)
    }
}

} // verus!
