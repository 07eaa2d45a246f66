//! The operation descriptor: HTTP method, signable headers, query
//! parameters and the options that select pre-signed-URL mode, a
//! Content-Type, or a CDN host override.

use vstd::prelude::*;

use crate::params::{lemma_upsert_unique, names_unique, pairs_view, upsert, upsert_param};

verus! {

/// An HTTP method of the object-storage API.
#[derive(Clone, Copy, Debug, PartialEq, Eq, Structural)]
pub enum Method {
    Get,
    Put,
    Post,
    Delete,
    Head,
}

impl Method {
    /// The wire name of the method.
    pub open spec fn str_view(self) -> Seq<char> {
        match self {
            Method::Get => "GET"@,
            Method::Put => "PUT"@,
            Method::Post => "POST"@,
            Method::Delete => "DELETE"@,
            Method::Head => "HEAD"@,
        }
    }

    pub fn as_str(&self) -> (r: &'static str)
        ensures
            r@ == self.str_view(),
    {
        match self {
            Method::Get => "GET",
            Method::Put => "PUT",
            Method::Post => "POST",
            Method::Delete => "DELETE",
            Method::Head => "HEAD",
        }
    }
}

/// What one request needs beyond the client's fixed configuration.
///
/// `headers` and `parameters` are mappings kept as pair lists; the builder
/// methods insert with last-write-wins, so names stay unique.
#[derive(Debug, Clone)]
pub struct RequestBuilder {
    pub method: Method,
    /// Present when a pre-signed URL is wanted: its validity in seconds.
    pub expire: Option<u64>,
    pub content_type: Option<String>,
    pub content_md5: Option<String>,
    /// Replaces the virtual-hosted host entirely in the final URL.
    pub cdn: Option<String>,
    pub headers: Vec<(String, String)>,
    pub parameters: Vec<(String, String)>,
}

impl RequestBuilder {
    /// Headers and parameters are mappings: no name occurs twice.
    pub open spec fn wf(&self) -> bool {
        names_unique(pairs_view(self.parameters@)) && names_unique(pairs_view(self.headers@))
    }

    pub fn new() -> (r: RequestBuilder)
        ensures
            r.method == Method::Get,
            r.expire is None,
            r.content_type is None,
            r.content_md5 is None,
            r.cdn is None,
            r.headers@.len() == 0,
            r.parameters@.len() == 0,
            r.wf(),
    {
        RequestBuilder {
            method: Method::Get,
            expire: None,
            content_type: None,
            content_md5: None,
            cdn: None,
            headers: Vec::new(),
            parameters: Vec::new(),
        }
    }

    pub fn with_method(self, method: Method) -> (r: Self)
        ensures
            r == (Self { method, ..self }),
    {
        Self { method, ..self }
    }

    /// Selects pre-signed-URL mode with the given validity window.
    pub fn with_expire(self, expire: u64) -> (r: Self)
        ensures
            r == (Self { expire: Some(expire), ..self }),
    {
        Self { expire: Some(expire), ..self }
    }

    pub fn with_content_type(self, content_type: &str) -> (r: Self)
        ensures
            r.content_type is Some && r.content_type->0@ == content_type@,
            r.method == self.method,
            r.expire == self.expire,
            r.content_md5 == self.content_md5,
            r.cdn == self.cdn,
            r.headers == self.headers,
            r.parameters == self.parameters,
    {
        Self { content_type: Some(content_type.to_owned()), ..self }
    }

    pub fn with_content_md5(self, content_md5: &str) -> (r: Self)
        ensures
            r.content_md5 is Some && r.content_md5->0@ == content_md5@,
            r.method == self.method,
            r.expire == self.expire,
            r.content_type == self.content_type,
            r.cdn == self.cdn,
            r.headers == self.headers,
            r.parameters == self.parameters,
    {
        Self { content_md5: Some(content_md5.to_owned()), ..self }
    }

    /// Serves the final URL from this host instead of bucket and endpoint.
    pub fn with_cdn(self, cdn: &str) -> (r: Self)
        ensures
            r.cdn is Some && r.cdn->0@ == cdn@,
            r.method == self.method,
            r.expire == self.expire,
            r.content_type == self.content_type,
            r.content_md5 == self.content_md5,
            r.headers == self.headers,
            r.parameters == self.parameters,
    {
        Self { cdn: Some(cdn.to_owned()), ..self }
    }

    /// Adds a header, replacing any header of the same name.
    pub fn with_header(self, name: &str, value: &str) -> (r: Self)
        ensures
            pairs_view(r.headers@) == upsert(pairs_view(self.headers@), name@, value@),
            r.method == self.method,
            r.expire == self.expire,
            r.content_type == self.content_type,
            r.content_md5 == self.content_md5,
            r.cdn == self.cdn,
            r.parameters == self.parameters,
            self.wf() ==> r.wf(),
    {
        let headers = upsert_param(&self.headers, name, value);
        proof {
            if self.wf() {
                lemma_upsert_unique(pairs_view(self.headers@), name@, value@);
            }
        }
        Self { headers, ..self }
    }

    /// Adds a query parameter, replacing any parameter of the same name.
    pub fn with_parameter(self, name: &str, value: &str) -> (r: Self)
        ensures
            pairs_view(r.parameters@) == upsert(pairs_view(self.parameters@), name@, value@),
            r.method == self.method,
            r.expire == self.expire,
            r.content_type == self.content_type,
            r.content_md5 == self.content_md5,
            r.cdn == self.cdn,
            r.headers == self.headers,
            self.wf() ==> r.wf(),
    {
        let parameters = upsert_param(&self.parameters, name, value);
        proof {
            if self.wf() {
                lemma_upsert_unique(pairs_view(self.parameters@), name@, value@);
            }
        }
        Self { parameters, ..self }
    }
}

} // verus!
