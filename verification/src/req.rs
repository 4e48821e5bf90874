//! What a handler is given: the request's head, its decoded body, the
//! captured parameters and the extracted context.

use crate::params::Params;
use crate::router::Method;
use vstd::prelude::*;

verus! {

/// The part of an incoming request that routing and dispatch read.
#[derive(Debug)]
pub struct Request {
    /// The request method.
    pub method: Method,
    /// The path of the request's URL.
    pub path: String,
    /// The first value of the `Content-Length` header, if there is one.
    pub length_indicator: Option<String>,
}

/// A request together with its decoded body, if any, the parameters
/// captured from its path, and its context value.
pub struct Req<Body, Context> {
    req: Request,
    body: Option<Body>,
    params: Params,
    context: Context,
}

impl<Body, Context> Req<Body, Context> {
    /// The request that was bundled.
    pub closed spec fn spec_request(&self) -> Request {
        self.req
    }

    /// The body that was bundled.
    pub closed spec fn spec_body(&self) -> Option<Body> {
        self.body
    }

    /// The parameters that were bundled.
    pub closed spec fn spec_params(&self) -> Params {
        self.params
    }

    /// The context that was bundled.
    pub closed spec fn spec_context(&self) -> Context {
        self.context
    }

    /// Bundle a request with its body, parameters and context.
    pub fn new(req: Request, body: Option<Body>, params: Params, context: Context) -> (bundle: Self)
        ensures
            bundle.spec_request() == req,
            bundle.spec_body() == body,
            bundle.spec_params() == params,
            bundle.spec_context() == context,
    {
        Req { req, body, params, context }
    }

    /// The request's head.
    pub fn request(&self) -> (req: &Request)
        ensures
            *req == self.spec_request(),
    {
        &self.req
    }

    /// The decoded body, if the request had one.
    pub fn body(&self) -> (body: Option<&Body>)
        ensures
            match body {
                Some(inner) => self.spec_body() == Some(*inner),
                None => self.spec_body() is None,
            },
    {
        self.body.as_ref()
    }

    /// The parameters captured from the path.
    pub fn params(&self) -> (params: &Params)
        ensures
            *params == self.spec_params(),
    {
        &self.params
    }

    /// The context value extracted for this request.
    pub fn context(&self) -> (context: &Context)
        ensures
            *context == self.spec_context(),
    {
        &self.context
    }
}

} // verus!
