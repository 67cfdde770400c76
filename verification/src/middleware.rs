//! What the tracing middleware of an HTTP server decides for each request:
//! whether the request gets a span, and what that span is called.
//!
//! The server itself, and the spans, are the caller's: a layer wraps a
//! service, and for each request the service is asked whether to trace it.
//! A filter is any function from a request path to a verdict; a plain
//! `fn(&str) -> bool` is one.
use vstd::prelude::*;
use vstd::string::*;

verus! {

/// What `str::trim` gives for a text: the text without the white space at its
/// two ends.
pub uninterp spec fn trim_text(s: Seq<char>) -> Seq<char>;

/// `str::trim`: the slice of `s` without leading and trailing white space, as
/// Unicode defines white space. The result depends on the text alone.
#[verifier::external_body]
fn trimmed<'a>(s: &'a str) -> (out: &'a str)
    ensures
        out@ == trim_text(s@),
{
    s.trim()
}

/// The middleware's settings: an optional filter on the request path.
#[derive(Debug, Clone)]
pub struct OtelAxumLayer<F> {
    filter: Option<F>,
}

/// A service wrapped by the middleware.
#[derive(Debug, Clone)]
pub struct OtelAxumService<S, F> {
    inner: S,
    filter: Option<F>,
}

/// A layer without a filter: every request is traced.
#[must_use]
pub fn opentelemetry_tracing_layer<F>() -> (layer: OtelAxumLayer<F>)
    ensures
        layer.spec_filter() is None,
{
    OtelAxumLayer { filter: None }
}

impl<F> Default for OtelAxumLayer<F> {
    fn default() -> (layer: Self)
        ensures
            layer.spec_filter() is None,
    {
        OtelAxumLayer { filter: None }
    }
}

impl<F> OtelAxumLayer<F> {
    /// The filter of the layer, if it has one.
    pub closed spec fn spec_filter(&self) -> Option<F> {
        self.filter
    }

    /// The layer with `filter` in place of any filter it had.
    #[must_use]
    pub fn filter(self, filter: F) -> (layer: OtelAxumLayer<F>)
        ensures
            layer.spec_filter() == Some(filter),
    {
        OtelAxumLayer { filter: Some(filter) }
    }

    /// Wraps `inner`: the service gets the layer's filter.
    pub fn layer<S>(&self, inner: S) -> (service: OtelAxumService<S, F>) where F: Copy
        ensures
            service.spec_inner() == inner,
            service.spec_filter() == self.spec_filter(),
    {
        OtelAxumService { inner, filter: self.filter }
    }
}

impl<S, F> OtelAxumService<S, F> {
    /// The wrapped service.
    pub closed spec fn spec_inner(&self) -> S {
        self.inner
    }

    /// The filter of the service, if it has one.
    pub closed spec fn spec_filter(&self) -> Option<F> {
        self.filter
    }

    /// The wrapped service.
    pub fn inner(&self) -> (inner: &S)
        ensures
            *inner == self.spec_inner(),
    {
        &self.inner
    }

    /// The wrapped service, to call it.
    pub fn inner_mut(&mut self) -> (inner: &mut S)
        ensures
            *inner == old(self).spec_inner(),
            final(self).spec_inner() == *final(inner),
            final(self).spec_filter() == old(self).spec_filter(),
    {
        &mut self.inner
    }

    /// Tells whether a request for `path` gets a span: without a filter every
    /// request does, with one those that the filter accepts.
    pub fn traces(&self, path: &str) -> (traced: bool) where F: Fn(&str) -> bool
        requires
            self.spec_filter() matches Some(f) ==> call_requires(f, (path,)),
        ensures
            match self.spec_filter() {
                Some(f) => call_ensures(f, (path,), traced),
                None => traced,
            },
    {
        match &self.filter {
            Some(f) => f(path),
            None => true,
        }
    }
}

/// The name of the span of a request: method, space, route, without white
/// space at the two ends, so that a request without a route is named by its
/// method alone.
pub fn span_name(method: &str, route: &str) -> (name: String)
    ensures
        name@ == trim_text(method@ + seq![' '] + route@),
{
    proof {
        reveal_strlit(" ");
    }
    let mut full = String::new();
    full.append(method);
    full.append(" ");
    full.append(route);
    proof {
        assert(" "@ =~= seq![' ']);
        assert(full@ =~= method@ + seq![' '] + route@);
    }
    trimmed(full.as_str()).to_owned()
}

} // verus!
