//! Middleware core that assigns a correlation identifier to each inbound
//! request: a client-supplied `x-request-id` header is honored when its bytes
//! decode as header text and that text parses into the identifier type, and
//! otherwise a fresh identifier is generated.  The resolved identifier is
//! handed to the request-scoped context and echoed in the response header
//! once the inner handler completes.
//!
//! The types here decide; they do not perform the surrounding pipeline's
//! work.  A thin adapter owns the actual request and response values, feeds
//! `GenerateRequestId::resolve_pair` the raw header bytes, and carries out
//! the `StepAction` that `ResponseFut::step` returns once the inner
//! computation has been polled.

use vstd::prelude::*;

pub mod text;
pub mod uuid;

pub use crate::uuid::{Uuid, UuidGenerator};

use crate::text::decode_header;

verus! {

/// Name of the header carrying the request correlation identifier, both on
/// the inbound request and on the outgoing response.
pub const HEADER_NAME: &'static str = "x-request-id";

/// Capability of a request identifier type: parseable from text, formattable
/// to text, and duplicable.  Formatting a value and parsing the text back
/// must yield the value again.
pub trait IdType: Sized {
    /// Does this text denote a value of the type?
    spec fn spec_parses(s: Seq<char>) -> bool;

    /// Does this text denote exactly the value `v`?
    spec fn parses_to(s: Seq<char>, v: Self) -> bool;

    /// The canonical text of a value.
    spec fn spec_format(&self) -> Seq<char>;

    /// Formatting a value yields text that parses back to the value itself.
    proof fn lemma_format_parse(&self)
        ensures
            Self::spec_parses(self.spec_format()),
            Self::parses_to(self.spec_format(), *self),
    ;

    /// Parse a value out of text; `None` exactly when the text denotes no
    /// value.
    fn parse(s: &str) -> (r: Option<Self>)
        ensures
            r is Some <==> Self::spec_parses(s@),
            r matches Some(v) ==> Self::parses_to(s@, v),
    ;

    /// Render a value as its canonical text.
    fn format(&self) -> (r: String)
        ensures
            r@ == self.spec_format(),
    ;

    /// Produce a copy of the value.
    fn duplicate(&self) -> (r: Self)
        ensures
            r == *self,
    ;
}

/// Capability of producing fresh identifiers on demand.  `spec_can_gen`
/// bounds which identifiers a generator in a given state may hand out, so a
/// caller that fell back to generation still knows what it received.
pub trait IdGen<O>: Sized {
    /// Which identifiers this generator, in its current state, may produce.
    spec fn spec_can_gen(&self, id: O) -> bool;

    /// Generate one identifier.
    fn gen(&mut self) -> (r: O)
        ensures
            old(self).spec_can_gen(r),
    ;
}

/// Any text is itself a valid identifier; this is the identifier type that
/// accepts every client-supplied header verbatim.
impl IdType for String {
    open spec fn spec_parses(s: Seq<char>) -> bool {
        true
    }

    open spec fn parses_to(s: Seq<char>, v: Self) -> bool {
        v@ == s
    }

    open spec fn spec_format(&self) -> Seq<char> {
        self@
    }

    proof fn lemma_format_parse(&self) {
    }

    fn parse(s: &str) -> (r: Option<Self>) {
        Some(s.to_owned())
    }

    fn format(&self) -> (r: String) {
        self.clone()
    }

    fn duplicate(&self) -> (r: Self) {
        self.clone()
    }
}

/// A generator that always hands out the same fixed text.  Stateless; chiefly
/// a stand-in generator for exercising the resolution protocol.
#[derive(Clone, Debug)]
pub struct FixedGenerator {
    /// The text returned by every call to `gen`.
    pub text: String,
}

impl FixedGenerator {
    /// Creates a generator returning `text` on every call.
    pub fn new(text: String) -> (r: Self)
        ensures
            r.text == text,
    {
        FixedGenerator { text }
    }
}

impl IdGen<String> for FixedGenerator {
    open spec fn spec_can_gen(&self, id: String) -> bool {
        id@ == self.text@
    }

    fn gen(&mut self) -> (r: String) {
        self.text.clone()
    }
}

/// Layer for adding a request identifier: holds the generator and stamps it
/// onto each service it wraps.
#[derive(Debug)]
pub struct GenerateRequestIdLayer<G, O> {
    /// The generator handed to every service built from this layer.
    pub gen: G,
    /// Marker tying the layer to its identifier type.
    pub _out: core::marker::PhantomData<O>,
}

impl<G, O> GenerateRequestIdLayer<G, O> {
    /// Creates a new layer around the given generator.
    pub fn new(gen: G) -> (r: Self)
        ensures
            r.gen == gen,
    {
        GenerateRequestIdLayer { gen, _out: core::marker::PhantomData }
    }

    /// Clones the layer; the clone carries a clone of the generator.
    pub fn duplicate_layer(&self) -> (r: Self)
        where G: Clone,
        ensures
            vstd::pervasive::cloned::<G>(self.gen, r.gen),
    {
        GenerateRequestIdLayer { gen: self.gen.clone(), _out: core::marker::PhantomData }
    }

    /// Wraps an inner service, moving the generator into the new service.
    pub fn layer<S>(self, inner: S) -> (svc: GenerateRequestId<S, G, O>)
        ensures
            svc.inner == inner,
            svc.gen == self.gen,
    {
        GenerateRequestId::new(inner, self.gen)
    }
}

impl<G: Default, O> Default for GenerateRequestIdLayer<G, O> {
    /// Creates a layer around the generator type's own default value.
    fn default() -> (r: Self)
        ensures
            call_ensures(<G as Default>::default, (), r.gen),
    {
        GenerateRequestIdLayer { gen: Default::default(), _out: core::marker::PhantomData }
    }
}

/// Service for adding a request identifier: resolves each request's
/// identifier from its header or from the generator.
#[derive(Debug)]
pub struct GenerateRequestId<S, G, O> {
    /// The wrapped inner service.
    pub inner: S,
    /// The identifier generator used when no valid header is supplied.
    pub gen: G,
    /// Marker tying the service to its identifier type.
    pub _out: core::marker::PhantomData<O>,
}

impl<S, G, O> GenerateRequestId<S, G, O> {
    /// Creates a new service around the inner service and the generator.
    pub fn new(inner: S, gen: G) -> (r: Self)
        ensures
            r.inner == inner,
            r.gen == gen,
    {
        GenerateRequestId { inner, gen, _out: core::marker::PhantomData }
    }
}

/// The spec-level view of an optional header value's bytes.
pub open spec fn header_view(header: Option<&Vec<u8>>) -> Option<Seq<u8>> {
    match header {
        Some(v) => Some(v@),
        None => None,
    }
}

/// The inbound identifier text: present exactly when the header is present
/// and its bytes decode as header text.
pub open spec fn spec_inbound_text(header: Option<Seq<u8>>) -> Option<Seq<char>> {
    match header {
        Some(bytes) => decode_header(bytes),
        None => None,
    }
}

/// The client-supplied identifier text the resolver accepts: the inbound
/// text, provided it parses as the identifier type.  `None` means the
/// resolver must generate.
pub open spec fn spec_accepted_text<O: IdType>(header: Option<Seq<u8>>) -> Option<Seq<char>> {
    match spec_inbound_text(header) {
        Some(text) => if O::spec_parses(text) {
            Some(text)
        } else {
            None
        },
        None => None,
    }
}

impl<S, G: IdGen<O>, O: IdType> GenerateRequestId<S, G, O> {
    /// Decides the request's identifier: an acceptable header value is used
    /// verbatim, and an absent, non-text, or unparseable one degrades to
    /// generation.  No failure surfaces upward.
    pub fn resolve(&mut self, header: Option<&Vec<u8>>) -> (id: O)
        ensures
            final(self).inner == old(self).inner,
            match spec_accepted_text::<O>(header_view(header)) {
                Some(text) => O::parses_to(text, id) && final(self).gen == old(self).gen,
                None => old(self).gen.spec_can_gen(id),
            },
    {
        match header {
            Some(bytes) => match text::decode_header_value(bytes) {
                Some(decoded) => match O::parse(decoded.as_str()) {
                    Some(id) => id,
                    None => self.gen.gen(),
                },
                None => self.gen.gen(),
            },
            None => self.gen.gen(),
        }
    }

    /// Resolves the request's identifier and duplicates it: the first copy is
    /// for the request-scoped context, the second for the response header.
    /// Both are the same value, so the context and the response always carry
    /// the identifier identically.
    pub fn resolve_pair(&mut self, header: Option<&Vec<u8>>) -> (r: (O, O))
        ensures
            r.0 == r.1,
            final(self).inner == old(self).inner,
            match spec_accepted_text::<O>(header_view(header)) {
                Some(text) => O::parses_to(text, r.1) && final(self).gen == old(self).gen,
                None => old(self).gen.spec_can_gen(r.1),
            },
    {
        let id = self.resolve(header);
        let ctx = id.duplicate();
        (ctx, id)
    }
}

/// The observed state of the wrapped inner computation at one poll.
pub enum InnerPoll<R, E> {
    /// The inner computation is not yet finished.
    Pending,
    /// The inner computation finished with the given outcome.
    Ready(Result<R, E>),
}

/// What the decorator asks its driver to do after one poll of the inner
/// computation.
pub enum StepAction<R, E> {
    /// Suspend again; nothing happened.
    Pending,
    /// The inner computation failed: pass the failure through unmodified,
    /// writing no header.
    Fail(E),
    /// The inner computation succeeded: write the given text under
    /// `HEADER_NAME` on the response, overwriting any present value, then
    /// release the response.
    Respond(R, String),
}

/// Holder for an in-flight response computation and the resolved identifier
/// to write into the response header once the computation completes.
pub struct ResponseFut<F, T> {
    /// The wrapped inner computation.
    pub inner: F,
    /// The identifier to echo in the response header.
    pub id: T,
}

impl<F, T: IdType> ResponseFut<F, T> {
    /// Creates a new holder for the inner computation and the identifier.
    pub fn new(inner: F, id: T) -> (r: Self)
        ensures
            r.inner == inner,
            r.id == id,
    {
        ResponseFut { inner, id }
    }

    /// The decorator's decision at one poll: a pending inner computation
    /// suspends with no side effect, a failure passes through unmodified, and
    /// a success has the identifier's canonical text written into the
    /// response header before the response is released.
    ///
    /// A well-behaved identifier type formats to valid header text.  Should
    /// the adapter converting the text into an actual header value fail
    /// regardless, that is a contract violation with no safe degraded
    /// behavior, and the adapter is expected to abort the response rather
    /// than drop the header silently.
    pub fn step<R, E>(&self, polled: InnerPoll<R, E>) -> (a: StepAction<R, E>)
        ensures
            match polled {
                InnerPoll::Pending => a is Pending,
                InnerPoll::Ready(res) => match res {
                    Ok(resp) => a matches StepAction::Respond(r2, h)
                        && r2 == resp && h@ == self.id.spec_format(),
                    Err(e) => a matches StepAction::Fail(e2) && e2 == e,
                },
            },
    {
        match polled {
            InnerPoll::Pending => StepAction::Pending,
            InnerPoll::Ready(res) => match res {
                Ok(resp) => StepAction::Respond(resp, self.id.format()),
                Err(e) => StepAction::Fail(e),
            },
        }
    }
}

/// The write-back text denotes the resolved identifier itself: for any
/// identifier, the text the decorator writes under the reserved header
/// parses back to that identifier.
pub proof fn lemma_written_header_parses_back<O: IdType>(id: O)
    ensures
        O::spec_parses(id.spec_format()),
        O::parses_to(id.spec_format(), id),
{
    id.lemma_format_parse();
}

} // verus!
