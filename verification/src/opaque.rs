use vstd::prelude::*;

verus! {

/// Holds the provider-specific value carried by an [`OpaqueMessage`].
///
/// The value inside is never inspected by this crate's logic: it is stored
/// when a provider builds a message and handed back, by downcast, when the
/// same provider later rebuilds its request payload. Verus therefore sees
/// this struct as opaque; the three methods below are trusted.
#[verifier::external_body]
struct OpaquePayload {
    inner: std::sync::Arc<dyn core::any::Any + Send + Sync>,
}

impl OpaquePayload {
    /// Relies on `std::sync::Arc::new`: stores the value for later downcast.
    #[verifier::external_body]
    fn new<T: Send + Sync + 'static>(value: T) -> Self {
        OpaquePayload { inner: std::sync::Arc::new(value) }
    }

    /// Relies on `core::any::Any::downcast_ref`: returns the stored value
    /// when `T` is the type it was stored with.
    #[verifier::external_body]
    fn downcast<T: 'static>(&self) -> Option<&T> {
        self.inner.downcast_ref()
    }

    /// Relies on `std::sync::Arc::clone`: the copy shares the same value.
    #[verifier::external_body]
    fn clone_payload(&self) -> Self {
        OpaquePayload { inner: std::sync::Arc::clone(&self.inner) }
    }
}

/// An opaque message from the model that the agent itself never interprets.
///
/// Providers use it to keep their own representation of a past turn in the
/// conversation history. The message is identified by its `id` alone: two
/// messages compare equal exactly when their ids are equal, and the
/// mathematical view of a message is the view of its id.
pub struct OpaqueMessage {
    id: String,
    payload: OpaquePayload,
}

impl View for OpaqueMessage {
    type V = Seq<char>;

    closed spec fn view(&self) -> Seq<char> {
        self.id@
    }
}

impl DeepView for OpaqueMessage {
    type V = Seq<char>;

    open spec fn deep_view(&self) -> Seq<char> {
        self.view()
    }
}

impl OpaqueMessage {
    /// Creates a new message under the given id, storing `value` for later
    /// recovery through [`OpaqueMessage::to_raw`]. The id should be unique
    /// across the conversation, since messages compare equal by id.
    pub fn new<T: Send + Sync + 'static>(id: &str, value: T) -> (r: Self)
        ensures
            r@ == id@,
    {
        OpaqueMessage { id: id.to_owned(), payload: OpaquePayload::new(value) }
    }

    /// Returns the stored value, when `T` is the type it was stored with.
    pub fn to_raw<T: 'static>(&self) -> Option<&T> {
        self.payload.downcast()
    }

    /// Returns the id of this message.
    pub fn id(&self) -> (r: &str)
        ensures
            r@ == self@,
    {
        self.id.as_str()
    }
}

impl Clone for OpaqueMessage {
    fn clone(&self) -> (r: Self)
        ensures
            r@ == self@,
    {
        OpaqueMessage { id: self.id.clone(), payload: self.payload.clone_payload() }
    }
}

impl PartialEq for OpaqueMessage {
    fn eq(&self, other: &Self) -> (r: bool) {
        self.id == other.id
    }
}

impl Eq for OpaqueMessage {}

impl vstd::std_specs::cmp::PartialEqSpecImpl for OpaqueMessage {
    open spec fn obeys_eq_spec() -> bool {
        true
    }

    open spec fn eq_spec(&self, other: &Self) -> bool {
        self@ == other@
    }
}

impl core::hash::Hash for OpaqueMessage {
    /// Relies on `String`'s `Hash`: the message hashes as its id, matching
    /// the equality above.
    #[verifier::external_body]
    fn hash<H: core::hash::Hasher>(&self, state: &mut H) {
        self.id.hash(state);
    }
}

} // verus!
