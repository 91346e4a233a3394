use vstd::prelude::*;

verus! {

/// Requests to the view manager itself.
#[derive(Debug, Clone)]
pub enum ViewManagerEvent {
    Redraw,
    Resize,
    /// Leave the interface, with the chosen directory if there is one.
    Exit(Option<String>),
}

/// An event that views publish to the views that listen, with an optional
/// payload of type `P`.
#[derive(Debug, Clone)]
pub struct ApplicationEvent<P> {
    pub id: String,
    pub payload: Option<P>,
}

/// Builds an [`ApplicationEvent`].
pub struct ApplicationEventBuilder<P> {
    id: String,
    payload: Option<P>,
}

impl<P> ApplicationEventBuilder<P> {
    /// A builder for an event with identifier `id` and no payload.
    pub fn new(id: &str) -> (r: ApplicationEventBuilder<P>)
        ensures
            r.spec_id() == id@,
            r.spec_payload() is None,
    {
        ApplicationEventBuilder { id: id.to_owned(), payload: None }
    }

    /// The same builder with `payload` attached.
    pub fn with_payload(self, payload: P) -> (r: ApplicationEventBuilder<P>)
        ensures
            r.spec_id() == self.spec_id(),
            r.spec_payload() == Some(payload),
    {
        ApplicationEventBuilder { id: self.id, payload: Some(payload) }
    }

    /// The event with the identifier and payload given so far.
    pub fn build(self) -> (r: ApplicationEvent<P>)
        ensures
            r.id@ == self.spec_id(),
            r.payload == self.spec_payload(),
    {
        ApplicationEvent { id: self.id, payload: self.payload }
    }

    pub closed spec fn spec_id(&self) -> Seq<char> {
        self.id@
    }

    pub closed spec fn spec_payload(&self) -> Option<P> {
        self.payload
    }
}

/// Any event that travels on the event channel.
#[derive(Debug, Clone)]
pub enum GenericEvent<P> {
    ViewManagerEvent(ViewManagerEvent),
    ApplicationEvent(ApplicationEvent<P>),
}

} // verus!
