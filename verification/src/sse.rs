//! Server-Sent Events: the event a handler sends.
use vstd::prelude::*;
use crate::text::{chars_of, concat, lit, string_from_chars};

verus! {

/// An SSE event under construction: data, event type, id, reconnection time
/// and comment, each optional.
#[derive(Clone, Debug)]
pub struct SseEvent {
    data: Option<String>,
    event: Option<String>,
    id: Option<String>,
    retry: Option<std::time::Duration>,
    comment: Option<String>,
}

/// An SSE event as plain values.
pub struct SseEventView {
    pub data: Option<Seq<char>>,
    pub event: Option<Seq<char>>,
    pub id: Option<Seq<char>>,
    pub retry: Option<std::time::Duration>,
    pub comment: Option<Seq<char>>,
}

impl View for SseEvent {
    type V = SseEventView;

    closed spec fn view(&self) -> SseEventView {
        SseEventView {
            data: crate::openapi::opt_str_view(self.data),
            event: crate::openapi::opt_str_view(self.event),
            id: crate::openapi::opt_str_view(self.id),
            retry: self.retry,
            comment: crate::openapi::opt_str_view(self.comment),
        }
    }
}

/// The data sent when a value could not be serialized: `{"error":"<message>"}`.
pub open spec fn json_error_data(message: Seq<char>) -> Seq<char> {
    "{\"error\":\""@ + message + "\"}"@
}

impl Default for SseEvent {
    fn default() -> (r: Self)
        ensures
            r@ == (SseEventView { data: None, event: None, id: None, retry: None, comment: None }),
    {
        SseEvent { data: None, event: None, id: None, retry: None, comment: None }
    }
}

impl SseEvent {
    /// An event with nothing set.
    pub fn new() -> (r: Self)
        ensures
            r@ == (SseEventView { data: None, event: None, id: None, retry: None, comment: None }),
    {
        SseEvent { data: None, event: None, id: None, retry: None, comment: None }
    }

    /// Sets the data.
    pub fn data(self, data: &str) -> (r: Self)
        ensures
            r@ == (SseEventView { data: Some(data@), ..self@ }),
    {
        SseEvent { data: Some(lit(data)), ..self }
    }

    /// Sets the data to a serialized value: `serialized` is what serializing
    /// the value to JSON gave, the text or the error's message. On an error
    /// the data is `{"error":"<message>"}`.
    pub fn json(self, serialized: Result<String, String>) -> (r: Self)
        ensures
            r@ == (SseEventView {
                data: Some(match serialized {
                    Ok(s) => s@,
                    Err(e) => json_error_data(e@),
                }),
                ..self@
            }),
    {
        let d = match serialized {
            Ok(s) => s,
            Err(e) => {
                let m = concat(&chars_of("{\"error\":\""), &chars_of(e.as_str()));
                let m = concat(&m, &chars_of("\"}"));
                string_from_chars(m.as_slice())
            },
        };
        SseEvent { data: Some(d), ..self }
    }

    /// Sets the event type.
    pub fn event(self, event: &str) -> (r: Self)
        ensures
            r@ == (SseEventView { event: Some(event@), ..self@ }),
    {
        SseEvent { event: Some(lit(event)), ..self }
    }

    /// Sets the event id.
    pub fn id(self, id: &str) -> (r: Self)
        ensures
            r@ == (SseEventView { id: Some(id@), ..self@ }),
    {
        SseEvent { id: Some(lit(id)), ..self }
    }

    /// Sets the reconnection time.
    pub fn retry(self, duration: std::time::Duration) -> (r: Self)
        ensures
            r@ == (SseEventView { retry: Some(duration), ..self@ }),
    {
        SseEvent { retry: Some(duration), ..self }
    }

    /// Sets the comment.
    pub fn comment(self, comment: &str) -> (r: Self)
        ensures
            r@ == (SseEventView { comment: Some(comment@), ..self@ }),
    {
        SseEvent { comment: Some(lit(comment)), ..self }
    }

    /// The data, if set.
    pub fn get_data(&self) -> (r: Option<&str>)
        ensures
            crate::parser::opt_view(r) == self@.data,
    {
        match &self.data {
            Some(s) => Some(s.as_str()),
            None => None,
        }
    }

    /// The event type, if set.
    pub fn get_event(&self) -> (r: Option<&str>)
        ensures
            crate::parser::opt_view(r) == self@.event,
    {
        match &self.event {
            Some(s) => Some(s.as_str()),
            None => None,
        }
    }

    /// The event id, if set.
    pub fn get_id(&self) -> (r: Option<&str>)
        ensures
            crate::parser::opt_view(r) == self@.id,
    {
        match &self.id {
            Some(s) => Some(s.as_str()),
            None => None,
        }
    }

    /// The reconnection time, if set.
    pub fn get_retry(&self) -> (r: Option<std::time::Duration>)
        ensures
            r == self@.retry,
    {
        self.retry
    }

    /// The comment, if set.
    pub fn get_comment(&self) -> (r: Option<&str>)
        ensures
            crate::parser::opt_view(r) == self@.comment,
    {
        match &self.comment {
            Some(s) => Some(s.as_str()),
            None => None,
        }
    }
}

} // verus!
