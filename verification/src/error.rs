//! The library's error type and the text each error reads as.

use vstd::prelude::*;

use crate::text::push_str;

verus! {

#[derive(Debug, Clone)]
pub enum CoreError {
    Capture(String),
    Encode(String),
    Io(String),
    Db(String),
    Config(String),
    Json(String),
    Secret(String),
    Delivery { sink: String, message: String },
    Llm(String),
}

/// The text an error reads as (its `Display` form).
pub open spec fn error_text(e: CoreError) -> Seq<char> {
    match e {
        CoreError::Capture(m) => "screen capture failed: "@ + m@,
        CoreError::Encode(m) => "image encoding failed: "@ + m@,
        CoreError::Io(m) => "i/o error: "@ + m@,
        CoreError::Db(m) => "database error: "@ + m@,
        CoreError::Config(m) => "config error: "@ + m@,
        CoreError::Json(m) => "json error: "@ + m@,
        CoreError::Secret(m) => "secret storage error: "@ + m@,
        CoreError::Delivery { sink, message } => "delivery failed via "@ + sink@ + ": "@
            + message@,
        CoreError::Llm(m) => "llm error: "@ + m@,
    }
}

impl CoreError {
    /// The error as text.
    pub fn message(&self) -> (r: String)
        ensures
            r@ == error_text(*self),
    {
        let mut out = String::new();
        match self {
            CoreError::Capture(m) => {
                push_str(&mut out, "screen capture failed: ");
                push_str(&mut out, m.as_str());
            },
            CoreError::Encode(m) => {
                push_str(&mut out, "image encoding failed: ");
                push_str(&mut out, m.as_str());
            },
            CoreError::Io(m) => {
                push_str(&mut out, "i/o error: ");
                push_str(&mut out, m.as_str());
            },
            CoreError::Db(m) => {
                push_str(&mut out, "database error: ");
                push_str(&mut out, m.as_str());
            },
            CoreError::Config(m) => {
                push_str(&mut out, "config error: ");
                push_str(&mut out, m.as_str());
            },
            CoreError::Json(m) => {
                push_str(&mut out, "json error: ");
                push_str(&mut out, m.as_str());
            },
            CoreError::Secret(m) => {
                push_str(&mut out, "secret storage error: ");
                push_str(&mut out, m.as_str());
            },
            CoreError::Delivery { sink, message } => {
                push_str(&mut out, "delivery failed via ");
                push_str(&mut out, sink.as_str());
                push_str(&mut out, ": ");
                push_str(&mut out, message.as_str());
            },
            CoreError::Llm(m) => {
                push_str(&mut out, "llm error: ");
                push_str(&mut out, m.as_str());
            },
        }
        out
    }
}

} // verus!
