//! Delivery sinks: destinations that receive captured screenshots, and
//! what each one sends.

use vstd::prelude::*;

use crate::llm::Analysis;
use crate::store::CaptureRow;

pub mod email;
pub mod mail;
pub mod telegram;

verus! {

#[derive(Debug, Clone, Copy, PartialEq, Eq, Hash, Structural)]
pub enum SinkKind {
    Email,
    Telegram,
}

pub open spec fn sink_name(kind: SinkKind) -> Seq<char> {
    match kind {
        SinkKind::Email => "email"@,
        SinkKind::Telegram => "telegram"@,
    }
}

impl SinkKind {
    pub fn as_str(self) -> (r: &'static str)
        ensures
            r@ == sink_name(self),
    {
        match self {
            SinkKind::Email => "email",
            SinkKind::Telegram => "telegram",
        }
    }
}

/// How many captures a sink accumulates before delivering them as one
/// batch, unless the sink says otherwise.
pub const DEFAULT_BATCH_SIZE: usize = 1;

/// A destination for captured screenshots. Sending a batch and the "Send
/// test" check go over the network and belong to the transport.
pub trait Sink {
    fn kind(&self) -> SinkKind;

    /// How many captures to accumulate before delivering them as one batch:
    /// at least one; one capture at a time unless the sink says otherwise.
    fn batch_size(&self) -> (n: usize)
        ensures
            n >= 1,
        default_ensures
            n == DEFAULT_BATCH_SIZE,
    {
        DEFAULT_BATCH_SIZE
    }
}

/// One capture handed to a sink, with its analysis when there is one.
#[derive(Debug, Clone)]
pub struct DeliveryItem {
    pub capture: CaptureRow,
    pub analysis: Option<Analysis>,
}

} // verus!
