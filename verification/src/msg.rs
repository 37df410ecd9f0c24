use vstd::prelude::*;

verus! {

/// The one recognized inbound message: a welcome envelope carrying a greeting text.
pub enum Incoming {
    Welcome { hello: String },
}

/// The one outbound message: a thanks envelope carrying a name.
pub enum Outgoing {
    Thanks { name: String },
}

impl Incoming {
    /// The text carried by the inbound message.
    pub open spec fn text(self) -> Seq<char> {
        match self {
            Incoming::Welcome { hello } => hello@,
        }
    }
}

impl Outgoing {
    /// The text carried by the outbound message.
    pub open spec fn text(self) -> Seq<char> {
        match self {
            Outgoing::Thanks { name } => name@,
        }
    }
}

} // verus!
