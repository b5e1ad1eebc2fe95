//! The outbound pipe of a connection: the sending half of an unbounded
//! tokio channel that carries text messages to one peer, together with the
//! ledger of what was handed to it.

use tokio::sync::mpsc::UnboundedSender;
use vstd::prelude::*;

verus! {

/// `tokio::sync::mpsc::UnboundedSender`, carried through the library as an
/// opaque value.
#[verifier::external_type_specification]
#[verifier::external_body]
#[verifier::reject_recursive_types(T)]
pub struct ExUnboundedSender<T>(UnboundedSender<T>);

/// The mathematical value of a [`Pipe`]: the sender, and the texts handed
/// to it since the connection joined, oldest first.
pub struct Endpoint {
    pub pipe: UnboundedSender<String>,
    pub offered: Seq<Seq<char>>,
}

impl Endpoint {
    /// A connection that has just joined.
    pub open spec fn fresh(pipe: UnboundedSender<String>) -> Endpoint {
        Endpoint { pipe, offered: Seq::empty() }
    }

    /// The connection after `text` was handed to its pipe.
    pub open spec fn heard(self, text: Seq<char>) -> Endpoint {
        Endpoint { pipe: self.pipe, offered: self.offered.push(text) }
    }
}

/// The pipe of one joined connection. The ledger grows only where a text
/// is handed to the sender.
pub struct Pipe {
    tx: UnboundedSender<String>,
    offered: Ghost<Seq<Seq<char>>>,
}

impl View for Pipe {
    type V = Endpoint;

    closed spec fn view(&self) -> Endpoint {
        Endpoint { pipe: self.tx, offered: self.offered@ }
    }
}

impl Pipe {
    /// The pipe of a connection that joins with `tx`.
    pub(crate) fn new(tx: UnboundedSender<String>) -> (pipe: Self)
        ensures
            pipe@ == Endpoint::fresh(tx),
    {
        Pipe { tx, offered: Ghost(Seq::empty()) }
    }

    /// Offers `text` to the pipe without blocking.
    ///
    /// Calls `UnboundedSender::send` with an owned copy of `text`, once.
    /// The call returns at once. The sender stays the one it was, and the
    /// ledger, which is this library's record of the calls made, has `text`
    /// as its newest entry. The channel queues the text if it still has
    /// its receiver and drops it if not; which of the two happens depends
    /// on the peer, so nothing is claimed of it and the result of the call
    /// is not handed on.
    #[verifier::external_body]
    pub(crate) fn offer(&mut self, text: &str)
        ensures
            final(self)@ == old(self)@.heard(text@),
    {
        let _ = self.tx.send(text.to_owned());
    }
}

} // verus!
