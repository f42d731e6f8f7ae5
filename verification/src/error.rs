//! The error channel: a boundary-crossing substitute for exceptions.
//!
//! An [`ErrorSlot`] holds the most recent failure message of one scope
//! (one host thread keeps one slot of its own, so concurrent scopes never
//! clobber each other's message). No history is kept: each failure fully
//! overwrites the prior message. Retrieval is two-step — the host asks for
//! the length, sizes its own buffer, then copies the message out.
use vstd::prelude::*;

verus! {

/// The most recent failure message of one scope, if any.
pub struct ErrorSlot {
    message: Option<Vec<u8>>,
}

impl View for ErrorSlot {
    type V = Option<Seq<u8>>;

    closed spec fn view(&self) -> Option<Seq<u8>> {
        match self.message {
            Some(ref m) => Some(m@),
            None => None,
        }
    }
}

/// What a slot holds after a failure is reported into it: exactly the new
/// message, whatever it held before.
pub open spec fn spec_set(prior: Option<Seq<u8>>, msg: Seq<u8>) -> Option<Seq<u8>> {
    Some(msg)
}

/// The length the two-step retrieval announces: that of the held message,
/// zero when no failure was reported yet.
pub open spec fn spec_error_length(slot: Option<Seq<u8>>) -> int {
    match slot {
        Some(m) => m.len() as int,
        None => 0,
    }
}

impl ErrorSlot {
    /// A fresh scope with no failure reported yet.
    pub fn new() -> (r: ErrorSlot)
        ensures
            r@ is None,
    {
        ErrorSlot { message: None }
    }

    /// Reports a failure: stores `msg` as the scope's most recent message,
    /// fully overwriting any prior one.
    pub fn set(&mut self, msg: Vec<u8>)
        ensures
            final(self)@ == spec_set(old(self)@, msg@),
    {
        self.message = Some(msg);
    }

    /// True when a failure has been reported into this slot.
    pub fn has_message(&self) -> (r: bool)
        ensures
            r == (self@ is Some),
    {
        self.message.is_some()
    }

    /// First retrieval step: the length in bytes of the most recent
    /// message, so the host can size its buffer.
    pub fn last_error_length(&self) -> (n: usize)
        ensures
            n == spec_error_length(self@),
    {
        match self.message {
            Some(ref m) => m.len(),
            None => 0,
        }
    }

    /// Second retrieval step: copies the most recent message into the
    /// host's buffer, truncated to `capacity` bytes, and says how many
    /// bytes were written. The buffer's prior contents are replaced.
    pub fn last_error_message(&self, buf: &mut Vec<u8>, capacity: usize) -> (n: usize)
        ensures
            final(buf)@ == (match self@ {
                Some(m) => m.take(n as int),
                None => Seq::<u8>::empty(),
            }),
            n == (if spec_error_length(self@) <= capacity {
                spec_error_length(self@)
            } else {
                capacity as int
            }),
    {
        buf.clear();
        match self.message {
            Some(ref m) => {
                let n: usize = if m.len() <= capacity {
                    m.len()
                } else {
                    capacity
                };
                let mut i: usize = 0;
                while i < n
                    invariant
                        i <= n,
                        n <= m@.len(),
                        buf@ =~= m@.take(i as int),
                    decreases n - i,
                {
                    buf.push(m[i]);
                    i += 1;
                }
                assert(buf@ =~= m@.take(n as int));
                n
            },
            None => 0,
        }
    }
}

/// Error scopes are independent and keep no history: after each scope
/// reports its own failure, each slot holds exactly its own message —
/// whatever either slot held before, and whatever the other scope reported.
pub proof fn lemma_error_scopes_independent(
    prior_a: Option<Seq<u8>>,
    prior_b: Option<Seq<u8>>,
    msg_a: Seq<u8>,
    msg_b: Seq<u8>,
)
    ensures
        spec_set(prior_a, msg_a) == Some(msg_a),
        spec_set(prior_b, msg_b) == Some(msg_b),
{
}

} // verus!
