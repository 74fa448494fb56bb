//! The decisions of the task that owns the connection: one request in
//! flight at a time, and each reply frame handed to the request that was in
//! flight when it arrived.

use vstd::prelude::*;
use crate::codec::{take_frame, CR};

verus! {

/// The connection's side of the exchange. `R` is whatever routes a reply
/// back to its caller.
pub struct Dispatcher<R> {
    pending: Vec<u8>,
    in_flight: Option<R>,
}

/// Whether `f` is the first frame of `s`: a prefix of it that ends at its
/// first carriage return.
pub open spec fn is_first_frame(s: Seq<u8>, f: Seq<u8>) -> bool {
    f.len() > 0 && f.len() <= s.len() && f == s.take(f.len() as int) && f.last() == CR
        && forall|j: int| 0 <= j < f.len() - 1 ==> f[j] != CR
}

/// Whether `s` holds a carriage return.
pub open spec fn has_cr(s: Seq<u8>) -> bool {
    exists|j: int| 0 <= j < s.len() && s[j] == CR
}

/// A byte stream has at most one first frame, so the reply handed to the
/// request in flight depends on the bytes received alone, not on how the
/// reads split them.
pub proof fn lemma_first_frame_unique(s: Seq<u8>, f: Seq<u8>, g: Seq<u8>)
    requires
        is_first_frame(s, f),
        is_first_frame(s, g),
    ensures
        f == g,
{
    if f.len() < g.len() {
        assert(g[f.len() - 1] == s[f.len() - 1]);
        assert(f[f.len() - 1] == s[f.len() - 1]);
    } else if g.len() < f.len() {
        assert(f[g.len() - 1] == s[g.len() - 1]);
        assert(g[g.len() - 1] == s[g.len() - 1]);
    }
}

impl<R> View for Dispatcher<R> {
    /// The bytes read and not yet handed out, and the request in flight.
    type V = (Seq<u8>, Option<R>);

    closed spec fn view(&self) -> (Seq<u8>, Option<R>) {
        (self.pending@, self.in_flight)
    }
}

impl<R> Dispatcher<R> {
    /// A dispatcher with nothing read and no request in flight.
    pub fn new() -> (r: Self)
        ensures
            r@.0 == Seq::<u8>::empty(),
            r@.1 is None,
    {
        Dispatcher { pending: Vec::new(), in_flight: None }
    }

    /// Whether a new request may be written.
    pub fn is_idle(&self) -> (r: bool)
        ensures
            r == self@.1 is None,
    {
        self.in_flight.is_none()
    }

    /// Records that the command of `request` has been written. Only one
    /// request is in flight at a time.
    pub fn begin(&mut self, request: R)
        requires
            old(self)@.1 is None,
        ensures
            final(self)@.0 == old(self)@.0,
            final(self)@.1 == Some(request),
    {
        self.in_flight = Some(request);
    }

    /// Takes bytes read from the connection. Once they complete a frame, the
    /// request in flight is handed back with that frame, and the bytes after
    /// it are kept for the next reply; until then nothing changes but the
    /// bytes kept.
    pub fn on_data(&mut self, chunk: &[u8]) -> (r: Option<(R, Vec<u8>)>)
        requires
            old(self)@.1 is Some,
        ensures
            has_cr(old(self)@.0 + chunk@) <==> r is Some,
            r is None ==> final(self)@ == (old(self)@.0 + chunk@, old(self)@.1),
            r matches Some((req, f)) ==> req == old(self)@.1->0 && final(self)@.1 is None
                && is_first_frame(old(self)@.0 + chunk@, f@)
                && old(self)@.0 + chunk@ == f@ + final(self)@.0,
    {
        let ghost before = self.pending@ + chunk@;
        let mut i: usize = 0;
        while i < chunk.len()
            invariant
                0 <= i <= chunk@.len(),
                self.pending@ == old(self)@.0 + chunk@.take(i as int),
                self.in_flight == old(self)@.1,
            decreases chunk@.len() - i,
        {
            self.pending.push(chunk[i]);
            assert(chunk@.take(i + 1) =~= chunk@.take(i as int).push(chunk@[i as int]));
            i += 1;
        }
        assert(chunk@.take(chunk@.len() as int) =~= chunk@);
        assert(self.pending@ =~= before);
        match take_frame(&mut self.pending) {
            None => {
                assert(!has_cr(before));
                None
            },
            Some(f) => {
                assert(f@ =~= before.take(f@.len() as int));
                assert(has_cr(before)) by {
                    assert(before[f@.len() - 1] == CR);
                }
                let req = self.in_flight.take();
                match req {
                    Some(q) => Some((q, f)),
                    None => None,
                }
            },
        }
    }
}

} // verus!
