use vstd::prelude::*;

verus! {

/// Outbound traffic of one client: a single slot that holds only the latest
/// world snapshot (older ones are dropped, never queued) and a reliable
/// queue of discrete events that are never dropped.
pub struct Outbox<T> {
    pub latest: Option<T>,
    pub reliable: Vec<T>,
}

impl<T> Outbox<T> {
    /// An empty outbox.
    pub fn new() -> (r: Self)
        ensures
            r.latest.is_none(),
            r.reliable@.len() == 0,
    {
        Outbox { latest: None, reliable: Vec::new() }
    }

    /// Overwrites the snapshot slot with `msg`.
    pub fn publish_world(&mut self, msg: T)
        ensures
            final(self).latest == Some(msg),
            final(self).reliable == old(self).reliable,
    {
        self.latest = Some(msg);
    }

    /// Queues a discrete event behind the ones already queued.
    pub fn push_event(&mut self, msg: T)
        ensures
            final(self).latest == old(self).latest,
            final(self).reliable@ == old(self).reliable@.push(msg),
    {
        self.reliable.push(msg);
    }

    /// Takes everything there is to send: the queued events in order, then
    /// the latest snapshot, if any. The outbox is empty afterwards.
    pub fn drain(&mut self) -> (r: Vec<T>)
        ensures
            final(self).latest.is_none(),
            final(self).reliable@.len() == 0,
            r@ == match old(self).latest {
                Some(w) => old(self).reliable@.push(w),
                None => old(self).reliable@,
            },
    {
        let mut out: Vec<T> = Vec::new();
        out.append(&mut self.reliable);
        if let Some(w) = self.latest.take() {
            out.push(w);
        }
        proof {
            assert(old(self).reliable@ == Seq::<T>::empty() + old(self).reliable@);
        }
        out
    }
}

} // verus!
