use vstd::prelude::*;

verus! {

/// The count behind the start-up rendezvous: one party for each decode task
/// and one for the initiator that waits for them. It releases when the last
/// party arrives, and not before.
pub struct Rendezvous {
    parties: usize,
    arrived: usize,
}

impl Rendezvous {
    pub closed spec fn parties_spec(&self) -> nat {
        self.parties as nat
    }

    pub closed spec fn arrived_spec(&self) -> nat {
        self.arrived as nat
    }

    pub open spec fn wf(&self) -> bool {
        self.arrived_spec() <= self.parties_spec()
    }

    pub open spec fn released_spec(&self) -> bool {
        self.arrived_spec() == self.parties_spec()
    }

    /// The rendezvous for `sounds` decode tasks and the initiator.
    pub fn for_sounds(sounds: usize) -> (r: Rendezvous)
        requires
            sounds < usize::MAX,
        ensures
            r.wf(),
            r.parties_spec() == sounds + 1,
            r.arrived_spec() == 0,
    {
        Rendezvous { parties: sounds + 1, arrived: 0 }
    }

    pub fn parties(&self) -> (r: usize)
        ensures
            r == self.parties_spec(),
    {
        self.parties
    }

    pub fn arrived(&self) -> (r: usize)
        ensures
            r == self.arrived_spec(),
    {
        self.arrived
    }

    pub fn is_released(&self) -> (r: bool)
        ensures
            r == self.released_spec(),
    {
        self.arrived == self.parties
    }

    /// One party arrives; returns whether that releases the rendezvous.
    pub fn arrive(&mut self) -> (released: bool)
        requires
            old(self).wf(),
            !old(self).released_spec(),
        ensures
            final(self).wf(),
            final(self).parties_spec() == old(self).parties_spec(),
            final(self).arrived_spec() == old(self).arrived_spec() + 1,
            released == final(self).released_spec(),
    {
        self.arrived = self.arrived + 1;
        self.arrived == self.parties
    }
}

/// Whether the rendezvous for `sounds` decode tasks has released after
/// `arrivals` parties have arrived.
pub open spec fn released_after(sounds: nat, arrivals: nat) -> bool {
    arrivals == sounds + 1
}

/// A rendezvous made for `sounds` decode tasks, to which `arrivals` parties
/// have then arrived one at a time, is released exactly when the decode
/// tasks and the initiator have all arrived: not earlier, and always then.
pub proof fn lemma_release_needs_every_party(r: Rendezvous, sounds: nat, arrivals: nat)
    requires
        r.wf(),
        r.parties_spec() == sounds + 1,
        r.arrived_spec() == arrivals,
    ensures
        r.released_spec() <==> released_after(sounds, arrivals),
        arrivals <= sounds + 1,
{
}

} // verus!
