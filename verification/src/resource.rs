//! Deferred destruction. The renderer must not free memory, so values that
//! leave the live state travel to a collector that drops them elsewhere.

use crate::channel::{channel_try_send, forget, Rejected};
use crate::group::Group;
use crate::mixer::effect::Effect;
use crate::mixer::effect_slot::EffectSlot;
use crate::mixer::track::Track;
use crate::sound::Sound;
use flume::Sender;
use vstd::prelude::*;

verus! {

/// A value that owns memory and has left the live state.
pub enum Resource<E: Effect> {
    /// A sample buffer.
    Sound(Sound<E::Frame>),
    /// A track with its chain of effects.
    Track(Track<E>),
    /// An effect that left a chain.
    EffectSlot(EffectSlot<E>),
    /// A group with its set of parents.
    Group(Group),
    /// A stream that was detached.
    Stream(E),
}

/// The count after one more value went unreclaimed. The count stops at the
/// largest number that it can hold.
pub open spec fn one_more(count: nat) -> nat {
    if count < u64::MAX {
        count + 1
    } else {
        count
    }
}

/// The renderer's end of the reclamation channel, with a count of the values
/// that the channel did not take.
#[verifier::reject_recursive_types(E)]
pub struct Reclaimer<E: Effect> {
    sender: Sender<Resource<E>>,
    unreclaimed: u64,
    taken: Ghost<Seq<Resource<E>>>,
}

impl<E: Effect> Reclaimer<E> {
    /// How many values the channel did not take.
    pub closed spec fn leaked(&self) -> nat {
        self.unreclaimed as nat
    }

    /// The values that the channel took, in the order in which it took
    /// them.
    pub closed spec fn taken(&self) -> Seq<Resource<E>> {
        self.taken@
    }

    /// Whether `resource` was offered to the channel between `self` and
    /// `after`: either the channel took it, or it is counted as lost.
    pub open spec fn offered(&self, after: &Self, resource: Resource<E>) -> bool {
        ||| after.taken() == self.taken().push(resource) && after.leaked() == self.leaked()
        ||| after.taken() == self.taken() && after.leaked() == one_more(self.leaked())
    }

    /// A reclaimer that sends into `sender` and has neither handed over nor
    /// lost anything yet.
    pub fn new(sender: Sender<Resource<E>>) -> (reclaimer: Self)
        ensures
            reclaimer.leaked() == 0,
            reclaimer.taken() == Seq::<Resource<E>>::empty(),
    {
        Reclaimer { sender, unreclaimed: 0, taken: Ghost(Seq::empty()) }
    }

    /// How many values the channel did not take.
    pub fn unreclaimed(&self) -> (count: u64)
        ensures
            count == self.leaked(),
    {
        self.unreclaimed
    }

    /// Takes note of how a send ended. A value that the channel took changes
    /// nothing. A value that came back is counted and given up without being
    /// destroyed: its memory is lost, and the renderer goes on.
    pub fn settle(&mut self, outcome: Result<(), Rejected<Resource<E>>>)
        ensures
            final(self).taken() == old(self).taken(),
            final(self).leaked() == if outcome.is_ok() {
                old(self).leaked()
            } else {
                one_more(old(self).leaked())
            },
    {
        match outcome {
            Ok(()) => {},
            Err(rejected) => {
                if self.unreclaimed < u64::MAX {
                    self.unreclaimed = self.unreclaimed + 1;
                }
                forget(rejected);
            },
        }
    }

    /// Hands `resource` to the collector without waiting. Whether the channel
    /// takes it is not in the renderer's hands: either the channel took it,
    /// and it is the last of the values taken, or it is counted as lost and
    /// given up without being destroyed.
    pub fn reclaim(&mut self, resource: Resource<E>)
        ensures
            old(self).offered(final(self), resource),
    {
        let ghost handed = resource;
        let outcome = channel_try_send(&self.sender, resource);
        proof {
            if outcome.is_ok() {
                self.taken@ = self.taken@.push(handed);
            }
        }
        self.settle(outcome);
    }
}

} // verus!
