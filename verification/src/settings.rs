//! The channels in which the quiz is switched on.

use vstd::prelude::*;

verus! {

/// The channels in which the quiz is switched on, in the order in which
/// they were switched on.
pub struct ChannelSettings {
    enabled: Vec<u64>,
}

impl View for ChannelSettings {
    type V = Seq<u64>;

    closed spec fn view(&self) -> Seq<u64> {
        self.enabled@
    }
}

/// The channels without `channel`, in their order.
pub open spec fn without(channels: Seq<u64>, channel: u64) -> Seq<u64> {
    channels.filter(|c: u64| c != channel)
}

impl ChannelSettings {
    /// Settings with the given channels switched on.
    pub fn new(enabled: Vec<u64>) -> (settings: ChannelSettings)
        ensures
            settings@ == enabled@,
    {
        ChannelSettings { enabled }
    }

    /// The channels that are switched on.
    pub fn enabled(&self) -> (channels: &Vec<u64>)
        ensures
            channels@ == self@,
    {
        &self.enabled
    }

    /// Whether the quiz is switched on in the channel.
    pub fn is_enabled(&self, channel: u64) -> (on: bool)
        ensures
            on == self@.contains(channel),
    {
        let mut i: usize = 0;
        while i < self.enabled.len()
            invariant
                i <= self.enabled.len(),
                forall|k: int| 0 <= k < i ==> self.enabled@[k] != channel,
            decreases self.enabled.len() - i,
        {
            if self.enabled[i] == channel {
                return true;
            }
            i += 1;
        }
        false
    }

    /// Switches the quiz on in the channel. Where it is on already nothing
    /// changes. Tells whether anything changed.
    pub fn enable(&mut self, channel: u64) -> (changed: bool)
        ensures
            changed == !old(self)@.contains(channel),
            changed ==> final(self)@ == old(self)@.push(channel),
            !changed ==> final(self)@ == old(self)@,
    {
        if self.is_enabled(channel) {
            false
        } else {
            self.enabled.push(channel);
            true
        }
    }

    /// Switches the quiz off in the channel: the channel leaves the list,
    /// however often it stands there.
    pub fn disable(&mut self, channel: u64)
        ensures
            final(self)@ == without(old(self)@, channel),
    {
        let mut kept: Vec<u64> = Vec::new();
        let mut i: usize = 0;
        proof {
            reveal(Seq::filter);
            assert(self.enabled@.take(0) =~= Seq::<u64>::empty());
        }
        while i < self.enabled.len()
            invariant
                i <= self.enabled.len(),
                kept@ == without(self.enabled@.take(i as int), channel),
            decreases self.enabled.len() - i,
        {
            let ghost next = self.enabled@.take(i + 1);
            proof {
                reveal(Seq::filter);
                assert(next.drop_last() =~= self.enabled@.take(i as int));
                assert(next.last() == self.enabled@[i as int]);
            }
            if self.enabled[i] != channel {
                kept.push(self.enabled[i]);
            }
            i += 1;
        }
        proof {
            assert(self.enabled@.take(i as int) =~= self.enabled@);
        }
        self.enabled = kept;
    }
}

} // verus!
