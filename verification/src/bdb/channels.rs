//! Channels to scan, and for how long.

use vstd::prelude::*;

verus! {

/// The lowest channel.
pub const FIRST_CHANNEL: u8 = 11;

/// The highest channel.
pub const LAST_CHANNEL: u8 = 26;

/// A non-empty set of channels, one bit each.
#[derive(Clone, Copy, Debug, PartialEq, Eq, Structural)]
pub struct ChannelMask(u32);

impl ChannelMask {
    /// The bits of the mask.
    pub closed spec fn bits(self) -> u32 {
        self.0
    }

    /// The mask names channels only, and at least one.
    pub open spec fn wf(self) -> bool {
        &&& self.bits() != 0
        &&& self.bits() & !0x07ff_f800u32 == 0
    }

    /// The channel is one of the set.
    pub open spec fn has(self, channel: u8) -> bool {
        channel < 32 && self.bits() & (1u32 << channel) != 0
    }

    /// The set with the bits of `mask`, where these name channels only and at least
    /// one.
    pub fn new(mask: u32) -> (found: Option<Self>)
        ensures
            found is Some <==> mask != 0 && mask & !0x07ff_f800u32 == 0,
            found is Some ==> found->0.bits() == mask && found->0.wf(),
    {
        if mask & !0x07ff_f800u32 == 0 && mask != 0 {
            Some(ChannelMask(mask))
        } else {
            None
        }
    }

    /// The channels of a range, where it holds channels only and at least one.
    pub fn from_range(channels: core::ops::Range<u8>) -> (found: Option<Self>)
        ensures
            found is Some <==> FIRST_CHANNEL <= channels.start < channels.end <= LAST_CHANNEL + 1,
            found is Some ==> found->0.wf() && forall|c: u8| #[trigger]
                found->0.has(c) <==> channels.start <= c < channels.end,
    {
        let start: u8 = channels.start;
        let end: u8 = channels.end;
        let mut mask: u32 = 0;
        let mut channel: u8 = start;
        assert(0u32 & !0x07ff_f800u32 == 0) by (bit_vector);
        assert forall|c: u8| c < 32 implies #[trigger] (0u32 & (1u32 << c)) == 0 by {
            assert(0u32 & (1u32 << c) == 0) by (bit_vector);
        }
        while channel < end
            invariant
                start == channels.start,
                end == channels.end,
                start <= channel,
                channel <= end || channel == start,
                start < channel ==> FIRST_CHANNEL <= start && channel <= LAST_CHANNEL + 1,
                start < channel <==> mask != 0,
                mask & !0x07ff_f800u32 == 0,
                forall|c: u8|
                    c < 32 ==> (#[trigger] (mask & (1u32 << c)) != 0 <==> start <= c < channel),
            decreases end - channel,
        {
            if channel < FIRST_CHANNEL || channel > LAST_CHANNEL {
                return None;
            }
            let ghost before = mask;
            mask = mask | (1u32 << channel);
            proof {
                assert(mask != 0 && mask & !0x07ff_f800u32 == 0) by (bit_vector)
                    requires
                        11 <= channel <= 26,
                        before & !0x07ff_f800u32 == 0,
                        mask == before | (1u32 << channel),
                ;
                assert forall|c: u8| c < 32 implies (#[trigger] (mask & (1u32 << c)) != 0 <==> start
                    <= c < channel + 1) by {
                    assert(mask & (1u32 << c) != 0 <==> c == channel || before & (1u32 << c) != 0)
                        by (bit_vector)
                        requires
                            c < 32,
                            11 <= channel <= 26,
                            mask == before | (1u32 << channel),
                    ;
                    assert(before & (1u32 << c) != 0 <==> start <= c < channel);
                }
            }
            channel = channel + 1;
        }
        let found: Option<Self> = Self::new(mask);
        found
    }

    /// Whether the channel is one of the set.
    pub fn contains(self, channel: u8) -> (yes: bool)
        requires
            channel < 32,
        ensures
            yes == self.has(channel),
    {
        self.0 & (1u32 << channel) != 0
    }
}

/// How long to scan a channel: a power of two with this exponent.
#[derive(Clone, Copy, Debug, PartialEq, Eq, Structural)]
pub struct ScanDuration(u8);

impl ScanDuration {
    pub closed spec fn value(self) -> u8 {
        self.0
    }

    /// The duration with this exponent, which is at most 14.
    pub fn new(exponent: u8) -> (found: Option<Self>)
        ensures
            found is Some <==> exponent <= 14,
            found is Some ==> found->0.value() == exponent,
    {
        if exponent <= 14 {
            Some(ScanDuration(exponent))
        } else {
            None
        }
    }

    pub fn exponent(self) -> (exponent: u8)
        ensures
            exponent == self.value(),
    {
        self.0
    }
}

/// A set of channels lists each channel that it has, and no other number.
pub proof fn law_only_channels(mask: ChannelMask, channel: u8)
    requires
        mask.wf(),
        mask.has(channel),
    ensures
        FIRST_CHANNEL <= channel <= LAST_CHANNEL,
{
    let bits = mask.bits();
    assert(11 <= channel <= 26) by (bit_vector)
        requires
            channel < 32,
            bits & !0x07ff_f800u32 == 0,
            bits & (1u32 << channel) != 0,
    ;
}

} // verus!
