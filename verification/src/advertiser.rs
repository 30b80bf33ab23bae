//! The tag side: what a tag advertises, and how it steps from one
//! advertisement to the next.
use vstd::prelude::*;
use crate::ad::{advertising_encoding, encode_advertising_fields, AdEncodeError};

verus! {

/// Time between two advertisements, in milliseconds.
pub const ADVERTISEMENT_INTERVAL: u64 = 500;

/// Room for advertising data in a legacy advertisement.
pub const ADVERTISING_DATA_CAPACITY: usize = 31;

/// LE general discoverable, BR/EDR not supported.
pub const ADVERTISING_FLAGS: u8 = 0x06;

/// Company identifier under which tags send their payload.
pub const TAG_COMPANY_IDENTIFIER: u16 = 0xffff;

/// The first and the last of the three advertising channels.
pub const FIRST_ADVERTISING_CHANNEL: u8 = 37;
pub const LAST_ADVERTISING_CHANNEL: u8 = 39;

/// The four bytes of `v`, most significant first.
pub open spec fn u32_be_bytes(v: u32) -> Seq<u8> {
    seq![
        (v / 0x100_0000) as u8,
        (v / 0x1_0000 % 0x100) as u8,
        (v / 0x100 % 0x100) as u8,
        (v % 0x100) as u8,
    ]
}

/// The value of four bytes read most significant first.
pub open spec fn u32_from_be(b: Seq<u8>) -> int
    recommends
        b.len() == 4,
{
    b[0] * 0x100_0000 + b[1] * 0x1_0000 + b[2] * 0x100 + b[3]
}

/// Payload carried in the manufacturer-specific data of an advertisement.
#[derive(Debug, Clone, Copy, PartialEq, Eq)]
pub struct AdvertisementPayload {
    pub sequence: u32,
    pub channel_number: u8,
}

impl AdvertisementPayload {
    /// The bytes that [`AdvertisementPayload::to_bytes`] returns.
    pub open spec fn spec_bytes(&self) -> Seq<u8> {
        u32_be_bytes(self.sequence).push(self.channel_number)
    }

    /// The sequence number in big-endian order followed by the channel number.
    pub fn to_bytes(&self) -> (bytes: [u8; 5])
        ensures
            bytes@ == self.spec_bytes(),
    {
        let s = self.sequence;
        let b0 = (s / 0x100_0000) as u8;
        let b1 = (s / 0x1_0000 % 0x100) as u8;
        let b2 = (s / 0x100 % 0x100) as u8;
        let b3 = (s % 0x100) as u8;
        let bytes = [b0, b1, b2, b3, self.channel_number];
        assert(bytes@ =~= self.spec_bytes());
        bytes
    }
}

/// The channel that follows `channel_number`.
pub open spec fn spec_next_channel(channel_number: u8) -> u8 {
    if channel_number < LAST_ADVERTISING_CHANNEL {
        (channel_number + 1) as u8
    } else {
        FIRST_ADVERTISING_CHANNEL
    }
}

/// Channels step up by one until the last one, then wrap to the first.
pub fn next_channel(channel_number: u8) -> (next: u8)
    ensures
        next == spec_next_channel(channel_number),
{
    if channel_number < LAST_ADVERTISING_CHANNEL {
        channel_number + 1
    } else {
        FIRST_ADVERTISING_CHANNEL
    }
}

/// Which advertising channels are switched on.
#[derive(Debug, Clone, Copy, PartialEq, Eq)]
pub struct ChannelSelection {
    pub channel_37: bool,
    pub channel_38: bool,
    pub channel_39: bool,
}

/// Only the channel named by `channel_number` is on; for a number that is
/// not an advertising channel, none is.
pub fn channel_selection(channel_number: u8) -> (sel: ChannelSelection)
    ensures
        sel.channel_37 == (channel_number == 37),
        sel.channel_38 == (channel_number == 38),
        sel.channel_39 == (channel_number == 39),
{
    ChannelSelection {
        channel_37: channel_number == 37,
        channel_38: channel_number == 38,
        channel_39: channel_number == 39,
    }
}

/// The advertising interval handed to the controller, in milliseconds: the
/// configured interval times 16, which makes up for the unit that the
/// controller interface applies to it.
pub fn advertising_interval_ms() -> (ms: u64)
    ensures
        ms == ADVERTISEMENT_INTERVAL * 16,
{
    ADVERTISEMENT_INTERVAL * 16
}

/// The advertising data of a tag: the flags, its name and its payload.
pub open spec fn spec_advertising_data(name: Seq<u8>, payload: AdvertisementPayload) -> Seq<u8> {
    advertising_encoding(ADVERTISING_FLAGS, name, TAG_COMPANY_IDENTIFIER, payload.spec_bytes())
}

/// Encodes the advertising data of a tag; fails when it does not fit in a
/// legacy advertisement, which happens exactly when the name is longer than
/// 17 bytes.
pub fn advertising_data(name: &[u8], payload: &AdvertisementPayload) -> (res: Result<Vec<u8>, AdEncodeError>)
    ensures
        res is Ok <==> name@.len() <= 17,
        res matches Ok(bytes) ==> bytes@ == spec_advertising_data(name@, *payload),
        res matches Err(e) ==> e == AdEncodeError::TooLong,
{
    let bytes = payload.to_bytes();
    let res = encode_advertising_fields(
        ADVERTISING_FLAGS,
        name,
        TAG_COMPANY_IDENTIFIER,
        bytes.as_slice(),
        ADVERTISING_DATA_CAPACITY,
    );
    proof {
        let enc = advertising_encoding(ADVERTISING_FLAGS, name@, TAG_COMPANY_IDENTIFIER, bytes@);
        assert(enc.len() == 14 + name@.len());
    }
    match res {
        Ok(v) => Ok(v),
        Err(_) => Err(AdEncodeError::TooLong),
    }
}

/// What a tag advertises next.
#[derive(Debug, Clone, Copy, PartialEq, Eq)]
pub struct AdvertiserState {
    pub sequence: u32,
    pub channel_number: u8,
}

impl AdvertiserState {
    /// Sequence 0 on the first advertising channel.
    pub fn new() -> (s: AdvertiserState)
        ensures
            s.sequence == 0,
            s.channel_number == FIRST_ADVERTISING_CHANNEL,
    {
        AdvertiserState { sequence: 0, channel_number: FIRST_ADVERTISING_CHANNEL }
    }

    /// The payload of the current advertisement.
    pub fn payload(&self) -> (p: AdvertisementPayload)
        ensures
            p.sequence == self.sequence,
            p.channel_number == self.channel_number,
    {
        AdvertisementPayload { sequence: self.sequence, channel_number: self.channel_number }
    }

    /// After an advertisement: the next sequence number, on the next channel.
    /// The sequence number does not wrap.
    pub fn advance(&mut self)
        requires
            old(self).sequence < u32::MAX,
        ensures
            *final(self) == spec_advance(*old(self)),
    {
        self.sequence = self.sequence + 1;
        self.channel_number = next_channel(self.channel_number);
    }
}

/// The state after one advertisement.
pub open spec fn spec_advance(s: AdvertiserState) -> AdvertiserState {
    AdvertiserState { sequence: (s.sequence + 1) as u32, channel_number: spec_next_channel(s.channel_number) }
}

/// The state after `n` advertisements from a fresh start.
pub open spec fn advanced(n: nat) -> AdvertiserState
    decreases n,
{
    if n == 0 {
        AdvertiserState { sequence: 0, channel_number: FIRST_ADVERTISING_CHANNEL }
    } else {
        spec_advance(advanced((n - 1) as nat))
    }
}

/// A tag numbers its advertisements 0, 1, 2, ... and sends them on the
/// channels 37, 38, 39, 37, ... in turn.
pub proof fn lemma_advertising_schedule(n: nat)
    requires
        n <= u32::MAX,
    ensures
        advanced(n).sequence == n,
        advanced(n).channel_number == FIRST_ADVERTISING_CHANNEL + n % 3,
    decreases n,
{
    if n > 0 {
        lemma_advertising_schedule((n - 1) as nat);
    }
}

/// Reading back the four bytes of a number gives the number.
pub proof fn lemma_u32_be_roundtrip(v: u32)
    ensures
        u32_be_bytes(v).len() == 4,
        u32_from_be(u32_be_bytes(v)) == v,
{
    let b = u32_be_bytes(v);
    assert(b[0] == v / 0x100_0000);
    assert(b[1] == v / 0x1_0000 % 0x100);
    assert(b[2] == v / 0x100 % 0x100);
    assert(b[3] == v % 0x100);
}

/// Once on an advertising channel, a tag stays on advertising channels, and
/// comes back to the same channel every third step.
pub proof fn lemma_channel_cycle(c: u8)
    requires
        FIRST_ADVERTISING_CHANNEL <= c <= LAST_ADVERTISING_CHANNEL,
    ensures
        FIRST_ADVERTISING_CHANNEL <= spec_next_channel(c) <= LAST_ADVERTISING_CHANNEL,
        spec_next_channel(c) != c,
        spec_next_channel(spec_next_channel(spec_next_channel(c))) == c,
{
}

} // verus!
