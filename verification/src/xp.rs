//! Experience arithmetic: what a message and what time in voice are worth,
//! when a message was written, and whether it falls within the cooldown.

use vstd::prelude::*;

verus! {

/// Milliseconds that must lie between two messages of a member for both to
/// earn: sixty seconds.
pub const COOLDOWN_MILLIS: i64 = 60_000;

/// The least base experience of a message.
pub const MIN_BASE_XP: u64 = 35;

/// The greatest base experience of a message.
pub const MAX_BASE_XP: u64 = 45;

/// Milliseconds between the Unix epoch and the epoch of message identifiers.
pub const ID_EPOCH_MILLIS: u64 = 1_420_070_400_000;

/// A guild's experience multiplier, between 1.0 and 5.0 in steps of one
/// tenth. It is held as its number of tenths, 10 to 50.
#[derive(Clone, Copy, Debug)]
pub struct Multiplier {
    tenths: u8,
}

impl View for Multiplier {
    type V = int;

    /// The multiplier's number of tenths.
    closed spec fn view(&self) -> int {
        self.tenths as int
    }
}

impl Multiplier {
    #[verifier::type_invariant]
    spec fn in_range(self) -> bool {
        10 <= self.tenths <= 50
    }

    /// The multiplier of `tenths` tenths, where that lies between 1.0 and
    /// 5.0.
    pub fn from_tenths(tenths: u8) -> (multiplier: Option<Multiplier>)
        ensures
            multiplier is Some <==> 10 <= tenths <= 50,
            multiplier matches Some(m) ==> m@ == tenths,
    {
        if 10 <= tenths && tenths <= 50 {
            Some(Multiplier { tenths })
        } else {
            None
        }
    }

    /// The multiplier's number of tenths.
    pub fn tenths(&self) -> (tenths: u8)
        ensures
            tenths == self@,
            10 <= tenths <= 50,
    {
        proof {
            use_type_invariant(self);
        }
        self.tenths
    }
}

impl Default for Multiplier {
    /// The multiplier 1.0.
    fn default() -> (multiplier: Multiplier)
        ensures
            multiplier@ == 10,
    {
        Multiplier { tenths: 10 }
    }
}

/// Whether `value` can be held in an `i64`.
pub open spec fn fits_i64(value: int) -> bool {
    i64::MIN <= value <= i64::MAX
}

/// The millisecond at which the message with identifier `id` was written.
pub open spec fn spec_message_timestamp(id: u64) -> int {
    (id >> 22) as int + ID_EPOCH_MILLIS as int
}

/// Whether a message written at the millisecond `timestamp` falls within
/// the cooldown that the last earning message, if any, began.
pub open spec fn spec_on_cooldown(last: Option<i64>, timestamp: i64) -> bool {
    last matches Some(l) && l + COOLDOWN_MILLIS > timestamp
}

/// What a message of base experience `base` is worth under a multiplier of
/// `tenths` tenths: the product, rounded down.
pub open spec fn spec_message_xp(base: int, tenths: int) -> int {
    base * tenths / 10
}

/// What `elapsed` seconds in voice are worth under a multiplier of `tenths`
/// tenths: a quarter of the product, rounded down; nothing where no time
/// has passed, as when the clock has gone back.
pub open spec fn spec_voice_xp(elapsed: int, tenths: int) -> int {
    if elapsed <= 0 {
        0
    } else {
        elapsed * tenths / 40
    }
}

/// Every message identifier names a millisecond that an `i64` holds.
pub proof fn lemma_message_timestamp_bounds(id: u64)
    ensures
        1_420_070_400_000 <= spec_message_timestamp(id) <= 5_818_116_911_103,
{
    assert(id >> 22 <= 0x3ff_ffff_ffff) by (bit_vector);
}

/// The millisecond at which the message with identifier `id` was written.
pub fn message_timestamp(id: u64) -> (timestamp: i64)
    ensures
        timestamp == spec_message_timestamp(id),
        1_420_070_400_000 <= timestamp <= 5_818_116_911_103,
{
    let since_epoch: u64 = id >> 22;
    assert(since_epoch <= 0x3ff_ffff_ffff) by (bit_vector)
        requires
            since_epoch == id >> 22,
    ;
    (since_epoch + ID_EPOCH_MILLIS) as i64
}

/// Whether a message written at the millisecond `timestamp` falls within
/// the cooldown that the last earning message, if any, began.
pub fn on_cooldown(last: Option<i64>, timestamp: i64) -> (waiting: bool)
    ensures
        waiting == spec_on_cooldown(last, timestamp),
{
    match last {
        Some(l) => l as i128 + COOLDOWN_MILLIS as i128 > timestamp as i128,
        None => false,
    }
}

/// What a message of base experience `base` is worth under `multiplier`.
pub fn message_xp(base: u64, multiplier: Multiplier) -> (xp: i64)
    requires
        MIN_BASE_XP <= base <= MAX_BASE_XP,
    ensures
        xp == spec_message_xp(base as int, multiplier@),
        35 <= xp <= 225,
{
    let tenths: u64 = multiplier.tenths() as u64;
    assert(350 <= base * tenths <= 2250) by (nonlinear_arith)
        requires
            35 <= base <= 45,
            10 <= tenths <= 50,
    ;
    (base * tenths / 10) as i64
}

/// What the seconds from `joined` to `now` in voice are worth under
/// `multiplier`: never less than nothing.
pub fn voice_xp(joined: i64, now: i64, multiplier: Multiplier) -> (xp: i128)
    ensures
        xp == spec_voice_xp(now - joined, multiplier@),
        0 <= xp <= 0x2_0000_0000_0000_0000,
{
    if now <= joined {
        return 0;
    }
    let elapsed: i128 = now as i128 - joined as i128;
    let tenths: i128 = multiplier.tenths() as i128;
    assert(0 <= elapsed * tenths <= 0x1_0000_0000_0000_0000 * 50) by (nonlinear_arith)
        requires
            0 <= elapsed <= 0x1_0000_0000_0000_0000,
            10 <= tenths <= 50,
    ;
    elapsed * tenths / 40
}

} // verus!
