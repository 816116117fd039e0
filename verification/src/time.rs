use vstd::prelude::*;

verus! {

/// Nanoseconds from the Unix epoch (1970-01-01) to the Apple epoch (2001-01-01).
pub const APPLE_EPOCH_OFFSET: u128 = 978307200000000000;

/// A Unix timestamp in nanoseconds, read on the Apple time base; instants
/// before 2001 are clamped to the Apple epoch.
pub open spec fn apple_from_unix(unix: int) -> int {
    if unix < APPLE_EPOCH_OFFSET { 0 } else { unix - APPLE_EPOCH_OFFSET }
}

/// An Apple timestamp in nanoseconds, read on the Unix time base.
pub open spec fn unix_from_apple(apple: int) -> int {
    apple + APPLE_EPOCH_OFFSET
}

/// Converts a Unix nanosecond timestamp to Apple's time base (nanoseconds
/// since 2001-01-01), clamping earlier instants to zero.
pub fn unix_to_apple(unix: u128) -> (apple: u128)
    ensures
        apple == apple_from_unix(unix as int),
{
    if unix < APPLE_EPOCH_OFFSET {
        0
    } else {
        unix - APPLE_EPOCH_OFFSET
    }
}

/// Converts an Apple nanosecond timestamp to the Unix time base.
pub fn apple_to_unix(apple: u128) -> (unix: u128)
    requires
        apple + APPLE_EPOCH_OFFSET <= u128::MAX,
    ensures
        unix == unix_from_apple(apple as int),
{
    apple + APPLE_EPOCH_OFFSET
}

/// Going to the Unix time base and back gives the Apple timestamp unchanged.
pub proof fn lemma_apple_round_trip(apple: u128)
    requires
        apple + APPLE_EPOCH_OFFSET <= u128::MAX,
    ensures
        apple_from_unix(unix_from_apple(apple as int)) == apple,
{
}

/// A Unix timestamp no earlier than 2001 survives the trip to the Apple time
/// base and back; an earlier one comes back as the instant of the Apple epoch.
pub proof fn lemma_unix_round_trip(unix: u128)
    ensures
        unix >= APPLE_EPOCH_OFFSET ==> unix_from_apple(apple_from_unix(unix as int)) == unix,
        unix < APPLE_EPOCH_OFFSET ==> unix_from_apple(apple_from_unix(unix as int))
            == APPLE_EPOCH_OFFSET,
{
}

/// The conversion to the Apple time base keeps the order of instants.
pub proof fn lemma_apple_from_unix_monotonic(earlier: u128, later: u128)
    requires
        earlier <= later,
    ensures
        apple_from_unix(earlier as int) <= apple_from_unix(later as int),
{
}

/// The Apple epoch, 2001-01-01T00:00:00Z, lies 11323 days (31 years, 8 of
/// them leap years) after the Unix epoch.
pub proof fn lemma_apple_epoch_is_2001()
    ensures
        unix_from_apple(0) == (31 * 365 + 8) * 86400 * 1000000000,
        apple_from_unix(((31 * 365 + 8) * 86400 * 1000000000) as int) == 0,
{
}

} // verus!
