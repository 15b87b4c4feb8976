use crate::id_map::ExactKey;
use vstd::prelude::*;

verus! {

/// Identifies an input device for the lifetime of its connection. The value is the
/// 128-bit form of a random (version 4) UUID minted at discovery time; it carries no
/// meaning outside SHER-Input.
#[derive(Debug, Clone, Copy, PartialEq, Eq, Hash, Structural)]
pub struct InputDeviceId(pub u128);

/// A version 4 UUID as a 128-bit value: the version field (bits 76..80) holds 4 and
/// the variant field (bits 62..64) holds the RFC 4122 pattern `10`.
pub open spec fn is_uuid_v4(v: u128) -> bool {
    (v >> 76u128) & 0xfu128 == 4 && (v >> 62u128) & 0x3u128 == 2
}

/// `uuid::Uuid::new_v4().as_u128()`: a fresh random identifier. The crate draws 128
/// random bits and then sets the version and variant fields, which is all that is
/// stated; the other 122 bits depend on the random source.
#[verifier::external_body]
fn random_uuid_value() -> (v: u128)
    ensures
        is_uuid_v4(v),
{
    uuid::Uuid::new_v4().as_u128()
}

/// The digit for a value below 16, lower-case.
pub open spec fn hex_digit(n: nat) -> char {
    if n < 10 {
        (48 + n) as char
    } else {
        (87 + n) as char
    }
}

/// The `k`-th hexadecimal digit of `v`, counting from the most significant of its 32.
pub open spec fn nibble(v: u128, k: nat) -> nat {
    ((v as nat) / vstd::arithmetic::power2::pow2((4 * (31 - k)) as nat)) % 16
}

/// Which of the 32 digits stands at position `p` of the hyphenated text.
pub open spec fn uuid_digit_index(p: int) -> int {
    if p < 8 {
        p
    } else if p < 13 {
        p - 1
    } else if p < 18 {
        p - 2
    } else if p < 23 {
        p - 3
    } else {
        p - 4
    }
}

/// The hyphenated lower-case text of a UUID: its 32 hexadecimal digits, most
/// significant first, in groups of 8-4-4-4-12 separated by `-`.
pub open spec fn uuid_text(v: u128) -> Seq<char> {
    Seq::new(
        36,
        |p: int|
            if p == 8 || p == 13 || p == 18 || p == 23 {
                '-'
            } else {
                hex_digit(nibble(v, uuid_digit_index(p) as nat))
            },
    )
}

/// `uuid::Uuid::from_u128(v).to_string()`: the UUID's hyphenated lower-case text.
#[verifier::external_body]
fn uuid_string(v: u128) -> (s: String)
    ensures
        s@ == uuid_text(v),
{
    uuid::Uuid::from_u128(v).to_string()
}

impl InputDeviceId {
    /// The id as hyphenated lower-case UUID text.
    pub fn to_string(&self) -> (s: String)
        ensures
            s@ == uuid_text(self.0),
    {
        uuid_string(self.0)
    }

    /// A fresh random device id: a version 4 UUID.
    pub fn new() -> (id: InputDeviceId)
        ensures
            is_uuid_v4(id.0),
    {
        InputDeviceId(random_uuid_value())
    }

    pub fn as_u128(&self) -> (v: u128)
        ensures
            v == self.0,
    {
        self.0
    }
}

impl Default for InputDeviceId {
    /// A fresh random device id, as [`InputDeviceId::new`].
    fn default() -> (id: InputDeviceId)
        ensures
            is_uuid_v4(id.0),
    {
        InputDeviceId::new()
    }
}

impl ExactKey for InputDeviceId {
    fn same_key(&self, other: &Self) -> (b: bool) {
        self.0 == other.0
    }
}

/// Monotonic counter used to order events that land on the same timestamp tick.
#[derive(Debug, Clone, Copy, PartialEq, Eq, PartialOrd, Ord, Hash, Structural)]
pub struct SequenceNumber(pub u64);

/// Hands out sequence numbers 0, 1, 2, ... (wrapping at `u64::MAX`, as the atomic
/// counter it models does).
#[derive(Debug)]
pub struct SequenceCounter {
    next: u64,
}

impl View for SequenceCounter {
    type V = u64;

    closed spec fn view(&self) -> u64 {
        self.next
    }
}

impl SequenceCounter {
    pub fn new() -> (c: SequenceCounter)
        ensures
            c@ == 0,
    {
        SequenceCounter { next: 0 }
    }

    /// Returns the current value and advances the counter by one (wrapping).
    pub fn next(&mut self) -> (s: SequenceNumber)
        ensures
            s.0 == old(self)@,
            final(self)@ == (if old(self)@ == u64::MAX { 0 } else { old(self)@ + 1 }),
    {
        let s = SequenceNumber(self.next);
        self.next = self.next.wrapping_add(1);
        s
    }
}

/// Nanoseconds since the Unix epoch, captured as close to event arrival as possible.
#[derive(Debug, Clone, Copy, PartialEq, Eq, PartialOrd, Ord, Hash, Structural)]
pub struct Timestamp(pub u64);

/// `std::time::UNIX_EPOCH.elapsed()` in nanoseconds: how long ago the Unix epoch was
/// by the wall clock (0 if the clock reads before the epoch). It reads the clock, so
/// nothing is stated about the value.
#[verifier::external_body]
fn nanos_since_epoch() -> (n: u128) {
    match std::time::UNIX_EPOCH.elapsed() {
        Ok(d) => d.as_nanos(),
        Err(_) => 0,
    }
}

impl Timestamp {
    /// The current wall-clock time, in nanoseconds since the Unix epoch (kept to 64
    /// bits).
    pub fn now() -> (t: Timestamp)
        ensures
            exists|n: u128| t.0 == #[trigger] (n as u64),
    {
        Timestamp::from_nanos(nanos_since_epoch())
    }

    /// The timestamp `n` nanoseconds after the Unix epoch, kept to its low 64 bits.
    pub fn from_nanos(n: u128) -> (t: Timestamp)
        ensures
            t.0 == n as u64,
    {
        Timestamp(#[verifier::truncate] (n as u64))
    }

    pub fn as_nanos(&self) -> (n: u64)
        ensures
            n == self.0,
    {
        self.0
    }
}

} // verus!
