//! Key identifiers.

use vstd::prelude::*;

verus! {

/// A UUID, held as the number that its sixteen bytes spell in big-endian order.
#[derive(Clone, Copy, Debug, PartialEq, Eq, Structural, Hash)]
pub struct Uuid {
    pub value: u128,
}

impl View for Uuid {
    type V = u128;

    open spec fn view(&self) -> u128 {
        self.value
    }
}

/// The bits of a UUID that hold its version and its variant.
pub const VERSION_AND_VARIANT_MASK: u128 = 0xf000_c000_0000_0000_0000;

/// What those bits hold in a random (version 4) UUID.
pub const RANDOM_VERSION_AND_VARIANT: u128 = 0x4000_8000_0000_0000_0000;

/// Whether a number is a version 4 UUID of the RFC 4122 variant.
pub open spec fn is_random_uuid(value: u128) -> bool {
    value & VERSION_AND_VARIANT_MASK == RANDOM_VERSION_AND_VARIANT
}

/// `uuid::Uuid::nil`: the UUID whose bits are all zero.
#[verifier::external_body]
fn nil_value() -> (value: u128)
    ensures
        value == 0,
{
    ::uuid::Uuid::nil().as_u128()
}

/// `uuid::Uuid::is_nil`: whether all bits of the UUID with this value are zero.
#[verifier::external_body]
fn value_is_nil(value: u128) -> (result: bool)
    ensures
        result == (value == 0),
{
    ::uuid::Uuid::from_u128(value).is_nil()
}

/// `uuid::Uuid::new_v4`: a random UUID. Of its bits only those of the version and the variant are
/// fixed; nothing is claimed of the others, so neither is it claimed that no two calls agree.
#[verifier::external_body]
fn random_value() -> (value: u128)
    ensures
        is_random_uuid(value),
{
    ::uuid::Uuid::new_v4().as_u128()
}

/// A random UUID is not the nil UUID.
pub proof fn lemma_random_is_not_nil(value: u128)
    requires
        is_random_uuid(value),
    ensures
        value != 0,
{
    assert(0u128 & 0xf000_c000_0000_0000_0000u128 == 0) by (bit_vector);
}

impl Uuid {
    /// The UUID with the given value.
    pub fn from_u128(value: u128) -> (uuid: Self)
        ensures
            uuid@ == value,
    {
        Uuid { value }
    }

    /// The value of this UUID.
    pub fn as_u128(&self) -> (value: u128)
        ensures
            value == self@,
    {
        self.value
    }

    /// The nil UUID, which identifies the verification key.
    pub fn nil() -> (uuid: Self)
        ensures
            uuid@ == 0,
    {
        Uuid { value: nil_value() }
    }

    /// Whether this is the nil UUID.
    pub fn is_nil(&self) -> (result: bool)
        ensures
            result == (self@ == 0),
    {
        value_is_nil(self.value)
    }

    /// A random (version 4) UUID.
    pub fn new_v4() -> (uuid: Self)
        ensures
            is_random_uuid(uuid@),
            uuid@ != 0,
    {
        let value: u128 = random_value();
        proof {
            lemma_random_is_not_nil(value);
        }
        Uuid { value }
    }
}

/// A UUID stands for its value.
pub proof fn uuids_stand_for_their_value(uuid: Uuid)
    ensures
        uuid@ == uuid.value,
{
}

} // verus!
