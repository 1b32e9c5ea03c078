//! Identifiers of clients: 128-bit values, written the way `uuid` writes them.
use vstd::prelude::*;
use uuid::Uuid;

verus! {

/// The lower-case hexadecimal digit of a value below sixteen.
pub open spec fn hex_digit(value: int) -> char {
    seq!['0', '1', '2', '3', '4', '5', '6', '7', '8', '9', 'a', 'b', 'c', 'd', 'e', 'f'][value]
}

/// The weight of the hexadecimal digit at `position` of a 128-bit value,
/// where position 0 is the most significant of the 32 digits.
pub open spec fn hex_weight(position: int) -> int
    decreases 31 - position,
{
    if position >= 31 {
        1
    } else {
        16 * hex_weight(position + 1)
    }
}

/// The hexadecimal digit at `position` of `id`, as a value below sixteen.
pub open spec fn uuid_nibble(id: u128, position: int) -> int {
    (id as int / hex_weight(position)) % 16
}

/// How many hyphens stand before place `i` of a written identifier.
pub open spec fn hyphens_before(i: int) -> int {
    if i > 23 {
        4
    } else if i > 18 {
        3
    } else if i > 13 {
        2
    } else if i > 8 {
        1
    } else {
        0
    }
}

/// An identifier written out: its 32 hexadecimal digits in lower case, most
/// significant first, in groups of 8, 4, 4, 4 and 12 with a hyphen between
/// two groups.
pub open spec fn uuid_text(id: u128) -> Seq<char> {
    Seq::new(
        36,
        |i: int|
            if i == 8 || i == 13 || i == 18 || i == 23 {
                '-'
            } else {
                hex_digit(uuid_nibble(id, i - hyphens_before(i)))
            },
    )
}

/// Whether `id` has the shape of an identifier drawn at random: its
/// version digit is 4 and its variant bits are `10`.
pub open spec fn is_random_uuid(id: u128) -> bool {
    uuid_nibble(id, 12) == 4 && uuid_nibble(id, 16) / 4 == 2
}

/// `Uuid::default`, taken as a number: the nil identifier, all of whose bits
/// are zero. Not proved.
#[verifier::external_body]
pub(crate) fn nil_uuid() -> (id: u128)
    ensures
        id == 0,
{
    Uuid::default().as_u128()
}

/// `Uuid::new_v4`, taken as a number: an identifier drawn at random, of
/// which only the version and the variant are known. Not proved.
#[verifier::external_body]
pub(crate) fn random_uuid() -> (id: u128)
    ensures
        is_random_uuid(id),
{
    Uuid::new_v4().as_u128()
}

/// `Uuid::to_string` of the identifier with the number `id`: the hyphenated
/// lower-case form. Not proved.
#[verifier::external_body]
pub(crate) fn uuid_to_string(id: u128) -> (text: String)
    ensures
        text@ == uuid_text(id),
{
    Uuid::from_u128(id).to_string()
}

/// The identifier under which the server itself speaks: the nil identifier.
pub fn server_uuid() -> (id: u128)
    ensures
        id == 0,
{
    nil_uuid()
}

/// The identifier of a client, drawn afresh whenever the application starts.
#[derive(Clone, Copy, Debug, PartialEq, Eq, Hash, Structural)]
pub struct ClientIdentificator(pub u128);

impl Default for ClientIdentificator {
    /// A fresh identifier, drawn at random.
    fn default() -> (fresh: ClientIdentificator)
        ensures
            is_random_uuid(fresh.0),
    {
        ClientIdentificator(random_uuid())
    }
}

impl ClientIdentificator {
    /// The identifier written out.
    pub fn text(&self) -> (text: String)
        ensures
            text@ == uuid_text(self.0),
    {
        uuid_to_string(self.0)
    }
}

} // verus!
