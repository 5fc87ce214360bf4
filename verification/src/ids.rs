//! Universally unique identifiers as plain values.

use crate::crypto;
use vstd::prelude::*;

verus! {

/// A UUID, as the number that its sixteen bytes make, the first one highest.
#[derive(Clone, Copy, PartialEq, Eq, Debug, Structural)]
pub struct Uuid {
    pub value: u128,
}

/// The UUID that `text` denotes, in any notation that is understood.
pub uninterp spec fn uuid_parsed(text: Seq<char>) -> Option<u128>;

/// `256` to the power of `n`.
pub open spec fn pow256(n: nat) -> nat
    decreases n,
{
    if n == 0 {
        1
    } else {
        256 * pow256((n - 1) as nat)
    }
}

/// The sixteen bytes of a UUID, the highest first.
pub open spec fn uuid_bytes(value: u128) -> Seq<u8> {
    Seq::new(16, |i: int| ((value as nat / pow256((15 - i) as nat)) % 256) as u8)
}

/// The hyphenated lower-case notation of a UUID: its bytes in hexadecimal, in
/// groups of 8, 4, 4, 4 and 12 digits.
pub open spec fn uuid_text(value: u128) -> Seq<char> {
    let digits = crypto::hex_text(uuid_bytes(value), 'a');
    digits.subrange(0, 8) + "-"@ + digits.subrange(8, 12) + "-"@ + digits.subrange(12, 16) + "-"@
        + digits.subrange(16, 20) + "-"@ + digits.subrange(20, 32)
}

impl crate::table::TableKey for Uuid {
    type Id = Uuid;

    open spec fn id(&self) -> Uuid {
        *self
    }

    fn same_key(&self, other: &Self) -> (r: bool) {
        *self == *other
    }
}

impl Uuid {
    /// The UUID whose bits are all zero.
    pub fn nil() -> (u: Uuid)
        ensures
            u.value == 0,
    {
        Uuid { value: 0 }
    }

    /// The UUID that makes the number `value`.
    pub fn from_u128(value: u128) -> (u: Uuid)
        ensures
            u.value == value,
    {
        Uuid { value }
    }

    /// The sixteen bytes, the highest first.
    pub fn as_bytes(&self) -> (bytes: Vec<u8>)
        ensures
            bytes@ == uuid_bytes(self.value),
    {
        let mut bytes: Vec<u8> = Vec::new();
        let mut power: u128 = 0x0100_0000_0000_0000_0000_0000_0000_0000;
        let mut i: usize = 0;
        proof {
            reveal_with_fuel(pow256, 16);
        }
        while i < 16
            invariant
                i <= 16,
                i < 16 ==> power == pow256((15 - i) as nat),
                bytes@ == uuid_bytes(self.value).take(i as int),
            decreases 16 - i,
        {
            proof {
                reveal_with_fuel(pow256, 2);
                lemma_pow256_positive((15 - i) as nat);
            }
            bytes.push(((self.value / power) % 256) as u8);
            power = power / 256;
            i = i + 1;
            assert(bytes@ =~= uuid_bytes(self.value).take(i as int));
        }
        assert(bytes@ =~= uuid_bytes(self.value));
        bytes
    }

    /// `Uuid::new_v4` of the `uuid` crate: a random UUID. Of its value only the
    /// version (four) and the variant bits are known.
    #[verifier::external_body]
    pub(crate) fn new_v4() -> (u: Uuid)
        ensures
            u.value / 0x1000_0000_0000_0000_0000 % 16 == 4,
            u.value / 0x4000_0000_0000_0000 % 4 == 2,
    {
        Uuid { value: uuid::Uuid::new_v4().as_u128() }
    }

    /// `Uuid::parse_str` of the `uuid` crate. The result is named; an error
    /// stands for a text that denotes no UUID.
    #[verifier::external_body]
    pub(crate) fn parse_str(text: &str) -> (u: Option<Uuid>)
        ensures
            u matches Some(id) ==> uuid_parsed(text@) == Some(id.value),
            u is None ==> uuid_parsed(text@) is None,
    {
        uuid::Uuid::parse_str(text).ok().map(|u| Uuid { value: u.as_u128() })
    }

    /// `to_string` of the `uuid` crate's `Uuid`: the hyphenated lower-case
    /// notation, which has 36 characters and parses to the same UUID.
    #[verifier::external_body]
    pub(crate) fn text(&self) -> (s: String)
        ensures
            s@ == uuid_text(self.value),
            s@.len() == 36,
            uuid_parsed(s@) == Some(self.value),
    {
        uuid::Uuid::from_u128(self.value).to_string()
    }
}

proof fn lemma_pow256_positive(n: nat)
    ensures
        pow256(n) > 0,
    decreases n,
{
    if n > 0 {
        lemma_pow256_positive((n - 1) as nat);
    }
}

/// A UUID is determined by its bytes.
pub proof fn lemma_bytes_determine(a: u128, b: u128)
    requires
        forall|i: int| 0 <= i < 16 ==> uuid_bytes(a)[i] == uuid_bytes(b)[i],
    ensures
        a == b,
{
    reveal_with_fuel(pow256, 17);
    assert forall|k: nat| k < 16 implies #[trigger] (a as nat / pow256(k)) % 256 == (b as nat
        / pow256(k)) % 256 by {
        assert(uuid_bytes(a)[15 - k] == uuid_bytes(b)[15 - k]);
    }
    lemma_quotients_agree(a as nat, b as nat, 16);
    assert(a as nat / 1 == b as nat / 1);
}

proof fn lemma_quotients_agree(a: nat, b: nat, n: nat)
    requires
        n <= 16,
        a < 0x1_0000_0000_0000_0000_0000_0000_0000_0000,
        b < 0x1_0000_0000_0000_0000_0000_0000_0000_0000,
        forall|k: nat| k < 16 ==> #[trigger] (a / pow256(k)) % 256 == (b / pow256(k)) % 256,
    ensures
        a / pow256((16 - n) as nat) == b / pow256((16 - n) as nat),
    decreases n,
{
    if n == 0 {
        reveal_with_fuel(pow256, 17);
        assert(pow256(16) == 0x1_0000_0000_0000_0000_0000_0000_0000_0000);
        vstd::arithmetic::div_mod::lemma_basic_div(a as int, pow256(16) as int);
        vstd::arithmetic::div_mod::lemma_basic_div(b as int, pow256(16) as int);
    } else {
        lemma_quotients_agree(a, b, (n - 1) as nat);
        let k = (16 - n) as nat;
        lemma_pow256_positive(k);
        vstd::arithmetic::div_mod::lemma_div_denominator(a as int, pow256(k) as int, 256);
        vstd::arithmetic::div_mod::lemma_div_denominator(b as int, pow256(k) as int, 256);
        assert(pow256(k + 1) == pow256(k) * 256);
        assert(a / pow256(k) == 256 * ((a / pow256(k)) / 256) + (a / pow256(k)) % 256);
        assert(b / pow256(k) == 256 * ((b / pow256(k)) / 256) + (b / pow256(k)) % 256);
    }
}

/// The last byte of a UUID is the rest of its number by 256, and the bytes before it
/// are those of the quotient, one place further on.
pub proof fn law_bytes_are_digits(u: &Uuid, v: &Uuid, of_u: Vec<u8>, of_v: Vec<u8>, i: int)
    requires
        call_ensures(Uuid::as_bytes, (u,), of_u),
        call_ensures(Uuid::as_bytes, (v,), of_v),
        v.value == u.value / 256,
        0 <= i < 15,
    ensures
        of_u@.len() == 16,
        of_u@[15] == u.value % 256,
        of_v@[i + 1] == of_u@[i],
        of_v@[0] == 0,
{
    reveal_with_fuel(pow256, 17);
    let n = u.value as nat;
    let k = (14 - i) as nat;
    lemma_pow256_positive(k);
    lemma_pow256_positive(k + 1);
    assert(pow256(k + 1) == 256 * pow256(k));
    vstd::arithmetic::div_mod::lemma_div_denominator(n as int, 256, pow256(k) as int);
    assert((n / 256) / pow256(k) == n / pow256(k + 1));
    assert(uuid_bytes(u.value)[15] == ((n / pow256(0)) % 256) as u8);
    assert(pow256(0) == 1);
    assert(pow256(15) == 0x0100_0000_0000_0000_0000_0000_0000_0000);
    assert((n / 256) / pow256(15) == 0) by {
        assert(n / 256 < 0x0100_0000_0000_0000_0000_0000_0000_0000);
        vstd::arithmetic::div_mod::lemma_basic_div((n / 256) as int, pow256(15) as int);
    }
    assert(uuid_bytes(v.value)[0] == (((n / 256) / pow256(15)) % 256) as u8);
    assert(uuid_bytes(v.value)[i + 1] == (((n / 256) / pow256(k)) % 256) as u8);
    assert(uuid_bytes(u.value)[i] == ((n / pow256(k + 1)) % 256) as u8);
}

} // verus!
