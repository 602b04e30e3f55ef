//! Field elements and the identifiers made of them.

use vstd::prelude::*;

verus! {

/// 2^128: the weight of the high half of a field element.
pub open spec fn half_weight() -> nat {
    0x1_0000_0000_0000_0000_0000_0000_0000_0000nat
}

/// 2^252: an element is in range when it lies below, which is when the four
/// most significant bits of its encoding are zero.
pub open spec fn felt_bound() -> nat {
    0x1000_0000_0000_0000_0000_0000_0000_0000nat * half_weight()
}

/// 2^251: contract addresses lie below.
pub open spec fn address_bound() -> nat {
    0x0800_0000_0000_0000_0000_0000_0000_0000nat * half_weight()
}

/// A field element, held as the two halves of its 256-bit big-endian encoding.
#[derive(Clone, Copy, Debug, PartialEq, Eq, Hash, Structural)]
pub struct Felt {
    pub hi: u128,
    pub lo: u128,
}

impl Felt {
    /// The number that the element stands for.
    pub open spec fn value(self) -> nat {
        self.hi as nat * half_weight() + self.lo as nat
    }

    /// Whether the element fits the 252 bits of the encoding.
    pub open spec fn in_range(self) -> bool {
        self.value() < felt_bound()
    }

    pub open spec fn spec_zero() -> Felt {
        Felt { hi: 0, lo: 0 }
    }

    /// The zero element.
    #[verifier::when_used_as_spec(spec_zero)]
    pub fn zero() -> (r: Felt)
        ensures
            r == Felt::spec_zero(),
            r.value() == 0,
    {
        Felt { hi: 0, lo: 0 }
    }

    /// The element whose value is `v`.
    pub fn from_u128(v: u128) -> (r: Felt)
        ensures
            r == (Felt { hi: 0, lo: v }),
            r.value() == v,
            r.in_range(),
    {
        Felt { hi: 0, lo: v }
    }

    /// Whether the element is zero.
    pub fn is_zero(&self) -> (r: bool)
        ensures
            r == (self.value() == 0),
            r == (*self == Felt::spec_zero()),
    {
        proof {
            lemma_value_injective(*self, Felt::spec_zero());
        }
        self.hi == 0 && self.lo == 0
    }
}

/// Two elements with the same value are the same element.
pub proof fn lemma_value_injective(a: Felt, b: Felt)
    ensures
        a.value() == b.value() <==> a == b,
{
    if a.value() == b.value() {
        assert(a.hi == b.hi && a.lo == b.lo) by (nonlinear_arith)
            requires
                a.hi as nat * 0x1_0000_0000_0000_0000_0000_0000_0000_0000nat + a.lo as nat
                    == b.hi as nat * 0x1_0000_0000_0000_0000_0000_0000_0000_0000nat + b.lo as nat,
                a.lo < 0x1_0000_0000_0000_0000_0000_0000_0000_0000nat,
                b.lo < 0x1_0000_0000_0000_0000_0000_0000_0000_0000nat,
        ;
    }
}

/// What `StarkFelt::try_from(&str)` makes of a text: the two halves of the
/// element that it parses to, or `None` where it rejects the text.
pub uninterp spec fn parsed_hex(text: Seq<char>) -> Option<(u128, u128)>;

/// Calls starknet_api's `StarkFelt::try_from(&str)`, which strips every
/// leading `0x`, left-pads the digits to 64 and decodes them as hexadecimal.
/// The result is a function of the text alone and is named by
/// [`parsed_hex`]; an element that it accepts has the four most significant
/// bits of its encoding clear, so it lies below 2^252.
#[verifier::external_body]
fn parse_hex(text: &str) -> (r: Option<Felt>)
    ensures
        r == halves_to_felt(parsed_hex(text@)),
        r matches Some(felt) ==> felt.in_range(),
{
    match starknet_api::hash::StarkFelt::try_from(text) {
        Ok(word) => {
            let bytes = word.bytes();
            Some(Felt {
                hi: u128::from_be_bytes(bytes[..16].try_into().unwrap()),
                lo: u128::from_be_bytes(bytes[16..].try_into().unwrap()),
            })
        },
        Err(_) => None,
    }
}

/// Calls starknet_api's `ContractAddress::try_from(StarkHash)`, after
/// `StarkFelt::new` on the element's bytes. The first accepts exactly the
/// elements below 2^251 and keeps them unchanged; the second refuses
/// elements of 2^252 and more, which the first would refuse too.
#[verifier::external_body]
fn checked_address(felt: Felt) -> (r: Option<ContractAddress>)
    ensures
        r == if felt.value() < address_bound() {
            Some(ContractAddress(felt))
        } else {
            None
        },
{
    let mut bytes = [0u8; 32];
    bytes[..16].copy_from_slice(&felt.hi.to_be_bytes());
    bytes[16..].copy_from_slice(&felt.lo.to_be_bytes());
    let word = starknet_api::hash::StarkFelt::new(bytes).ok()?;
    let address = starknet_api::core::ContractAddress::try_from(word).ok()?;
    let key = address.0.key().bytes();
    Some(
        ContractAddress(
            Felt {
                hi: u128::from_be_bytes(key[..16].try_into().unwrap()),
                lo: u128::from_be_bytes(key[16..].try_into().unwrap()),
            },
        ),
    )
}

pub open spec fn halves_to_felt(halves: Option<(u128, u128)>) -> Option<Felt> {
    match halves {
        Some((hi, lo)) => Some(Felt { hi, lo }),
        None => None,
    }
}

impl Felt {
    /// Parses a hexadecimal text, with or without a leading `0x`.
    ///
    /// Returns the element that [`parsed_hex`] names, which is always in
    /// range, and `None` where the text is no element.
    pub fn from_hex(text: &str) -> (r: Option<Felt>)
        ensures
            r == halves_to_felt(parsed_hex(text@)),
            r matches Some(felt) ==> felt.in_range(),
    {
        parse_hex(text)
    }
}

/// Identifies a compiled program.
#[derive(Clone, Copy, Debug, PartialEq, Eq, Hash, Structural)]
pub struct ClassHash(pub Felt);

/// Identifies a named function within one kind of a class's entry points.
#[derive(Clone, Copy, Debug, PartialEq, Eq, Hash, Structural)]
pub struct EntryPointSelector(pub Felt);

/// Identifies one cell of a contract's storage.
#[derive(Clone, Copy, Debug, PartialEq, Eq, Hash, Structural)]
pub struct StorageKey(pub Felt);

/// The number of transactions that an account has sent.
#[derive(Clone, Copy, Debug, PartialEq, Eq, Hash, Structural)]
pub struct Nonce(pub Felt);

/// Identifies a deployed contract and the storage that belongs to it.
#[derive(Clone, Copy, Debug, PartialEq, Eq, Hash, Structural)]
pub struct ContractAddress(pub Felt);

impl ContractAddress {
    /// The address made of `felt`; `None` unless `felt` lies below 2^251.
    pub fn try_from_felt(felt: Felt) -> (r: Option<ContractAddress>)
        ensures
            r == if felt.value() < address_bound() {
                Some(ContractAddress(felt))
            } else {
                None
            },
    {
        checked_address(felt)
    }
}

} // verus!
