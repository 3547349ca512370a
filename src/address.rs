//! The 6-byte address value and its predicates.
use vstd::prelude::*;

verus! {

/// Number of bytes in an EUI-48 address.
pub const EUI48LEN: usize = 6;

/// A 48-bit (6 byte) buffer holding an EUI-48 address.
pub type Eui48 = [u8; EUI48LEN];

/// Number of bytes in an EUI-64 identifier.
pub const EUI64LEN: usize = 8;

/// A 64-bit (8 byte) buffer holding an EUI-64 identifier.
pub type Eui64 = [u8; EUI64LEN];

/// A MAC address (EUI-48), most significant octet first.
#[derive(Copy, Clone, Debug)]
pub struct MacAddress {
    /// The 48-bit number stored in 6 bytes.
    pub eui: Eui48,
}

impl View for MacAddress {
    type V = Seq<u8>;

    open spec fn view(&self) -> Seq<u8> {
        self.eui@
    }
}

/// Six copies of the byte `v`.
pub open spec fn filled(v: u8) -> Seq<u8> {
    Seq::new(EUI48LEN as nat, |_i: int| v)
}

/// Bit 0 of the first byte is clear.
pub open spec fn unicast_bits(b: Seq<u8>) -> bool {
    b[0] & 1 == 0
}

/// Bit 0 of the first byte is set.
pub open spec fn multicast_bits(b: Seq<u8>) -> bool {
    b[0] & 1 == 1
}

/// Bit 1 of the first byte is clear.
pub open spec fn universal_bits(b: Seq<u8>) -> bool {
    b[0] & 2 == 0
}

/// Bit 1 of the first byte is set.
pub open spec fn local_bits(b: Seq<u8>) -> bool {
    b[0] & 2 == 2
}

impl MacAddress {
    /// The address with bytes `eui`.
    pub fn new(eui: Eui48) -> (r: MacAddress)
        ensures
            r.eui == eui,
            r@ == eui@,
    {
        MacAddress { eui: eui }
    }

    /// The empty address `00:00:00:00:00:00`.
    pub fn nil() -> (r: MacAddress)
        ensures
            r@ == filled(0),
    {
        let r = MacAddress { eui: [0u8; 6] };
        assert(r@ =~= filled(0));
        r
    }

    /// The broadcast address `ff:ff:ff:ff:ff:ff`.
    pub fn broadcast() -> (r: MacAddress)
        ensures
            r@ == filled(0xff),
    {
        let r = MacAddress { eui: [0xffu8; 6] };
        assert(r@ =~= filled(0xff));
        r
    }

    /// Whether every byte is zero.
    pub fn is_nil(&self) -> (r: bool)
        ensures
            r == (forall|i: int| 0 <= i < EUI48LEN ==> self@[i] == 0),
    {
        let mut i: usize = 0;
        while i < EUI48LEN
            invariant
                i <= EUI48LEN,
                forall|j: int| 0 <= j < i ==> self@[j] == 0,
            decreases EUI48LEN - i,
        {
            if self.eui[i] != 0 {
                assert(self@[i as int] != 0);
                return false;
            }
            i = i + 1;
        }
        true
    }

    /// Whether every byte is `0xff`.
    pub fn is_broadcast(&self) -> (r: bool)
        ensures
            r == (forall|i: int| 0 <= i < EUI48LEN ==> self@[i] == 0xff),
    {
        let mut i: usize = 0;
        while i < EUI48LEN
            invariant
                i <= EUI48LEN,
                forall|j: int| 0 <= j < i ==> self@[j] == 0xff,
            decreases EUI48LEN - i,
        {
            if self.eui[i] != 0xff {
                assert(self@[i as int] != 0xff);
                return false;
            }
            i = i + 1;
        }
        true
    }

    /// Whether the address names a single station: bit 0 of the first byte
    /// is clear.
    pub fn is_unicast(&self) -> (r: bool)
        ensures
            r == unicast_bits(self@),
    {
        self.eui[0] & 1 == 0
    }

    /// Whether the address names a group: bit 0 of the first byte is set.
    pub fn is_multicast(&self) -> (r: bool)
        ensures
            r == multicast_bits(self@),
    {
        self.eui[0] & 1 == 1
    }

    /// Whether the address is universally administered: bit 1 of the first
    /// byte is clear.
    pub fn is_universal(&self) -> (r: bool)
        ensures
            r == universal_bits(self@),
    {
        self.eui[0] & 2 == 0
    }

    /// Whether the address is locally administered: bit 1 of the first byte
    /// is set.
    pub fn is_local(&self) -> (r: bool)
        ensures
            r == local_bits(self@),
    {
        self.eui[0] & 2 == 2
    }
}

/// The default address is the nil address.
impl Default for MacAddress {
    fn default() -> (r: MacAddress)
        ensures
            r@ == filled(0),
    {
        MacAddress::nil()
    }
}

/// Two addresses are equal exactly when all six bytes match.
impl PartialEq for MacAddress {
    fn eq(&self, other: &MacAddress) -> (r: bool) {
        let r = self.eui[0] == other.eui[0] && self.eui[1] == other.eui[1] && self.eui[2]
            == other.eui[2] && self.eui[3] == other.eui[3] && self.eui[4] == other.eui[4]
            && self.eui[5] == other.eui[5];
        proof {
            if r {
                assert(self@ =~= other@);
            }
        }
        r
    }
}

impl vstd::std_specs::cmp::PartialEqSpecImpl for MacAddress {
    open spec fn obeys_eq_spec() -> bool {
        true
    }

    open spec fn eq_spec(&self, other: &MacAddress) -> bool {
        self@ == other@
    }
}

impl Eq for MacAddress {

}

/// The nil and broadcast addresses differ.
pub proof fn lemma_nil_is_not_broadcast()
    ensures
        filled(0) != filled(0xff),
{
    assert(filled(0)[0] != filled(0xff)[0]);
}

/// Every address is exactly one of unicast and multicast, and exactly one of
/// universal and local.
pub proof fn lemma_address_kinds_complementary(m: MacAddress)
    ensures
        unicast_bits(m@) != multicast_bits(m@),
        universal_bits(m@) != local_bits(m@),
{
    let b = m@[0];
    assert((b & 1 == 0) != (b & 1 == 1)) by (bit_vector);
    assert((b & 2 == 0) != (b & 2 == 2)) by (bit_vector);
}

} // verus!
