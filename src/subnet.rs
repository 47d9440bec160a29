//! The address types and the conversions between them.

use vstd::prelude::*;

use crate::layout::{
    addr_len_of, class_of_devaddr, class_of_netid, devaddr_of, id_len_of, low24, netid_of_devaddr,
    lemma_devaddr_rebuild, nwk_addr_of, prefix_of, size_of,
};
use crate::spans::{
    claims, devaddr_of_subnet, first_claimant, is_local_netid, lemma_first_claimant_claims,
    lemma_range_bounds, owner_of, range_of, shift, span_total, subnet_of_devaddr, RETIRED_NETID,
};

verus! {

/// A LoRaWAN device address, as it travels on the wire.
#[derive(PartialEq, Eq, Structural, Clone, Copy, Debug)]
pub struct DevAddr(u32);

/// An index into the concatenated address spans of an ordered NetID list.
#[derive(PartialEq, Eq, Structural, Clone, Copy, Debug)]
pub struct SubnetAddr(u32);

/// A LoRaWAN network identifier of 24 bits.
#[derive(PartialEq, Eq, Structural, Clone, Copy, Debug)]
pub struct NetId(u32);

/// A NetID class (type), 0 to 7 for any NetID of 24 bits.
#[derive(PartialEq, Eq, Structural, Debug)]
pub struct NetClass(u8);

/// The NetIDs of a list, as integers.
pub open spec fn ids(list: Seq<NetId>) -> Seq<u32> {
    list.map_values(|n: NetId| n@)
}

impl View for DevAddr {
    type V = u32;

    closed spec fn view(&self) -> u32 {
        self.0
    }
}

impl View for SubnetAddr {
    type V = u32;

    closed spec fn view(&self) -> u32 {
        self.0
    }
}

impl View for NetId {
    type V = u32;

    closed spec fn view(&self) -> u32 {
        self.0
    }
}

impl View for NetClass {
    type V = u8;

    closed spec fn view(&self) -> u8 {
        self.0
    }
}

impl From<u32> for NetId {
    /// Keeps the low 24 bits of `v`; higher bits are dropped.
    fn from(v: u32) -> (r: Self)
        ensures
            r@ == low24(v),
            r@ == v % 0x100_0000,
    {
        proof {
            assert(low24(v) == v % 0x100_0000) by (bit_vector);
        }
        NetId(v & 0xFF_FFFF)
    }
}

impl Default for NetId {
    fn default() -> (r: Self)
        ensures
            r@ == 0,
    {
        NetId(0)
    }
}

impl vstd::std_specs::convert::FromSpecImpl<u32> for NetId {
    open spec fn obeys_from_spec() -> bool {
        true
    }

    closed spec fn from_spec(v: u32) -> Self {
        NetId(v & 0xFF_FFFF)
    }
}

impl std::ops::Deref for NetId {
    type Target = u32;

    fn deref(&self) -> (r: &u32)
        ensures
            *r == self@,
    {
        &self.0
    }
}

impl From<u32> for DevAddr {
    fn from(v: u32) -> (r: Self)
        ensures
            r@ == v,
    {
        DevAddr(v)
    }
}

impl vstd::std_specs::convert::FromSpecImpl<u32> for DevAddr {
    open spec fn obeys_from_spec() -> bool {
        true
    }

    closed spec fn from_spec(v: u32) -> Self {
        DevAddr(v)
    }
}

impl From<u32> for SubnetAddr {
    fn from(v: u32) -> (r: Self)
        ensures
            r@ == v,
    {
        SubnetAddr(v)
    }
}

impl vstd::std_specs::convert::FromSpecImpl<u32> for SubnetAddr {
    open spec fn obeys_from_spec() -> bool {
        true
    }

    closed spec fn from_spec(v: u32) -> Self {
        SubnetAddr(v)
    }
}

impl std::ops::Deref for SubnetAddr {
    type Target = u32;

    fn deref(&self) -> (r: &u32)
        ensures
            *r == self@,
    {
        &self.0
    }
}

impl<'a> From<&'a NetId> for NetClass {
    /// The class held in bits 21 and up of the NetID.
    fn from(netid: &'a NetId) -> (r: Self)
        ensures
            r@ == class_of_netid(netid@),
    {
        NetClass((netid.0 >> 21) as u8)
    }
}

impl<'a> vstd::std_specs::convert::FromSpecImpl<&'a NetId> for NetClass {
    open spec fn obeys_from_spec() -> bool {
        true
    }

    closed spec fn from_spec(netid: &'a NetId) -> Self {
        NetClass((netid.0 >> 21u32) as u8)
    }
}

impl std::ops::Deref for NetClass {
    type Target = u8;

    fn deref(&self) -> (r: &u8)
        ensures
            *r == self@,
    {
        &self.0
    }
}

impl NetClass {
    /// Width of the local network-address field of a DevAddr of this class.
    pub fn addr_len(&self) -> (r: u32)
        ensures
            r == addr_len_of(self@),
    {
        let table: [u8; 8] = [25, 24, 20, 17, 15, 13, 10, 7];
        if (self.0 as usize) < 8 {
            table[self.0 as usize] as u32
        } else {
            0
        }
    }

    /// Width of the identifier field of a NetID of this class.
    pub fn id_len(&self) -> (r: u32)
        ensures
            r == id_len_of(self@),
    {
        let table: [u8; 8] = [6, 6, 9, 11, 12, 13, 15, 17];
        if (self.0 as usize) < 8 {
            table[self.0 as usize] as u32
        } else {
            0
        }
    }

    /// The class marker of this class, placed just above the identifier field.
    pub fn var_net_class(&self) -> (r: u32)
        ensures
            r == prefix_of(self@),
    {
        let idlen = self.id_len();
        match self.0 {
            0 => {
                proof {
                    assert(0u32 << 6u32 == 0) by (bit_vector);
                }
                0
            },
            1 => 0b10u32 << idlen,
            2 => 0b110u32 << idlen,
            3 => 0b1110u32 << idlen,
            4 => 0b11110u32 << idlen,
            5 => 0b111110u32 << idlen,
            6 => 0b1111110u32 << idlen,
            7 => 0b11111110u32 << idlen,
            _ => {
                proof {
                    assert(0u32 << 0u32 == 0) by (bit_vector);
                }
                0
            },
        }
    }
}

impl From<DevAddr> for NetId {
    /// The NetID that the DevAddr carries.
    fn from(dev_addr: DevAddr) -> (r: Self)
        ensures
            r@ == netid_of_devaddr(dev_addr@),
    {
        let net_type = dev_addr.net_class();
        let id = (dev_addr.0 << (net_type.0 as u32)) >> (31 - net_type.id_len());
        Self::from(id | ((net_type.0 as u32) << 21))
    }
}

impl vstd::std_specs::convert::FromSpecImpl<DevAddr> for NetId {
    open spec fn obeys_from_spec() -> bool {
        true
    }

    closed spec fn from_spec(dev_addr: DevAddr) -> Self {
        NetId(netid_of_devaddr(dev_addr.0))
    }
}

impl<'a> From<&'a DevAddr> for NetId {
    /// The NetID that the DevAddr carries.
    fn from(dev_addr: &'a DevAddr) -> (r: Self)
        ensures
            r@ == netid_of_devaddr(dev_addr@),
    {
        Self::from(*dev_addr)
    }
}

impl<'a> vstd::std_specs::convert::FromSpecImpl<&'a DevAddr> for NetId {
    open spec fn obeys_from_spec() -> bool {
        true
    }

    closed spec fn from_spec(dev_addr: &'a DevAddr) -> Self {
        NetId(netid_of_devaddr(dev_addr.0))
    }
}

impl NetId {
    /// How many local addresses this NetID spans: 2 to the power of its class's
    /// address width.
    pub fn size(&self) -> (r: u32)
        ensures
            r == size_of(self@),
    {
        1u32 << NetClass::from(self).addr_len()
    }

    /// The class of this NetID.
    pub fn netid_class(&self) -> (r: NetClass)
        ensures
            r@ == class_of_netid(self@),
    {
        NetClass::from(self)
    }

    /// The DevAddr of this NetID with local network address `nwkaddr`.
    /// For a canonical NetID the result carries this NetID back only when
    /// `nwkaddr` is below its size.
    pub fn to_devaddr(&self, nwkaddr: u32) -> (r: DevAddr)
        ensures
            r@ == devaddr_of(self@, nwkaddr),
    {
        let netclass = NetClass::from(self);
        let addr = netclass.var_net_class() | self.0;
        DevAddr((addr << netclass.addr_len()) | nwkaddr)
    }
}

/// Whether `netid` is one of `netid_list`.
fn list_contains(netid_list: &[NetId], netid: &NetId) -> (r: bool)
    ensures
        r == ids(netid_list@).contains(netid@),
{
    let ghost l = ids(netid_list@);
    let mut i: usize = 0;
    while i < netid_list.len()
        invariant
            l == ids(netid_list@),
            i <= netid_list.len(),
            forall|j: int| 0 <= j < i ==> l[j] != netid@,
        decreases netid_list.len() - i,
    {
        if netid_list[i] == *netid {
            assert(l[i as int] == netid@);
            return true;
        }
        i = i + 1;
    }
    false
}

impl NetId {
    /// Whether this NetID belongs to the network that owns `netid_list`: it is
    /// in the list, or it is the retired NetID.
    pub fn is_local(&self, netid_list: &[NetId]) -> (r: bool)
        ensures
            r == is_local_netid(ids(netid_list@), self@),
    {
        if self.0 == RETIRED_NETID {
            true
        } else {
            list_contains(netid_list, self)
        }
    }

    /// The range `(lower, upper)` of subnet addresses that this NetID owns in
    /// `netid_list`, or `None` when it is not in the list.
    pub fn addr_range(&self, netid_list: &[NetId]) -> (r: Option<(SubnetAddr, SubnetAddr)>)
        requires
            span_total(ids(netid_list@)) <= u32::MAX,
        ensures
            match range_of(ids(netid_list@), self@) {
                Some((lo, hi)) => r matches Some((a, b)) && a@ == lo && b@ == hi,
                None => r is None,
            },
    {
        let ghost l = ids(netid_list@);
        proof {
            lemma_range_bounds(l, self@);
        }
        // Most addresses carry a foreign NetID: settle those before the walk.
        if !list_contains(netid_list, self) {
            return None;
        }
        let mut lower: u32 = 0;
        let mut i: usize = 0;
        assert(l.skip(0) =~= l);
        while i < netid_list.len()
            invariant
                l == ids(netid_list@),
                i <= netid_list.len(),
                span_total(l) <= u32::MAX,
                l.contains(self@),
                forall|j: int| 0 <= j < i ==> l[j] != self@,
                range_of(l, self@) == shift(range_of(l.skip(i as int), self@), lower as nat),
                lower + span_total(l.skip(i as int)) == span_total(l),
            decreases netid_list.len() - i,
        {
            let item = &netid_list[i];
            let size = item.size();
            proof {
                let t = l.skip(i as int);
                assert(t[0] == item@);
                assert(t.drop_first() =~= l.skip(i + 1));
            }
            if *item == *self {
                return Some((SubnetAddr(lower), SubnetAddr(lower + size)));
            }
            lower = lower + size;
            i = i + 1;
        }
        proof {
            let k = choose|k: int| 0 <= k < l.len() && l[k] == self@;
            assert(l[k] != self@);
        }
        None
    }

    /// The first NetID of `netid_list` whose range holds `subnetaddr`, or
    /// `None` when the address lies beyond every range.
    pub fn from_subnet_addr(subnetaddr: &SubnetAddr, netid_list: &[NetId]) -> (r: Option<Self>)
        requires
            span_total(ids(netid_list@)) <= u32::MAX,
        ensures
            match owner_of(ids(netid_list@), subnetaddr@ as nat) {
                Some(n) => r matches Some(x) && x@ == n,
                None => r is None,
            },
    {
        let ghost l = ids(netid_list@);
        let ghost s = subnetaddr@ as nat;
        let mut i: usize = 0;
        assert(l.skip(0) =~= l);
        while i < netid_list.len()
            invariant
                l == ids(netid_list@),
                i <= netid_list.len(),
                span_total(l) <= u32::MAX,
                s == subnetaddr@,
                owner_of(l, s) == first_claimant(l, l.skip(i as int), s),
            decreases netid_list.len() - i,
        {
            let item = &netid_list[i];
            proof {
                let t = l.skip(i as int);
                assert(t[0] == item@);
                assert(t.drop_first() =~= l.skip(i + 1));
            }
            if subnetaddr.within_range(item, netid_list) {
                return Some(*item);
            }
            i = i + 1;
        }
        None
    }
}

impl SubnetAddr {
    /// The subnet address of `dev_addr`: the lower end of its NetID's range
    /// plus its local network address; `None` when its NetID is not in
    /// `netid_list`.
    pub fn from_devaddr(dev_addr: &DevAddr, netid_list: &[NetId]) -> (r: Option<Self>)
        requires
            span_total(ids(netid_list@)) <= u32::MAX,
        ensures
            match subnet_of_devaddr(ids(netid_list@), dev_addr@) {
                Some(s) => r matches Some(a) && a@ == s,
                None => r is None,
            },
    {
        let netid = NetId::from(dev_addr);
        proof {
            lemma_range_bounds(ids(netid_list@), netid@);
            lemma_devaddr_rebuild(dev_addr@);
        }
        match netid.addr_range(netid_list) {
            Some((lower, _upper)) => Some(SubnetAddr(lower.0 + dev_addr.nwk_addr())),
            None => None,
        }
    }

    /// Whether this address lies in the range that `netid` owns in `netid_list`.
    pub fn within_range(&self, netid: &NetId, netid_list: &[NetId]) -> (r: bool)
        requires
            span_total(ids(netid_list@)) <= u32::MAX,
        ensures
            r == claims(ids(netid_list@), netid@, self@ as nat),
    {
        match netid.addr_range(netid_list) {
            Some((lower, upper)) => (self.0 >= lower.0) && (self.0 < upper.0),
            None => false,
        }
    }
}

impl DevAddr {
    /// The DevAddr of subnet address `subnetaddr`: the owning NetID with the
    /// offset of the address in its range as local network address; `None`
    /// when no NetID of `netid_list` owns it.
    pub fn from_subnet(subnetaddr: &SubnetAddr, netid_list: &[NetId]) -> (r: Option<Self>)
        requires
            span_total(ids(netid_list@)) <= u32::MAX,
        ensures
            match devaddr_of_subnet(ids(netid_list@), subnetaddr@ as nat) {
                Some(d) => r matches Some(a) && a@ == d,
                None => r is None,
            },
    {
        let ghost l = ids(netid_list@);
        match NetId::from_subnet_addr(subnetaddr, netid_list) {
            Some(netid) => {
                proof {
                    lemma_first_claimant_claims(l, l, subnetaddr@ as nat);
                }
                match netid.addr_range(netid_list) {
                    Some((lower, _upper)) => Some(netid.to_devaddr(subnetaddr.0 - lower.0)),
                    None => None,
                }
            },
            None => None,
        }
    }

    /// Whether this DevAddr belongs to the network that owns `netid_list`.
    pub fn is_local(&self, netid_list: &[NetId]) -> (r: bool)
        ensures
            r == is_local_netid(ids(netid_list@), netid_of_devaddr(self@)),
    {
        NetId::from(self).is_local(netid_list)
    }

    /// The NetID that this DevAddr carries.
    pub fn net_id(&self) -> (r: NetId)
        ensures
            r@ == netid_of_devaddr(self@),
    {
        NetId::from(self)
    }

    /// The class of this DevAddr: the count of leading set bits of its top
    /// byte, or 0 when all eight are set.
    pub fn net_class(self) -> (r: NetClass)
        ensures
            r@ == class_of_devaddr(self@),
    {
        let d = self.0;
        let first: u32 = d >> 24;
        let mut index: u32 = 7;
        proof {
            assert(first >> 8u32 == 0xFFu32 >> 8u32) by (bit_vector)
                requires
                    first == d >> 24u32,
            ;
        }
        loop
            invariant
                index <= 7,
                first == d >> 24u32,
                d == self@,
                first >> ((index + 1) as u32) == 0xFFu32 >> ((index + 1) as u32),
            decreases index,
        {
            if first & (1u32 << index) == 0 {
                proof {
                    assert(((7 - index) as u8) == class_of_devaddr(d)) by (bit_vector)
                        requires
                            index <= 7,
                            first == d >> 24u32,
                            first >> ((index + 1) as u32) == 0xFFu32 >> ((index + 1) as u32),
                            first & (1u32 << index) == 0,
                    ;
                }
                return NetClass((7 - index) as u8);
            } else if index > 0 {
                proof {
                    assert(first >> index == 0xFFu32 >> index) by (bit_vector)
                        requires
                            index <= 7,
                            first == d >> 24u32,
                            first >> ((index + 1) as u32) == 0xFFu32 >> ((index + 1) as u32),
                            first & (1u32 << index) != 0,
                    ;
                }
                index = index - 1;
            } else {
                proof {
                    assert(class_of_devaddr(d) == 0) by (bit_vector)
                        requires
                            index == 0,
                            first == d >> 24u32,
                            first >> ((index + 1) as u32) == 0xFFu32 >> ((index + 1) as u32),
                            first & (1u32 << index) != 0,
                    ;
                }
                return NetClass(0);
            }
        }
    }

    /// The local network address of this DevAddr: its low bits, as many as
    /// its class gives.
    pub fn nwk_addr(&self) -> (r: u32)
        ensures
            r == nwk_addr_of(self@),
    {
        let netid = NetId::from(self);
        let len = NetClass::from(&netid).addr_len();
        proof {
            assert(1u32 << len >= 1) by (bit_vector)
                requires
                    len <= 25,
            ;
        }
        let mask = (1u32 << len) - 1;
        self.0 & mask
    }

    /// The DevAddr of `netid` with local network address `nwkaddr`.
    pub fn from_nwkaddr(netid: &NetId, nwkaddr: u32) -> (r: Option<Self>)
        ensures
            r matches Some(a) && a@ == devaddr_of(netid@, nwkaddr),
    {
        let netclass = NetClass::from(netid);
        let addr = netclass.var_net_class() | netid.0;
        Some(DevAddr::from((addr << netclass.addr_len()) | nwkaddr))
    }
}

} // verus!
