//! Bit layout of NetIDs and DevAddrs, as functions on plain integers.

use vstd::prelude::*;

verus! {

/// Width of the local network-address field for a class; 0 for an unknown class.
pub open spec fn addr_len_of(class: u8) -> u32 {
    if class == 0 {
        25
    } else if class == 1 {
        24
    } else if class == 2 {
        20
    } else if class == 3 {
        17
    } else if class == 4 {
        15
    } else if class == 5 {
        13
    } else if class == 6 {
        10
    } else if class == 7 {
        7
    } else {
        0
    }
}

/// Width of the identifier field for a class; 0 for an unknown class.
pub open spec fn id_len_of(class: u8) -> u32 {
    if class == 0 {
        6
    } else if class == 1 {
        6
    } else if class == 2 {
        9
    } else if class == 3 {
        11
    } else if class == 4 {
        12
    } else if class == 5 {
        13
    } else if class == 6 {
        15
    } else if class == 7 {
        17
    } else {
        0
    }
}

/// The unary class marker: `class` set bits followed by one clear bit
/// (a single clear bit for class 0), as a right-aligned pattern.
pub open spec fn marker_of(class: u8) -> u32 {
    if class == 1 {
        0b10
    } else if class == 2 {
        0b110
    } else if class == 3 {
        0b1110
    } else if class == 4 {
        0b11110
    } else if class == 5 {
        0b111110
    } else if class == 6 {
        0b1111110
    } else if class == 7 {
        0b11111110
    } else {
        0
    }
}

/// The class marker placed just above the identifier field.
pub open spec fn prefix_of(class: u8) -> u32 {
    marker_of(class) << id_len_of(class)
}

/// The class of a DevAddr: the number of leading set bits of its top byte,
/// or 0 when all eight are set.
pub open spec fn class_of_devaddr(d: u32) -> u8 {
    let b = (d >> 24u32) as u8;
    if b & 0x80 == 0 {
        0
    } else if b & 0x40 == 0 {
        1
    } else if b & 0x20 == 0 {
        2
    } else if b & 0x10 == 0 {
        3
    } else if b & 0x08 == 0 {
        4
    } else if b & 0x04 == 0 {
        5
    } else if b & 0x02 == 0 {
        6
    } else if b & 0x01 == 0 {
        7
    } else {
        0
    }
}

/// The class of a NetID: the bits from 21 up.
pub open spec fn class_of_netid(n: u32) -> u8 {
    (n >> 21u32) as u8
}

/// The low 24 bits of a value.
pub open spec fn low24(v: u32) -> u32 {
    v & 0xFF_FFFF
}

/// The NetID that a DevAddr carries: its class in bits 21 to 23, over the
/// identifier field that follows the class marker.
pub open spec fn netid_of_devaddr(d: u32) -> u32 {
    let c = class_of_devaddr(d);
    low24(((d << (c as u32)) >> ((31 - id_len_of(c)) as u32)) | ((c as u32) << 21u32))
}

/// The low `len` bits of `v`.
pub open spec fn low_bits(v: u32, len: u32) -> u32 {
    v & (((1u32 << len) - 1) as u32)
}

/// The local network address of a DevAddr: its low bits, as many as its class gives.
pub open spec fn nwk_addr_of(d: u32) -> u32 {
    low_bits(d, addr_len_of(class_of_netid(netid_of_devaddr(d))))
}

/// The DevAddr of NetID `n` with local network address `nwk`: class marker and
/// NetID above the address field.
pub open spec fn devaddr_of(n: u32, nwk: u32) -> u32 {
    let c = class_of_netid(n);
    ((prefix_of(c) | n) << addr_len_of(c)) | nwk
}

/// How many local addresses a NetID spans.
pub open spec fn size_of(n: u32) -> u32 {
    1u32 << addr_len_of(class_of_netid(n))
}

/// A NetID of 24 bits whose identifier fits the width its class gives.
pub open spec fn is_canonical(n: u32) -> bool {
    n >> 24u32 == 0 && (n & 0x1F_FFFF) >> id_len_of(class_of_netid(n)) == 0
}

/// A DevAddr is rebuilt exactly from its NetID and its local network address.
pub proof fn lemma_devaddr_rebuild(d: u32)
    ensures
        devaddr_of(netid_of_devaddr(d), nwk_addr_of(d)) == d,
        class_of_netid(netid_of_devaddr(d)) == class_of_devaddr(d),
        nwk_addr_of(d) < size_of(netid_of_devaddr(d)),
{
    assert(devaddr_of(netid_of_devaddr(d), nwk_addr_of(d)) == d) by (bit_vector);
    assert(class_of_netid(netid_of_devaddr(d)) == class_of_devaddr(d)) by (bit_vector);
    assert(nwk_addr_of(d) < size_of(netid_of_devaddr(d))) by (bit_vector);
}

/// A canonical NetID and an address within its span are read back from the
/// DevAddr built of them.
pub proof fn lemma_devaddr_parts(n: u32, x: u32)
    requires
        is_canonical(n),
        x < size_of(n),
    ensures
        netid_of_devaddr(devaddr_of(n, x)) == n,
        nwk_addr_of(devaddr_of(n, x)) == x,
{
    assert(netid_of_devaddr(devaddr_of(n, x)) == n && nwk_addr_of(devaddr_of(n, x)) == x)
        by (bit_vector)
        requires
            is_canonical(n),
            x < size_of(n),
    ;
}

} // verus!
