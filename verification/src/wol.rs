//! The Wake-on-LAN magic packet: six `0xFF` bytes, then the target MAC
//! sixteen times over — 102 bytes broadcast as one UDP payload.

use vstd::prelude::*;

verus! {

/// The bytes of the magic packet for `mac`: `FF*6 || mac*16`.
pub open spec fn magic_packet_spec(mac: Seq<u8>) -> Seq<u8> {
    Seq::new(
        102,
        |i: int|
            if i < 6 {
                0xffu8
            } else {
                mac[(i - 6) % 6]
            },
    )
}

/// Builds the 102-byte magic packet that wakes the device with this MAC.
pub fn magic_packet(mac: &[u8; 6]) -> (r: Vec<u8>)
    ensures
        r@ == magic_packet_spec(mac@),
{
    let mut r: Vec<u8> = Vec::new();
    let mut i: usize = 0;
    while i < 6
        invariant
            i <= 6,
            r@.len() == i,
            forall|j: int| 0 <= j < i ==> r@[j] == 0xffu8,
        decreases 6 - i,
    {
        r.push(0xff);
        i = i + 1;
    }
    let mut k: usize = 0;
    while k < 96
        invariant
            k <= 96,
            r@.len() == 6 + k,
            forall|j: int| 0 <= j < 6 ==> r@[j] == 0xffu8,
            forall|j: int| 6 <= j < 6 + k ==> r@[j] == mac@[(j - 6) % 6],
        decreases 96 - k,
    {
        r.push(mac[k % 6]);
        k = k + 1;
    }
    assert(r@ =~= magic_packet_spec(mac@));
    r
}

} // verus!
