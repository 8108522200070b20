//! Address arithmetic for the routing riddles: octet-wise wrapping
//! addition and subtraction over 4-octet addresses, and octet-wise
//! exclusive-or over 16-octet addresses. The addresses travel as plain
//! octet arrays; turning them into address types and text is the
//! adapters' business.

use vstd::prelude::*;

verus! {

/// One octet of the wrapping sum.
fn octet_add(a: u8, b: u8) -> (r: u8)
    ensures
        r == (a + b) % 256,
{
    let s: u16 = a as u16 + b as u16;
    if s >= 256 {
        (s - 256) as u8
    } else {
        s as u8
    }
}

/// One octet of the wrapping difference.
fn octet_sub(a: u8, b: u8) -> (r: u8)
    ensures
        r == (a - b) % 256,
{
    if a >= b {
        a - b
    } else {
        let d: u16 = 256 + a as u16 - b as u16;
        d as u8
    }
}

/// The destination an origin and a key determine: octet-wise wrapping
/// sum.
pub fn dest(from: [u8; 4], key: [u8; 4]) -> (r: [u8; 4])
    ensures
        forall|i: int| 0 <= i < 4 ==> r@[i] == (from@[i] + key@[i]) % 256,
{
    [
        octet_add(from[0], key[0]),
        octet_add(from[1], key[1]),
        octet_add(from[2], key[2]),
        octet_add(from[3], key[3]),
    ]
}

/// The key an origin and a destination determine: octet-wise wrapping
/// difference.
pub fn key(from: [u8; 4], to: [u8; 4]) -> (r: [u8; 4])
    ensures
        forall|i: int| 0 <= i < 4 ==> r@[i] == (to@[i] - from@[i]) % 256,
{
    [
        octet_sub(to[0], from[0]),
        octet_sub(to[1], from[1]),
        octet_sub(to[2], from[2]),
        octet_sub(to[3], from[3]),
    ]
}

/// The destination under the exclusive-or cipher over 16 octets.
pub fn v6_dest(from: &[u8; 16], key: &[u8; 16]) -> (r: Vec<u8>)
    ensures
        r@.len() == 16,
        forall|i: int| 0 <= i < 16 ==> r@[i] == (from@[i] ^ key@[i]),
{
    let mut out: Vec<u8> = Vec::new();
    let mut i: usize = 0;
    while i < 16
        invariant
            i <= 16,
            out@.len() == i as int,
            forall|j: int| 0 <= j < i as int ==> out@[j] == (from@[j] ^ key@[j]),
        decreases 16 - i,
    {
        out.push(from[i] ^ key[i]);
        i = i + 1;
    }
    out
}

/// The key under the exclusive-or cipher over 16 octets; the cipher is its
/// own inverse, so this is the same octet-wise exclusive-or.
pub fn v6_key(from: &[u8; 16], to: &[u8; 16]) -> (r: Vec<u8>)
    ensures
        r@.len() == 16,
        forall|i: int| 0 <= i < 16 ==> r@[i] == (to@[i] ^ from@[i]),
    {
    v6_dest(to, from)
}

} // verus!
