//! Account keys and the fields that the simulators read from raw account data.
use vstd::prelude::*;

use crate::slab::{field_u64, read_u64};

verus! {

/// A 32-byte account address.
pub type Pubkey = [u8; 32];

/// One account of a leg: its address and its data at the time of the call.
pub struct AccountData {
    pub key: Pubkey,
    pub data: Vec<u8>,
}

/// Whether two addresses are the same.
pub fn same_key(a: &Pubkey, b: &Pubkey) -> (r: bool)
    ensures
        r == (a@ == b@),
{
    let mut i: usize = 0;
    while i < 32
        invariant
            i <= 32,
            a@.len() == 32,
            b@.len() == 32,
            a@.take(i as int) == b@.take(i as int),
        decreases 32 - i,
    {
        if a[i] != b[i] {
            assert(a@[i as int] != b@[i as int]);
            return false;
        }
        assert(a@.take(i + 1) == a@.take(i as int).push(a@[i as int]));
        assert(b@.take(i + 1) == b@.take(i as int).push(b@[i as int]));
        i = i + 1;
    }
    assert(a@ == a@.take(32));
    assert(b@ == b@.take(32));
    true
}

/// Given a token account's data, the `amount` it holds (bytes 64..72).
pub fn amount(data: &[u8]) -> (r: u64)
    requires
        data@.len() >= 72,
    ensures
        r == field_u64(data@, 64),
{
    read_u64(data, 64)
}

/// Given a token account's data, its `mint` (bytes 0..32).
pub fn mint(data: &[u8]) -> (r: Pubkey)
    requires
        data@.len() >= 32,
    ensures
        r@ == data@.subrange(0, 32),
{
    let mut mint_bytes = [0u8; 32];
    let mut i: usize = 0;
    while i < 32
        invariant
            i <= 32,
            data@.len() >= 32,
            mint_bytes@.len() == 32,
            forall|k: int| 0 <= k < i ==> mint_bytes@[k] == data@[k],
        decreases 32 - i,
    {
        mint_bytes[i] = data[i];
        i = i + 1;
    }
    assert(mint_bytes@ == data@.subrange(0, 32));
    mint_bytes
}

/// Base tokens held by a pool's open-orders account, in total.
pub fn base_total_accessor(data: &[u8]) -> (r: u64)
    requires
        data@.len() >= 93,
    ensures
        r == field_u64(data@, 85),
{
    read_u64(data, 85)
}

/// Quote tokens held by a pool's open-orders account, in total.
pub fn quote_total_accessor(data: &[u8]) -> (r: u64)
    requires
        data@.len() >= 109,
    ensures
        r == field_u64(data@, 101),
{
    read_u64(data, 101)
}

/// Base tokens a pool holds back for profit-taking.
pub fn bnt_accessor(data: &[u8]) -> (r: u64)
    requires
        data@.len() >= 200,
    ensures
        r == field_u64(data@, 192),
{
    read_u64(data, 192)
}

/// Quote tokens a pool holds back for profit-taking.
pub fn qnt_accessor(data: &[u8]) -> (r: u64)
    requires
        data@.len() >= 208,
    ensures
        r == field_u64(data@, 200),
{
    read_u64(data, 200)
}

} // verus!
