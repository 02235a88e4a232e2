use vstd::prelude::*;
use vstd::bytes::{spec_u128_from_le_bytes, spec_u128_to_le_bytes, spec_u64_from_le_bytes, spec_u64_to_le_bytes, spec_u16_from_le_bytes, spec_u16_to_le_bytes};
use crate::error::LendingError;
use crate::math::Decimal;
use crate::pubkey::Pubkey;
use crate::state::{bool_byte, bool_of_byte};

verus! {

broadcast use vstd::array::group_array_axioms;

/// `n` zero bytes.
pub open spec fn zeros(n: nat) -> Seq<u8> {
    Seq::new(n, |i: int| 0u8)
}

/// The bytes that store a decimal.
pub open spec fn decimal_bytes(d: Decimal) -> Seq<u8> {
    spec_u128_to_le_bytes(d.0)
}

/// The decimal stored in 16 bytes.
pub open spec fn decimal_from(s: Seq<u8>) -> Decimal {
    Decimal(spec_u128_from_le_bytes(s))
}

pub(crate) fn append_all(out: &mut Vec<u8>, v: &Vec<u8>)
    ensures
        final(out)@ == old(out)@ + v@,
{
    let mut i: usize = 0;
    while i < v.len()
        invariant
            i <= v@.len(),
            out@ == old(out)@ + v@.subrange(0, i as int),
        decreases v@.len() - i,
    {
        out.push(v[i]);
        i = i + 1;
        assert(out@ =~= old(out)@ + v@.subrange(0, i as int));
    }
    assert(v@.subrange(0, v@.len() as int) =~= v@);
}

pub(crate) fn put_u8(out: &mut Vec<u8>, x: u8)
    ensures
        final(out)@ == old(out)@ + seq![x],
{
    out.push(x);
    assert(out@ =~= old(out)@ + seq![x]);
}

pub(crate) fn put_bool(out: &mut Vec<u8>, b: bool)
    ensures
        final(out)@ == old(out)@ + seq![bool_byte(b)],
{
    let x: u8 = if b { 1 } else { 0 };
    put_u8(out, x);
}

pub(crate) fn put_u16(out: &mut Vec<u8>, x: u16)
    ensures
        final(out)@ == old(out)@ + spec_u16_to_le_bytes(x),
{
    let v = vstd::bytes::u16_to_le_bytes(x);
    append_all(out, &v);
}

pub(crate) fn put_u64(out: &mut Vec<u8>, x: u64)
    ensures
        final(out)@ == old(out)@ + spec_u64_to_le_bytes(x),
{
    let v = vstd::bytes::u64_to_le_bytes(x);
    append_all(out, &v);
}

pub(crate) fn put_decimal(out: &mut Vec<u8>, d: Decimal)
    ensures
        final(out)@ == old(out)@ + decimal_bytes(d),
{
    let v = vstd::bytes::u128_to_le_bytes(d.0);
    append_all(out, &v);
}

pub(crate) fn put_bytes32(out: &mut Vec<u8>, k: &[u8; 32])
    ensures
        final(out)@ == old(out)@ + k@,
{
    let mut i: usize = 0;
    while i < 32
        invariant
            i <= 32,
            k@.len() == 32,
            out@ == old(out)@ + k@.subrange(0, i as int),
        decreases 32 - i,
    {
        out.push(k[i]);
        i = i + 1;
        assert(out@ =~= old(out)@ + k@.subrange(0, i as int));
    }
    assert(k@.subrange(0, 32) =~= k@);
}

pub(crate) fn put_key(out: &mut Vec<u8>, k: &Pubkey)
    ensures
        final(out)@ == old(out)@ + k.0@,
{
    put_bytes32(out, &k.0);
}

pub(crate) fn put_zeros(out: &mut Vec<u8>, n: usize)
    ensures
        final(out)@ == old(out)@ + zeros(n as nat),
{
    let mut i: usize = 0;
    while i < n
        invariant
            i <= n,
            out@ == old(out)@ + zeros(i as nat),
        decreases n - i,
    {
        out.push(0u8);
        i = i + 1;
        assert(out@ =~= old(out)@ + zeros(i as nat));
    }
}

pub(crate) fn get_u8(b: &[u8], off: usize) -> (r: u8)
    requires
        off < b@.len(),
    ensures
        r == b@[off as int],
{
    b[off]
}

pub(crate) fn get_bool(b: &[u8], off: usize) -> (r: Result<bool, LendingError>)
    requires
        off < b@.len(),
    ensures
        r == bool_of_byte(b@[off as int]),
{
    let x = b[off];
    if x == 0 {
        Ok(false)
    } else if x == 1 {
        Ok(true)
    } else {
        Err(LendingError::DecodeError)
    }
}

pub(crate) fn get_u16(b: &[u8], off: usize) -> (r: u16)
    requires
        off + 2 <= b@.len(),
    ensures
        r == spec_u16_from_le_bytes(b@.subrange(off as int, off + 2)),
{
    let len = b.len();
    let s = vstd::slice::slice_subrange(b, off, off + 2);
    vstd::bytes::u16_from_le_bytes(s)
}

pub(crate) fn get_u64(b: &[u8], off: usize) -> (r: u64)
    requires
        off + 8 <= b@.len(),
    ensures
        r == spec_u64_from_le_bytes(b@.subrange(off as int, off + 8)),
{
    let len = b.len();
    let s = vstd::slice::slice_subrange(b, off, off + 8);
    vstd::bytes::u64_from_le_bytes(s)
}

pub(crate) fn get_decimal(b: &[u8], off: usize) -> (r: Decimal)
    requires
        off + 16 <= b@.len(),
    ensures
        r == decimal_from(b@.subrange(off as int, off + 16)),
{
    let len = b.len();
    let s = vstd::slice::slice_subrange(b, off, off + 16);
    Decimal(vstd::bytes::u128_from_le_bytes(s))
}

pub(crate) fn get_bytes32(b: &[u8], off: usize) -> (r: [u8; 32])
    requires
        off + 32 <= b@.len(),
    ensures
        r@ == b@.subrange(off as int, off + 32),
{
    let len = b.len();
    let mut a = [0u8; 32];
    let mut i: usize = 0;
    while i < 32
        invariant
            i <= 32,
            off + 32 <= b@.len(),
            len == b@.len(),
            forall|j: int| 0 <= j < i ==> a@[j] == b@[off + j],
        decreases 32 - i,
    {
        a[i] = b[off + i];
        i = i + 1;
    }
    assert(a@ =~= b@.subrange(off as int, off + 32));
    a
}

pub(crate) fn get_key(b: &[u8], off: usize) -> (r: Pubkey)
    requires
        off + 32 <= b@.len(),
    ensures
        r.0@ == b@.subrange(off as int, off + 32),
{
    Pubkey(get_bytes32(b, off))
}

/// The bytes of a list of addresses, one after another.
pub open spec fn keys_bytes(s: Seq<Pubkey>) -> Seq<u8>
    decreases s.len(),
{
    if s.len() == 0 {
        Seq::empty()
    } else {
        keys_bytes(s.drop_last()) + s.last().0@
    }
}

/// Address `i` of a list sits at `32 * i` in its bytes.
pub proof fn lemma_keys_bytes(s: Seq<Pubkey>)
    ensures
        keys_bytes(s).len() == 32 * s.len(),
        forall|i: int| 0 <= i < s.len() ==> #[trigger] keys_bytes(s).subrange(32 * i, 32 * i + 32) == s[i].0@,
    decreases s.len(),
{
    if s.len() > 0 {
        let p = s.drop_last();
        lemma_keys_bytes(p);
        assert forall|i: int| 0 <= i < s.len() implies #[trigger] keys_bytes(s).subrange(32 * i, 32 * i + 32) == s[i].0@ by {
            if i < s.len() - 1 {
                assert(p[i] == s[i]);
                assert(keys_bytes(s).subrange(32 * i, 32 * i + 32) =~= keys_bytes(p).subrange(32 * i, 32 * i + 32));
            } else {
                assert(keys_bytes(s).subrange(32 * i, 32 * i + 32) =~= s.last().0@);
            }
        }
    }
}

pub(crate) fn put_keys(out: &mut Vec<u8>, keys: &Vec<Pubkey>, cap: usize)
    requires
        keys@.len() <= cap,
        cap <= 1000,
    ensures
        final(out)@ == old(out)@ + keys_bytes(keys@) + zeros((32 * cap - 32 * keys@.len()) as nat),
{
    let mut i: usize = 0;
    while i < keys.len()
        invariant
            i <= keys@.len(),
            out@ == old(out)@ + keys_bytes(keys@.subrange(0, i as int)),
        decreases keys@.len() - i,
    {
        put_key(out, &keys[i]);
        i = i + 1;
        assert(keys@.subrange(0, i as int).drop_last() =~= keys@.subrange(0, i - 1));
        assert(out@ =~= old(out)@ + keys_bytes(keys@.subrange(0, i as int)));
    }
    assert(keys@.subrange(0, keys@.len() as int) =~= keys@);
    put_zeros(out, 32 * cap - 32 * keys.len());
}

pub(crate) fn get_keys(b: &[u8], off: usize, count: usize) -> (r: Vec<Pubkey>)
    requires
        off + 32 * count <= b@.len(),
    ensures
        r@.len() == count,
        forall|i: int| 0 <= i < count ==> #[trigger] r@[i].0@ == b@.subrange(off + 32 * i, off + 32 * i + 32),
{
    let len = b.len();
    let mut r: Vec<Pubkey> = Vec::new();
    let mut i: usize = 0;
    while i < count
        invariant
            i <= count,
            off + 32 * count <= b@.len(),
            len == b@.len(),
            r@.len() == i,
            forall|j: int| 0 <= j < i ==> #[trigger] r@[j].0@ == b@.subrange(off + 32 * j, off + 32 * j + 32),
        decreases count - i,
    {
        let k = get_key(b, off + 32 * i);
        r.push(k);
        i = i + 1;
    }
    r
}

pub(crate) fn copy_into(dst: &mut [u8], src: &Vec<u8>)
    requires
        old(dst)@.len() == src@.len(),
    ensures
        final(dst)@ == src@,
{
    let mut i: usize = 0;
    while i < src.len()
        invariant
            i <= src@.len(),
            dst@.len() == src@.len(),
            forall|j: int| 0 <= j < i ==> dst@[j] == src@[j],
        decreases src@.len() - i,
    {
        dst[i] = src[i];
        i = i + 1;
    }
    assert(dst@ =~= src@);
}

} // verus!
