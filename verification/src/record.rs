//! Durable records: every payload goes to disk between its length and a
//! checksum, so that a truncated or altered record is found out when it is
//! read back.

use vstd::prelude::*;
use vstd::string::StringExecFns;
use crate::errors::{MetaError, MetaResult};

verus! {

/// The four bytes of `n`, most significant first.
pub open spec fn be32(n: u32) -> Seq<u8> {
    seq![
        (n / 16777216) as u8,
        (n / 65536 % 256) as u8,
        (n / 256 % 256) as u8,
        (n % 256) as u8,
    ]
}

/// The number that four bytes stand for, most significant first.
pub open spec fn from_be32(bytes: Seq<u8>) -> int
    recommends
        bytes.len() == 4,
{
    bytes[0] * 16777216 + bytes[1] * 65536 + bytes[2] * 256 + bytes[3]
}

/// The checksum of a payload: the sum of its bytes, modulo 2^32.
pub open spec fn checksum(payload: Seq<u8>) -> u32
    decreases payload.len(),
{
    if payload.len() == 0 {
        0
    } else {
        ((checksum(payload.drop_last()) + payload.last()) % 4294967296) as u32
    }
}

/// A payload as it goes to disk: its length, the payload, its checksum.
pub open spec fn sealed(payload: Seq<u8>) -> Seq<u8>
    recommends
        payload.len() <= u32::MAX,
{
    be32(payload.len() as u32) + payload + be32(checksum(payload))
}

/// The part of a record between its length and its checksum.
pub open spec fn body(record: Seq<u8>) -> Seq<u8>
    recommends
        record.len() >= 8,
{
    record.subrange(4, record.len() - 4)
}

/// Whether `record` is a payload between its own length and checksum.
pub open spec fn intact(record: Seq<u8>) -> bool {
    &&& record.len() >= 8
    &&& from_be32(record.subrange(0, 4)) == record.len() - 8
    &&& from_be32(record.subrange(record.len() - 4, record.len() as int)) == checksum(
        body(record),
    )
}

/// What is said of a record that is truncated or altered.
pub open spec fn damaged_record_text() -> Seq<char> {
    "record is damaged: its length or its checksum does not match"@
}

proof fn lemma_be32_round_trip(n: u32)
    ensures
        be32(n).len() == 4,
        from_be32(be32(n)) == n,
{
}

fn push_be32(out: &mut Vec<u8>, n: u32)
    ensures
        final(out)@ == old(out)@ + be32(n),
{
    out.push((n / 16777216) as u8);
    out.push((n / 65536 % 256) as u8);
    out.push((n / 256 % 256) as u8);
    out.push((n % 256) as u8);
    assert(out@ =~= old(out)@ + be32(n));
}

fn read_be32(bytes: &[u8], at: usize) -> (n: u32)
    requires
        at + 4 <= bytes@.len(),
    ensures
        n == from_be32(bytes@.subrange(at as int, at + 4)),
{
    let b0: u32 = bytes[at] as u32;
    let b1: u32 = bytes[at + 1] as u32;
    let b2: u32 = bytes[at + 2] as u32;
    let b3: u32 = bytes[at + 3] as u32;
    b0 * 16777216 + b1 * 65536 + b2 * 256 + b3
}

/// The checksum of `bytes[from..to]`.
fn sum(bytes: &[u8], from: usize, to: usize) -> (r: u32)
    requires
        from <= to <= bytes@.len(),
    ensures
        r == checksum(bytes@.subrange(from as int, to as int)),
{
    let mut total: u32 = 0;
    let mut i: usize = from;
    proof {
        assert(bytes@.subrange(from as int, from as int) =~= Seq::empty());
    }
    while i < to
        invariant
            from <= i <= to,
            to <= bytes@.len(),
            total == checksum(bytes@.subrange(from as int, i as int)),
        decreases to - i,
    {
        proof {
            let next = bytes@.subrange(from as int, i as int + 1);
            assert(next.drop_last() =~= bytes@.subrange(from as int, i as int));
            assert(next.last() == bytes@[i as int]);
        }
        let wide: u64 = (total as u64 + bytes[i] as u64) % 4294967296;
        total = wide as u32;
        i = i + 1;
    }
    total
}

/// Puts a payload between its length and its checksum.
pub fn seal(payload: &[u8]) -> (record: Vec<u8>)
    requires
        payload@.len() <= u32::MAX,
    ensures
        record@ == sealed(payload@),
{
    let mut record: Vec<u8> = Vec::new();
    push_be32(&mut record, payload.len() as u32);
    let mut i: usize = 0;
    while i < payload.len()
        invariant
            i <= payload@.len(),
            record@ == be32(payload@.len() as u32) + payload@.subrange(0, i as int),
        decreases payload@.len() - i,
    {
        record.push(payload[i]);
        proof {
            assert(payload@.subrange(0, i as int + 1) =~= payload@.subrange(0, i as int).push(
                payload@[i as int],
            ));
            assert(record@ =~= be32(payload@.len() as u32) + payload@.subrange(0, i as int + 1));
        }
        i = i + 1;
    }
    proof {
        assert(payload@.subrange(0, payload@.len() as int) =~= payload@);
    }
    let check = sum(payload, 0, payload.len());
    push_be32(&mut record, check);
    record
}

/// Takes the payload out of a record. A record that is truncated or altered
/// is reported as damage, and nothing of it is handed out.
pub fn unseal(record: &[u8]) -> (r: MetaResult<Vec<u8>>)
    ensures
        match r {
            Ok(payload) => intact(record@) && payload@ == body(record@),
            Err(e) => !intact(record@) && e is MetaStoreDamaged && e->MetaStoreDamaged_0@
                == damaged_record_text(),
        },
{
    let n = record.len();
    if n < 8 {
        return Err(damaged_record());
    }
    let length = read_be32(record, 0);
    if length as usize != n - 8 {
        return Err(damaged_record());
    }
    let expected = read_be32(record, n - 4);
    let found = sum(record, 4, n - 4);
    if expected != found {
        return Err(damaged_record());
    }
    let mut payload: Vec<u8> = Vec::new();
    let mut i: usize = 4;
    while i < n - 4
        invariant
            n == record@.len(),
            n >= 8,
            4 <= i <= n - 4,
            payload@ == record@.subrange(4, i as int),
        decreases n - i,
    {
        payload.push(record[i]);
        proof {
            assert(record@.subrange(4, i as int + 1) =~= record@.subrange(4, i as int).push(
                record@[i as int],
            ));
        }
        i = i + 1;
    }
    Ok(payload)
}

fn damaged_record() -> (r: MetaError)
    ensures
        r is MetaStoreDamaged,
        r->MetaStoreDamaged_0@ == damaged_record_text(),
{
    MetaError::MetaStoreDamaged(
        String::from_str("record is damaged: its length or its checksum does not match"),
    )
}

/// What was sealed is intact, and unsealing it gives the payload back.
pub proof fn lemma_sealed_is_intact(payload: Seq<u8>)
    requires
        payload.len() <= u32::MAX,
    ensures
        intact(sealed(payload)),
        body(sealed(payload)) == payload,
{
    let record = sealed(payload);
    let n = payload.len() as u32;
    lemma_be32_round_trip(n);
    lemma_be32_round_trip(checksum(payload));
    assert(record.len() == payload.len() + 8);
    assert(record.subrange(0, 4) =~= be32(n));
    assert(body(record) =~= payload);
    assert(record.subrange(record.len() - 4, record.len() as int) =~= be32(checksum(payload)));
}

/// A payload with one byte changed has another checksum.
pub proof fn lemma_altered_byte_is_found(payload: Seq<u8>, at: int, byte: u8)
    requires
        payload.len() <= u32::MAX,
        0 <= at < payload.len(),
        byte != payload[at],
    ensures
        checksum(payload.update(at, byte)) != checksum(payload),
    decreases payload.len(),
{
    let altered = payload.update(at, byte);
    if at == payload.len() - 1 {
        assert(altered.drop_last() =~= payload.drop_last());
    } else {
        lemma_altered_byte_is_found(payload.drop_last(), at, byte);
        assert(altered.drop_last() =~= payload.drop_last().update(at, byte));
        assert(altered.last() == payload.last());
    }
}

} // verus!
