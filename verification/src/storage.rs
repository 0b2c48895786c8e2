//! The storage model: how a byte log parses into records, and which value
//! a key currently holds (last-write-wins).

pub mod log_storage;

use vstd::prelude::*;
use crate::KvError;
use crate::codec::{KEY_SIZE, key_slot, keys_match, opt_view, record_bytes};
use vstd::bytes::{spec_u64_from_le_bytes, spec_u64_to_le_bytes};

verus! {

/// One record of the log: a 128-byte key slot and the value bytes.
pub struct Record {
    pub slot: Seq<u8>,
    pub value: Seq<u8>,
}

/// Parses a byte log into its records. The log is a plain concatenation of
/// record frames; a partial trailing frame (a cut key slot, length, or
/// value) makes the whole log corrupt, while an empty remainder is the
/// normal end.
pub open spec fn parse_log(bytes: Seq<u8>) -> Option<Seq<Record>>
    decreases bytes.len(),
{
    if bytes.len() == 0 {
        Some(Seq::empty())
    } else if bytes.len() < KEY_SIZE + 8 {
        None
    } else {
        let vlen = spec_u64_from_le_bytes(bytes.subrange(KEY_SIZE as int, KEY_SIZE + 8)) as int;
        if bytes.len() < KEY_SIZE + 8 + vlen {
            None
        } else {
            let rec = Record {
                slot: bytes.subrange(0, KEY_SIZE as int),
                value: bytes.subrange(KEY_SIZE + 8, KEY_SIZE + 8 + vlen),
            };
            match parse_log(bytes.skip(KEY_SIZE + 8 + vlen)) {
                Some(rest) => Some(seq![rec] + rest),
                None => None,
            }
        }
    }
}

/// The current value of `probe` in a record sequence: the value of the
/// last record whose slot matches, or `None` when no record matches.
pub open spec fn lookup(recs: Seq<Record>, probe: Seq<u8>) -> Option<Seq<u8>>
    decreases recs.len(),
{
    if recs.len() == 0 {
        None
    } else if keys_match(probe, recs.last().slot) {
        Some(recs.last().value)
    } else {
        lookup(recs.drop_last(), probe)
    }
}

/// Appending one whole record frame to a well-formed log keeps it well
/// formed and parses as the old records with the new one at the end.
pub proof fn lemma_parse_append_record(log: Seq<u8>, slot: Seq<u8>, value: Seq<u8>)
    requires
        parse_log(log) is Some,
        slot.len() == KEY_SIZE,
        value.len() <= u64::MAX,
    ensures
        parse_log(log + record_bytes(slot, value)) == Some(
            parse_log(log).unwrap().push(Record { slot, value }),
        ),
    decreases log.len(),
{
    vstd::bytes::lemma_auto_spec_u64_to_from_le_bytes();
    let frame = record_bytes(slot, value);
    let big = log + frame;
    let rec = Record { slot, value };
    if log.len() == 0 {
        assert(big =~= frame);
        assert(frame.len() == KEY_SIZE + 8 + value.len());
        assert(frame.subrange(0, KEY_SIZE as int) =~= slot);
        assert(frame.subrange(KEY_SIZE as int, KEY_SIZE + 8) =~= spec_u64_to_le_bytes(
            value.len() as u64,
        ));
        assert(spec_u64_from_le_bytes(frame.subrange(KEY_SIZE as int, KEY_SIZE + 8))
            == value.len() as u64);
        assert(frame.subrange(KEY_SIZE + 8, KEY_SIZE + 8 + value.len() as int) =~= value);
        assert(frame.skip(KEY_SIZE + 8 + value.len() as int) =~= Seq::<u8>::empty());
        assert(parse_log(Seq::<u8>::empty()) == Some(Seq::<Record>::empty()));
        assert(parse_log(frame) == Some(seq![rec] + Seq::<Record>::empty()));
        assert(seq![rec] + Seq::<Record>::empty() =~= Seq::<Record>::empty().push(rec));
    } else {
        let vlen = spec_u64_from_le_bytes(log.subrange(KEY_SIZE as int, KEY_SIZE + 8)) as int;
        assert(KEY_SIZE + 8 + vlen <= log.len());
        assert(big.subrange(0, KEY_SIZE as int) =~= log.subrange(0, KEY_SIZE as int));
        assert(big.subrange(KEY_SIZE as int, KEY_SIZE + 8) =~= log.subrange(
            KEY_SIZE as int,
            KEY_SIZE + 8,
        ));
        assert(big.subrange(KEY_SIZE + 8, KEY_SIZE + 8 + vlen) =~= log.subrange(
            KEY_SIZE + 8,
            KEY_SIZE + 8 + vlen,
        ));
        let tail = log.skip(KEY_SIZE + 8 + vlen);
        assert(big.skip(KEY_SIZE + 8 + vlen) =~= tail + frame);
        assert(parse_log(tail) is Some);
        lemma_parse_append_record(tail, slot, value);
        let rec0 = Record {
            slot: log.subrange(0, KEY_SIZE as int),
            value: log.subrange(KEY_SIZE + 8, KEY_SIZE + 8 + vlen),
        };
        let rest = parse_log(tail).unwrap();
        assert(parse_log(log) == Some(seq![rec0] + rest));
        assert(parse_log(big) == Some(seq![rec0] + rest.push(rec)));
        assert(seq![rec0] + rest.push(rec) =~= (seq![rec0] + rest).push(rec));
    }
}

/// Appending one record shifts a lookup: the new record answers probes
/// that match its slot, and every other probe is answered as before.
pub proof fn lemma_lookup_push(recs: Seq<Record>, rec: Record, probe: Seq<u8>)
    ensures
        lookup(recs.push(rec), probe) == (if keys_match(probe, rec.slot) {
            Some(rec.value)
        } else {
            lookup(recs, probe)
        }),
{
    assert(recs.push(rec).last() == rec);
    assert(recs.push(rec).drop_last() =~= recs);
}

/// A key matches its own slot: the slot is the key with zero padding.
pub proof fn lemma_keys_match_own_slot(key: Seq<u8>)
    requires
        key.len() <= KEY_SIZE,
    ensures
        keys_match(key, key_slot(key)),
{
    assert(key_slot(key).subrange(0, key.len() as int) =~= key);
}

/// A probe matches the slot encoded from `key` exactly when the two keys
/// pad out to the same slot.
pub proof fn lemma_keys_match_iff_same_slot(probe: Seq<u8>, key: Seq<u8>)
    requires
        probe.len() <= KEY_SIZE,
        key.len() <= KEY_SIZE,
    ensures
        keys_match(probe, key_slot(key)) <==> key_slot(probe) == key_slot(key),
{
    lemma_keys_match_own_slot(probe);
    lemma_keys_match_own_slot(key);
    if keys_match(probe, key_slot(key)) {
        assert(key_slot(probe) =~= key_slot(key));
    }
}

/// Round trip: storing a value under a key that fits its slot and then
/// looking that key up yields exactly the value stored.
pub proof fn lemma_set_then_get(recs: Seq<Record>, key: Seq<u8>, value: Seq<u8>)
    requires
        key.len() <= KEY_SIZE,
    ensures
        lookup(recs.push(Record { slot: key_slot(key), value }), key) == Some(value),
{
    lemma_keys_match_own_slot(key);
    lemma_lookup_push(recs, Record { slot: key_slot(key), value }, key);
}

/// Last write wins: after two stores under the same key, a lookup yields
/// the later value.
pub proof fn lemma_last_write_wins(recs: Seq<Record>, key: Seq<u8>, v1: Seq<u8>, v2: Seq<u8>)
    requires
        key.len() <= KEY_SIZE,
    ensures
        lookup(
            recs.push(Record { slot: key_slot(key), value: v1 }).push(
                Record { slot: key_slot(key), value: v2 },
            ),
            key,
        ) == Some(v2),
{
    lemma_set_then_get(recs.push(Record { slot: key_slot(key), value: v1 }), key, v2)
}

/// Absence: a probe that matches no stored slot is answered with `None`.
pub proof fn lemma_absent(recs: Seq<Record>, probe: Seq<u8>)
    requires
        forall|i: int| 0 <= i < recs.len() ==> !keys_match(probe, recs[i].slot),
    ensures
        lookup(recs, probe) is None,
    decreases recs.len(),
{
    if recs.len() > 0 {
        assert(recs.drop_last() =~= recs.subrange(0, recs.len() - 1));
        lemma_absent(recs.drop_last(), probe);
    }
}

/// Stores under other keys do not disturb a probe: appending a record
/// whose slot the probe does not match leaves its lookup unchanged.
pub proof fn lemma_set_other_key(recs: Seq<Record>, key: Seq<u8>, value: Seq<u8>, probe: Seq<u8>)
    requires
        key.len() <= KEY_SIZE,
        !keys_match(probe, key_slot(key)),
    ensures
        lookup(recs.push(Record { slot: key_slot(key), value }), probe) == lookup(recs, probe),
{
    lemma_lookup_push(recs, Record { slot: key_slot(key), value }, probe);
}

/// A probe matches a full-width slot only when the slot is exactly the
/// probe's own: probe bytes, then zero padding.
pub proof fn lemma_keys_match_forces_slot(probe: Seq<u8>, slot: Seq<u8>)
    requires
        keys_match(probe, slot),
        slot.len() == KEY_SIZE,
    ensures
        slot == key_slot(probe),
{
    assert(slot =~= key_slot(probe));
}

/// Any number of serialized stores under pairwise-distinct keys all
/// persist: after the batch `news` is appended, in whichever order the
/// writes were granted, a key whose slot is held by exactly one record
/// of the batch is answered with that record's value, whatever stood in
/// the log before. Keys are distinct when they pad out to distinct
/// slots.
pub proof fn lemma_batch_distinct_keys_persist(
    recs: Seq<Record>,
    news: Seq<Record>,
    i: int,
    key: Seq<u8>,
)
    requires
        key.len() <= KEY_SIZE,
        0 <= i < news.len(),
        news[i].slot == key_slot(key),
        forall|j: int| 0 <= j < news.len() ==> (#[trigger] news[j].slot).len() == KEY_SIZE,
        forall|j: int| 0 <= j < news.len() && j != i ==> #[trigger] news[j].slot != news[i].slot,
    ensures
        lookup(recs + news, key) == Some(news[i].value),
    decreases news.len(),
{
    let all = recs + news;
    assert(all.last() == news.last());
    if i == news.len() - 1 {
        lemma_keys_match_own_slot(key);
        assert(keys_match(key, all.last().slot));
    } else {
        if keys_match(key, news.last().slot) {
            lemma_keys_match_forces_slot(key, news.last().slot);
            assert(news[news.len() - 1].slot == news[i].slot);
            assert(false);
        }
        assert(all.drop_last() =~= recs + news.drop_last());
        assert(forall|j: int|
            0 <= j < news.drop_last().len() ==> #[trigger] news.drop_last()[j] == news[j]);
        lemma_batch_distinct_keys_persist(recs, news.drop_last(), i, key);
    }
}

/// Stores under two distinct keys both persist, whichever order the two
/// appends were serialized in: each key afterwards looks up its own
/// value. Keys are distinct when they pad out to different slots.
pub proof fn lemma_distinct_keys_both_persist(
    recs: Seq<Record>,
    k1: Seq<u8>,
    v1: Seq<u8>,
    k2: Seq<u8>,
    v2: Seq<u8>,
)
    requires
        k1.len() <= KEY_SIZE,
        k2.len() <= KEY_SIZE,
        key_slot(k1) != key_slot(k2),
    ensures
        lookup(
            recs.push(Record { slot: key_slot(k1), value: v1 }).push(
                Record { slot: key_slot(k2), value: v2 },
            ),
            k1,
        ) == Some(v1),
        lookup(
            recs.push(Record { slot: key_slot(k1), value: v1 }).push(
                Record { slot: key_slot(k2), value: v2 },
            ),
            k2,
        ) == Some(v2),
{
    lemma_keys_match_iff_same_slot(k1, k2);
    lemma_set_then_get(recs, k1, v1);
    lemma_set_other_key(recs.push(Record { slot: key_slot(k1), value: v1 }), k2, v2, k1);
    lemma_set_then_get(recs.push(Record { slot: key_slot(k1), value: v1 }), k2, v2);
}

/// A key-value store over the record model: `get` reports the
/// last-write-wins value of a key without disturbing the records, and
/// `set` appends one record or rejects an oversized key unchanged.
pub trait Storage: Sized {
    /// The records the store currently holds, in append order.
    spec fn records(&self) -> Seq<Record>;

    /// The store's internal invariant.
    spec fn inv(&self) -> bool;

    fn get(&mut self, key: &[u8]) -> (r: Result<Option<Vec<u8>>, KvError>)
        requires
            old(self).inv(),
        ensures
            final(self).inv(),
            final(self).records() == old(self).records(),
            r matches Ok(v) && opt_view(v) == lookup(old(self).records(), key@),
    ;

    fn set(&mut self, key: &[u8], value: &[u8]) -> (r: Result<(), KvError>)
        requires
            old(self).inv(),
        ensures
            final(self).inv(),
            match r {
                Ok(_) => key@.len() <= KEY_SIZE && final(self).records() == old(self).records().push(
                    Record { slot: key_slot(key@), value: value@ },
                ),
                Err(e) => {
                    &&& e == KvError::KeyTooLong
                    &&& key@.len() > KEY_SIZE
                    &&& final(self).records() == old(self).records()
                },
            },
    ;
}

/// Idempotent reads: two lookups of the same key with no intervening
/// store return the same result, and leave the store as it was.
pub fn get_twice<S: Storage>(store: &mut S, key: &[u8]) -> (r: (Option<Vec<u8>>, Option<Vec<u8>>))
    requires
        old(store).inv(),
    ensures
        opt_view(r.0) == opt_view(r.1),
        opt_view(r.0) == lookup(old(store).records(), key@),
        final(store).records() == old(store).records(),
        final(store).inv(),
{
    let first = match store.get(key) {
        Ok(v) => v,
        Err(_) => None,
    };
    let second = match store.get(key) {
        Ok(v) => v,
        Err(_) => None,
    };
    (first, second)
}

} // verus!
