//! The log storage engine: an append-only byte log holding record frames,
//! scanned linearly on lookup.

use vstd::prelude::*;
use crate::KvError;
use crate::codec::{KEY_SIZE, decode_length, encode_record, key_slot, opt_view};
use crate::storage::{
    Record, Storage, lemma_lookup_push, lemma_parse_append_record, lookup, parse_log,
};
use crate::utils::compare_keys;
use vstd::bytes::spec_u64_from_le_bytes;
use vstd::slice::{slice_subrange, slice_to_vec};

verus! {

/// Scans a byte log from the start for the last record matching `key` and
/// returns its value, `None` when no record matches, or `CorruptRecord`
/// when the log ends inside a record. The scan does not stop at the first
/// match: a later record with the same key overrides an earlier one.
pub fn scan_log(log: &[u8], key: &[u8]) -> (r: Result<Option<Vec<u8>>, KvError>)
    ensures
        match r {
            Ok(opt) => parse_log(log@) matches Some(recs) && opt_view(opt) == lookup(recs, key@),
            Err(e) => e == KvError::CorruptRecord && parse_log(log@) is None,
        },
{
    let mut pos: usize = 0;
    let mut result: Option<Vec<u8>> = None;
    let ghost mut done: Seq<Record> = Seq::empty();
    proof {
        assert(log@.skip(0) =~= log@);
        if parse_log(log@) is Some {
            assert(done + parse_log(log@).unwrap() =~= parse_log(log@).unwrap());
        }
    }
    loop
        invariant
            pos <= log@.len(),
            opt_view(result) == lookup(done, key@),
            match parse_log(log@.skip(pos as int)) {
                Some(rest) => parse_log(log@) == Some(done + rest),
                None => parse_log(log@) is None,
            },
        decreases log@.len() - pos,
    {
        let ghost tail = log@.skip(pos as int);
        if pos == log.len() {
            proof {
                assert(tail =~= Seq::<u8>::empty());
                assert(parse_log(tail) == Some(Seq::<Record>::empty()));
                assert(done + Seq::<Record>::empty() =~= done);
            }
            return Ok(result);
        }
        if log.len() - pos < KEY_SIZE + 8 {
            // The log ends inside a key slot or a length field.
            assert(parse_log(tail) is None);
            return Err(KvError::CorruptRecord);
        }
        let slot = slice_subrange(log, pos, pos + KEY_SIZE);
        let len_bytes = slice_subrange(log, pos + KEY_SIZE, pos + KEY_SIZE + 8);
        let vlen64 = decode_length(len_bytes);
        proof {
            assert(tail.subrange(0, KEY_SIZE as int) =~= slot@);
            assert(tail.subrange(KEY_SIZE as int, KEY_SIZE + 8) =~= len_bytes@);
        }
        let remaining = log.len() - pos - (KEY_SIZE + 8);
        if vlen64 > remaining as u64 {
            // The log ends inside this record's value.
            assert(parse_log(tail) is None);
            return Err(KvError::CorruptRecord);
        }
        let vlen = vlen64 as usize;
        let ghost rec = Record {
            slot: tail.subrange(0, KEY_SIZE as int),
            value: tail.subrange(KEY_SIZE + 8, KEY_SIZE + 8 + vlen as int),
        };
        proof {
            assert(tail.skip(KEY_SIZE + 8 + vlen as int) =~= log@.skip(
                pos + KEY_SIZE + 8 + vlen as int,
            ));
            assert(match parse_log(tail) {
                Some(rest) => rest == seq![rec] + parse_log(
                    tail.skip(KEY_SIZE + 8 + vlen as int),
                ).unwrap(),
                None => parse_log(tail.skip(KEY_SIZE + 8 + vlen as int)) is None,
            });
            let rest_opt = parse_log(tail.skip(KEY_SIZE + 8 + vlen as int));
            if rest_opt is Some {
                let rest2 = rest_opt.unwrap();
                assert(done + (seq![rec] + rest2) =~= done.push(rec) + rest2);
            }
            lemma_lookup_push(done, rec, key@);
        }
        if compare_keys(key, slot, KEY_SIZE) {
            let value_slice = slice_subrange(log, pos + KEY_SIZE + 8, pos + KEY_SIZE + 8 + vlen);
            assert(value_slice@ =~= rec.value);
            result = Some(slice_to_vec(value_slice));
        }
        proof {
            done = done.push(rec);
        }
        pos = pos + KEY_SIZE + 8 + vlen;
    }
}

/// An append-only record log held as its exact byte image. The bytes are
/// kept well formed: they always parse into a record sequence.
pub struct LogStorage {
    log: Vec<u8>,
}

impl LogStorage {
    /// The byte image of the log, as it stands on disk.
    pub closed spec fn bytes(&self) -> Seq<u8> {
        self.log@
    }

    /// The log parses into records from end to end.
    pub open spec fn wf(&self) -> bool {
        parse_log(self.bytes()) is Some
    }

    /// An empty log, as a backing file just created.
    pub fn new() -> (s: LogStorage)
        ensures
            s.wf(),
            s.bytes() == Seq::<u8>::empty(),
    {
        LogStorage { log: Vec::new() }
    }

    /// Adopts an existing byte image, rejecting one that ends inside a
    /// record.
    pub fn from_bytes(data: Vec<u8>) -> (r: Result<LogStorage, KvError>)
        ensures
            match r {
                Ok(s) => s.wf() && s.bytes() == data@ && parse_log(data@) is Some,
                Err(e) => e == KvError::CorruptRecord && parse_log(data@) is None,
            },
    {
        let probe: Vec<u8> = Vec::new();
        match scan_log(data.as_slice(), probe.as_slice()) {
            Ok(_) => Ok(LogStorage { log: data }),
            Err(e) => Err(e),
        }
    }

    /// The exact bytes of the log, as they stand on disk.
    pub fn as_bytes(&self) -> (r: &Vec<u8>)
        ensures
            r@ == self.bytes(),
    {
        &self.log
    }
}

impl Storage for LogStorage {
    /// The records of the log, in the order they were appended.
    open spec fn records(&self) -> Seq<Record> {
        parse_log(self.bytes()).unwrap()
    }

    open spec fn inv(&self) -> bool {
        self.wf()
    }

    fn get(&mut self, key: &[u8]) -> (r: Result<Option<Vec<u8>>, KvError>) {
        match scan_log(self.log.as_slice(), key) {
            Ok(opt) => Ok(opt),
            Err(e) => Err(e),
        }
    }

    fn set(&mut self, key: &[u8], value: &[u8]) -> (r: Result<(), KvError>) {
        let mut frame = match encode_record(key, value) {
            Ok(f) => f,
            Err(e) => {
                return Err(e);
            },
        };
        let value_len = value.len();
        proof {
            assert(value@.len() == value_len <= usize::MAX <= u64::MAX);
            lemma_parse_append_record(self.log@, key_slot(key@), value@);
        }
        self.log.append(&mut frame);
        Ok(())
    }
}

} // verus!
