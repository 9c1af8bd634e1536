//! Validation of raw events into records.

use vstd::prelude::*;
use crate::record::{views, Record, RecordView, KEY_LEN};

verus! {

/// One event as the relay session hands it over: plain values, not yet
/// validated. The identifier and the author key are text.
#[derive(Debug, Clone)]
pub struct RawRecord {
    pub id: String,
    pub pubkey: String,
    pub created_at: u64,
    pub content: String,
    pub sig: String,
    pub tags: Vec<Vec<String>>,
}

/// Why a raw event is not a record.
#[derive(Debug, Clone, Copy, PartialEq, Eq, Structural)]
pub enum DeserializationError {
    /// The identifier text names no event identifier.
    MalformedId,
    /// The author text is not a public key.
    MalformedPubkey,
}

/// The 32 bytes that `nostr::EventId::parse` reads from a text, or `None`
/// where it rejects the text.
pub uninterp spec fn event_id_of_text(text: Seq<char>) -> Option<Seq<u8>>;

/// The 32-byte x coordinate that `secp256k1::XOnlyPublicKey::from_str` reads
/// from a text, or `None` where it rejects the text.
pub uninterp spec fn xonly_key_of_hex(text: Seq<char>) -> Option<Seq<u8>>;

/// The bytes of an optional byte string.
pub open spec fn opt_bytes(o: Option<Vec<u8>>) -> Option<Seq<u8>> {
    match o {
        Some(b) => Some(b@),
        None => None,
    }
}

/// The value of a parse result.
pub open spec fn result_view(r: Result<Record, DeserializationError>) -> Result<
    RecordView,
    DeserializationError,
> {
    match r {
        Ok(rec) => Ok(rec@),
        Err(e) => Err(e),
    }
}

/// Calls `nostr::EventId::parse` (hex, bech32 or URI form) and hands back the
/// identifier's bytes. Trusted: the result is the named function of the text,
/// and an identifier has 32 bytes.
#[verifier::external_body]
fn event_id_bytes(text: &str) -> (r: Option<Vec<u8>>)
    ensures
        opt_bytes(r) == event_id_of_text(text@),
        r matches Some(b) ==> b@.len() == 32,
{
    match nostr::EventId::parse(text) {
        Ok(id) => Some(id.to_bytes().to_vec()),
        Err(_) => None,
    }
}

/// Calls `secp256k1::XOnlyPublicKey::from_str` (64 hex digits that name a
/// point of the curve) and hands back the key's serialized bytes. Trusted:
/// the result is the named function of the text, and a serialized key has 32
/// bytes.
#[verifier::external_body]
fn xonly_key_bytes(text: &str) -> (r: Option<Vec<u8>>)
    ensures
        opt_bytes(r) == xonly_key_of_hex(text@),
        r matches Some(b) ==> b@.len() == 32,
{
    match text.parse::<nostr::secp256k1::XOnlyPublicKey>() {
        Ok(key) => Some(key.serialize().to_vec()),
        Err(_) => None,
    }
}

/// Whether an optional byte string is present with the fixed length.
pub open spec fn usable(o: Option<Seq<u8>>) -> bool {
    o matches Some(b) && b.len() == KEY_LEN
}

/// What a raw event becomes, given what its identifier and key texts were
/// read as. The identifier is judged before the key, and the first that
/// fails names the error. Every creation time is taken as it is.
pub open spec fn assemble_spec(raw: RawRecord, id: Option<Seq<u8>>, key: Option<Seq<u8>>) -> Result<
    RecordView,
    DeserializationError,
> {
    if !usable(id) {
        Err(DeserializationError::MalformedId)
    } else if !usable(key) {
        Err(DeserializationError::MalformedPubkey)
    } else {
        Ok(
            RecordView {
                content: raw.content@,
                pubkey: key->Some_0,
                created_at: raw.created_at as int,
                sig: raw.sig@,
                tags: raw.tags.deep_view(),
                id: id->Some_0,
            },
        )
    }
}

/// What a raw event becomes.
pub open spec fn parse_spec(raw: RawRecord) -> Result<RecordView, DeserializationError> {
    assemble_spec(raw, event_id_of_text(raw.id@), xonly_key_of_hex(raw.pubkey@))
}

/// What a list of raw events becomes: the records in order, or the error of
/// the first event that is not a record.
pub open spec fn parse_all_spec(raws: Seq<RawRecord>) -> Result<
    Seq<RecordView>,
    DeserializationError,
>
    decreases raws.len(),
{
    if raws.len() == 0 {
        Ok(Seq::empty())
    } else {
        match parse_all_spec(raws.drop_last()) {
            Err(e) => Err(e),
            Ok(prev) => match parse_spec(raws.last()) {
                Err(e) => Err(e),
                Ok(v) => Ok(prev.push(v)),
            },
        }
    }
}

/// Once a prefix fails, the whole list fails with the same error.
pub proof fn lemma_error_persists(raws: Seq<RawRecord>, k: int)
    requires
        0 <= k <= raws.len(),
        parse_all_spec(raws.take(k)) is Err,
    ensures
        parse_all_spec(raws) == parse_all_spec(raws.take(k)),
    decreases raws.len(),
{
    if k == raws.len() {
        assert(raws.take(k) =~= raws);
    } else {
        assert(raws.drop_last().take(k) =~= raws.take(k));
        lemma_error_persists(raws.drop_last(), k);
    }
}

/// A list becomes records exactly when each of its events does, and then
/// event by event; else its error is that of the first event that fails.
pub proof fn lemma_parse_all_each(raws: Seq<RawRecord>)
    ensures
        match parse_all_spec(raws) {
            Ok(out) => out.len() == raws.len() && forall|i: int|
                0 <= i < raws.len() ==> parse_spec(#[trigger] raws[i]) == Ok::<
                    RecordView,
                    DeserializationError,
                >(out[i]),
            Err(e) => exists|i: int|
                0 <= i < raws.len() && parse_spec(#[trigger] raws[i]) == Err::<
                    RecordView,
                    DeserializationError,
                >(e) && forall|j: int| 0 <= j < i ==> parse_spec(#[trigger] raws[j]) is Ok,
        },
    decreases raws.len(),
{
    if raws.len() > 0 {
        let init = raws.drop_last();
        lemma_parse_all_each(init);
        match parse_all_spec(init) {
            Ok(prev) => {
                assert forall|j: int| 0 <= j < init.len() implies parse_spec(
                    #[trigger] raws[j],
                ) is Ok by {
                    assert(raws[j] == init[j]);
                }
                match parse_spec(raws.last()) {
                    Ok(v) => {
                        let out = prev.push(v);
                        assert forall|i: int| 0 <= i < raws.len() implies parse_spec(
                            #[trigger] raws[i],
                        ) == Ok::<RecordView, DeserializationError>(out[i]) by {
                            if i < init.len() {
                                assert(raws[i] == init[i]);
                            }
                        }
                    },
                    Err(e) => {
                        let i = raws.len() - 1;
                        assert(parse_spec(raws[i]) == Err::<RecordView, DeserializationError>(e));
                    },
                }
            },
            Err(e) => {
                let i = choose|i: int|
                    0 <= i < init.len() && parse_spec(#[trigger] init[i]) == Err::<
                        RecordView,
                        DeserializationError,
                    >(e) && forall|j: int| 0 <= j < i ==> parse_spec(#[trigger] init[j]) is Ok;
                assert(raws[i] == init[i]);
                assert forall|j: int| 0 <= j < i implies parse_spec(#[trigger] raws[j]) is Ok by {
                    assert(raws[j] == init[j]);
                }
            },
        }
    }
}

/// A raw event that holds a record's fields becomes that record again, once
/// its identifier and key texts are read as the record's identifier and key.
pub proof fn lemma_assemble_reads_back(r: Record, raw: RawRecord)
    requires
        r.wf(),
        raw.content@ == r.content@,
        raw.sig@ == r.sig@,
        raw.tags.deep_view() == r.tags.deep_view(),
        raw.created_at == r.created_at,
    ensures
        assemble_spec(raw, Some(r.id@), Some(r.pubkey@)) == Ok::<RecordView, DeserializationError>(
            r@,
        ),
{
}

/// Builds the record from a raw event and from what its identifier and key
/// texts were read as.
pub fn assemble(raw: RawRecord, id: Option<Vec<u8>>, key: Option<Vec<u8>>) -> (r: Result<
    Record,
    DeserializationError,
>)
    ensures
        result_view(r) == assemble_spec(raw, opt_bytes(id), opt_bytes(key)),
        r matches Ok(rec) ==> rec.wf(),
{
    let id_bytes = match id {
        Some(b) => b,
        None => { return Err(DeserializationError::MalformedId); },
    };
    if id_bytes.len() != KEY_LEN {
        return Err(DeserializationError::MalformedId);
    }
    let key_bytes = match key {
        Some(b) => b,
        None => { return Err(DeserializationError::MalformedPubkey); },
    };
    if key_bytes.len() != KEY_LEN {
        return Err(DeserializationError::MalformedPubkey);
    }
    Ok(
        Record {
            content: raw.content,
            pubkey: key_bytes,
            created_at: raw.created_at,
            sig: raw.sig,
            tags: raw.tags,
            id: id_bytes,
        },
    )
}

/// Validates one raw event.
pub fn parse_record(raw: RawRecord) -> (r: Result<Record, DeserializationError>)
    ensures
        result_view(r) == parse_spec(raw),
        r matches Ok(rec) ==> rec.wf(),
{
    let id = event_id_bytes(raw.id.as_str());
    let key = xonly_key_bytes(raw.pubkey.as_str());
    assemble(raw, id, key)
}

/// Validates every raw event, in order. One event that is not a record fails
/// the whole list.
pub fn parse_all(raws: Vec<RawRecord>) -> (r: Result<Vec<Record>, DeserializationError>)
    ensures
        match r {
            Ok(out) => parse_all_spec(raws@) == Ok::<Seq<RecordView>, DeserializationError>(
                views(out@),
            ) && forall|i: int| 0 <= i < out@.len() ==> (#[trigger] out@[i]).wf(),
            Err(e) => parse_all_spec(raws@) == Err::<Seq<RecordView>, DeserializationError>(e),
        },
{
    let ghost all = raws@;
    let mut out: Vec<Record> = Vec::new();
    assert(views(out@) =~= Seq::empty());
    assert(all.take(0).len() == 0);
    for raw in iter: raws
        invariant
            iter.seq() == all,
            parse_all_spec(all.take(iter.index())) == Ok::<Seq<RecordView>, DeserializationError>(
                views(out@),
            ),
            forall|i: int| 0 <= i < out@.len() ==> (#[trigger] out@[i]).wf(),
    {
        let ghost k = iter.index();
        let ghost before = out@;
        proof {
            assert(all.take(k + 1).drop_last() =~= all.take(k));
            assert(all.take(k + 1).last() == raw);
        }
        match parse_record(raw) {
            Ok(rec) => {
                out.push(rec);
                proof {
                    assert(views(out@) =~= views(before).push(rec@));
                }
            },
            Err(e) => {
                proof {
                    lemma_error_persists(all, k + 1);
                }
                return Err(e);
            },
        }
    }
    proof {
        assert(all.take(all.len() as int) =~= all);
    }
    Ok(out)
}

} // verus!
