//! The search pipeline: candidates are derived from fresh random seeds,
//! filtered in parallel by the match predicate, appended to the result
//! accumulator one whole batch at a time, and turned into encrypted
//! documents for the persistence sink.

use vstd::prelude::*;
use vstd::utf8::encode_utf8;
use crate::encryption::{encrypt, encrypted_serial, is_key_hex, key_bytes_of};
use crate::matching::{is_suffix_of, matches_target};
use crate::records::{batch_view, MatchRecord, ResultAccumulator, StoredDocument};
use solana_sdk::signer::{SeedDerivable, Signer};
use rayon::iter::{IntoParallelIterator, ParallelIterator};

verus! {

/// How many candidates one batch generates and filters.
pub const BATCH_SIZE: usize = 100000;

/// The public identifier, as a human-readable string, of the keypair the
/// key scheme derives from a 32-byte seed.
pub uninterp spec fn pubkey_string_of(seed: Seq<u8>) -> Seq<char>;

/// The raw bytes of the keypair the key scheme derives from a 32-byte
/// seed.
pub uninterp spec fn keypair_bytes_of(seed: Seq<u8>) -> Seq<u8>;

/// The base58 rendering of a byte string.
pub uninterp spec fn base58_of(bytes: Seq<u8>) -> Seq<char>;

/// Relies on rand::rng and rand::Rng::fill: the buffer is filled with
/// cryptographically strong random bytes; nothing is promised of their
/// values.
#[verifier::external_body]
fn random_seed() -> (r: Vec<u8>)
    ensures
        r@.len() == 32,
{
    let mut seed = vec![0u8; 32];
    rand::Rng::fill(&mut rand::rng(), seed.as_mut_slice());
    seed
}

/// Relies on solana keypair derivation: Keypair::from_seed (the ed25519
/// keypair determined by the seed bytes alone; an error is possible only
/// for an unusable seed), Signer::pubkey with the address's base58
/// rendering, and Keypair::to_bytes. All three are functions of the seed
/// alone.
#[verifier::external_body]
fn derive_candidate(seed: &Vec<u8>) -> (r: Option<(String, Vec<u8>)>)
    requires
        seed@.len() == 32,
    ensures
        r matches Some(c) ==> c.0@ == pubkey_string_of(seed@) && c.1@ == keypair_bytes_of(seed@),
{
    match solana_sdk::signature::Keypair::from_seed(seed.as_slice()) {
        Ok(keypair) => {
            let public_key = keypair.pubkey().to_string();
            Some((public_key, keypair.to_bytes().to_vec()))
        },
        Err(_) => None,
    }
}

/// Relies on bs58::encode(..).into_string(): the base58 rendering of the
/// bytes, a function of the bytes alone.
#[verifier::external_body]
fn bs58_encode(bytes: &Vec<u8>) -> (r: String)
    ensures
        r@ == base58_of(bytes@),
{
    bs58::encode(bytes.as_slice()).into_string()
}

/// What it means for a logged record to be a genuine match for the target
/// suffix: its public identifier ends with the suffix, and both fields
/// come from one 32-byte seed under the key scheme.
pub open spec fn is_match_view(
    target: Seq<char>,
    public_key: Seq<char>,
    private_key: Seq<char>,
) -> bool {
    &&& is_suffix_of(target, public_key)
    &&& exists|seed: Seq<u8>|
        #![trigger pubkey_string_of(seed)]
        seed.len() == 32 && public_key == pubkey_string_of(seed) && private_key == base58_of(
            keypair_bytes_of(seed),
        )
}

/// Tests a derived candidate against the target criterion: promoted to a
/// match record exactly when its public identifier ends with the target
/// suffix, keeping the identifier and encoding the keypair bytes in
/// base58 as the secret value.
pub fn promote_candidate(target_suffix: &str, public_key: String, keypair_bytes: Vec<u8>) -> (r:
    Option<MatchRecord>)
    ensures
        r is Some <==> is_suffix_of(target_suffix@, public_key@),
        r matches Some(m) ==> m.public_key@ == public_key@ && m.private_key@ == base58_of(
            keypair_bytes@,
        ),
{
    if matches_target(public_key.as_str(), target_suffix) {
        let private_key = bs58_encode(&keypair_bytes);
        Some(MatchRecord { public_key, private_key })
    } else {
        None
    }
}

/// Produces one candidate from a fresh random seed and tests it: any
/// record returned is a genuine match. A seed the key scheme rejects
/// yields no candidate rather than an error.
pub fn generate_keypair(target_suffix: &str) -> (r: Option<MatchRecord>)
    ensures
        r matches Some(m) ==> is_match_view(target_suffix@, m.public_key@, m.private_key@),
{
    let seed = random_seed();
    match derive_candidate(&seed) {
        Some((public_key, keypair_bytes)) => {
            let ghost s = seed@;
            let r = promote_candidate(target_suffix, public_key, keypair_bytes);
            proof {
                if r is Some {
                    let m = r->0;
                    assert(m.public_key@ == pubkey_string_of(s));
                    assert(is_match_view(target_suffix@, m.public_key@, m.private_key@));
                }
            }
            r
        },
        None => None,
    }
}

/// Relies on rayon's into_par_iter, filter_map and collect over an
/// integer range: the collected vector holds exactly the Some results of
/// the closure's calls, in some order, at most one per candidate. The
/// closure only calls generate_keypair, whose contract gives every
/// element's shape.
#[verifier::external_body]
pub(crate) fn generate_batch(target_suffix: &str, batch_size: usize) -> (r: Vec<MatchRecord>)
    ensures
        r@.len() <= batch_size,
        forall|i: int|
            0 <= i < r@.len() ==> is_match_view(
                target_suffix@,
                (#[trigger] r@[i]).public_key@,
                r@[i].private_key@,
            ),
{
    (0..batch_size).into_par_iter().filter_map(|_| generate_keypair(target_suffix)).collect()
}

/// What the persistence sink is owed for one logged record: the same
/// public identifier, the record's secret encrypted under the key with
/// some fresh 16-byte IV, and equal creation and update timestamps.
pub open spec fn document_for(
    doc: StoredDocument,
    record: (Seq<char>, Seq<char>),
    key: Seq<u8>,
    now_millis: i64,
) -> bool {
    &&& doc.public_key@ == record.0
    &&& exists|iv: Seq<u8>|
        #![trigger encrypted_serial(key, iv, encode_utf8(record.1))]
        iv.len() == 16 && doc.private_key@ == encrypted_serial(key, iv, encode_utf8(record.1))
    &&& doc.created_at == now_millis
    &&& doc.updated_at == now_millis
}

/// Handles one batch's matches: an empty batch changes nothing and
/// triggers no dispatch; a batch of N matches appends exactly those N
/// records to the accumulator in their batch order, and yields one
/// document per record, in the same order, for the sink.
pub fn process_batch(
    batch: Vec<MatchRecord>,
    results: &mut ResultAccumulator,
    encryption_key: &str,
    now_millis: i64,
) -> (docs: Option<Vec<StoredDocument>>)
    requires
        is_key_hex(encryption_key@),
    ensures
        batch@.len() == 0 ==> docs is None && final(results)@ == old(results)@,
        batch@.len() > 0 ==> final(results)@ == old(results)@ + batch_view(batch@),
        batch@.len() > 0 ==> (docs matches Some(d) && d@.len() == batch@.len() && forall|i: int|
            0 <= i < batch@.len() ==> document_for(
                #[trigger] d@[i],
                batch@[i]@,
                key_bytes_of(encryption_key@),
                now_millis,
            )),
{
    if batch.len() == 0 {
        return None;
    }
    results.append_batch(&batch);
    let mut docs: Vec<StoredDocument> = Vec::new();
    let mut i: usize = 0;
    while i < batch.len()
        invariant
            is_key_hex(encryption_key@),
            i <= batch@.len(),
            docs@.len() == i,
            forall|j: int|
                0 <= j < i ==> document_for(
                    #[trigger] docs@[j],
                    batch@[j]@,
                    key_bytes_of(encryption_key@),
                    now_millis,
                ),
        decreases batch@.len() - i,
    {
        let record = &batch[i];
        let private_key = encrypt(record.private_key.as_str(), encryption_key);
        let ghost pk_view = private_key@;
        docs.push(
            StoredDocument {
                public_key: record.public_key.clone(),
                private_key,
                created_at: now_millis,
                updated_at: now_millis,
            },
        );
        proof {
            let ghost kb = key_bytes_of(encryption_key@);
            let iv = choose|iv: Seq<u8>|
                #![trigger encrypted_serial(kb, iv, encode_utf8(record.private_key@))]
                iv.len() == 16 && pk_view == encrypted_serial(
                    kb,
                    iv,
                    encode_utf8(record.private_key@),
                );
            assert(iv.len() == 16 && pk_view == encrypted_serial(
                kb,
                iv,
                encode_utf8(batch@[i as int]@.1),
            ));
            assert(document_for(docs@[i as int], batch@[i as int]@, kb, now_millis));
        }
        i = i + 1;
    }
    Some(docs)
}

/// One full cycle of the search loop: generate and filter a batch of
/// candidates in parallel, log every match found, and hand back the
/// encrypted documents to dispatch — or nothing, when the batch held no
/// match. Every record the cycle appends is a genuine match for the
/// target suffix, appended after everything already logged.
pub fn search_step(
    target_suffix: &str,
    results: &mut ResultAccumulator,
    encryption_key: &str,
    now_millis: i64,
) -> (docs: Option<Vec<StoredDocument>>)
    requires
        is_key_hex(encryption_key@),
    ensures
        docs is None ==> final(results)@ == old(results)@,
        docs matches Some(d) ==> {
            &&& 0 < d@.len() <= BATCH_SIZE
            &&& final(results)@.len() == old(results)@.len() + d@.len()
            &&& final(results)@.take(old(results)@.len() as int) == old(results)@
            &&& forall|i: int|
                0 <= i < d@.len() ==> {
                    let record = final(results)@[old(results)@.len() + i];
                    is_match_view(target_suffix@, record.0, record.1) && document_for(
                        #[trigger] d@[i],
                        record,
                        key_bytes_of(encryption_key@),
                        now_millis,
                    )
                }
        },
{
    let batch = generate_batch(target_suffix, BATCH_SIZE);
    let docs = process_batch(batch, results, encryption_key, now_millis);
    proof {
        if docs is Some {
            assert(results@.take(old(results)@.len() as int) =~= old(results)@);
        }
    }
    docs
}

} // verus!
