use solana_sdk::signer::Signer;
use vanity_search::encryption::decrypt;
use vanity_search::records::{MatchRecord, ResultAccumulator};
use vanity_search::search::{generate_keypair, process_batch, promote_candidate, search_step};

fn record(public_key: &str, private_key: &str) -> MatchRecord {
    MatchRecord { public_key: public_key.to_string(), private_key: private_key.to_string() }
}

fn zero_key() -> String {
    "00".repeat(32)
}

#[test]
fn empty_batch_changes_nothing() {
    let mut results = ResultAccumulator::new();
    let docs = process_batch(Vec::new(), &mut results, &zero_key(), 1234);
    assert!(docs.is_none());
    assert_eq!(results.len(), 0);
}

#[test]
fn batch_of_three_appends_three_in_order() {
    let mut results = ResultAccumulator::new();
    results.append_batch(&vec![record("p0", "s0")]);
    let batch = vec![record("p1", "s1"), record("p2", "s2"), record("p3", "s3")];
    let docs = process_batch(batch, &mut results, &zero_key(), 99);
    assert_eq!(results.len(), 4);
    for (i, expected) in ["p0", "p1", "p2", "p3"].iter().enumerate() {
        assert_eq!(&results.record_at(i).public_key, expected);
    }
    let docs = docs.expect("a non-empty batch yields documents");
    assert_eq!(docs.len(), 3);
    for (i, doc) in docs.iter().enumerate() {
        assert_eq!(doc.public_key, format!("p{}", i + 1));
        assert_eq!(doc.created_at, 99);
        assert_eq!(doc.updated_at, 99);
        let recovered = decrypt(&doc.private_key, &zero_key());
        assert_eq!(recovered, Some(format!("s{}", i + 1).into_bytes()));
    }
}

#[test]
fn many_batches_append_exactly_their_records() {
    let mut results = ResultAccumulator::new();
    for b in 0..1000 {
        let batch = vec![
            record(&format!("pk{}a", b), "s"),
            record(&format!("pk{}b", b), "s"),
        ];
        let docs = process_batch(batch, &mut results, &zero_key(), b);
        assert_eq!(docs.map(|d| d.len()), Some(2));
    }
    assert_eq!(results.len(), 2000);
    assert_eq!(results.record_at(0).public_key, "pk0a");
    assert_eq!(results.record_at(1).public_key, "pk0b");
    assert_eq!(results.record_at(1998).public_key, "pk999a");
    assert_eq!(results.record_at(1999).public_key, "pk999b");
}

#[test]
fn promote_keeps_only_suffix_matches() {
    let m = promote_candidate("ab", "xyzab".to_string(), vec![1, 2, 3]);
    let m = m.expect("xyzab ends with ab");
    assert_eq!(m.public_key, "xyzab");
    assert_eq!(m.private_key, bs58::encode(&[1u8, 2, 3]).into_string());
    assert!(promote_candidate("ab", "xyzabc".to_string(), vec![1, 2, 3]).is_none());
}

#[test]
fn generated_record_is_a_real_keypair() {
    let m = generate_keypair("").expect("an empty suffix matches every candidate");
    let keypair_bytes = bs58::decode(&m.private_key).into_vec().expect("base58 secret");
    assert_eq!(keypair_bytes.len(), 64);
    let keypair =
        solana_sdk::signature::Keypair::try_from(&keypair_bytes[..]).expect("valid keypair bytes");
    assert_eq!(keypair.pubkey().to_string(), m.public_key);
}

#[test]
fn generated_matches_end_with_the_suffix() {
    // Nothing is owed on how often a candidate matches; whichever do must
    // end with the suffix.
    for _ in 0..64 {
        if let Some(m) = generate_keypair("A") {
            assert!(m.public_key.ends_with('A'));
        }
    }
}

#[test]
fn search_step_without_matches_dispatches_nothing() {
    let mut results = ResultAccumulator::new();
    // No base58 public identifier can end with characters outside the
    // alphabet, so this suffix can never match.
    let docs = search_step("????????", &mut results, &zero_key(), 7);
    assert!(docs.is_none());
    assert_eq!(results.len(), 0);
}
