//! Match records, the in-memory result accumulator, and the document shape
//! handed to the persistence sink.

use vstd::prelude::*;

verus! {

/// One discovered match: a public identifier that satisfied the target
/// criterion, together with its secret value in its human-readable
/// encoding. A timestamp is assigned only at the persistence stage.
pub struct MatchRecord {
    pub public_key: String,
    pub private_key: String,
}

impl View for MatchRecord {
    type V = (Seq<char>, Seq<char>);

    open spec fn view(&self) -> (Seq<char>, Seq<char>) {
        (self.public_key@, self.private_key@)
    }
}

/// The view of a whole batch of records.
pub open spec fn batch_view(batch: Seq<MatchRecord>) -> Seq<(Seq<char>, Seq<char>)> {
    batch.map_values(|r: MatchRecord| r@)
}

/// Copies one record by value.
pub fn clone_record(r: &MatchRecord) -> (c: MatchRecord)
    ensures
        c@ == r@,
{
    MatchRecord { public_key: r.public_key.clone(), private_key: r.private_key.clone() }
}

/// The process-lifetime log of every match found: an ordered, growing
/// sequence, appended to whole batches at a time and never otherwise
/// changed, independent of the persistence sink.
pub struct ResultAccumulator {
    records: Vec<MatchRecord>,
}

impl View for ResultAccumulator {
    type V = Seq<(Seq<char>, Seq<char>)>;

    closed spec fn view(&self) -> Seq<(Seq<char>, Seq<char>)> {
        batch_view(self.records@)
    }
}

impl ResultAccumulator {
    /// A fresh, empty accumulator.
    pub fn new() -> (r: Self)
        ensures
            r@ == Seq::<(Seq<char>, Seq<char>)>::empty(),
    {
        let r = ResultAccumulator { records: Vec::new() };
        proof {
            assert(r@ =~= Seq::<(Seq<char>, Seq<char>)>::empty());
        }
        r
    }

    /// How many matches have been logged so far.
    pub fn len(&self) -> (n: usize)
        ensures
            n == self@.len(),
    {
        self.records.len()
    }

    /// The record at a position, in append order.
    pub fn record_at(&self, i: usize) -> (r: &MatchRecord)
        requires
            i < self@.len(),
        ensures
            r@ == self@[i as int],
    {
        &self.records[i]
    }

    /// Appends a whole batch by value: every record of the batch, in the
    /// batch's own order, after everything already logged, and nothing
    /// else.
    pub fn append_batch(&mut self, batch: &Vec<MatchRecord>)
        ensures
            final(self)@ == old(self)@ + batch_view(batch@),
    {
        let mut i: usize = 0;
        while i < batch.len()
            invariant
                i <= batch@.len(),
                self@ == old(self)@ + batch_view(batch@.take(i as int)),
            decreases batch@.len() - i,
        {
            let ghost prev = self@;
            let c = clone_record(&batch[i]);
            self.records.push(c);
            proof {
                assert(self@ =~= prev.push(c@));
                assert(batch@.take(i + 1) =~= batch@.take(i as int).push(batch@[i as int]));
                assert(batch_view(batch@.take(i + 1)) =~= batch_view(batch@.take(i as int)).push(
                    batch@[i as int]@,
                ));
                assert(self@ =~= old(self)@ + batch_view(batch@.take(i + 1)));
            }
            i = i + 1;
        }
        proof {
            assert(batch@.take(batch@.len() as int) =~= batch@);
        }
    }
}

/// The document handed to the persistence sink for one match: the public
/// identifier, the encrypted secret's serialization, and equal creation
/// and update timestamps in milliseconds.
pub struct StoredDocument {
    pub public_key: String,
    pub private_key: String,
    pub created_at: i64,
    pub updated_at: i64,
}

} // verus!
