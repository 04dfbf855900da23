//! Assembling the leaves of a poll's commitment.
use vstd::prelude::*;
use crate::merkle::{is_pow2, new_tree, pad_leaf, padded_len, texts, CryptoHashData, MerkleTree};

verus! {

/// The cells of one ballot-grid row that the commitment holds, as text.
#[derive(Clone, Debug)]
pub struct PlaneRow {
    pub col1: String,
    pub col3: String,
}

/// The cell leaves of `rows`: for each row in order, its first cell and then
/// its third.
pub open spec fn row_cells(rows: Seq<PlaneRow>) -> Seq<Seq<char>>
    decreases rows.len(),
{
    if rows.len() == 0 {
        Seq::empty()
    } else {
        row_cells(rows.drop_last()) + seq![rows.last().col1@, rows.last().col3@]
    }
}

/// The leaves of a commitment before padding: the roster records, then the
/// audited ballots, then the cells of the grid rows.
pub open spec fn commitment_leaves(
    roster: Seq<String>,
    audited_ballots: Seq<String>,
    rows: Seq<PlaneRow>,
) -> Seq<Seq<char>> {
    texts(roster) + texts(audited_ballots) + row_cells(rows)
}

/// The padded leaf sequence of a commitment over serialized roster records,
/// serialized audited ballots and the cell values of the grid rows.
pub fn commitment_data(roster: Vec<String>, audited_ballots: Vec<String>, rows: Vec<PlaneRow>) -> (r:
    CryptoHashData)
    requires
        roster@.len() + audited_ballots@.len() + 2 * rows@.len() <= usize::MAX / 2 + 1,
    ensures
        ({
            let leaves = commitment_leaves(roster@, audited_ballots@, rows@);
            &&& padded_len(leaves.len(), r@.len())
            &&& r@.subrange(0, leaves.len() as int) == leaves
            &&& forall|i: int| leaves.len() <= i < r@.len() ==> #[trigger] r@[i] == pad_leaf()
        }),
{
    let ghost roster_v = roster@;
    let mut data = CryptoHashData::new(roster);
    data.push_vec(audited_ballots);
    let ghost base = data@;
    let mut i: usize = 0;
    while i < rows.len()
        invariant
            i <= rows@.len(),
            data@ == base + row_cells(rows@.subrange(0, i as int)),
        decreases rows@.len() - i,
    {
        let row = &rows[i];
        data.push(row.col1.clone());
        data.push(row.col3.clone());
        assert(rows@.subrange(0, i + 1).drop_last() =~= rows@.subrange(0, i as int));
        assert(data@ =~= base + row_cells(rows@.subrange(0, i + 1)));
        i = i + 1;
    }
    assert(rows@.subrange(0, i as int) =~= rows@);
    proof {
        lemma_row_cells_len(rows@);
    }
    data.pad();
    data
}

/// The Merkle tree over a poll's commitment leaves, padded: its root is what
/// the ledger anchors.
pub fn commit(roster: Vec<String>, audited_ballots: Vec<String>, rows: Vec<PlaneRow>) -> (r:
    MerkleTree)
    requires
        roster@.len() + audited_ballots@.len() + 2 * rows@.len() <= usize::MAX / 2 + 1,
    ensures
        r.wf(),
        ({
            let leaves = commitment_leaves(roster@, audited_ballots@, rows@);
            &&& padded_len(leaves.len(), r.leaves_view().len())
            &&& r.leaves_view().subrange(0, leaves.len() as int) == leaves
            &&& forall|i: int|
                leaves.len() <= i < r.leaves_view().len() ==> #[trigger] r.leaves_view()[i]
                    == pad_leaf()
        }),
{
    let data = commitment_data(roster, audited_ballots, rows);
    assert(!is_pow2(0));
    match new_tree(&data) {
        Some(tree) => tree,
        None => vstd::pervasive::unreached(),
    }
}

proof fn lemma_row_cells_len(rows: Seq<PlaneRow>)
    ensures
        row_cells(rows).len() == 2 * rows.len(),
    decreases rows.len(),
{
    if rows.len() > 0 {
        lemma_row_cells_len(rows.drop_last());
    }
}

} // verus!
