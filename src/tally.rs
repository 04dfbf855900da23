//! Recovering vote codes from ledger transactions and counting them.
use vstd::prelude::*;
use vstd::string::*;
use crate::ballot::{index_of_ballots, map_votes, Ballot, ChoiceValue, VoteCode, VoteIndex};
use crate::codec::{decode_hex, hex_decoded, json_vote_code, utf8_decoded, utf8_text, vote_code_in_json};

verus! {

/// A ledger transaction as the explorer reports it: its input field.
#[derive(Debug)]
pub struct Transaction {
    pub input: String,
}

/// A vote recovered from a transaction's input.
#[derive(Debug)]
pub struct SubmittedVote {
    pub votecode: VoteCode,
}

impl SubmittedVote {
    /// The vote code the vote was cast with.
    pub fn to_votecode(&self) -> (r: VoteCode)
        ensures
            r@ == self.votecode@,
    {
        self.votecode.clone()
    }
}

/// The vote code carried by a transaction input: after a two-character
/// marker, hex digits that spell UTF-8 text of a JSON vote record.
pub open spec fn decoded_vote(input: Seq<char>) -> Option<Seq<char>> {
    if input.len() < 2 {
        None
    } else {
        match hex_decoded(input.subrange(2, input.len() as int)) {
            None => None,
            Some(bytes) => match utf8_decoded(bytes) {
                None => None,
                Some(text) => json_vote_code(text),
            },
        }
    }
}

/// Decodes the vote a transaction carries. Any stage that fails (the input is
/// too short, is not hex, is not UTF-8, is not a vote record) gives `None`.
pub fn transaction_to_votecode(transaction: Transaction) -> (r: Option<SubmittedVote>)
    ensures
        match r {
            Some(v) => decoded_vote(transaction.input@) == Some(v.votecode@),
            None => decoded_vote(transaction.input@) is None,
        },
{
    let input = transaction.input.as_str();
    let n = input.unicode_len();
    if n < 2 {
        return None;
    }
    let vote = input.substring_char(2, n);
    let vote = match decode_hex(vote) {
        Some(bytes) => bytes,
        None => return None,
    };
    let vote = match utf8_text(vote) {
        Some(text) => text,
        None => return None,
    };
    match vote_code_in_json(vote.as_str()) {
        Some(votecode) => Some(SubmittedVote { votecode }),
        None => None,
    }
}

/// Counts of a tally: votes for, votes against, and transactions that carried
/// no vote.
#[derive(Clone, Copy, Debug, PartialEq, Eq, Structural)]
pub struct Tally {
    pub votes_for: u64,
    pub votes_against: u64,
    pub skipped: u64,
}

/// The codes left in the index, and the three counts, after taking `codes` in
/// order: a code in the index is removed and counts for its choice; a code
/// not in the index (never issued, or counted already) counts for neither;
/// `None` is a transaction that carried no vote.
pub open spec fn tally_of(index: Map<Seq<char>, ChoiceValue>, codes: Seq<Option<Seq<char>>>) -> (
    Map<Seq<char>, ChoiceValue>,
    nat,
    nat,
    nat,
)
    decreases codes.len(),
{
    if codes.len() == 0 {
        (index, 0, 0, 0)
    } else {
        let (m, f, a, s) = tally_of(index, codes.drop_last());
        match codes.last() {
            None => (m, f, a, s + 1),
            Some(c) => if !m.contains_key(c) {
                (m, f, a, s)
            } else if m[c] == ChoiceValue::For {
                (m.remove(c), f + 1, a, s)
            } else {
                (m.remove(c), f, a + 1, s)
            },
        }
    }
}

pub open spec fn code_view(c: Option<VoteCode>) -> Option<Seq<char>> {
    match c {
        Some(s) => Some(s@),
        None => None,
    }
}

/// A code that has been taken in is no longer in the index.
proof fn lemma_seen_code_removed(
    index: Map<Seq<char>, ChoiceValue>,
    codes: Seq<Option<Seq<char>>>,
    j: int,
)
    requires
        0 <= j < codes.len(),
        codes[j] is Some,
    ensures
        !tally_of(index, codes).0.contains_key(codes[j].unwrap()),
    decreases codes.len(),
{
    if j < codes.len() - 1 {
        lemma_seen_code_removed(index, codes.drop_last(), j);
    }
}

/// Each vote code counts at most once: after a code has been seen, a further
/// transaction carrying the same code changes neither count, nor the index.
pub proof fn lemma_code_counted_at_most_once(
    index: Map<Seq<char>, ChoiceValue>,
    codes: Seq<Option<Seq<char>>>,
    code: Seq<char>,
)
    requires
        codes.contains(Some(code)),
    ensures
        ({
            let before = tally_of(index, codes);
            let after = tally_of(index, codes.push(Some(code)));
            after.0 == before.0 && after.1 == before.1 && after.2 == before.2
        }),
{
    let j = choose|j: int| 0 <= j < codes.len() && codes[j] == Some(code);
    lemma_seen_code_removed(index, codes, j);
    assert(codes.push(Some(code)).drop_last() =~= codes);
}

/// Tallies already decoded vote codes, in ledger order, against the index.
pub fn tally_codes(choices: VoteIndex, codes: &Vec<Option<VoteCode>>) -> (r: Tally)
    requires
        choices.wf(),
    ensures
        ({
            let t = tally_of(choices@, codes@.map_values(|c: Option<VoteCode>| code_view(c)));
            r.votes_for == t.1 && r.votes_against == t.2 && r.skipped == t.3
        }),
{
    let ghost all = codes@.map_values(|c: Option<VoteCode>| code_view(c));
    let ghost start = choices@;
    let mut choices = choices;
    let mut vote_for: u64 = 0;
    let mut vote_against: u64 = 0;
    let mut skipped: u64 = 0;
    let mut i: usize = 0;
    while i < codes.len()
        invariant
            i <= codes@.len(),
            all == codes@.map_values(|c: Option<VoteCode>| code_view(c)),
            choices.wf(),
            vote_for + vote_against + skipped <= i,
            tally_of(start, all.subrange(0, i as int)) == (
                choices@,
                vote_for as nat,
                vote_against as nat,
                skipped as nat,
            ),
        decreases codes@.len() - i,
    {
        assert(all.subrange(0, i + 1).drop_last() =~= all.subrange(0, i as int));
        match &codes[i] {
            Some(votecode) => {
                if let Some(choice) = choices.remove(votecode) {
                    match choice {
                        ChoiceValue::For => vote_for = vote_for + 1,
                        ChoiceValue::Against => vote_against = vote_against + 1,
                    }
                }
            },
            None => skipped = skipped + 1,
        }
        i = i + 1;
    }
    assert(all.subrange(0, i as int) =~= all);
    Tally { votes_for: vote_for, votes_against: vote_against, skipped }
}

/// Decodes each transaction and tallies the codes found, in ledger order,
/// against the index: each code counts at most once, for the choice it maps to.
pub fn count_votes(choices: VoteIndex, transactions: Vec<Transaction>) -> (r: Tally)
    requires
        choices.wf(),
    ensures
        ({
            let t = tally_of(
                choices@,
                transactions@.map_values(|t: Transaction| decoded_vote(t.input@)),
            );
            r.votes_for == t.1 && r.votes_against == t.2 && r.skipped == t.3
        }),
{
    let mut codes: Vec<Option<VoteCode>> = Vec::new();
    let mut i: usize = 0;
    while i < transactions.len()
        invariant
            i <= transactions@.len(),
            codes@.len() == i,
            forall|j: int|
                0 <= j < i ==> code_view(#[trigger] codes@[j]) == decoded_vote(
                    transactions@[j].input@,
                ),
        decreases transactions@.len() - i,
    {
        let transaction = Transaction { input: transactions[i].input.clone() };
        let code = match transaction_to_votecode(transaction) {
            Some(vote) => Some(vote.to_votecode()),
            None => None,
        };
        codes.push(code);
        i = i + 1;
    }
    assert(codes@.map_values(|c: Option<VoteCode>| code_view(c)) =~= transactions@.map_values(
        |t: Transaction| decoded_vote(t.input@),
    ));
    tally_codes(choices, &codes)
}

/// Audits a poll: indexes the ballots' vote codes, then tallies the
/// transactions found at the poll's address, in ledger order, against them.
pub fn audit_votes(ballots: Vec<Ballot>, transactions: Vec<Transaction>) -> (r: Tally)
    ensures
        ({
            let t = tally_of(
                index_of_ballots(ballots@),
                transactions@.map_values(|t: Transaction| decoded_vote(t.input@)),
            );
            r.votes_for == t.1 && r.votes_against == t.2 && r.skipped == t.3
        }),
{
    let choices = map_votes(ballots);
    count_votes(choices, transactions)
}

} // verus!
