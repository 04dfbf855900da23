use ballot_anchor::ballot::{map_votes, Ballot, Choice, ChoiceValue, VoteIndex};
use ballot_anchor::tally::{
    audit_votes, count_votes, tally_codes, transaction_to_votecode, SubmittedVote, Tally,
    Transaction,
};

fn ballot(serial: u64, code1: &str, choice1: ChoiceValue, code2: &str, choice2: ChoiceValue) -> Ballot {
    Ballot {
        serial,
        choice1: Choice { votecode: code1.to_string(), choice: choice1 },
        choice2: Choice { votecode: code2.to_string(), choice: choice2 },
    }
}

fn vote_input(json: &str) -> String {
    format!("0x{}", hex::encode(json.as_bytes()))
}

fn tx(input: &str) -> Transaction {
    Transaction { input: input.to_string() }
}

#[test]
fn index_holds_both_halves_of_a_ballot() {
    let index = map_votes(vec![ballot(1, "1111", ChoiceValue::For, "2222", ChoiceValue::Against)]);
    assert_eq!(index.len(), 2);
    assert_eq!(index.get(&"1111".to_string()), Some(ChoiceValue::For));
    assert_eq!(index.get(&"2222".to_string()), Some(ChoiceValue::Against));
    assert_eq!(index.get(&"3333".to_string()), None);
}

#[test]
fn index_of_no_ballots_is_empty() {
    let index = map_votes(vec![]);
    assert_eq!(index.len(), 0);
}

#[test]
fn later_duplicate_code_wins() {
    let index = map_votes(vec![
        ballot(1, "1111", ChoiceValue::For, "2222", ChoiceValue::Against),
        ballot(2, "1111", ChoiceValue::Against, "3333", ChoiceValue::For),
    ]);
    assert_eq!(index.len(), 3);
    assert_eq!(index.get(&"1111".to_string()), Some(ChoiceValue::Against));
}

#[test]
fn index_remove_takes_code_out() {
    let mut index = VoteIndex::new();
    index.insert("1111".to_string(), ChoiceValue::For);
    index.insert("2222".to_string(), ChoiceValue::Against);
    assert_eq!(index.remove(&"1111".to_string()), Some(ChoiceValue::For));
    assert_eq!(index.remove(&"1111".to_string()), None);
    assert_eq!(index.len(), 1);
    assert_eq!(index.get(&"2222".to_string()), Some(ChoiceValue::Against));
}

#[test]
fn decodes_vote_record() {
    let vote = transaction_to_votecode(tx(&vote_input("{\"votecode\":\"1111\"}"))).unwrap();
    assert_eq!(vote.votecode, "1111");
    assert_eq!(vote.to_votecode(), "1111");
}

#[test]
fn invalid_hex_is_no_vote() {
    assert!(transaction_to_votecode(tx("0xzz")).is_none());
}

#[test]
fn odd_hex_is_no_vote() {
    assert!(transaction_to_votecode(tx("0x313")).is_none());
}

#[test]
fn non_utf8_is_no_vote() {
    assert!(transaction_to_votecode(tx("0xff")).is_none());
}

#[test]
fn non_json_is_no_vote() {
    assert!(transaction_to_votecode(tx(&vote_input("hello"))).is_none());
}

#[test]
fn json_without_votecode_is_no_vote() {
    assert!(transaction_to_votecode(tx(&vote_input("{\"other\":\"1111\"}"))).is_none());
}

#[test]
fn short_input_is_no_vote() {
    assert!(transaction_to_votecode(tx("0")).is_none());
    assert!(transaction_to_votecode(tx("")).is_none());
}

#[test]
fn empty_payload_is_no_vote() {
    assert!(transaction_to_votecode(tx("0x")).is_none());
}

#[test]
fn same_code_counts_once() {
    let mut index = VoteIndex::new();
    index.insert("1111".to_string(), ChoiceValue::For);
    index.insert("2222".to_string(), ChoiceValue::Against);
    let input = vote_input("{\"votecode\":\"1111\"}");
    let tally = count_votes(index, vec![tx(&input), tx(&input)]);
    assert_eq!(tally.votes_for, 1);
    assert_eq!(tally.votes_against, 0);
    assert_eq!(tally.skipped, 0);
}

#[test]
fn end_to_end_tally() {
    let ballots = vec![ballot(1, "1111", ChoiceValue::For, "2222", ChoiceValue::Against)];
    let transactions = vec![tx(&vote_input("{\"votecode\":\"1111\"}"))];
    let tally = audit_votes(ballots, transactions);
    assert_eq!(tally, Tally { votes_for: 1, votes_against: 0, skipped: 0 });
}

#[test]
fn both_halves_count_separately() {
    let ballots = vec![ballot(1, "1111", ChoiceValue::For, "2222", ChoiceValue::Against)];
    let transactions = vec![
        tx(&vote_input("{\"votecode\":\"2222\"}")),
        tx("0xzz"),
        tx(&vote_input("{\"votecode\":\"1111\"}")),
        tx(&vote_input("{\"votecode\":\"9999\"}")),
    ];
    let tally = audit_votes(ballots, transactions);
    assert_eq!(tally, Tally { votes_for: 1, votes_against: 1, skipped: 1 });
}

#[test]
fn tally_of_decoded_codes() {
    let index = map_votes(vec![
        ballot(1, "a", ChoiceValue::For, "b", ChoiceValue::Against),
        ballot(2, "c", ChoiceValue::For, "d", ChoiceValue::Against),
    ]);
    let codes = vec![
        Some("a".to_string()),
        None,
        Some("c".to_string()),
        Some("a".to_string()),
        Some("d".to_string()),
        None,
    ];
    let tally = tally_codes(index, &codes);
    assert_eq!(tally, Tally { votes_for: 2, votes_against: 1, skipped: 2 });
}

#[test]
fn tally_of_nothing_is_zero() {
    let index = map_votes(vec![ballot(1, "a", ChoiceValue::For, "b", ChoiceValue::Against)]);
    let tally = count_votes(index, vec![]);
    assert_eq!(tally, Tally { votes_for: 0, votes_against: 0, skipped: 0 });
}

#[test]
fn submitted_vote_code() {
    let vote = SubmittedVote { votecode: "1234-1234".to_string() };
    assert_eq!(vote.to_votecode(), "1234-1234");
}
