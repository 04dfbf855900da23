use ballot_anchor::codec::decode_base64_text;
use ballot_anchor::commitment::{commit, commitment_data, PlaneRow};
use ballot_anchor::merkle::{new_tree, CryptoHashData};
use sha3::{Digest, Sha3_256};

fn strings(items: &[&str]) -> Vec<String> {
    items.iter().map(|s| s.to_string()).collect()
}

fn sha3(bytes: &[u8]) -> Vec<u8> {
    Sha3_256::digest(bytes).to_vec()
}

fn node(a: &[u8], b: &[u8]) -> Vec<u8> {
    let mut both = a.to_vec();
    both.extend_from_slice(b);
    sha3(&both)
}

fn padded_len_of(n: usize) -> usize {
    let mut data = CryptoHashData::new((0..n).map(|i| format!("leaf{}", i)).collect());
    data.pad();
    data.len()
}

#[test]
fn pad_reaches_next_power_of_two() {
    assert_eq!(padded_len_of(0), 1);
    assert_eq!(padded_len_of(1), 1);
    assert_eq!(padded_len_of(2), 2);
    assert_eq!(padded_len_of(3), 4);
    assert_eq!(padded_len_of(4), 4);
    assert_eq!(padded_len_of(5), 8);
    assert_eq!(padded_len_of(9), 16);
}

#[test]
fn pad_keeps_leaves_in_place() {
    let mut data = CryptoHashData::new(strings(&["a", "b", "c"]));
    data.pad();
    assert_eq!(data.leaves(), &strings(&["a", "b", "c", ""]));
}

#[test]
fn push_appends_in_order() {
    let mut data = CryptoHashData::new(strings(&["r1"]));
    data.push_vec(strings(&["b1", "b2"]));
    data.push("c1".to_string());
    assert_eq!(data.leaves(), &strings(&["r1", "b1", "b2", "c1"]));
}

#[test]
fn three_leaf_tree_shape() {
    let mut data = CryptoHashData::new(strings(&["h1", "h2", "h3"]));
    data.pad();
    let tree = new_tree(&data).unwrap();
    let expected = node(
        &node(&sha3(b"h1"), &sha3(b"h2")),
        &node(&sha3(b"h3"), &sha3(b"")),
    );
    assert_eq!(tree.root(), expected);
    assert_eq!(tree.levels().len(), 3);
    assert_eq!(tree.levels()[0].len(), 4);
}

#[test]
fn single_leaf_root_is_its_digest() {
    let data = CryptoHashData::new(strings(&["only"]));
    let tree = new_tree(&data).unwrap();
    assert_eq!(tree.root(), sha3(b"only"));
}

#[test]
fn no_leaves_no_tree() {
    let data = CryptoHashData::new(vec![]);
    assert!(new_tree(&data).is_none());
}

#[test]
fn building_twice_gives_same_root() {
    let leaves = strings(&["x", "y", "z", "w", "v"]);
    let mut a = CryptoHashData::new(leaves.clone());
    a.pad();
    let mut b = CryptoHashData::new(leaves);
    b.pad();
    assert_eq!(new_tree(&a).unwrap().root(), new_tree(&b).unwrap().root());
}

#[test]
fn order_changes_root() {
    let a = CryptoHashData::new(strings(&["x", "y"]));
    let b = CryptoHashData::new(strings(&["y", "x"]));
    assert_ne!(new_tree(&a).unwrap().root(), new_tree(&b).unwrap().root());
}

#[test]
fn commitment_leaf_order() {
    let rows = vec![
        PlaneRow { col1: "p1c1".to_string(), col3: "p1c3".to_string() },
        PlaneRow { col1: "p2c1".to_string(), col3: "p2c3".to_string() },
    ];
    let data = commitment_data(strings(&["voter1"]), strings(&["ballot1"]), rows);
    assert_eq!(
        data.leaves(),
        &strings(&["voter1", "ballot1", "p1c1", "p1c3", "p2c1", "p2c3", "", ""])
    );
}

#[test]
fn commit_root_matches_tree_over_leaves() {
    let rows = vec![PlaneRow { col1: "c1".to_string(), col3: "c3".to_string() }];
    let tree = commit(strings(&["v"]), strings(&["b"]), rows);
    let expected = node(&node(&sha3(b"v"), &sha3(b"b")), &node(&sha3(b"c1"), &sha3(b"c3")));
    assert_eq!(tree.root(), expected);
}

#[test]
fn base64_roster_text() {
    assert_eq!(decode_base64_text("cmVjb3JkczogW10K"), Some("records: []\n".to_string()));
    assert_eq!(decode_base64_text("!!!"), None);
    assert_eq!(decode_base64_text("/w=="), None);
}
