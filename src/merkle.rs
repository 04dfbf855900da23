//! The commitment: an ordered leaf sequence, padded to a power of two, and the
//! Merkle tree over it.
use vstd::prelude::*;
use vstd::utf8::encode_utf8;
use sha3::Digest;

verus! {

/// The filler leaf that padding appends: the empty leaf. No domain leaf (a
/// serialized record or a cell value) is empty.
pub open spec fn pad_leaf() -> Seq<char> {
    Seq::empty()
}

/// The SHA3-256 digest of `b`.
pub uninterp spec fn sha3_256_of(b: Seq<u8>) -> Seq<u8>;

/// Relies on `sha3::Sha3_256::digest`: the 32-byte SHA3-256 digest of the input.
#[verifier::external_body]
pub(crate) fn sha3_256(b: &[u8]) -> (r: Vec<u8>)
    ensures
        r@ == sha3_256_of(b@),
        r@.len() == 32,
{
    sha3::Sha3_256::digest(b).to_vec()
}

/// Digest of a leaf: the digest of its UTF-8 bytes.
pub open spec fn leaf_hash(leaf: Seq<char>) -> Seq<u8> {
    sha3_256_of(encode_utf8(leaf))
}

/// Digest of an inner node: the digest of its children's digests, left first.
pub open spec fn node_hash(left: Seq<u8>, right: Seq<u8>) -> Seq<u8> {
    sha3_256_of(left + right)
}

/// The level above `h`: siblings combined pairwise; an unpaired last node
/// moves up as it is.
pub open spec fn level_up(h: Seq<Seq<u8>>) -> Seq<Seq<u8>> {
    Seq::new(
        ((h.len() + 1) / 2) as nat,
        |i: int|
            if 2 * i + 1 < h.len() {
                node_hash(h[2 * i], h[2 * i + 1])
            } else {
                h[2 * i]
            },
    )
}

/// Root over a level of digests: its single node, or the root over the level
/// above it.
pub open spec fn root_of_level(h: Seq<Seq<u8>>) -> Seq<u8>
    decreases h.len(),
{
    if h.len() == 0 {
        Seq::empty()
    } else if h.len() == 1 {
        h[0]
    } else {
        root_of_level(level_up(h))
    }
}

pub open spec fn leaf_hashes(leaves: Seq<Seq<char>>) -> Seq<Seq<u8>> {
    leaves.map_values(|l: Seq<char>| leaf_hash(l))
}

/// The Merkle root of a leaf sequence.
pub open spec fn merkle_root(leaves: Seq<Seq<char>>) -> Seq<u8> {
    root_of_level(leaf_hashes(leaves))
}

pub open spec fn texts(v: Seq<String>) -> Seq<Seq<char>> {
    v.map_values(|s: String| s@)
}

pub open spec fn digests(v: Seq<Vec<u8>>) -> Seq<Seq<u8>> {
    v.map_values(|d: Vec<u8>| d@)
}

/// Whether `n` is a power of two.
pub open spec fn is_pow2(n: nat) -> bool
    decreases n,
{
    if n == 1 {
        true
    } else if n == 0 || n % 2 == 1 {
        false
    } else {
        is_pow2(n / 2)
    }
}

/// Of two powers of two, a smaller one is at most half the larger.
proof fn lemma_pow2_below(p: nat, t: nat)
    requires
        is_pow2(p),
        is_pow2(t),
        p < t,
    ensures
        2 * p <= t,
    decreases t,
{
    if p != 1 {
        lemma_pow2_below(p / 2, t / 2);
    }
}

/// The length `n` pads to: the smallest power of two that is at least `n`.
pub open spec fn padded_len(n: nat, t: nat) -> bool {
    &&& is_pow2(t)
    &&& n <= t
    &&& forall|p: nat| is_pow2(p) && n <= p ==> t <= p
}

fn copy_bytes(b: &Vec<u8>) -> (r: Vec<u8>)
    ensures
        r@ == b@,
{
    let mut r: Vec<u8> = Vec::new();
    let mut i: usize = 0;
    while i < b.len()
        invariant
            i <= b@.len(),
            r@ == b@.subrange(0, i as int),
        decreases b@.len() - i,
    {
        r.push(b[i]);
        i = i + 1;
    }
    r
}

fn concat_bytes(a: &Vec<u8>, b: &Vec<u8>) -> (r: Vec<u8>)
    ensures
        r@ == a@ + b@,
{
    let mut r = copy_bytes(a);
    let mut i: usize = 0;
    while i < b.len()
        invariant
            i <= b@.len(),
            r@ == a@ + b@.subrange(0, i as int),
        decreases b@.len() - i,
    {
        r.push(b[i]);
        i = i + 1;
        assert(b@.subrange(0, i as int) == b@.subrange(0, i - 1).push(b@[i - 1]));
    }
    assert(b@.subrange(0, i as int) =~= b@);
    r
}

/// The level above `level`.
fn combine_level(level: &Vec<Vec<u8>>) -> (r: Vec<Vec<u8>>)
    ensures
        digests(r@) == level_up(digests(level@)),
{
    let ghost h = digests(level@);
    let n = level.len();
    let half = n / 2 + n % 2;
    let mut r: Vec<Vec<u8>> = Vec::new();
    let mut j: usize = 0;
    while j < half
        invariant
            h == digests(level@),
            n == level@.len(),
            half == (n + 1) / 2,
            j <= half,
            digests(r@) == level_up(h).subrange(0, j as int),
        decreases half - j,
    {
        assert(h[2 * j as int] == level@[2 * j as int]@);
        let d = if 2 * j + 1 < n {
            assert(h[2 * j + 1] == level@[2 * j + 1]@);
            let both = concat_bytes(&level[2 * j], &level[2 * j + 1]);
            sha3_256(both.as_slice())
        } else {
            copy_bytes(&level[2 * j])
        };
        assert(d@ == level_up(h)[j as int]);
        let ghost before = r@;
        r.push(d);
        assert(digests(r@) =~= digests(before).push(d@));
        j = j + 1;
        assert(digests(r@) =~= level_up(h).subrange(0, j as int));
    }
    assert(level_up(h).subrange(0, j as int) =~= level_up(h));
    r
}

pub open spec fn level_digests(levels: Seq<Vec<Vec<u8>>>) -> Seq<Seq<Seq<u8>>> {
    levels.map_values(|l: Vec<Vec<u8>>| digests(l@))
}

/// A Merkle tree kept whole: each level of digests, from the leaf digests up
/// to the level that holds the root alone.
pub struct MerkleTree {
    levels: Vec<Vec<Vec<u8>>>,
    leaves: Ghost<Seq<Seq<char>>>,
}

impl MerkleTree {
    /// The leaves the tree was built over.
    pub closed spec fn leaves_view(&self) -> Seq<Seq<char>> {
        self.leaves@
    }

    /// The levels of digests, leaf digests first.
    pub closed spec fn levels_view(&self) -> Seq<Seq<Seq<u8>>> {
        level_digests(self.levels@)
    }

    pub open spec fn wf(&self) -> bool {
        let lv = self.levels_view();
        &&& self.leaves_view().len() > 0
        &&& lv.len() >= 1
        &&& lv[0] == leaf_hashes(self.leaves_view())
        &&& forall|k: int| 0 <= k < lv.len() - 1 ==> #[trigger] lv[k + 1] == level_up(lv[k])
        &&& lv.last().len() == 1
        &&& lv.last()[0] == merkle_root(self.leaves_view())
    }

    /// The root digest.
    pub fn root(&self) -> (r: Vec<u8>)
        requires
            self.wf(),
        ensures
            r@ == merkle_root(self.leaves_view()),
    {
        let top = self.levels.len() - 1;
        assert(self.levels_view()[top as int] == self.levels@[top as int]@.map_values(
            |d: Vec<u8>| d@,
        ));
        copy_bytes(&self.levels[top][0])
    }

    /// The levels, leaf digests first, for writing the tree out.
    pub fn levels(&self) -> (r: &Vec<Vec<Vec<u8>>>)
        ensures
            level_digests(r@) == self.levels_view(),
    {
        &self.levels
    }
}

/// Builds the Merkle tree over the leaves of `data`; `None` when there are no
/// leaves.
pub fn new_tree(data: &CryptoHashData) -> (r: Option<MerkleTree>)
    ensures
        r is Some <==> data@.len() > 0,
        r matches Some(t) ==> t.wf() && t.leaves_view() == data@,
{
    let leaves = data.leaves();
    if leaves.len() == 0 {
        return None;
    }
    let ghost ls = data@;
    let mut level: Vec<Vec<u8>> = Vec::new();
    let mut i: usize = 0;
    while i < leaves.len()
        invariant
            texts(leaves@) == ls,
            i <= leaves@.len(),
            digests(level@) == leaf_hashes(ls).subrange(0, i as int),
        decreases leaves@.len() - i,
    {
        let leaf = leaves[i].as_str();
        let d = sha3_256(leaf.as_bytes());
        assert(ls[i as int] == leaves@[i as int]@);
        let ghost before = level@;
        level.push(d);
        assert(digests(level@) =~= digests(before).push(d@));
        i = i + 1;
        assert(digests(level@) =~= leaf_hashes(ls).subrange(0, i as int));
    }
    assert(leaf_hashes(ls).subrange(0, i as int) =~= leaf_hashes(ls));
    let mut levels: Vec<Vec<Vec<u8>>> = Vec::new();
    while level.len() > 1
        invariant
            ls.len() > 0,
            level@.len() >= 1,
            root_of_level(digests(level@)) == merkle_root(ls),
            levels@.len() == 0 ==> digests(level@) == leaf_hashes(ls),
            levels@.len() > 0 ==> level_digests(levels@)[0] == leaf_hashes(ls) && digests(level@)
                == level_up(level_digests(levels@).last()),
            forall|k: int|
                0 <= k < levels@.len() - 1 ==> #[trigger] level_digests(levels@)[k + 1]
                    == level_up(level_digests(levels@)[k]),
        decreases level@.len(),
    {
        let next = combine_level(&level);
        assert(digests(next@).len() == next@.len());
        assert(digests(level@).len() == level@.len());
        assert(next@.len() >= 1 && next@.len() < level@.len());
        assert(root_of_level(digests(level@)) == root_of_level(digests(next@)));
        let ghost before = levels@;
        let ghost cur = digests(level@);
        levels.push(level);
        assert(level_digests(levels@) =~= level_digests(before).push(cur));
        level = next;
    }
    let ghost before = levels@;
    let ghost cur = digests(level@);
    levels.push(level);
    assert(level_digests(levels@) =~= level_digests(before).push(cur));
    let tree = MerkleTree { levels, leaves: Ghost(ls) };
    assert(tree.levels_view() == level_digests(levels@));
    Some(tree)
}

/// Building the commitment is deterministic: trees built over the same leaf
/// sequence have the same root.
pub proof fn lemma_commitment_deterministic(a: MerkleTree, b: MerkleTree)
    requires
        a.wf(),
        b.wf(),
        a.leaves_view() == b.leaves_view(),
    ensures
        a.levels_view().last()[0] == b.levels_view().last()[0],
        a.levels_view().last()[0] == merkle_root(a.leaves_view()),
{
}

/// The shape of a four-leaf tree, such as three leaves and one filler: the
/// root combines the combined first pair with the combined second pair.
pub proof fn lemma_four_leaf_root(l0: Seq<char>, l1: Seq<char>, l2: Seq<char>, l3: Seq<char>)
    ensures
        merkle_root(seq![l0, l1, l2, l3]) == node_hash(
            node_hash(leaf_hash(l0), leaf_hash(l1)),
            node_hash(leaf_hash(l2), leaf_hash(l3)),
        ),
{
    let h = leaf_hashes(seq![l0, l1, l2, l3]);
    let up = level_up(h);
    let top = level_up(up);
    assert(up.len() == 2);
    assert(top.len() == 1);
    assert(root_of_level(top) == top[0]);
    assert(root_of_level(up) == root_of_level(top));
}

/// Three leaves pad to four, the filler last.
pub proof fn lemma_three_leaves_pad_to_four()
    ensures
        padded_len(3, 4),
{
    assert(is_pow2(1));
    assert(is_pow2(2));
    assert(is_pow2(4));
    assert forall|p: nat| is_pow2(p) && 3 <= p implies 4 <= p by {
        if p == 3 {
            assert(!is_pow2(3));
        }
    }
}

/// The ordered leaves of a commitment, written by one owner.
pub struct CryptoHashData {
    leaves: Vec<String>,
}

impl View for CryptoHashData {
    type V = Seq<Seq<char>>;

    closed spec fn view(&self) -> Seq<Seq<char>> {
        texts(self.leaves@)
    }
}

impl CryptoHashData {
    /// A leaf sequence holding `data`, in order.
    pub fn new(data: Vec<String>) -> (r: CryptoHashData)
        ensures
            r@ == texts(data@),
    {
        CryptoHashData { leaves: data }
    }

    /// Appends one leaf.
    pub fn push(&mut self, leaf: String)
        ensures
            final(self)@ == old(self)@.push(leaf@),
    {
        self.leaves.push(leaf);
        assert(texts(self.leaves@) =~= texts(old(self).leaves@).push(leaf@));
    }

    /// Appends `leaves`, in order.
    pub fn push_vec(&mut self, leaves: Vec<String>)
        ensures
            final(self)@ == old(self)@ + texts(leaves@),
    {
        let ghost added = leaves@;
        let mut leaves = leaves;
        self.leaves.append(&mut leaves);
        assert(texts(self.leaves@) =~= texts(old(self).leaves@) + texts(added));
    }

    /// Number of leaves.
    pub fn len(&self) -> (r: usize)
        ensures
            r == self@.len(),
    {
        self.leaves.len()
    }

    /// Appends filler leaves until the count is the smallest power of two at
    /// least as large; the leaves already there keep their places.
    pub fn pad(&mut self)
        requires
            old(self)@.len() <= usize::MAX / 2 + 1,
        ensures
            padded_len(old(self)@.len(), final(self)@.len()),
            final(self)@.subrange(0, old(self)@.len() as int) == old(self)@,
            forall|i: int|
                old(self)@.len() <= i < final(self)@.len() ==> #[trigger] final(self)@[i]
                    == pad_leaf(),
    {
        let n = self.leaves.len();
        let mut t: usize = 1;
        while t < n
            invariant
                n <= usize::MAX / 2 + 1,
                is_pow2(t as nat),
                t == 1 || t / 2 < n,
                1 <= t,
            decreases usize::MAX - t,
        {
            assert(is_pow2((2 * t) as nat)) by {
                assert((2 * t) as nat / 2 == t);
            }
            t = t * 2;
        }
        proof {
            assert forall|p: nat| is_pow2(p) && n <= p implies t <= p by {
                if p < t {
                    lemma_pow2_below(p, t as nat);
                }
            }
        }
        let ghost start = self.leaves@;
        while self.leaves.len() < t
            invariant
                n == start.len(),
                n <= t,
                n <= self.leaves@.len() <= t,
                self.leaves@.subrange(0, n as int) == start,
                forall|i: int|
                    n <= i < self.leaves@.len() ==> #[trigger] self.leaves@[i]@ == pad_leaf(),
            decreases t - self.leaves@.len(),
        {
            self.leaves.push(String::new());
            assert(self.leaves@.subrange(0, n as int) =~= start);
        }
        assert(texts(self.leaves@).subrange(0, n as int) =~= texts(start));
    }

    /// The leaves, in order.
    pub fn leaves(&self) -> (r: &Vec<String>)
        ensures
            texts(r@) == self@,
    {
        &self.leaves
    }
}

} // verus!
