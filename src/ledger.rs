//! The poll's ledger account: its signing key, its address, the explorer query
//! for its transactions, and the steps that anchor a commitment root.
use vstd::prelude::*;
use vstd::string::*;
use web3::signing::Key;
use crate::codec::{decode_hex, encode_hex, hex_decoded, hex_encoded};

verus! {

/// Where the ledger is reached, the poll's signing key in hex, and the
/// explorer's API key.
#[derive(Clone, Debug)]
pub struct NetworkConfig {
    pub node: String,
    pub key: String,
    pub api: String,
}

/// The order of the secp256k1 group, big-endian.
pub open spec fn curve_order() -> Seq<u8> {
    seq![
        0xffu8, 0xff, 0xff, 0xff, 0xff, 0xff, 0xff, 0xff, 0xff, 0xff, 0xff, 0xff, 0xff, 0xff, 0xff,
        0xfe, 0xba, 0xae, 0xdc, 0xe6, 0xaf, 0x48, 0xa0, 0x3b, 0xbf, 0xd2, 0x5e, 0x8c, 0xd0, 0x36,
        0x41, 0x41,
    ]
}

/// Whether `a` is below `b` as big-endian numbers of the same length.
pub open spec fn be_less(a: Seq<u8>, b: Seq<u8>) -> bool
    decreases a.len(),
{
    if a.len() == 0 || b.len() == 0 {
        false
    } else if a[0] != b[0] {
        a[0] < b[0]
    } else {
        be_less(a.drop_first(), b.drop_first())
    }
}

/// Whether `b` is a secp256k1 secret key: 32 bytes, not zero, below the
/// group order.
pub open spec fn valid_secret_key(b: Seq<u8>) -> bool {
    &&& b.len() == 32
    &&& exists|i: int| 0 <= i < 32 && b[i] != 0
    &&& be_less(b, curve_order())
}

/// The ledger address that a secret key controls.
pub uninterp spec fn address_of_key(key: Seq<u8>) -> Seq<u8>;

/// Relies on `secp256k1::SecretKey::from_slice` (through web3): it accepts
/// exactly 32 bytes that are not zero and are below the group order.
#[verifier::external_body]
fn secret_key_accepts(b: &[u8]) -> (r: bool)
    ensures
        r == valid_secret_key(b@),
{
    web3::signing::SecretKey::from_slice(b).is_ok()
}

/// Relies on web3's `Key::address` for a secret key: the 20-byte address that
/// the key controls.
#[verifier::external_body]
fn key_address(b: &[u8]) -> (r: Vec<u8>)
    requires
        valid_secret_key(b@),
    ensures
        r@ == address_of_key(b@),
        r@.len() == 20,
{
    let key = web3::signing::SecretKey::from_slice(b).unwrap();
    web3::signing::SecretKeyRef::new(&key).address().as_bytes().to_vec()
}

/// Why a configured key was refused.
#[derive(Clone, Copy, Debug, PartialEq, Eq, Structural)]
pub enum KeyError {
    /// The key is not hex.
    NotHex,
    /// The bytes are no secp256k1 secret key.
    InvalidKey,
}

/// A secp256k1 secret key, checked.
pub struct PollKey {
    bytes: Vec<u8>,
}

impl View for PollKey {
    type V = Seq<u8>;

    closed spec fn view(&self) -> Seq<u8> {
        self.bytes@
    }
}

impl PollKey {
    pub open spec fn wf(&self) -> bool {
        valid_secret_key(self@)
    }

    /// The key's bytes.
    pub fn bytes(&self) -> (r: &Vec<u8>)
        ensures
            r@ == self@,
    {
        &self.bytes
    }
}

/// Reads a hex-encoded secret key.
pub fn parse_poll_key(key_hex: &str) -> (r: Result<PollKey, KeyError>)
    ensures
        match r {
            Ok(k) => k.wf() && hex_decoded(key_hex@) == Some(k@),
            Err(KeyError::NotHex) => hex_decoded(key_hex@) is None,
            Err(KeyError::InvalidKey) => hex_decoded(key_hex@) matches Some(b) && !valid_secret_key(
                b,
            ),
        },
{
    match decode_hex(key_hex) {
        None => Err(KeyError::NotHex),
        Some(bytes) => {
            if secret_key_accepts(bytes.as_slice()) {
                Ok(PollKey { bytes })
            } else {
                Err(KeyError::InvalidKey)
            }
        },
    }
}

/// The poll's own ledger address: the one its key controls.
pub fn poll_address(key: &PollKey) -> (r: Vec<u8>)
    requires
        key.wf(),
    ensures
        r@ == address_of_key(key@),
        r@.len() == 20,
{
    key_address(key.bytes.as_slice())
}

/// The explorer query for every transaction of `address`, from the first
/// block on, in ascending ledger order.
pub fn explorer_url(address: &[u8], api: &str) -> (r: String)
    ensures
        r@ == "https://api-ropsten.etherscan.io/api?module=account&action=txlist&address=0x"@
            + hex_encoded(address@) + "&startblock=0&endblock=99999999&sort=asc&apikey="@ + api@,
{
    let mut url = String::from_str(
        "https://api-ropsten.etherscan.io/api?module=account&action=txlist&address=0x",
    );
    let addr = encode_hex(address);
    url.append(addr.as_str());
    url.append("&startblock=0&endblock=99999999&sort=asc&apikey=");
    url.append(api);
    url
}

/// The transaction that anchors a root: sent from the poll's address to
/// itself, with no value, carrying the root as its data.
pub struct AnchorTransaction {
    pub to: Vec<u8>,
    pub data: Vec<u8>,
    pub value: u64,
}

/// The anchoring transaction for `root`, addressed to the poll itself.
pub fn anchor_transaction(key: &PollKey, root: Vec<u8>) -> (r: AnchorTransaction)
    requires
        key.wf(),
    ensures
        r.to@ == address_of_key(key@),
        r.data@ == root@,
        r.value == 0,
{
    AnchorTransaction { to: poll_address(key), data: root, value: 0 }
}

/// Where an anchoring stands.
#[derive(Clone, Copy, Debug, PartialEq, Eq, Structural)]
pub enum AnchorStage {
    Idle,
    GasEstimated,
    Signed,
    Broadcast,
    Failed,
}

/// The outside work that an anchoring asks for next.
#[derive(Clone, Copy, Debug, PartialEq, Eq, Structural)]
pub enum AnchorAction {
    /// Read the latest block and estimate the gas of the transaction.
    EstimateGas,
    /// Sign the transaction with the poll's key.
    Sign,
    /// Send the signed transaction.
    SendRaw,
    /// Nothing more: the anchoring is over.
    Stop,
}

/// The work to do in `stage`.
pub fn anchor_action(stage: AnchorStage) -> (r: AnchorAction)
    ensures
        r == match stage {
            AnchorStage::Idle => AnchorAction::EstimateGas,
            AnchorStage::GasEstimated => AnchorAction::Sign,
            AnchorStage::Signed => AnchorAction::SendRaw,
            AnchorStage::Broadcast | AnchorStage::Failed => AnchorAction::Stop,
        },
{
    match stage {
        AnchorStage::Idle => AnchorAction::EstimateGas,
        AnchorStage::GasEstimated => AnchorAction::Sign,
        AnchorStage::Signed => AnchorAction::SendRaw,
        AnchorStage::Broadcast | AnchorStage::Failed => AnchorAction::Stop,
    }
}

/// The stage after the work of `stage` succeeded (`ok`) or failed: success
/// moves one stage on, any failure ends the anchoring, and a finished
/// anchoring stays as it is.
pub fn anchor_next(stage: AnchorStage, ok: bool) -> (r: AnchorStage)
    ensures
        r == match stage {
            AnchorStage::Broadcast | AnchorStage::Failed => stage,
            _ => if !ok {
                AnchorStage::Failed
            } else {
                match stage {
                    AnchorStage::Idle => AnchorStage::GasEstimated,
                    AnchorStage::GasEstimated => AnchorStage::Signed,
                    _ => AnchorStage::Broadcast,
                }
            },
        },
{
    match stage {
        AnchorStage::Broadcast | AnchorStage::Failed => stage,
        _ => if !ok {
            AnchorStage::Failed
        } else {
            match stage {
                AnchorStage::Idle => AnchorStage::GasEstimated,
                AnchorStage::GasEstimated => AnchorStage::Signed,
                _ => AnchorStage::Broadcast,
            }
        },
    }
}

} // verus!
