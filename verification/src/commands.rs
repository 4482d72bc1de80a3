//! The registration and transfer coordinators' decisions.
//!
//! Registering or transferring a name is done by an external wallet: the
//! library only builds the single-line instruction handed to that wallet, and
//! decides, for each transaction later observed on the owner's address,
//! whether it confirms the operation — and, for a registration, which
//! gibbername the confirming transaction's coordinate encodes. The feed
//! itself is the caller's: it performs the waiting and hands each observed
//! transaction in as a plain value.
use vstd::prelude::*;
use vstd::string::StringExecFns;
use crate::codec::{encode_gibbername, gibber_encoding};
use crate::hexstr::{hex_encode, hex_of};
use crate::model::{CoinV, Tx, bytes_eq, bytes_views, coin_views};
use crate::resolve::{first_where, lemma_first_where, marker, marker_bytes};

verus! {

/// The wallet instruction that mints a new name: it pays one unit of a fresh
/// custom denomination to the owner, carries the initial binding as the
/// coin's auxiliary data, and the genesis marker as the transaction data.
pub open spec fn register_cmd_spec(wallet: Seq<char>, address: Seq<char>, binding: Seq<u8>) -> Seq<
    char,
> {
    "melwallet-cli send -w "@ + wallet + " --to "@ + address + ",0.000001,\"(NEWCUSTOM)\",\""@
        + hex_of(binding) + "\" --hex-data "@ + hex_of(marker_bytes())
}

/// Builds the wallet instruction that registers a new name for `address`
/// with `initial_binding` as its first bound value.
pub fn register_name_cmd(wallet_name: &str, address: &str, initial_binding: &Vec<u8>) -> (r: String)
    ensures
        r@ == register_cmd_spec(wallet_name@, address@, initial_binding@),
{
    let mut cmd = String::new();
    cmd.append("melwallet-cli send -w ");
    cmd.append(wallet_name);
    cmd.append(" --to ");
    cmd.append(address);
    cmd.append(",0.000001,\"(NEWCUSTOM)\",\"");
    let hex_binding = hex_encode(initial_binding);
    cmd.append(hex_binding.as_str());
    cmd.append("\" --hex-data ");
    let marker_payload = marker();
    let hex_marker = hex_encode(&marker_payload);
    cmd.append(hex_marker.as_str());
    proof {
        assert(cmd@ =~= register_cmd_spec(wallet_name@, address@, initial_binding@));
    }
    cmd
}

/// The wallet instruction that updates a name's binding: it spends the
/// chain's coin onward, paying one unit of the chain's own denomination to
/// the new owner with the new binding as auxiliary data.
pub open spec fn transfer_cmd_spec(
    wallet: Seq<char>,
    address: Seq<char>,
    id: Seq<u8>,
    binding: Seq<u8>,
) -> Seq<char> {
    "melwallet-cli send -w "@ + wallet + " --to "@ + address + ",0.000001,CUSTOM-"@ + hex_of(id)
        + ","@ + hex_of(binding)
}

/// Builds the wallet instruction that moves the name of custody chain
/// `chain_id` to `address`, binding `new_binding`.
pub fn build_transfer_cmd(
    wallet_name: &str,
    address: &str,
    chain_id: &Vec<u8>,
    new_binding: &Vec<u8>,
) -> (r: String)
    ensures
        r@ == transfer_cmd_spec(wallet_name@, address@, chain_id@, new_binding@),
{
    let mut cmd = String::new();
    cmd.append("melwallet-cli send -w ");
    cmd.append(wallet_name);
    cmd.append(" --to ");
    cmd.append(address);
    cmd.append(",0.000001,CUSTOM-");
    let hex_id = hex_encode(chain_id);
    cmd.append(hex_id.as_str());
    cmd.append(",");
    let hex_binding = hex_encode(new_binding);
    cmd.append(hex_binding.as_str());
    proof {
        assert(cmd@ =~= transfer_cmd_spec(wallet_name@, address@, chain_id@, new_binding@));
    }
    cmd
}

/// Whether an observed transaction confirms a registration: it carries the
/// exact genesis marker as its data payload.
pub fn is_registration_tx(tx: &Tx) -> (r: bool)
    ensures
        r == (tx@.data == marker_bytes()),
{
    let marker_payload = marker();
    bytes_eq(&tx.data, &marker_payload)
}

/// The position of the first hash equal to `target`, if any.
pub open spec fn first_hash_match(hashes: Seq<Seq<u8>>, target: Seq<u8>) -> Option<int> {
    first_where(hashes, |h: Seq<u8>| h == target)
}

/// The position of the confirming transaction within its block: the first
/// entry of the block's hash list equal to `target`.
pub fn find_tx_position(hashes: &Vec<Vec<u8>>, target: &Vec<u8>) -> (r: Option<usize>)
    ensures
        match r {
            Some(j) => first_hash_match(bytes_views(hashes@), target@) == Some(j as int),
            None => first_hash_match(bytes_views(hashes@), target@) is None,
        },
{
    let ghost vs = bytes_views(hashes@);
    let ghost p = |h: Seq<u8>| h == target@;
    let mut i: usize = 0;
    while i < hashes.len()
        invariant
            0 <= i <= hashes@.len(),
            vs == bytes_views(hashes@),
            p == (|h: Seq<u8>| h == target@),
            vs.len() == hashes@.len(),
            forall|k: int| 0 <= k < i ==> !p(vs[k]),
        decreases hashes@.len() - i,
    {
        if bytes_eq(&hashes[i], target) {
            proof {
                assert(vs[i as int] == hashes@[i as int]@);
                assert(p(vs[i as int]));
                lemma_first_where(vs, p);
            }
            return Some(i);
        }
        i = i + 1;
    }
    proof {
        lemma_first_where(vs, p);
    }
    None
}

/// The gibbername a confirmed registration receives: the coordinate of the
/// confirming transaction — its block height and its position within the
/// block's hash list — encoded by the identifier codec. Yields nothing when
/// the hash is not in the list.
pub fn registration_name(height: u64, block_tx_hashes: &Vec<Vec<u8>>, txhash: &Vec<u8>) -> (r:
    Option<String>)
    requires
        block_tx_hashes@.len() <= u32::MAX,
    ensures
        match r {
            Some(name) => first_hash_match(bytes_views(block_tx_hashes@), txhash@) is Some
                && name@ == gibber_encoding(
                height as u128,
                first_hash_match(bytes_views(block_tx_hashes@), txhash@).unwrap() as u128,
            ),
            None => first_hash_match(bytes_views(block_tx_hashes@), txhash@) is None,
        },
{
    match find_tx_position(block_tx_hashes, txhash) {
        Some(j) => {
            proof {
                lemma_first_where(bytes_views(block_tx_hashes@), |h: Seq<u8>| h == txhash@);
            }
            Some(encode_gibbername(height, j as u32))
        },
        None => None,
    }
}

/// Whether an observed transaction confirms a transfer: some output carries
/// exactly the expected binding as its auxiliary data.
pub open spec fn has_output_with_data(outs: Seq<CoinV>, data: Seq<u8>) -> bool {
    exists|k: int| 0 <= k < outs.len() && outs[k].additional_data == data
}

/// Whether any output of `tx` carries exactly `binding` as auxiliary data.
pub fn has_binding_output(tx: &Tx, binding: &Vec<u8>) -> (r: bool)
    ensures
        r == has_output_with_data(tx@.outputs, binding@),
{
    let mut i: usize = 0;
    while i < tx.outputs.len()
        invariant
            0 <= i <= tx.outputs@.len(),
            forall|k: int| 0 <= k < i ==> coin_views(tx.outputs@)[k].additional_data != binding@,
        decreases tx.outputs@.len() - i,
    {
        if bytes_eq(&tx.outputs[i].additional_data, binding) {
            proof {
                assert(coin_views(tx.outputs@)[i as int] == tx.outputs@[i as int]@);
                assert(coin_views(tx.outputs@)[i as int].additional_data == binding@);
            }
            return true;
        }
        proof {
            assert(coin_views(tx.outputs@)[i as int] == tx.outputs@[i as int]@);
        }
        i = i + 1;
    }
    false
}

} // verus!
