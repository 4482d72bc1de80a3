use gibbername::commands::{
    build_transfer_cmd, find_tx_position, has_binding_output, is_registration_tx,
    register_name_cmd, registration_name,
};
use gibbername::resolve::marker;
use gibbername::model::{Coin, Denom, Tx};

fn tx_with_outputs(outputs: Vec<Coin>) -> Tx {
    Tx { hash: b"h".to_vec(), data: Vec::new(), outputs }
}

#[test]
fn marker_is_the_versioned_payload() {
    assert_eq!(marker(), b"gibbername-v1".to_vec());
}

#[test]
fn register_cmd_spells_out_the_mint() {
    let cmd = register_name_cmd(
        "alice",
        "t2k917e3f3r6wk5474sg3exmfpkh04a42w1chmek68fv5pnygywvsg",
        &b"henlo world lmao".to_vec(),
    );
    assert_eq!(
        cmd,
        "melwallet-cli send -w alice --to t2k917e3f3r6wk5474sg3exmfpkh04a42w1chmek68fv5pnygywvsg,0.000001,\"(NEWCUSTOM)\",\"68656e6c6f20776f726c64206c6d616f\" --hex-data 6769626265726e616d652d7631"
    );
}

#[test]
fn transfer_cmd_names_the_chain_denomination() {
    let cmd = build_transfer_cmd(
        "alice",
        "bob",
        &vec![0xde, 0xad, 0xbe, 0xef],
        &b"it is wednesday my dudes".to_vec(),
    );
    assert_eq!(
        cmd,
        "melwallet-cli send -w alice --to bob,0.000001,CUSTOM-deadbeef,6974206973207765646e6573646179206d79206475646573"
    );
}

#[test]
fn registration_is_confirmed_by_the_marker() {
    let mut tx = tx_with_outputs(Vec::new());
    assert!(!is_registration_tx(&tx));
    tx.data = b"gibbername-v1".to_vec();
    assert!(is_registration_tx(&tx));
    tx.data = b"gibbername-v10".to_vec();
    assert!(!is_registration_tx(&tx));
}

#[test]
fn finds_first_matching_hash() {
    let hashes = vec![b"aa".to_vec(), b"bb".to_vec(), b"cc".to_vec(), b"bb".to_vec()];
    assert_eq!(find_tx_position(&hashes, &b"bb".to_vec()), Some(1));
    assert_eq!(find_tx_position(&hashes, &b"aa".to_vec()), Some(0));
    assert_eq!(find_tx_position(&hashes, &b"zz".to_vec()), None);
}

#[test]
fn confirmed_registration_gets_its_coordinate_name() {
    let hashes = vec![b"aa".to_vec(), b"bb".to_vec(), b"cc".to_vec()];
    let name = registration_name(216, &hashes, &b"cc".to_vec());
    assert_eq!(name, Some("lol".to_string()));
    assert_eq!(registration_name(216, &hashes, &b"zz".to_vec()), None);
}

#[test]
fn transfer_is_confirmed_by_the_binding() {
    let tx = tx_with_outputs(vec![
        Coin { denom: Denom::Other, value: 1, additional_data: b"noise".to_vec() },
        Coin { denom: Denom::Other, value: 1, additional_data: b"payload".to_vec() },
    ]);
    assert!(has_binding_output(&tx, &b"payload".to_vec()));
    assert!(!has_binding_output(&tx, &b"missing".to_vec()));
}
