use gibbername::model::{Coin, Denom, Tx};
use gibbername::resolve::{
    chain_match_index, resolve_history, resolve_latest, validate_genesis,
};
use gibbername::GibberError;

fn coin(denom: Denom, value: u128, data: &[u8]) -> Coin {
    Coin { denom, value, additional_data: data.to_vec() }
}

fn genesis_tx(hash: &[u8], binding: &[u8]) -> Tx {
    Tx {
        hash: hash.to_vec(),
        data: b"gibbername-v1".to_vec(),
        outputs: vec![coin(Denom::NewCustom, 1, binding)],
    }
}

fn link_tx(hash: &[u8], chain: &[u8], binding: &[u8]) -> Tx {
    Tx {
        hash: hash.to_vec(),
        data: Vec::new(),
        outputs: vec![coin(Denom::Custom(chain.to_vec()), 1, binding)],
    }
}

#[test]
fn accepts_well_formed_genesis() {
    let g = genesis_tx(b"g", b"first");
    assert_eq!(validate_genesis(&g), Ok(()));
}

#[test]
fn rejects_wrong_marker() {
    let mut g = genesis_tx(b"g", b"first");
    g.data = b"gibbername-v2".to_vec();
    assert_eq!(validate_genesis(&g), Err(GibberError::BadMarker));
    g.data = Vec::new();
    assert_eq!(validate_genesis(&g), Err(GibberError::BadMarker));
}

#[test]
fn rejects_zero_minted_outputs() {
    let mut g = genesis_tx(b"g", b"first");
    g.outputs = vec![coin(Denom::Other, 1, b"first")];
    assert_eq!(validate_genesis(&g), Err(GibberError::BadOutputs));
}

#[test]
fn rejects_two_minted_outputs() {
    let mut g = genesis_tx(b"g", b"first");
    g.outputs = vec![coin(Denom::NewCustom, 1, b"first"), coin(Denom::NewCustom, 1, b"second")];
    assert_eq!(validate_genesis(&g), Err(GibberError::BadOutputs));
}

#[test]
fn rejects_minted_output_of_wrong_value() {
    let mut g = genesis_tx(b"g", b"first");
    g.outputs = vec![coin(Denom::NewCustom, 2, b"first")];
    assert_eq!(validate_genesis(&g), Err(GibberError::BadOutputs));
}

#[test]
fn genesis_only_chain_resolves_to_genesis_binding() {
    let g = genesis_tx(b"g", b"first");
    let links: Vec<Tx> = Vec::new();
    assert_eq!(resolve_latest(&g, &links), Ok(b"first".to_vec()));
    assert_eq!(resolve_history(&g, &links), Ok(vec![b"first".to_vec()]));
}

#[test]
fn chain_with_links_resolves_to_final_binding() {
    let g = genesis_tx(b"g", b"first");
    let links = vec![link_tx(b"l1", b"g", b"second"), link_tx(b"l2", b"g", b"third")];
    assert_eq!(resolve_latest(&g, &links), Ok(b"third".to_vec()));
    assert_eq!(
        resolve_history(&g, &links),
        Ok(vec![b"first".to_vec(), b"second".to_vec(), b"third".to_vec()])
    );
}

#[test]
fn final_link_without_remint_is_deleted() {
    let g = genesis_tx(b"g", b"first");
    let mut last = link_tx(b"l2", b"g", b"gone");
    last.outputs = vec![coin(Denom::Other, 1, b"gone")];
    let links = vec![link_tx(b"l1", b"g", b"second"), last];
    assert_eq!(resolve_latest(&g, &links), Err(GibberError::Deleted));
    assert_eq!(resolve_history(&g, &links), Err(GibberError::Deleted));
}

#[test]
fn immediate_spend_without_remint_is_deleted() {
    let g = genesis_tx(b"g", b"first");
    let mut only = link_tx(b"l1", b"g", b"gone");
    only.outputs = Vec::new();
    let links = vec![only];
    assert_eq!(resolve_latest(&g, &links), Err(GibberError::Deleted));
    assert_eq!(resolve_history(&g, &links), Err(GibberError::Deleted));
}

#[test]
fn broken_middle_link_fails_history() {
    let g = genesis_tx(b"g", b"first");
    let mut middle = link_tx(b"l1", b"g", b"lost");
    middle.outputs = vec![coin(Denom::Other, 1, b"lost")];
    let links = vec![middle, link_tx(b"l2", b"g", b"third")];
    assert_eq!(resolve_history(&g, &links), Err(GibberError::BrokenChain));
}

#[test]
fn first_matching_output_wins() {
    let g = genesis_tx(b"g", b"first");
    let mut link = link_tx(b"l1", b"g", b"unused");
    link.outputs = vec![
        coin(Denom::Other, 1, b"noise"),
        coin(Denom::Custom(b"g".to_vec()), 1, b"winner"),
        coin(Denom::Custom(b"g".to_vec()), 1, b"loser"),
    ];
    let links = vec![link];
    assert_eq!(resolve_latest(&g, &links), Ok(b"winner".to_vec()));
}

#[test]
fn matcher_follows_mint_only_on_genesis() {
    let id = b"g".to_vec();
    let g = genesis_tx(b"g", b"first");
    assert_eq!(chain_match_index(&g, &id), Some(0));

    // a fresh mint in a later transaction starts a different chain
    let mut stranger = genesis_tx(b"other", b"noise");
    stranger.data = Vec::new();
    assert_eq!(chain_match_index(&stranger, &id), None);

    let link = link_tx(b"l1", b"g", b"second");
    assert_eq!(chain_match_index(&link, &id), Some(0));

    let other_chain = link_tx(b"l1", b"h", b"second");
    assert_eq!(chain_match_index(&other_chain, &id), None);
}

#[test]
fn resolution_is_deterministic() {
    let g = genesis_tx(b"g", b"first");
    let links = vec![link_tx(b"l1", b"g", b"second")];
    let first_answer = resolve_latest(&g, &links);
    let second_answer = resolve_latest(&g, &links);
    assert_eq!(first_answer, second_answer);
    assert_eq!(resolve_history(&g, &links), resolve_history(&g, &links));
}

#[test]
fn registered_then_transferred_name_end_to_end() {
    let gname = gibbername::codec::encode_gibbername(216, 2);
    assert_eq!(gname, "lol");
    assert_eq!(gibbername::codec::decode_gibbername("lol"), Ok((216, 2)));

    let g = genesis_tx(b"gen", b"henlo world lmao");
    assert_eq!(validate_genesis(&g), Ok(()));
    let no_links: Vec<Tx> = Vec::new();
    assert_eq!(resolve_latest(&g, &no_links), Ok(b"henlo world lmao".to_vec()));

    let links = vec![link_tx(b"l1", b"gen", b"it is wednesday my dudes")];
    assert_eq!(resolve_latest(&g, &links), Ok(b"it is wednesday my dudes".to_vec()));
    assert_eq!(
        resolve_history(&g, &links),
        Ok(vec![b"henlo world lmao".to_vec(), b"it is wednesday my dudes".to_vec()])
    );
}
