//! The name-resolution engine: genesis validation and custody-chain
//! resolution.
//!
//! A name's genesis transaction mints exactly one fresh coin of value 1 and
//! carries the marker payload; the transaction's signature-free content hash
//! becomes the custody-chain id. Each later link spends the chain's coin and,
//! if it re-mints the denomination, carries the name's next binding in the
//! matched output's auxiliary data. Callers collect the genesis transaction
//! and the forward traversal from the ledger and hand them in as plain
//! values; everything decided about them is decided — and proved — here.
use vstd::prelude::*;
use crate::GibberError;
use crate::model::{Coin, CoinV, DenomV, Tx, TxV, bytes_views, coin_views, tx_views};
use crate::model::{bytes_eq, copy_bytes, denom_is_custom, denom_is_new_custom};

verus! {

/// The marker payload a genesis transaction must carry: the bytes of
/// `gibbername-v1`.
pub open spec fn marker_bytes() -> Seq<u8> {
    seq![103u8, 105u8, 98u8, 98u8, 101u8, 114u8, 110u8, 97u8, 109u8, 101u8, 45u8, 118u8, 49u8]
}

/// The marker payload of a genesis transaction, as bytes: `gibbername-v1`.
pub fn marker() -> (r: Vec<u8>)
    ensures
        r@ == marker_bytes(),
{
    let mut r: Vec<u8> = Vec::new();
    r.push(103u8);
    r.push(105u8);
    r.push(98u8);
    r.push(98u8);
    r.push(101u8);
    r.push(114u8);
    r.push(110u8);
    r.push(97u8);
    r.push(109u8);
    r.push(101u8);
    r.push(45u8);
    r.push(118u8);
    r.push(49u8);
    proof {
        assert(r@ =~= marker_bytes());
    }
    r
}

/// The index of the first element satisfying `p`, if any.
pub open spec fn first_where<A>(s: Seq<A>, p: spec_fn(A) -> bool) -> Option<int>
    decreases s.len(),
{
    if s.len() == 0 {
        None
    } else if p(s.first()) {
        Some(0)
    } else {
        match first_where(s.drop_first(), p) {
            Some(j) => Some(j + 1),
            None => None,
        }
    }
}

/// What `first_where` returns: the index it yields holds the first element
/// satisfying `p`, and it yields nothing only when no element satisfies `p`.
pub proof fn lemma_first_where<A>(s: Seq<A>, p: spec_fn(A) -> bool)
    ensures
        match first_where(s, p) {
            Some(j) => 0 <= j < s.len() && p(s[j]) && forall|k: int| 0 <= k < j ==> !p(s[k]),
            None => forall|k: int| 0 <= k < s.len() ==> !p(s[k]),
        },
    decreases s.len(),
{
    if s.len() != 0 && !p(s.first()) {
        let t = s.drop_first();
        lemma_first_where(t, p);
        match first_where(t, p) {
            Some(j) => {
                assert(t[j] == s[j + 1]);
                assert forall|k: int| 0 <= k < j + 1 implies !p(s[k]) by {
                    if k > 0 {
                        assert(t[k - 1] == s[k]);
                    }
                }
            },
            None => {
                assert forall|k: int| 0 <= k < s.len() implies !p(s[k]) by {
                    if k > 0 {
                        assert(t[k - 1] == s[k]);
                    }
                }
            },
        }
    }
}

/// Whether a coin is a fresh mint.
pub open spec fn is_new_custom(c: CoinV) -> bool {
    c.denom is NewCustom
}

/// The position of the first freshly-minted output.
pub open spec fn first_new_custom(outs: Seq<CoinV>) -> Option<int> {
    first_where(outs, |c: CoinV| is_new_custom(c))
}

/// The position of the first output of the chain's own denomination.
pub open spec fn first_custom(outs: Seq<CoinV>, id: Seq<u8>) -> Option<int> {
    first_where(outs, |c: CoinV| c.denom == DenomV::Custom(id))
}

/// How many outputs are fresh mints.
pub open spec fn count_new_custom(outs: Seq<CoinV>) -> int
    decreases outs.len(),
{
    if outs.len() == 0 {
        0
    } else {
        count_new_custom(outs.drop_last()) + if is_new_custom(outs.last()) {
            1int
        } else {
            0int
        }
    }
}

/// A sequence none of whose elements is a fresh mint has none to count.
proof fn lemma_count_new_custom_none(outs: Seq<CoinV>)
    requires
        forall|k: int| 0 <= k < outs.len() ==> !is_new_custom(outs[k]),
    ensures
        count_new_custom(outs) == 0,
    decreases outs.len(),
{
    if outs.len() != 0 {
        lemma_count_new_custom_none(outs.drop_last());
    }
}

/// A well-formed genesis transaction: the exact marker payload, and exactly
/// one freshly-minted output, of value exactly 1.
pub open spec fn genesis_wf(tx: TxV) -> bool {
    &&& tx.data == marker_bytes()
    &&& genesis_outputs_wf(tx.outputs)
}

/// The output rule of a genesis transaction, on its own.
pub open spec fn genesis_outputs_wf(outs: Seq<CoinV>) -> bool {
    &&& count_new_custom(outs) == 1
    &&& match first_new_custom(outs) {
        Some(j) => outs[j].value == 1,
        None => false,
    }
}

/// The custody-chain id a genesis transaction defines: its signature-free
/// content hash, which tags every later coin of the chain.
pub open spec fn chain_id(genesis: TxV) -> Seq<u8> {
    genesis.hash
}

/// The binding a never-spent name resolves to: the auxiliary data of the
/// genesis transaction's minted output.
pub open spec fn genesis_binding(genesis: TxV) -> Seq<u8> {
    genesis.outputs[first_new_custom(genesis.outputs).unwrap()].additional_data
}

/// The position of the first freshly-minted output, or none.
pub fn find_new_custom(outs: &Vec<Coin>) -> (r: Option<usize>)
    ensures
        match r {
            Some(j) => first_new_custom(coin_views(outs@)) == Some(j as int),
            None => first_new_custom(coin_views(outs@)) is None,
        },
{
    let ghost vs = coin_views(outs@);
    let ghost p = |c: CoinV| is_new_custom(c);
    let mut i: usize = 0;
    while i < outs.len()
        invariant
            0 <= i <= outs@.len(),
            vs == coin_views(outs@),
            p == (|c: CoinV| is_new_custom(c)),
            vs.len() == outs@.len(),
            forall|k: int| 0 <= k < i ==> !p(vs[k]),
        decreases outs@.len() - i,
    {
        if denom_is_new_custom(&outs[i].denom) {
            proof {
                assert(vs[i as int] == outs@[i as int]@);
                assert(p(vs[i as int]));
                lemma_first_where(vs, p);
            }
            return Some(i);
        }
        i = i + 1;
    }
    proof {
        lemma_first_where(vs, p);
    }
    None
}

/// The position of the first output of the chain's denomination, or none.
pub fn find_custom(outs: &Vec<Coin>, id: &Vec<u8>) -> (r: Option<usize>)
    ensures
        match r {
            Some(j) => first_custom(coin_views(outs@), id@) == Some(j as int),
            None => first_custom(coin_views(outs@), id@) is None,
        },
{
    let ghost vs = coin_views(outs@);
    let ghost p = |c: CoinV| c.denom == DenomV::Custom(id@);
    let mut i: usize = 0;
    while i < outs.len()
        invariant
            0 <= i <= outs@.len(),
            vs == coin_views(outs@),
            p == (|c: CoinV| c.denom == DenomV::Custom(id@)),
            vs.len() == outs@.len(),
            forall|k: int| 0 <= k < i ==> !p(vs[k]),
        decreases outs@.len() - i,
    {
        if denom_is_custom(&outs[i].denom, id) {
            proof {
                assert(vs[i as int] == outs@[i as int]@);
                assert(p(vs[i as int]));
                lemma_first_where(vs, p);
            }
            return Some(i);
        }
        i = i + 1;
    }
    proof {
        lemma_first_where(vs, p);
    }
    None
}

/// How many outputs are fresh mints.
fn count_new_custom_exec(outs: &Vec<Coin>) -> (r: usize)
    ensures
        r == count_new_custom(coin_views(outs@)),
{
    let ghost vs = coin_views(outs@);
    let mut count: usize = 0;
    let mut i: usize = 0;
    while i < outs.len()
        invariant
            0 <= i <= outs@.len(),
            vs == coin_views(outs@),
            vs.len() == outs@.len(),
            count == count_new_custom(vs.take(i as int)),
            count <= i,
        decreases outs@.len() - i,
    {
        if denom_is_new_custom(&outs[i].denom) {
            count = count + 1;
        }
        i = i + 1;
        proof {
            assert(vs.take(i as int).drop_last() =~= vs.take(i as int - 1));
            assert(vs.take(i as int).last() == vs[i as int - 1]);
        }
    }
    proof {
        assert(vs.take(vs.len() as int) =~= vs);
    }
    count
}

/// The output a forward traversal follows out of `tx` on the chain `id`: the
/// first output of the chain's denomination by position — counting a fresh
/// mint only on the genesis transaction itself, whose hash is the chain id.
pub open spec fn traversal_match(tx: TxV, id: Seq<u8>) -> Option<int> {
    if tx.hash == id {
        first_where(tx.outputs, |c: CoinV| c.denom == DenomV::Custom(id) || is_new_custom(c))
    } else {
        first_custom(tx.outputs, id)
    }
}

/// The position of the first output of the chain's denomination, counting a
/// fresh mint too.
fn find_chain_coin(outs: &Vec<Coin>, id: &Vec<u8>) -> (r: Option<usize>)
    ensures
        match r {
            Some(j) => first_where(
                coin_views(outs@),
                |c: CoinV| c.denom == DenomV::Custom(id@) || is_new_custom(c),
            ) == Some(j as int),
            None => first_where(
                coin_views(outs@),
                |c: CoinV| c.denom == DenomV::Custom(id@) || is_new_custom(c),
            ) is None,
        },
{
    let ghost vs = coin_views(outs@);
    let ghost p = |c: CoinV| c.denom == DenomV::Custom(id@) || is_new_custom(c);
    let mut i: usize = 0;
    while i < outs.len()
        invariant
            0 <= i <= outs@.len(),
            vs == coin_views(outs@),
            p == (|c: CoinV| c.denom == DenomV::Custom(id@) || is_new_custom(c)),
            vs.len() == outs@.len(),
            forall|k: int| 0 <= k < i ==> !p(vs[k]),
        decreases outs@.len() - i,
    {
        if denom_is_custom(&outs[i].denom, id) || denom_is_new_custom(&outs[i].denom) {
            proof {
                assert(vs[i as int] == outs@[i as int]@);
                assert(p(vs[i as int]));
                lemma_first_where(vs, p);
            }
            return Some(i);
        }
        proof {
            assert(vs[i as int] == outs@[i as int]@);
        }
        i = i + 1;
    }
    proof {
        lemma_first_where(vs, p);
    }
    None
}

/// The matched-output predicate handed to the ledger's forward traversal.
///
/// The resolver's continuation rule and the traversal must use this one
/// predicate: their disagreement is what the broken-chain failure reports,
/// and sharing it rules that out by construction.
pub fn chain_match_index(tx: &Tx, id: &Vec<u8>) -> (r: Option<usize>)
    ensures
        match r {
            Some(j) => traversal_match(tx@, id@) == Some(j as int),
            None => traversal_match(tx@, id@) is None,
        },
{
    if bytes_eq(&tx.hash, id) {
        find_chain_coin(&tx.outputs, id)
    } else {
        find_custom(&tx.outputs, id)
    }
}

/// Whether a custody link re-mints the chain's denomination, continuing the
/// chain.
pub open spec fn link_continues(link: TxV, id: Seq<u8>) -> bool {
    first_custom(link.outputs, id) is Some
}

/// The binding a custody link carries: the auxiliary data of its first output
/// of the chain's denomination.
pub open spec fn link_binding(link: TxV, id: Seq<u8>) -> Seq<u8> {
    link.outputs[first_custom(link.outputs, id).unwrap()].additional_data
}

/// The first custody link that fails to re-mint the denomination, if any.
pub open spec fn first_broken_link(links: Seq<TxV>, id: Seq<u8>) -> Option<int> {
    first_where(links, |t: TxV| !link_continues(t, id))
}

/// What resolving a name's current binding returns, given its validated
/// genesis transaction and the chain of spends walked forward from it.
///
/// With no link the name still sits on its genesis coin; otherwise the final
/// link either re-mints the denomination and carries the current binding, or
/// the name was deleted.
pub open spec fn resolve_latest_spec(genesis: TxV, links: Seq<TxV>) -> Result<Seq<u8>, GibberError> {
    if links.len() == 0 {
        Ok(genesis_binding(genesis))
    } else if link_continues(links.last(), chain_id(genesis)) {
        Ok(link_binding(links.last(), chain_id(genesis)))
    } else {
        Err(GibberError::Deleted)
    }
}

/// The full binding history of an unbroken chain: the genesis binding, then
/// each link's binding, in chain order.
pub open spec fn history_bindings(genesis: TxV, links: Seq<TxV>) -> Seq<Seq<u8>> {
    seq![genesis_binding(genesis)] + links.map_values(|t: TxV| link_binding(t, chain_id(genesis)))
}

/// What resolving a name's full history returns.
///
/// A link that fails to re-mint the denomination ends the chain: as the final
/// link it is a deletion, while anywhere earlier it means the walked chain and
/// the continuation rule disagree — an inconsistency reported as a broken
/// chain rather than silently truncated.
pub open spec fn resolve_history_spec(genesis: TxV, links: Seq<TxV>) -> Result<
    Seq<Seq<u8>>,
    GibberError,
> {
    match first_broken_link(links, chain_id(genesis)) {
        None => Ok(history_bindings(genesis, links)),
        Some(i) => if i == links.len() - 1 {
            Err(GibberError::Deleted)
        } else {
            Err(GibberError::BrokenChain)
        },
    }
}

/// Resolves the current binding of a name from its validated genesis
/// transaction and the custody links walked forward from it.
pub fn resolve_latest(genesis: &Tx, links: &Vec<Tx>) -> (r: Result<Vec<u8>, GibberError>)
    requires
        genesis_wf(genesis@),
    ensures
        ({
            let s = resolve_latest_spec(genesis@, tx_views(links@));
            match r {
                Ok(b) => s == Ok::<Seq<u8>, GibberError>(b@),
                Err(e) => s == Err::<Seq<u8>, GibberError>(e),
            }
        }),
{
    let id = copy_bytes(&genesis.hash);
    if links.len() == 0 {
        match find_new_custom(&genesis.outputs) {
            Some(j) => {
                proof {
                    lemma_first_where(coin_views(genesis.outputs@), |c: CoinV| is_new_custom(c));
                    assert(coin_views(genesis.outputs@)[j as int] == genesis.outputs@[j as int]@);
                }
                Ok(copy_bytes(&genesis.outputs[j].additional_data))
            },
            None => {
                proof {
                    assert(false);
                }
                Err(GibberError::NotFound)
            },
        }
    } else {
        let last = &links[links.len() - 1];
        proof {
            assert(tx_views(links@)[links@.len() - 1] == links@[links@.len() - 1]@);
            assert(tx_views(links@).last() == last@);
        }
        match find_custom(&last.outputs, &id) {
            Some(j) => {
                proof {
                    lemma_first_where(
                        coin_views(last.outputs@),
                        |c: CoinV| c.denom == DenomV::Custom(id@),
                    );
                    assert(coin_views(last.outputs@)[j as int] == last.outputs@[j as int]@);
                }
                Ok(copy_bytes(&last.outputs[j].additional_data))
            },
            None => Err(GibberError::Deleted),
        }
    }
}

/// Resolves the full binding history of a name from its validated genesis
/// transaction and the custody links walked forward from it.
pub fn resolve_history(genesis: &Tx, links: &Vec<Tx>) -> (r: Result<Vec<Vec<u8>>, GibberError>)
    requires
        genesis_wf(genesis@),
    ensures
        ({
            let s = resolve_history_spec(genesis@, tx_views(links@));
            match r {
                Ok(h) => s == Ok::<Seq<Seq<u8>>, GibberError>(bytes_views(h@)),
                Err(e) => s == Err::<Seq<Seq<u8>>, GibberError>(e),
            }
        }),
{
    let id = copy_bytes(&genesis.hash);
    let mut ret: Vec<Vec<u8>> = Vec::new();
    match find_new_custom(&genesis.outputs) {
        Some(j) => {
            proof {
                lemma_first_where(coin_views(genesis.outputs@), |c: CoinV| is_new_custom(c));
                assert(coin_views(genesis.outputs@)[j as int] == genesis.outputs@[j as int]@);
            }
            ret.push(copy_bytes(&genesis.outputs[j].additional_data));
        },
        None => {
            proof {
                assert(false);
            }
            return Err(GibberError::NotFound);
        },
    }
    let ghost lvs = tx_views(links@);
    let ghost p = |t: TxV| !link_continues(t, chain_id(genesis@));
    let mut i: usize = 0;
    while i < links.len()
        invariant
            0 <= i <= links@.len(),
            lvs == tx_views(links@),
            lvs.len() == links@.len(),
            p == (|t: TxV| !link_continues(t, chain_id(genesis@))),
            genesis_wf(genesis@),
            id@ == chain_id(genesis@),
            forall|k: int| 0 <= k < i ==> !p(lvs[k]),
            ret@.len() == i + 1,
            ret@[0]@ == genesis_binding(genesis@),
            forall|k: int| 0 <= k < i ==> ret@[k + 1]@ == link_binding(lvs[k], chain_id(genesis@)),
        decreases links@.len() - i,
    {
        let link = &links[i];
        proof {
            assert(lvs[i as int] == links@[i as int]@);
        }
        match find_custom(&link.outputs, &id) {
            Some(j) => {
                proof {
                    lemma_first_where(
                        coin_views(link.outputs@),
                        |c: CoinV| c.denom == DenomV::Custom(id@),
                    );
                    assert(coin_views(link.outputs@)[j as int] == link.outputs@[j as int]@);
                }
                ret.push(copy_bytes(&link.outputs[j].additional_data));
            },
            None => {
                proof {
                    assert(p(lvs[i as int]));
                    lemma_first_where(lvs, p);
                    assert(first_broken_link(lvs, chain_id(genesis@)) == Some(i as int));
                }
                if i == links.len() - 1 {
                    return Err(GibberError::Deleted);
                } else {
                    return Err(GibberError::BrokenChain);
                }
            },
        }
        i = i + 1;
    }
    proof {
        lemma_first_where(lvs, p);
        assert(first_broken_link(lvs, chain_id(genesis@)) is None);
        assert forall|k: int| 0 <= k < bytes_views(ret@).len() implies bytes_views(ret@)[k]
            == history_bindings(genesis@, lvs)[k] by {
            assert(bytes_views(ret@)[k] == ret@[k]@);
            if k > 0 {
                assert(history_bindings(genesis@, lvs)[k] == lvs.map_values(
                    |t: TxV| link_binding(t, chain_id(genesis@)),
                )[k - 1]);
            }
        }
        assert(bytes_views(ret@) =~= history_bindings(genesis@, lvs));
    }
    Ok(ret)
}

/// A name whose genesis coin was never spent resolves to the genesis output's
/// auxiliary data, and its history is exactly that one binding.
pub proof fn lemma_unspent_chain(genesis: TxV)
    requires
        genesis_wf(genesis),
    ensures
        resolve_latest_spec(genesis, Seq::<TxV>::empty()) == Ok::<Seq<u8>, GibberError>(
            genesis_binding(genesis),
        ),
        resolve_history_spec(genesis, Seq::<TxV>::empty()) == Ok::<Seq<Seq<u8>>, GibberError>(
            seq![genesis_binding(genesis)],
        ),
{
    let links = Seq::<TxV>::empty();
    assert(first_broken_link(links, chain_id(genesis)) is None);
    assert(history_bindings(genesis, links) =~= seq![genesis_binding(genesis)]);
}

/// A chain whose every link re-mints the denomination resolves to the final
/// link's binding, and its history lists the genesis binding and then each
/// link's binding, in chain order.
pub proof fn lemma_chain_with_links(genesis: TxV, links: Seq<TxV>)
    requires
        genesis_wf(genesis),
        links.len() > 0,
        forall|k: int| 0 <= k < links.len() ==> link_continues(#[trigger] links[k], chain_id(genesis)),
    ensures
        resolve_latest_spec(genesis, links) == Ok::<Seq<u8>, GibberError>(
            link_binding(links.last(), chain_id(genesis)),
        ),
        resolve_history_spec(genesis, links) is Ok,
        resolve_history_spec(genesis, links).unwrap().len() == links.len() + 1,
        resolve_history_spec(genesis, links).unwrap()[0] == genesis_binding(genesis),
        forall|k: int| 0 <= k < links.len() ==> resolve_history_spec(genesis, links).unwrap()[k + 1]
            == link_binding(#[trigger] links[k], chain_id(genesis)),
{
    let id = chain_id(genesis);
    let p = |t: TxV| !link_continues(t, id);
    lemma_first_where(links, p);
    match first_broken_link(links, id) {
        Some(j) => {
            assert(p(links[j]));
        },
        None => {},
    }
    assert(first_broken_link(links, id) is None);
    let h = history_bindings(genesis, links);
    assert forall|k: int| 0 <= k < links.len() implies h[k + 1] == link_binding(
        #[trigger] links[k],
        id,
    ) by {
        assert(h[k + 1] == links.map_values(|t: TxV| link_binding(t, id))[k]);
    }
}

/// A chain whose final link does not re-mint the denomination — and is the
/// only one that does not — was deleted: both resolutions say so.
pub proof fn lemma_deleted_chain(genesis: TxV, links: Seq<TxV>)
    requires
        genesis_wf(genesis),
        links.len() > 0,
        forall|k: int| 0 <= k < links.len() - 1 ==> link_continues(
            #[trigger] links[k],
            chain_id(genesis),
        ),
        !link_continues(links.last(), chain_id(genesis)),
    ensures
        resolve_latest_spec(genesis, links) == Err::<Seq<u8>, GibberError>(GibberError::Deleted),
        resolve_history_spec(genesis, links) == Err::<Seq<Seq<u8>>, GibberError>(
            GibberError::Deleted,
        ),
{
    let id = chain_id(genesis);
    let p = |t: TxV| !link_continues(t, id);
    lemma_first_where(links, p);
    assert(p(links[links.len() - 1]));
    assert(first_broken_link(links, id) == Some(links.len() - 1));
}

/// A non-final link that does not re-mint the denomination is an internal
/// inconsistency: the history resolution reports a broken chain.
pub proof fn lemma_broken_chain(genesis: TxV, links: Seq<TxV>, i: int)
    requires
        genesis_wf(genesis),
        0 <= i < links.len() - 1,
        !link_continues(links[i], chain_id(genesis)),
    ensures
        resolve_history_spec(genesis, links) == Err::<Seq<Seq<u8>>, GibberError>(
            GibberError::BrokenChain,
        ),
{
    let id = chain_id(genesis);
    let p = |t: TxV| !link_continues(t, id);
    lemma_first_where(links, p);
    assert(p(links[i]));
    match first_broken_link(links, id) {
        Some(j) => {
            assert(j <= i);
        },
        None => {},
    }
}

/// The resolver's continuation rule and the traversal's matched-output
/// predicate agree: on a chain whose every non-final link was matched by the
/// walk — as every link the walk continued through was — the history
/// resolution never reports a broken chain.
pub proof fn lemma_traversal_agreement(genesis: TxV, links: Seq<TxV>)
    requires
        genesis_wf(genesis),
        forall|k: int| 0 <= k < links.len() - 1 ==> (#[trigger] links[k]).hash != chain_id(genesis)
            && traversal_match(links[k], chain_id(genesis)) is Some,
    ensures
        resolve_history_spec(genesis, links) != Err::<Seq<Seq<u8>>, GibberError>(
            GibberError::BrokenChain,
        ),
{
    let id = chain_id(genesis);
    let p = |t: TxV| !link_continues(t, id);
    lemma_first_where(links, p);
    match first_broken_link(links, id) {
        Some(j) => {
            assert(p(links[j]));
            assert(j == links.len() - 1);
        },
        None => {},
    }
}

/// Resolution is a function of the ledger data alone: two resolutions of the
/// same chain — in particular, concurrent ones against the same ledger height
/// — return the same answer.
pub proof fn lemma_resolution_deterministic(
    genesis: TxV,
    links: Seq<TxV>,
    r1: Result<Seq<u8>, GibberError>,
    r2: Result<Seq<u8>, GibberError>,
)
    requires
        r1 == resolve_latest_spec(genesis, links),
        r2 == resolve_latest_spec(genesis, links),
    ensures
        r1 == r2,
{
}

/// The two resolutions agree: whenever the full history resolves, its final
/// entry is exactly the current binding.
pub proof fn lemma_history_matches_latest(genesis: TxV, links: Seq<TxV>)
    requires
        genesis_wf(genesis),
        resolve_history_spec(genesis, links) is Ok,
    ensures
        resolve_latest_spec(genesis, links) == Ok::<Seq<u8>, GibberError>(
            resolve_history_spec(genesis, links).unwrap().last(),
        ),
{
    let id = chain_id(genesis);
    let p = |t: TxV| !link_continues(t, id);
    lemma_first_where(links, p);
    let h = history_bindings(genesis, links);
    if links.len() == 0 {
        assert(h.last() == genesis_binding(genesis));
    } else {
        assert(first_broken_link(links, id) is None);
        assert(!p(links[links.len() - 1]));
        assert(h.last() == links.map_values(|t: TxV| link_binding(t, id))[links.len() - 1]);
    }
}

/// Validates a genesis transaction.
///
/// Succeeds exactly on well-formed genesis transactions; a wrong marker is
/// [`GibberError::BadMarker`], and with the marker right, a wrong output set
/// is [`GibberError::BadOutputs`].
pub fn validate_genesis(tx: &Tx) -> (r: Result<(), GibberError>)
    ensures
        r is Ok <==> genesis_wf(tx@),
        r == Err::<(), GibberError>(GibberError::BadMarker) <==> tx@.data != marker_bytes(),
        r == Err::<(), GibberError>(GibberError::BadOutputs) <==> (tx@.data == marker_bytes()
            && !genesis_outputs_wf(tx@.outputs)),
{
    let marker_payload = marker();
    if !bytes_eq(&tx.data, &marker_payload) {
        return Err(GibberError::BadMarker);
    }
    let count = count_new_custom_exec(&tx.outputs);
    if count != 1 {
        return Err(GibberError::BadOutputs);
    }
    match find_new_custom(&tx.outputs) {
        Some(j) => {
            proof {
                lemma_first_where(coin_views(tx.outputs@), |c: CoinV| is_new_custom(c));
                assert(coin_views(tx.outputs@)[j as int] == tx.outputs@[j as int]@);
            }
            if tx.outputs[j].value == 1 {
                Ok(())
            } else {
                Err(GibberError::BadOutputs)
            }
        },
        None => {
            proof {
                lemma_first_where(coin_views(tx.outputs@), |c: CoinV| is_new_custom(c));
                lemma_count_new_custom_none(coin_views(tx.outputs@));
            }
            Err(GibberError::BadOutputs)
        },
    }
}

} // verus!
