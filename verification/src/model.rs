//! Plain-value model of the ledger data the resolver reads.
//!
//! A transaction on the ledger carries much more than the naming layer ever
//! looks at; these types hold exactly the fields the logic reads — the
//! signature-free content hash, the data payload, and the outputs — so that
//! every rule about them can be verified. Callers convert the ledger client's
//! transaction type into [`Tx`] field by field.
use vstd::prelude::*;

verus! {

/// Token-type tag of an output, as far as the naming layer distinguishes it.
#[derive(Debug, Clone)]
pub enum Denom {
    /// Mints a fresh unique token class in this transaction.
    NewCustom,
    /// References an existing token class by the content hash that minted it.
    Custom(Vec<u8>),
    /// Any denomination the naming layer does not care about.
    Other,
}

/// Mathematical image of a [`Denom`].
pub enum DenomV {
    NewCustom,
    Custom(Seq<u8>),
    Other,
}

impl View for Denom {
    type V = DenomV;

    open spec fn view(&self) -> DenomV {
        match self {
            Denom::NewCustom => DenomV::NewCustom,
            Denom::Custom(h) => DenomV::Custom(h@),
            Denom::Other => DenomV::Other,
        }
    }
}

/// One output of a transaction: a once-spendable coin.
#[derive(Debug, Clone)]
pub struct Coin {
    /// The coin's token class.
    pub denom: Denom,
    /// The coin's face value.
    pub value: u128,
    /// The auxiliary payload; for custody-chain coins, the name's binding.
    pub additional_data: Vec<u8>,
}

/// Mathematical image of a [`Coin`].
pub struct CoinV {
    pub denom: DenomV,
    pub value: u128,
    pub additional_data: Seq<u8>,
}

impl View for Coin {
    type V = CoinV;

    open spec fn view(&self) -> CoinV {
        CoinV {
            denom: self.denom@,
            value: self.value,
            additional_data: self.additional_data@,
        }
    }
}

/// The slice of a ledger transaction the naming layer reads.
#[derive(Debug, Clone)]
pub struct Tx {
    /// The transaction's content hash with signatures excluded.
    pub hash: Vec<u8>,
    /// The transaction's data payload (the genesis marker lives here).
    pub data: Vec<u8>,
    /// The outputs, in ledger order.
    pub outputs: Vec<Coin>,
}

/// Mathematical image of a [`Tx`].
pub struct TxV {
    pub hash: Seq<u8>,
    pub data: Seq<u8>,
    pub outputs: Seq<CoinV>,
}

/// The views of a sequence of coins, element by element.
pub open spec fn coin_views(s: Seq<Coin>) -> Seq<CoinV> {
    s.map_values(|c: Coin| c@)
}

impl View for Tx {
    type V = TxV;

    open spec fn view(&self) -> TxV {
        TxV { hash: self.hash@, data: self.data@, outputs: coin_views(self.outputs@) }
    }
}

/// The views of a sequence of transactions, element by element.
pub open spec fn tx_views(s: Seq<Tx>) -> Seq<TxV> {
    s.map_values(|t: Tx| t@)
}

/// The views of a sequence of byte vectors, element by element.
pub open spec fn bytes_views(s: Seq<Vec<u8>>) -> Seq<Seq<u8>> {
    s.map_values(|b: Vec<u8>| b@)
}

/// Byte-for-byte equality of two byte vectors.
pub fn bytes_eq(a: &Vec<u8>, b: &Vec<u8>) -> (r: bool)
    ensures
        r == (a@ == b@),
{
    if a.len() != b.len() {
        return false;
    }
    let mut i: usize = 0;
    while i < a.len()
        invariant
            0 <= i <= a@.len(),
            a@.len() == b@.len(),
            forall|k: int| 0 <= k < i ==> a@[k] == b@[k],
        decreases a@.len() - i,
    {
        if a[i] != b[i] {
            return false;
        }
        i = i + 1;
    }
    proof {
        assert(a@ =~= b@);
    }
    true
}

/// A fresh copy of a byte vector.
pub fn copy_bytes(src: &Vec<u8>) -> (r: Vec<u8>)
    ensures
        r@ == src@,
{
    let mut r: Vec<u8> = Vec::new();
    let mut i: usize = 0;
    while i < src.len()
        invariant
            0 <= i <= src@.len(),
            r@ == src@.take(i as int),
        decreases src@.len() - i,
    {
        r.push(src[i]);
        i = i + 1;
        proof {
            assert(r@ =~= src@.take(i as int));
        }
    }
    proof {
        assert(src@.take(src@.len() as int) =~= src@);
    }
    r
}

/// Whether the denomination is the fresh-mint tag.
pub fn denom_is_new_custom(d: &Denom) -> (r: bool)
    ensures
        r == (d@ is NewCustom),
{
    match d {
        Denom::NewCustom => true,
        Denom::Custom(_) => false,
        Denom::Other => false,
    }
}

/// Whether the denomination references the token class minted by the
/// transaction whose content hash is `id`.
pub fn denom_is_custom(d: &Denom, id: &Vec<u8>) -> (r: bool)
    ensures
        r == (d@ == DenomV::Custom(id@)),
{
    match d {
        Denom::Custom(h) => bytes_eq(h, id),
        Denom::NewCustom => false,
        Denom::Other => false,
    }
}

} // verus!
