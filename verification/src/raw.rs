//! What crosses the boundary to a node in another language, without the pointers.

use vstd::prelude::*;

use crate::mempool::bytes_of;
use crate::reap::reaped;
use crate::tx::{MempoolTx, TxRecord};

verus! {

broadcast use vstd::std_specs::hash::group_hash_axioms;

/// A borrowed slice; `None` is the null pointer.
#[derive(Clone, Copy, Debug)]
pub struct RawSlice<'a> {
    pub ptr: Option<&'a [u8]>,
}

impl<'a> View for RawSlice<'a> {
    type V = Seq<u8>;

    open spec fn view(&self) -> Seq<u8> {
        match self.ptr {
            Some(bytes) => bytes@,
            None => Seq::empty(),
        }
    }
}

impl<'a> RawSlice<'a> {
    /// Whether this is the null pointer.
    pub open spec fn is_null(self) -> bool {
        self.ptr is None
    }

    /// The null pointer.
    pub fn null() -> (slice: RawSlice<'a>)
        ensures
            slice.is_null(),
            slice@ == Seq::<u8>::empty(),
    {
        RawSlice { ptr: None }
    }

    /// The bytes that are pointed to.
    pub fn as_bytes(&self) -> (bytes: &'a [u8])
        requires
            !self.is_null(),
        ensures
            bytes@ == self@,
    {
        self.ptr.unwrap()
    }
}

impl<'a> From<&'a [u8]> for RawSlice<'a> {
    fn from(tx: &'a [u8]) -> (slice: RawSlice<'a>) {
        RawSlice { ptr: Some(tx) }
    }
}

impl<'a> vstd::std_specs::convert::FromSpecImpl<&'a [u8]> for RawSlice<'a> {
    open spec fn obeys_from_spec() -> bool {
        true
    }

    open spec fn from_spec(tx: &'a [u8]) -> RawSlice<'a> {
        RawSlice { ptr: Some(tx) }
    }
}

/// A raw transaction.
pub type RawTx<'a> = RawSlice<'a>;

/// What some raw slices hold.
pub open spec fn raw_bytes(slices: Seq<RawSlice>) -> Seq<Seq<u8>> {
    slices.map_values(|slice: RawSlice| slice@)
}

/// Slices that the node owns; `None` is the null pointer.
#[derive(Debug)]
pub struct GoRawSlices<'a> {
    pub ptr: Option<Vec<RawSlice<'a>>>,
}

impl<'a> View for GoRawSlices<'a> {
    type V = Seq<Seq<u8>>;

    open spec fn view(&self) -> Seq<Seq<u8>> {
        match self.ptr {
            Some(slices) => raw_bytes(slices@),
            None => Seq::empty(),
        }
    }
}

impl<'a> GoRawSlices<'a> {
    /// Whether none of the slices is the null pointer.
    pub open spec fn no_null_inside(self) -> bool {
        self.ptr matches Some(slices) ==> forall|i: int|
            0 <= i < slices@.len() ==> !(#[trigger] slices@[i]).is_null()
    }

    /// The slices that are pointed to; none where the pointer is null.
    pub fn to_vec(&self) -> (txs: Vec<&'a [u8]>)
        requires
            self.no_null_inside(),
        ensures
            bytes_of(txs@) == self@,
    {
        let mut txs: Vec<&'a [u8]> = Vec::new();
        if let Some(slices) = &self.ptr {
            let mut i: usize = 0;
            while i < slices.len()
                invariant
                    0 <= i <= slices.len(),
                    forall|j: int| 0 <= j < slices@.len() ==> !(#[trigger] slices@[j]).is_null(),
                    bytes_of(txs@) == raw_bytes(slices@).take(i as int),
                decreases slices.len() - i,
            {
                let ghost earlier = txs@;
                let bytes = slices[i].as_bytes();
                txs.push(bytes);
                assert(bytes_of(txs@) == bytes_of(earlier).push(bytes@));
                i = i + 1;
            }
        }
        txs
    }
}

/// Raw transactions that the node owns.
pub type RawTxs<'a> = GoRawSlices<'a>;

/// Slices that the pool hands out; they point into the pool.
#[derive(Debug)]
pub struct RustRawSlices<'a> {
    pub slices: Vec<RawSlice<'a>>,
}

impl<'a> View for RustRawSlices<'a> {
    type V = Seq<Seq<u8>>;

    open spec fn view(&self) -> Seq<Seq<u8>> {
        raw_bytes(self.slices@)
    }
}

impl<'a> RustRawSlices<'a> {
    /// Whether none of the slices is the null pointer.
    pub open spec fn no_null_inside(self) -> bool {
        forall|i: int| 0 <= i < self.slices@.len() ==> !(#[trigger] self.slices@[i]).is_null()
    }

    /// The raw transactions of `txs`.
    pub fn from_txs(txs: Vec<&'a MempoolTx>) -> (slices: RustRawSlices<'a>)
        ensures
            slices@ == reaped(txs@).map_values(|tx: TxRecord| tx.tx),
            slices.slices@.len() == txs@.len(),
            forall|i: int|
                0 <= i < txs@.len() ==> ((#[trigger] slices.slices@[i]).ptr matches Some(bytes)
                    && bytes@ == txs@[i].tx@),
            slices.no_null_inside(),
    {
        let mut slices: Vec<RawSlice<'a>> = Vec::new();
        let mut i: usize = 0;
        while i < txs.len()
            invariant
                0 <= i <= txs.len(),
                slices@.len() == i,
                forall|j: int|
                    0 <= j < i ==> !(#[trigger] slices@[j]).is_null() && slices@[j]@ == txs@[j].tx@,
            decreases txs.len() - i,
        {
            slices.push(RawSlice::from(txs[i].tx.as_slice()));
            i = i + 1;
        }
        RustRawSlices { slices }
    }
}

/// Raw transactions that the pool hands out.
pub type RustRawTxs<'a> = RustRawSlices<'a>;

/// A transaction of the pool as it is handed out.
#[derive(Debug)]
pub struct RawMempoolTx<'a> {
    pub height: i64,
    pub gas_wanted: i64,
    /// Points into the pool.
    pub raw_tx: RawSlice<'a>,
    /// The numbers of the peers that sent the transaction; `None` is the null pointer.
    pub senders: Option<Vec<u16>>,
}

impl<'a> RawMempoolTx<'a> {
    /// Whether this stands for no transaction.
    pub open spec fn is_null(self) -> bool {
        &&& self.height == 0
        &&& self.gas_wanted == 0
        &&& self.raw_tx.is_null()
        &&& self.senders is None
    }

    /// What stands for no transaction.
    pub fn null() -> (tx: RawMempoolTx<'a>)
        ensures
            tx.is_null(),
    {
        RawMempoolTx { height: 0, gas_wanted: 0, raw_tx: RawSlice::null(), senders: None }
    }

    /// Whether this stands for the transaction `tx`. The senders come in any order.
    pub open spec fn stands_for(self, tx: TxRecord) -> bool {
        &&& self.height == tx.height
        &&& self.gas_wanted == tx.gas_wanted
        &&& !self.raw_tx.is_null()
        &&& self.raw_tx@ == tx.tx
        &&& self.senders matches Some(senders) && {
            &&& senders@.no_duplicates()
            &&& senders@.to_set() == tx.senders.dom()
        }
    }
}

impl<'a> From<&'a MempoolTx> for RawMempoolTx<'a> {
    fn from(mem_tx: &'a MempoolTx) -> (tx: RawMempoolTx<'a>)
        ensures
            tx.stands_for(mem_tx@),
            tx.height == mem_tx.height,
            tx.gas_wanted == mem_tx.gas_wanted,
            tx.raw_tx.ptr matches Some(bytes) && bytes@ == mem_tx.tx@,
            tx.senders matches Some(senders) && senders@.to_set() == mem_tx.senders@.dom(),
    {
        let mut senders: Vec<u16> = Vec::new();
        for peer_id in it: mem_tx.senders.keys()
            invariant
                senders@ == it.seq().unref().take(it.index()),
                it.seq().unref().to_set() == mem_tx.senders@.dom(),
                it.seq().no_duplicates(),
                it.index() == it.seq().len() ==> senders@ == it.seq().unref(),
                senders@.no_duplicates(),
        {
            senders.push(*peer_id);
        }
        RawMempoolTx {
            height: mem_tx.height,
            gas_wanted: mem_tx.gas_wanted,
            raw_tx: RawSlice::from(mem_tx.tx.as_slice()),
            senders: Some(senders),
        }
    }
}

impl<'a> vstd::std_specs::convert::FromSpecImpl<&'a MempoolTx> for RawMempoolTx<'a> {
    open spec fn obeys_from_spec() -> bool {
        false
    }

    open spec fn from_spec(mem_tx: &'a MempoolTx) -> RawMempoolTx<'a> {
        arbitrary()
    }
}

} // verus!
