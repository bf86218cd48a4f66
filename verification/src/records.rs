use vstd::prelude::*;
use crate::eth_address::EthAddress;
use crate::text::wf_text;

verus! {

/// An opaque receipt/log proof bundle. A pure value type with a zero/default
/// value: all integers 0, all byte sequences empty.
#[derive(Debug, Clone)]
pub struct Proof {
    pub log_index: u64,
    pub log_entry_data: Vec<u8>,
    pub receipt_index: u64,
    pub receipt_data: Vec<u8>,
    pub header_data: Vec<u8>,
    pub proof: Vec<Vec<u8>>,
}

/// The mathematical model of a [`Proof`].
#[verifier::ext_equal]
pub ghost struct ProofV {
    pub log_index: u64,
    pub log_entry_data: Seq<u8>,
    pub receipt_index: u64,
    pub receipt_data: Seq<u8>,
    pub header_data: Seq<u8>,
    pub proof: Seq<Seq<u8>>,
}

impl View for Proof {
    type V = ProofV;

    open spec fn view(&self) -> ProofV {
        ProofV {
            log_index: self.log_index,
            log_entry_data: self.log_entry_data@,
            receipt_index: self.receipt_index,
            receipt_data: self.receipt_data@,
            header_data: self.header_data@,
            proof: self.proof.deep_view(),
        }
    }
}

impl Default for Proof {
    /// The zero proof: integers 0, every sequence empty.
    fn default() -> (r: Proof)
        ensures
            r.log_index == 0,
            r.receipt_index == 0,
            r@.log_entry_data == Seq::<u8>::empty(),
            r@.receipt_data == Seq::<u8>::empty(),
            r@.header_data == Seq::<u8>::empty(),
            r@.proof == Seq::<Seq<u8>>::empty(),
    {
        let r = Proof {
            log_index: 0,
            log_entry_data: Vec::new(),
            receipt_index: 0,
            receipt_data: Vec::new(),
            header_data: Vec::new(),
            proof: Vec::new(),
        };
        proof {
            assert(r@.proof =~= Seq::<Seq<u8>>::empty());
        }
        r
    }
}

/// The Ethereum-side half of a transfer: a validated account identifier for
/// the NEAR-side token, the Ethereum token address, and the amount.
#[derive(Debug, Clone)]
pub struct TransferDataEthereum {
    pub token_near: String,
    pub token_eth: EthAddress,
    pub amount: u128,
}

/// The mathematical model of a [`TransferDataEthereum`].
#[verifier::ext_equal]
pub ghost struct TransferDataEthereumV {
    pub token_near: Seq<char>,
    pub token_eth: Seq<u8>,
    pub amount: u128,
}

impl View for TransferDataEthereum {
    type V = TransferDataEthereumV;

    open spec fn view(&self) -> TransferDataEthereumV {
        TransferDataEthereumV {
            token_near: self.token_near@,
            token_eth: self.token_eth@,
            amount: self.amount,
        }
    }
}

impl TransferDataEthereumV {
    pub open spec fn wf(self) -> bool {
        wf_text(self.token_near) && self.token_eth.len() == 20
    }
}

/// The NEAR-side fee: a validated account identifier and the amount.
#[derive(Debug, Clone)]
pub struct TransferDataNear {
    pub token: String,
    pub amount: u128,
}

/// The mathematical model of a [`TransferDataNear`].
#[verifier::ext_equal]
pub ghost struct TransferDataNearV {
    pub token: Seq<char>,
    pub amount: u128,
}

impl View for TransferDataNear {
    type V = TransferDataNearV;

    open spec fn view(&self) -> TransferDataNearV {
        TransferDataNearV { token: self.token@, amount: self.amount }
    }
}

impl TransferDataNearV {
    pub open spec fn wf(self) -> bool {
        wf_text(self.token)
    }
}

/// A transfer order. The two trailing optional fields are a versioned
/// suffix: byte streams written by an older binary layout lack one or both,
/// and decoding such a stream yields `None` for the missing fields.
#[derive(Debug, Clone)]
pub struct TransferMessage {
    pub valid_till: u64,
    pub transfer: TransferDataEthereum,
    pub fee: TransferDataNear,
    pub recipient: EthAddress,
    pub valid_till_block_height: Option<u64>,
    pub aurora_sender: Option<EthAddress>,
}

/// The mathematical model of a [`TransferMessage`].
#[verifier::ext_equal]
pub ghost struct TransferMessageV {
    pub valid_till: u64,
    pub transfer: TransferDataEthereumV,
    pub fee: TransferDataNearV,
    pub recipient: Seq<u8>,
    pub valid_till_block_height: Option<u64>,
    pub aurora_sender: Option<Seq<u8>>,
}

impl View for TransferMessage {
    type V = TransferMessageV;

    open spec fn view(&self) -> TransferMessageV {
        TransferMessageV {
            valid_till: self.valid_till,
            transfer: self.transfer@,
            fee: self.fee@,
            recipient: self.recipient@,
            valid_till_block_height: self.valid_till_block_height,
            aurora_sender: match self.aurora_sender {
                Some(a) => Some(a@),
                None => None,
            },
        }
    }
}

impl TransferMessageV {
    pub open spec fn wf(self) -> bool {
        &&& self.transfer.wf()
        &&& self.fee.wf()
        &&& self.recipient.len() == 20
        &&& (self.aurora_sender matches Some(a) ==> a.len() == 20)
    }
}

impl PartialEq for TransferDataEthereum {
    fn eq(&self, other: &TransferDataEthereum) -> (r: bool) {
        let r = self.token_near == other.token_near && self.token_eth == other.token_eth
            && self.amount == other.amount;
        proof {
            if r {
                assert(self@ =~= other@);
            }
        }
        r
    }
}

impl vstd::std_specs::cmp::PartialEqSpecImpl for TransferDataEthereum {
    open spec fn obeys_eq_spec() -> bool {
        true
    }

    open spec fn eq_spec(&self, other: &TransferDataEthereum) -> bool {
        self@ == other@
    }
}

impl PartialEq for TransferDataNear {
    fn eq(&self, other: &TransferDataNear) -> (r: bool) {
        let r = self.token == other.token && self.amount == other.amount;
        proof {
            if r {
                assert(self@ =~= other@);
            }
        }
        r
    }
}

impl vstd::std_specs::cmp::PartialEqSpecImpl for TransferDataNear {
    open spec fn obeys_eq_spec() -> bool {
        true
    }

    open spec fn eq_spec(&self, other: &TransferDataNear) -> bool {
        self@ == other@
    }
}

impl PartialEq for TransferMessage {
    fn eq(&self, other: &TransferMessage) -> (r: bool) {
        let r = self.valid_till == other.valid_till && self.transfer == other.transfer && self.fee
            == other.fee && self.recipient == other.recipient && self.valid_till_block_height
            == other.valid_till_block_height && self.aurora_sender == other.aurora_sender;
        proof {
            if r {
                assert(self@ =~= other@);
            }
        }
        r
    }
}

impl vstd::std_specs::cmp::PartialEqSpecImpl for TransferMessage {
    open spec fn obeys_eq_spec() -> bool {
        true
    }

    open spec fn eq_spec(&self, other: &TransferMessage) -> bool {
        self@ == other@
    }
}

impl PartialEq for Proof {
    fn eq(&self, other: &Proof) -> (r: bool) {
        let r = self.log_index == other.log_index && self.log_entry_data == other.log_entry_data
            && self.receipt_index == other.receipt_index && self.receipt_data
            == other.receipt_data && self.header_data == other.header_data && self.proof
            == other.proof;
        proof {
            if r {
                assert(self.log_entry_data@ =~= other.log_entry_data@);
                assert(self.receipt_data@ =~= other.receipt_data@);
                assert(self.header_data@ =~= other.header_data@);
                assert forall|i: int| 0 <= i < self.proof@.len() implies self.proof.deep_view()[i]
                    == other.proof.deep_view()[i] by {
                    assert(self.proof@[i]@ =~= other.proof@[i]@);
                }
                assert(self.proof.deep_view() =~= other.proof.deep_view());
                assert(self@ =~= other@);
            } else {
                if self@ == other@ {
                    assert(self.log_entry_data@ == other.log_entry_data@);
                    assert(self.receipt_data@ == other.receipt_data@);
                    assert(self.header_data@ == other.header_data@);
                    assert(self.proof.deep_view().len() == other.proof.deep_view().len());
                    assert forall|i: int| 0 <= i < self.proof@.len() implies self.proof@[i]@
                        =~= other.proof@[i]@ by {
                        assert(self.proof.deep_view()[i] == other.proof.deep_view()[i]);
                        assert(self.proof.deep_view()[i] =~= self.proof@[i]@);
                        assert(other.proof.deep_view()[i] =~= other.proof@[i]@);
                    }
                    assert(false);
                }
            }
        }
        r
    }
}

impl vstd::std_specs::cmp::PartialEqSpecImpl for Proof {
    open spec fn obeys_eq_spec() -> bool {
        true
    }

    open spec fn eq_spec(&self, other: &Proof) -> bool {
        self@ == other@
    }
}

} // verus!
