//! The message type registry: dispatching a raw message on its service
//! id and message type, for peer and consensus messages and for the
//! ledger's own transactions. An unknown combination is rejected before
//! any field of the body is read.

use vstd::prelude::*;

use crate::bytesutil::{le16, le32, le64, read_bytes, read_u16_le, read_u32_le, read_u64_le};
use crate::crypto::{PublicKey, PublicKeySodium, SIGNATURE_LENGTH};
use crate::encoding::EncodingError;
use crate::messages::{RawMessage, HEADER_LENGTH};
use crate::transactions::add_assets::{add_decode_ok, AddAssets};
use crate::transactions::ask_offer::{askoffer_decode_ok, AskOffer};
use crate::transactions::bid_offer::{bidoffer_decode_ok, BidOffer};
use crate::transactions::components::{ADD_ASSETS_ID, ASK_OFFER_ID, BID_OFFER_ID,
    DELETE_ASSETS_ID, EXCHANGE_ID, EXCHANGE_INTERMEDIARY_ID, SERVICE_ID, TRADE_ID,
    TRADE_INTERMEDIARY_ID, TRANSFER_FEES_PAYER_ID, TRANSFER_ID};
use crate::transactions::delete_assets::{delete_decode_ok, DeleteAssets};
use crate::transactions::exchange::{exchange_decode_ok, Exchange};
use crate::transactions::exchange_intermediary::{exin_decode_ok, ExchangeIntermediary};
use crate::transactions::trade::{trade_decode_ok, Trade};
use crate::transactions::trade_intermediary::{trade_int_decode_ok, TradeIntermediary};
use crate::transactions::transfer::{transfer_decode_ok, Transfer};
use crate::transactions::transfer_fees_payers::{twfp_decode_ok, TransferWithFeesPayer};

verus! {

/// The id of the consensus service.
pub const CONSENSUS: u16 = 0;

/// Message id of a peer `connect`.
pub const CONNECT_MESSAGE_ID: u16 = 0;

/// Message id of a peer `status`.
pub const STATUS_MESSAGE_ID: u16 = 1;

/// Message id of a consensus `propose`.
pub const PROPOSE_MESSAGE_ID: u16 = 2;

/// Message id of a consensus `prevote`.
pub const PREVOTE_MESSAGE_ID: u16 = 3;

/// Message id of a consensus `precommit`.
pub const PRECOMMIT_MESSAGE_ID: u16 = 4;

/// Message id of a block response.
pub const BLOCK_RESPONSE_MESSAGE_ID: u16 = 5;

/// Message id of a propose request.
pub const PROPOSE_REQUEST_MESSAGE_ID: u16 = 6;

/// Message id of a transactions request.
pub const TRANSACTIONS_REQUEST_MESSAGE_ID: u16 = 7;

/// Message id of a prevotes request.
pub const PREVOTES_REQUEST_MESSAGE_ID: u16 = 8;

/// Message id of a peers request.
pub const PEERS_REQUEST_MESSAGE_ID: u16 = 9;

/// Message id of a block request.
pub const BLOCK_REQUEST_MESSAGE_ID: u16 = 10;

/// Reads the sender key of a request message.
fn request_from(raw: &RawMessage) -> (r: PublicKey)
    requires
        raw@.len() >= HEADER_LENGTH + 64 + SIGNATURE_LENGTH,
    ensures
        r@ == raw@.subrange(HEADER_LENGTH as int, HEADER_LENGTH + 32),
        r.wf(),
{
    let bytes = read_bytes(&raw.0.raw, HEADER_LENGTH, HEADER_LENGTH + 32);
    PublicKey(PublicKeySodium { bytes })
}

/// Reads the recipient key of a request message.
fn request_to(raw: &RawMessage) -> (r: PublicKey)
    requires
        raw@.len() >= HEADER_LENGTH + 64 + SIGNATURE_LENGTH,
    ensures
        r@ == raw@.subrange(HEADER_LENGTH + 32, HEADER_LENGTH + 64),
        r.wf(),
{
    let bytes = read_bytes(&raw.0.raw, HEADER_LENGTH + 32, HEADER_LENGTH + 64);
    PublicKey(PublicKeySodium { bytes })
}

/// A peer `connect` message.
#[derive(Debug)]
pub struct Connect(pub RawMessage);

/// A peer `status` message.
#[derive(Debug)]
pub struct Status(pub RawMessage);

/// A block response message.
#[derive(Debug)]
pub struct BlockResponse(pub RawMessage);

/// A consensus `propose` vote.
#[derive(Debug)]
pub struct Propose(pub RawMessage);

/// A consensus `prevote` vote.
#[derive(Debug)]
pub struct Prevote(pub RawMessage);

/// A consensus `precommit` vote.
#[derive(Debug)]
pub struct Precommit(pub RawMessage);

/// A propose request.
#[derive(Debug)]
pub struct ProposeRequest(pub RawMessage);

/// A transactions request.
#[derive(Debug)]
pub struct TransactionsRequest(pub RawMessage);

/// A prevotes request.
#[derive(Debug)]
pub struct PrevotesRequest(pub RawMessage);

/// A peers request.
#[derive(Debug)]
pub struct PeersRequest(pub RawMessage);

/// A block request.
#[derive(Debug)]
pub struct BlockRequest(pub RawMessage);

/// Any possible message: a peer message, a consensus vote, a request,
/// or a service transaction passed through raw.
#[derive(Debug)]
pub enum Any {
    /// `Connect` message.
    Connect(Connect),
    /// `Status` message.
    Status(Status),
    /// `Block` message.
    Block(BlockResponse),
    /// Consensus message.
    Consensus(ConsensusMessage),
    /// Request for some data.
    Request(RequestMessage),
    /// Transaction.
    Transaction(RawMessage),
}

/// A consensus vote message.
#[derive(Debug)]
pub enum ConsensusMessage {
    /// `Propose` message.
    Propose(Propose),
    /// `Prevote` message.
    Prevote(Prevote),
    /// `Precommit` message.
    Precommit(Precommit),
}

/// A request for some data.
#[derive(Debug)]
pub enum RequestMessage {
    /// Propose request.
    Propose(ProposeRequest),
    /// Transactions request.
    Transactions(TransactionsRequest),
    /// Prevotes request.
    Prevotes(PrevotesRequest),
    /// Peers request.
    Peers(PeersRequest),
    /// Block request.
    Block(BlockRequest),
}

impl ConsensusMessage {
    /// The raw message underneath.
    pub open spec fn spec_raw(&self) -> Seq<u8> {
        match self {
            ConsensusMessage::Propose(m) => m.0@,
            ConsensusMessage::Prevote(m) => m.0@,
            ConsensusMessage::Precommit(m) => m.0@,
        }
    }

    /// Whether the vote is long enough for its fields.
    pub open spec fn wf(&self) -> bool {
        self.spec_raw().len() >= HEADER_LENGTH + 14 + SIGNATURE_LENGTH
    }

    /// The id of the validator that sent the vote.
    pub fn validator(&self) -> (r: u16)
        requires
            self.wf(),
        ensures
            r == le16(self.spec_raw(), HEADER_LENGTH as int),
    {
        match self {
            ConsensusMessage::Propose(m) => read_u16_le(&m.0.0.raw, HEADER_LENGTH),
            ConsensusMessage::Prevote(m) => read_u16_le(&m.0.0.raw, HEADER_LENGTH),
            ConsensusMessage::Precommit(m) => read_u16_le(&m.0.0.raw, HEADER_LENGTH),
        }
    }

    /// The blockchain height of the vote.
    pub fn height(&self) -> (r: u64)
        requires
            self.wf(),
        ensures
            r == le64(self.spec_raw(), HEADER_LENGTH + 2),
    {
        match self {
            ConsensusMessage::Propose(m) => read_u64_le(&m.0.0.raw, HEADER_LENGTH + 2),
            ConsensusMessage::Prevote(m) => read_u64_le(&m.0.0.raw, HEADER_LENGTH + 2),
            ConsensusMessage::Precommit(m) => read_u64_le(&m.0.0.raw, HEADER_LENGTH + 2),
        }
    }

    /// The round of the vote.
    pub fn round(&self) -> (r: u32)
        requires
            self.wf(),
        ensures
            r == le32(self.spec_raw(), HEADER_LENGTH + 10),
    {
        match self {
            ConsensusMessage::Propose(m) => read_u32_le(&m.0.0.raw, HEADER_LENGTH + 10),
            ConsensusMessage::Prevote(m) => read_u32_le(&m.0.0.raw, HEADER_LENGTH + 10),
            ConsensusMessage::Precommit(m) => read_u32_le(&m.0.0.raw, HEADER_LENGTH + 10),
        }
    }

    /// The raw message.
    pub fn raw(&self) -> (r: &RawMessage)
        ensures
            r@ == self.spec_raw(),
    {
        match self {
            ConsensusMessage::Propose(m) => &m.0,
            ConsensusMessage::Prevote(m) => &m.0,
            ConsensusMessage::Precommit(m) => &m.0,
        }
    }

}

impl RequestMessage {
    /// The raw message underneath.
    pub open spec fn spec_raw(&self) -> Seq<u8> {
        match self {
            RequestMessage::Propose(m) => m.0@,
            RequestMessage::Transactions(m) => m.0@,
            RequestMessage::Prevotes(m) => m.0@,
            RequestMessage::Peers(m) => m.0@,
            RequestMessage::Block(m) => m.0@,
        }
    }

    /// Whether the request is long enough for its fields.
    pub open spec fn wf(&self) -> bool {
        self.spec_raw().len() >= HEADER_LENGTH + 64 + SIGNATURE_LENGTH
    }

    /// The public key of the request's sender.
    pub fn from(&self) -> (r: PublicKey)
        requires
            self.wf(),
        ensures
            r@ == self.spec_raw().subrange(HEADER_LENGTH as int, HEADER_LENGTH + 32),
            r.wf(),
    {
        match self {
            RequestMessage::Propose(m) => request_from(&m.0),
            RequestMessage::Transactions(m) => request_from(&m.0),
            RequestMessage::Prevotes(m) => request_from(&m.0),
            RequestMessage::Peers(m) => request_from(&m.0),
            RequestMessage::Block(m) => request_from(&m.0),
        }
    }

    /// The public key of the request's recipient.
    pub fn to(&self) -> (r: PublicKey)
        requires
            self.wf(),
        ensures
            r@ == self.spec_raw().subrange(HEADER_LENGTH + 32, HEADER_LENGTH + 64),
            r.wf(),
    {
        match self {
            RequestMessage::Propose(m) => request_to(&m.0),
            RequestMessage::Transactions(m) => request_to(&m.0),
            RequestMessage::Prevotes(m) => request_to(&m.0),
            RequestMessage::Peers(m) => request_to(&m.0),
            RequestMessage::Block(m) => request_to(&m.0),
        }
    }

    /// The raw message.
    pub fn raw(&self) -> (r: &RawMessage)
        ensures
            r@ == self.spec_raw(),
    {
        match self {
            RequestMessage::Propose(m) => &m.0,
            RequestMessage::Transactions(m) => &m.0,
            RequestMessage::Prevotes(m) => &m.0,
            RequestMessage::Peers(m) => &m.0,
            RequestMessage::Block(m) => &m.0,
        }
    }
}

impl Any {
    /// Converts a raw message into one of the known messages: the
    /// consensus service's types dispatch on the message type, with
    /// unknown types rejected; every other service's message passes
    /// through as a transaction.
    pub fn from_raw(raw: RawMessage) -> (r: Result<Any, EncodingError>)
        ensures
            raw@.len() < HEADER_LENGTH + SIGNATURE_LENGTH ==> r is Err,
            raw@.len() >= HEADER_LENGTH + SIGNATURE_LENGTH && le16(raw@, 4) != CONSENSUS ==> (
            r matches Ok(any) && any matches Any::Transaction(t) && t@ == raw@),
            raw@.len() >= HEADER_LENGTH + SIGNATURE_LENGTH && le16(raw@, 4) == CONSENSUS && !(le16(
                raw@,
                2,
            ) <= BLOCK_REQUEST_MESSAGE_ID) ==> r == Err::<Any, EncodingError>(
                EncodingError::IncorrectMessageType { message_type: le16(raw@, 2) as u16 },
            ),
            raw@.len() >= HEADER_LENGTH + SIGNATURE_LENGTH && le16(raw@, 4) == CONSENSUS && le16(
                raw@,
                2,
            ) == CONNECT_MESSAGE_ID ==> (r matches Ok(any) && any matches Any::Connect(m) && m.0@
                == raw@),
            raw@.len() >= HEADER_LENGTH + SIGNATURE_LENGTH && le16(raw@, 4) == CONSENSUS && le16(
                raw@,
                2,
            ) == STATUS_MESSAGE_ID ==> (r matches Ok(any) && any matches Any::Status(m) && m.0@
                == raw@),
            raw@.len() >= HEADER_LENGTH + SIGNATURE_LENGTH && le16(raw@, 4) == CONSENSUS && le16(
                raw@,
                2,
            ) == BLOCK_RESPONSE_MESSAGE_ID ==> (r matches Ok(any) && any matches Any::Block(m)
                && m.0@ == raw@),
            raw@.len() >= HEADER_LENGTH + 14 + SIGNATURE_LENGTH && le16(raw@, 4) == CONSENSUS
                && le16(raw@, 2) == PROPOSE_MESSAGE_ID ==> (r matches Ok(any) && any matches
            Any::Consensus(cm) && cm matches ConsensusMessage::Propose(m) && m.0@ == raw@),
            raw@.len() >= HEADER_LENGTH + 14 + SIGNATURE_LENGTH && le16(raw@, 4) == CONSENSUS
                && le16(raw@, 2) == PREVOTE_MESSAGE_ID ==> (r matches Ok(any) && any matches
            Any::Consensus(cm) && cm matches ConsensusMessage::Prevote(m) && m.0@ == raw@),
            raw@.len() >= HEADER_LENGTH + 14 + SIGNATURE_LENGTH && le16(raw@, 4) == CONSENSUS
                && le16(raw@, 2) == PRECOMMIT_MESSAGE_ID ==> (r matches Ok(any) && any matches
            Any::Consensus(cm) && cm matches ConsensusMessage::Precommit(m) && m.0@ == raw@),
            raw@.len() >= HEADER_LENGTH + 64 + SIGNATURE_LENGTH && le16(raw@, 4) == CONSENSUS
                && le16(raw@, 2) == PROPOSE_REQUEST_MESSAGE_ID ==> (r matches Ok(any) && any
                matches Any::Request(rm) && rm matches RequestMessage::Propose(m) && m.0@ == raw@),
            raw@.len() >= HEADER_LENGTH + 64 + SIGNATURE_LENGTH && le16(raw@, 4) == CONSENSUS
                && le16(raw@, 2) == TRANSACTIONS_REQUEST_MESSAGE_ID ==> (r matches Ok(any) && any
                matches Any::Request(rm) && rm matches RequestMessage::Transactions(m) && m.0@
                == raw@),
            raw@.len() >= HEADER_LENGTH + 64 + SIGNATURE_LENGTH && le16(raw@, 4) == CONSENSUS
                && le16(raw@, 2) == PREVOTES_REQUEST_MESSAGE_ID ==> (r matches Ok(any) && any
                matches Any::Request(rm) && rm matches RequestMessage::Prevotes(m) && m.0@
                == raw@),
            raw@.len() >= HEADER_LENGTH + 64 + SIGNATURE_LENGTH && le16(raw@, 4) == CONSENSUS
                && le16(raw@, 2) == PEERS_REQUEST_MESSAGE_ID ==> (r matches Ok(any) && any matches
            Any::Request(rm) && rm matches RequestMessage::Peers(m) && m.0@ == raw@),
            raw@.len() >= HEADER_LENGTH + 64 + SIGNATURE_LENGTH && le16(raw@, 4) == CONSENSUS
                && le16(raw@, 2) == BLOCK_REQUEST_MESSAGE_ID ==> (r matches Ok(any) && any matches
            Any::Request(rm) && rm matches RequestMessage::Block(m) && m.0@ == raw@),
            raw@.len() < HEADER_LENGTH + 14 + SIGNATURE_LENGTH && raw@.len() >= HEADER_LENGTH
                + SIGNATURE_LENGTH && le16(raw@, 4) == CONSENSUS && PROPOSE_MESSAGE_ID <= le16(
                raw@,
                2,
            ) <= PRECOMMIT_MESSAGE_ID ==> r == Err::<Any, EncodingError>(
                EncodingError::UnexpectedlyShortRawMessage {
                    position: 0,
                    size: raw@.len() as u32,
                },
            ),
            raw@.len() < HEADER_LENGTH + 64 + SIGNATURE_LENGTH && raw@.len() >= HEADER_LENGTH
                + SIGNATURE_LENGTH && le16(raw@, 4) == CONSENSUS && PROPOSE_REQUEST_MESSAGE_ID
                <= le16(raw@, 2) <= BLOCK_REQUEST_MESSAGE_ID ==> r == Err::<Any, EncodingError>(
                EncodingError::UnexpectedlyShortRawMessage {
                    position: 0,
                    size: raw@.len() as u32,
                },
            ),
    {
        let n = raw.0.raw.len();
        if n < HEADER_LENGTH + SIGNATURE_LENGTH {
            return Err(
                EncodingError::UnexpectedlyShortRawMessage { position: 0, size: n as u32 },
            );
        }
        let sid = raw.0.service_id();
        if sid != CONSENSUS {
            return Ok(Any::Transaction(raw));
        }
        let mtype = raw.0.message_type();
        if mtype == CONNECT_MESSAGE_ID {
            Ok(Any::Connect(Connect(raw)))
        } else if mtype == STATUS_MESSAGE_ID {
            Ok(Any::Status(Status(raw)))
        } else if mtype == BLOCK_RESPONSE_MESSAGE_ID {
            Ok(Any::Block(BlockResponse(raw)))
        } else if mtype == PROPOSE_MESSAGE_ID || mtype == PREVOTE_MESSAGE_ID || mtype
            == PRECOMMIT_MESSAGE_ID {
            if n < HEADER_LENGTH + 14 + SIGNATURE_LENGTH {
                return Err(
                    EncodingError::UnexpectedlyShortRawMessage { position: 0, size: n as u32 },
                );
            }
            if mtype == PROPOSE_MESSAGE_ID {
                Ok(Any::Consensus(ConsensusMessage::Propose(Propose(raw))))
            } else if mtype == PREVOTE_MESSAGE_ID {
                Ok(Any::Consensus(ConsensusMessage::Prevote(Prevote(raw))))
            } else {
                Ok(Any::Consensus(ConsensusMessage::Precommit(Precommit(raw))))
            }
        } else if mtype >= PROPOSE_REQUEST_MESSAGE_ID && mtype <= BLOCK_REQUEST_MESSAGE_ID {
            if n < HEADER_LENGTH + 64 + SIGNATURE_LENGTH {
                return Err(
                    EncodingError::UnexpectedlyShortRawMessage { position: 0, size: n as u32 },
                );
            }
            if mtype == PROPOSE_REQUEST_MESSAGE_ID {
                Ok(Any::Request(RequestMessage::Propose(ProposeRequest(raw))))
            } else if mtype == TRANSACTIONS_REQUEST_MESSAGE_ID {
                Ok(Any::Request(RequestMessage::Transactions(TransactionsRequest(raw))))
            } else if mtype == PREVOTES_REQUEST_MESSAGE_ID {
                Ok(Any::Request(RequestMessage::Prevotes(PrevotesRequest(raw))))
            } else if mtype == PEERS_REQUEST_MESSAGE_ID {
                Ok(Any::Request(RequestMessage::Peers(PeersRequest(raw))))
            } else {
                Ok(Any::Request(RequestMessage::Block(BlockRequest(raw))))
            }
        } else {
            Err(EncodingError::IncorrectMessageType { message_type: mtype })
        }
    }
}

/// One of the ledger's executable transactions, decoded from a raw
/// message.
#[derive(Debug)]
pub enum TransactionVariant {
    /// An issue of new assets.
    AddAssets(AddAssets),
    /// A plain transfer.
    Transfer(Transfer),
    /// A transfer whose fee a third party bears.
    TransferWithFeesPayer(TransferWithFeesPayer),
    /// A delete of assets.
    DeleteAssets(DeleteAssets),
    /// An exchange.
    Exchange(Exchange),
    /// An exchange through an intermediary.
    ExchangeIntermediary(ExchangeIntermediary),
    /// A trade.
    Trade(Trade),
    /// A trade through an intermediary.
    TradeIntermediary(TradeIntermediary),
    /// A standing ask offer.
    AskOffer(AskOffer),
    /// A standing bid offer.
    BidOffer(BidOffer),
}

/// Whether a raw buffer decodes as one of the ledger's transactions:
/// exactly one kind's decode can accept it, since each demands its own
/// message type.
pub open spec fn tx_decode_ok(raw: Seq<u8>) -> bool {
    ||| add_decode_ok(raw)
    ||| transfer_decode_ok(raw)
    ||| twfp_decode_ok(raw)
    ||| delete_decode_ok(raw)
    ||| exchange_decode_ok(raw)
    ||| exin_decode_ok(raw)
    ||| trade_decode_ok(raw)
    ||| trade_int_decode_ok(raw)
    ||| askoffer_decode_ok(raw)
    ||| bidoffer_decode_ok(raw)
}

/// Decodes one of the ledger's executable transactions, dispatching on
/// the service id and the message type. A message of another service
/// fails with an incorrect-service error; an unknown message type of
/// the ledger's service fails with an incorrect-type error.
#[verifier::rlimit(100)]
pub fn tx_from_raw(raw: &RawMessage) -> (r: Result<TransactionVariant, EncodingError>)
    ensures
        raw@.len() >= HEADER_LENGTH + SIGNATURE_LENGTH && le16(raw@, 4) != SERVICE_ID ==> r
            == Err::<TransactionVariant, EncodingError>(
            EncodingError::IncorrectServiceId { service_id: le16(raw@, 4) as u16 },
        ),
        (r is Ok) == tx_decode_ok(raw@),
        (r matches Ok(v) ==> le16(raw@, 4) == SERVICE_ID && ((v matches
        TransactionVariant::AddAssets(t) ==> le16(raw@, 2) == ADD_ASSETS_ID) && (v matches
        TransactionVariant::Transfer(t) ==> le16(raw@, 2) == TRANSFER_ID) && (v matches
        TransactionVariant::DeleteAssets(t) ==> le16(raw@, 2) == DELETE_ASSETS_ID) && (v matches
        TransactionVariant::TransferWithFeesPayer(t) ==> le16(raw@, 2) == TRANSFER_FEES_PAYER_ID)
            && (v matches TransactionVariant::Exchange(t) ==> le16(raw@, 2) == EXCHANGE_ID) && (
        v matches TransactionVariant::ExchangeIntermediary(t) ==> le16(raw@, 2)
            == EXCHANGE_INTERMEDIARY_ID) && (v matches
        TransactionVariant::Trade(t) ==> le16(raw@, 2) == TRADE_ID) && (v matches
        TransactionVariant::TradeIntermediary(t) ==> le16(raw@, 2) == TRADE_INTERMEDIARY_ID) && (
        v matches TransactionVariant::AskOffer(t) ==> le16(raw@, 2) == ASK_OFFER_ID) && (v matches
        TransactionVariant::BidOffer(t) ==> le16(raw@, 2) == BID_OFFER_ID))),
{
    let n = raw.0.raw.len();
    if n < HEADER_LENGTH + SIGNATURE_LENGTH {
        proof {
            assert(!tx_decode_ok(raw@));
        }
        return Err(EncodingError::UnexpectedlyShortRawMessage { position: 0, size: n as u32 });
    }
    let sid = raw.0.service_id();
    if sid != SERVICE_ID {
        proof {
            assert(!tx_decode_ok(raw@));
        }
        return Err(EncodingError::IncorrectServiceId { service_id: sid });
    }
    let mtype = raw.0.message_type();
    if mtype == ADD_ASSETS_ID {
        match AddAssets::from_raw(raw) {
            Ok(tx) => {
                proof {
                    assert(tx_decode_ok(raw@));
                }
                Ok(TransactionVariant::AddAssets(tx))
            },
            Err(e) => {
                proof {
                    assert(!tx_decode_ok(raw@));
                }
                Err(e)
            },
        }
    } else if mtype == TRANSFER_ID {
        match Transfer::from_raw(raw) {
            Ok(tx) => {
                proof {
                    assert(tx_decode_ok(raw@));
                }
                Ok(TransactionVariant::Transfer(tx))
            },
            Err(e) => {
                proof {
                    assert(!tx_decode_ok(raw@));
                }
                Err(e)
            },
        }
    } else if mtype == DELETE_ASSETS_ID {
        match DeleteAssets::from_raw(raw) {
            Ok(tx) => {
                proof {
                    assert(tx_decode_ok(raw@));
                }
                Ok(TransactionVariant::DeleteAssets(tx))
            },
            Err(e) => {
                proof {
                    assert(!tx_decode_ok(raw@));
                }
                Err(e)
            },
        }
    } else if mtype == TRANSFER_FEES_PAYER_ID {
        match TransferWithFeesPayer::from_raw(raw) {
            Ok(tx) => {
                proof {
                    assert(tx_decode_ok(raw@));
                }
                Ok(TransactionVariant::TransferWithFeesPayer(tx))
            },
            Err(e) => {
                proof {
                    assert(!tx_decode_ok(raw@));
                }
                Err(e)
            },
        }
    } else if mtype == EXCHANGE_ID {
        match Exchange::from_raw(raw) {
            Ok(tx) => {
                proof {
                    assert(tx_decode_ok(raw@));
                }
                Ok(TransactionVariant::Exchange(tx))
            },
            Err(e) => {
                proof {
                    assert(!tx_decode_ok(raw@));
                }
                Err(e)
            },
        }
    } else if mtype == EXCHANGE_INTERMEDIARY_ID {
        match ExchangeIntermediary::from_raw(raw) {
            Ok(tx) => {
                proof {
                    assert(tx_decode_ok(raw@));
                }
                Ok(TransactionVariant::ExchangeIntermediary(tx))
            },
            Err(e) => {
                proof {
                    assert(!tx_decode_ok(raw@));
                }
                Err(e)
            },
        }
    } else if mtype == TRADE_ID {
        match Trade::from_raw(raw) {
            Ok(tx) => {
                proof {
                    assert(tx_decode_ok(raw@));
                }
                Ok(TransactionVariant::Trade(tx))
            },
            Err(e) => {
                proof {
                    assert(!tx_decode_ok(raw@));
                }
                Err(e)
            },
        }
    } else if mtype == TRADE_INTERMEDIARY_ID {
        match TradeIntermediary::from_raw(raw) {
            Ok(tx) => {
                proof {
                    assert(tx_decode_ok(raw@));
                }
                Ok(TransactionVariant::TradeIntermediary(tx))
            },
            Err(e) => {
                proof {
                    assert(!tx_decode_ok(raw@));
                }
                Err(e)
            },
        }
    } else if mtype == ASK_OFFER_ID {
        match AskOffer::from_raw(raw) {
            Ok(tx) => {
                proof {
                    assert(tx_decode_ok(raw@));
                }
                Ok(TransactionVariant::AskOffer(tx))
            },
            Err(e) => {
                proof {
                    assert(!tx_decode_ok(raw@));
                }
                Err(e)
            },
        }
    } else if mtype == BID_OFFER_ID {
        match BidOffer::from_raw(raw) {
            Ok(tx) => {
                proof {
                    assert(tx_decode_ok(raw@));
                }
                Ok(TransactionVariant::BidOffer(tx))
            },
            Err(e) => {
                proof {
                    assert(!tx_decode_ok(raw@));
                }
                Err(e)
            },
        }
    } else {
        proof {
            assert(!tx_decode_ok(raw@));
        }
        Err(EncodingError::IncorrectMessageType { message_type: mtype })
    }
}

} // verus!
