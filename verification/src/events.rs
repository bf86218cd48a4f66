use vstd::prelude::*;
use vstd::string::{StrSliceExecFns, StringExecFns};
use crate::eth_address::{hex_chars, EthAddress};
use crate::records::{TransferMessage, TransferMessageV, TransferDataEthereumV, TransferDataNearV};
use crate::text::{dec_chars, u128_to_dec, u64_to_dec, wf_text};

verus! {

/// The standard every envelope names.
pub const STANDARD: &'static str = "nep297";

/// The version of the standard every envelope names.
pub const VERSION: &'static str = "1.0.0";

/// The marker beginning every emitted log line.
pub const EVENT_JSON_STR: &'static str = "EVENT_JSON:";

// ---------------------------------------------------------------------------
// The JSON renderings, as spec functions over the models. Account
// identifiers hold only safe characters, so they embed verbatim; 128-bit
// amounts render as quoted decimal strings to avoid precision loss; other
// integers render as bare JSON numbers; addresses render as lowercase hex.
// ---------------------------------------------------------------------------

pub open spec fn json_opt_u64(o: Option<u64>) -> Seq<char> {
    match o {
        None => "null"@,
        Some(x) => dec_chars(x as u128),
    }
}

pub open spec fn json_opt_addr(o: Option<Seq<u8>>) -> Seq<char> {
    match o {
        None => "null"@,
        Some(a) => "\""@ + hex_chars(a) + "\""@,
    }
}

pub open spec fn json_opt_text(o: Option<Seq<char>>) -> Seq<char> {
    match o {
        None => "null"@,
        Some(s) => "\""@ + s + "\""@,
    }
}

pub open spec fn json_eth_data(t: TransferDataEthereumV) -> Seq<char> {
    "{\"token_near\":\""@ + t.token_near + "\",\"token_eth\":\""@ + hex_chars(t.token_eth)
        + "\",\"amount\":\""@ + dec_chars(t.amount) + "\"}"@
}

pub open spec fn json_near_data(f: TransferDataNearV) -> Seq<char> {
    "{\"token\":\""@ + f.token + "\",\"amount\":\""@ + dec_chars(f.amount) + "\"}"@
}

pub open spec fn json_message(m: TransferMessageV) -> Seq<char> {
    "{\"valid_till\":"@ + dec_chars(m.valid_till as u128) + ",\"transfer\":"@ + json_eth_data(
        m.transfer,
    ) + ",\"fee\":"@ + json_near_data(m.fee) + ",\"recipient\":\""@ + hex_chars(m.recipient)
        + "\",\"valid_till_block_height\":"@ + json_opt_u64(m.valid_till_block_height)
        + ",\"aurora_sender\":"@ + json_opt_addr(m.aurora_sender) + "}"@
}

// ---------------------------------------------------------------------------
// The event union and its envelope.
// ---------------------------------------------------------------------------

/// A closed union of observable bridge events. Each value is transient:
/// built at the point of emission, rendered once, never stored.
#[derive(Debug, Clone)]
pub enum Event {
    FastBridgeInitTransferEvent { nonce: u128, sender_id: String, transfer_message: TransferMessage },
    FastBridgeUnlockEvent { nonce: u128, recipient_id: String, transfer_message: TransferMessage },
    FastBridgeLpUnlockEvent { nonce: u128, recipient_id: String, transfer_message: TransferMessage },
    FastBridgeDepositEvent { sender_id: String, token: String, amount: u128 },
    FastBridgeWithdrawEvent {
        sender_id: Option<String>,
        recipient_id: String,
        token: String,
        amount: u128,
    },
}

/// The mathematical model of an [`Event`].
#[verifier::ext_equal]
pub ghost enum EventV {
    FastBridgeInitTransferEvent {
        nonce: u128,
        sender_id: Seq<char>,
        transfer_message: TransferMessageV,
    },
    FastBridgeUnlockEvent {
        nonce: u128,
        recipient_id: Seq<char>,
        transfer_message: TransferMessageV,
    },
    FastBridgeLpUnlockEvent {
        nonce: u128,
        recipient_id: Seq<char>,
        transfer_message: TransferMessageV,
    },
    FastBridgeDepositEvent { sender_id: Seq<char>, token: Seq<char>, amount: u128 },
    FastBridgeWithdrawEvent {
        sender_id: Option<Seq<char>>,
        recipient_id: Seq<char>,
        token: Seq<char>,
        amount: u128,
    },
}

impl View for Event {
    type V = EventV;

    open spec fn view(&self) -> EventV {
        match self {
            Event::FastBridgeInitTransferEvent { nonce, sender_id, transfer_message } => (
            EventV::FastBridgeInitTransferEvent {
                nonce: *nonce,
                sender_id: sender_id@,
                transfer_message: transfer_message@,
            }),
            Event::FastBridgeUnlockEvent { nonce, recipient_id, transfer_message } => (
            EventV::FastBridgeUnlockEvent {
                nonce: *nonce,
                recipient_id: recipient_id@,
                transfer_message: transfer_message@,
            }),
            Event::FastBridgeLpUnlockEvent { nonce, recipient_id, transfer_message } => (
            EventV::FastBridgeLpUnlockEvent {
                nonce: *nonce,
                recipient_id: recipient_id@,
                transfer_message: transfer_message@,
            }),
            Event::FastBridgeDepositEvent { sender_id, token, amount } => (
            EventV::FastBridgeDepositEvent {
                sender_id: sender_id@,
                token: token@,
                amount: *amount,
            }),
            Event::FastBridgeWithdrawEvent { sender_id, recipient_id, token, amount } => (
            EventV::FastBridgeWithdrawEvent {
                sender_id: match sender_id {
                    Some(s) => Some(s@),
                    None => None,
                },
                recipient_id: recipient_id@,
                token: token@,
                amount: *amount,
            }),
        }
    }
}

impl EventV {
    /// A well-formed event carries safe account identifiers and a
    /// well-formed message.
    pub open spec fn wf(self) -> bool {
        match self {
            EventV::FastBridgeInitTransferEvent { sender_id, transfer_message, .. } => wf_text(
                sender_id,
            ) && transfer_message.wf(),
            EventV::FastBridgeUnlockEvent { recipient_id, transfer_message, .. } => wf_text(
                recipient_id,
            ) && transfer_message.wf(),
            EventV::FastBridgeLpUnlockEvent { recipient_id, transfer_message, .. } => wf_text(
                recipient_id,
            ) && transfer_message.wf(),
            EventV::FastBridgeDepositEvent { sender_id, token, .. } => wf_text(sender_id)
                && wf_text(token),
            EventV::FastBridgeWithdrawEvent { sender_id, recipient_id, token, .. } => wf_text(
                recipient_id,
            ) && wf_text(token) && (sender_id matches Some(s) ==> wf_text(s)),
        }
    }

    /// The snake_case tag naming the variant in the envelope.
    pub open spec fn tag(self) -> Seq<char> {
        match self {
            EventV::FastBridgeInitTransferEvent { .. } => "fast_bridge_init_transfer_event"@,
            EventV::FastBridgeUnlockEvent { .. } => "fast_bridge_unlock_event"@,
            EventV::FastBridgeLpUnlockEvent { .. } => "fast_bridge_lp_unlock_event"@,
            EventV::FastBridgeDepositEvent { .. } => "fast_bridge_deposit_event"@,
            EventV::FastBridgeWithdrawEvent { .. } => "fast_bridge_withdraw_event"@,
        }
    }

    /// The JSON object of the variant's fields, in declaration order.
    pub open spec fn data_json(self) -> Seq<char> {
        match self {
            EventV::FastBridgeInitTransferEvent { nonce, sender_id, transfer_message } => (
            "{\"nonce\":\""@ + dec_chars(nonce) + "\",\"sender_id\":\""@ + sender_id
                + "\",\"transfer_message\":"@ + json_message(transfer_message) + "}"@),
            EventV::FastBridgeUnlockEvent { nonce, recipient_id, transfer_message } => (
            "{\"nonce\":\""@ + dec_chars(nonce) + "\",\"recipient_id\":\""@ + recipient_id
                + "\",\"transfer_message\":"@ + json_message(transfer_message) + "}"@),
            EventV::FastBridgeLpUnlockEvent { nonce, recipient_id, transfer_message } => (
            "{\"nonce\":\""@ + dec_chars(nonce) + "\",\"recipient_id\":\""@ + recipient_id
                + "\",\"transfer_message\":"@ + json_message(transfer_message) + "}"@),
            EventV::FastBridgeDepositEvent { sender_id, token, amount } => ("{\"sender_id\":\""@
                + sender_id + "\",\"token\":\""@ + token + "\",\"amount\":\""@ + dec_chars(amount)
                + "\"}"@),
            EventV::FastBridgeWithdrawEvent { sender_id, recipient_id, token, amount } => (
            "{\"sender_id\":"@ + json_opt_text(sender_id) + ",\"recipient_id\":\""@ + recipient_id
                + "\",\"token\":\""@ + token + "\",\"amount\":\""@ + dec_chars(amount) + "\"}"@),
        }
    }
}

/// The full log line for an event: the `EVENT_JSON:` marker, then the
/// envelope with its four fixed keys.
pub open spec fn event_line(ev: EventV) -> Seq<char> {
    "EVENT_JSON:"@ + "{\"standard\":\""@ + "nep297"@ + "\",\"version\":\""@ + "1.0.0"@
        + "\",\"event\":\""@ + ev.tag() + "\",\"data\":"@ + ev.data_json() + "}"@
}

/// The envelope around one emitted event: the constant standard name and
/// version, the variant's tag, and its fields as one JSON object.
#[derive(Debug, Clone)]
pub struct EventMessage {
    pub standard: String,
    pub version: String,
    pub event: String,
    pub data: String,
}

impl EventMessage {
    /// Renders the envelope as the single log line.
    pub fn to_line(&self) -> (r: String)
        ensures
            r@ == "EVENT_JSON:"@ + "{\"standard\":\""@ + self.standard@ + "\",\"version\":\""@
                + self.version@ + "\",\"event\":\""@ + self.event@ + "\",\"data\":"@ + self.data@
                + "}"@,
    {
        let mut s = String::from_str("EVENT_JSON:");
        s.append("{\"standard\":\"");
        s.append(self.standard.as_str());
        s.append("\",\"version\":\"");
        s.append(self.version.as_str());
        s.append("\",\"event\":\"");
        s.append(self.event.as_str());
        s.append("\",\"data\":");
        s.append(self.data.as_str());
        s.append("}");
        proof {
            assert(s@ =~= "EVENT_JSON:"@ + "{\"standard\":\""@ + self.standard@
                + "\",\"version\":\""@ + self.version@ + "\",\"event\":\""@ + self.event@
                + "\",\"data\":"@ + self.data@ + "}"@);
        }
        s
    }
}

fn json_message_str(m: &TransferMessage) -> (r: String)
    requires
        m@.wf(),
    ensures
        r@ == json_message(m@),
{
    let mut d = String::from_str("{\"valid_till\":");
    let vt = u64_to_dec(m.valid_till);
    d.append(vt.as_str());
    d.append(",\"transfer\":");
    d.append("{\"token_near\":\"");
    d.append(m.transfer.token_near.as_str());
    d.append("\",\"token_eth\":\"");
    let th = m.transfer.token_eth.to_hex();
    d.append(th.as_str());
    d.append("\",\"amount\":\"");
    let ta = u128_to_dec(m.transfer.amount);
    d.append(ta.as_str());
    d.append("\"}");
    d.append(",\"fee\":");
    d.append("{\"token\":\"");
    d.append(m.fee.token.as_str());
    d.append("\",\"amount\":\"");
    let fa = u128_to_dec(m.fee.amount);
    d.append(fa.as_str());
    d.append("\"}");
    d.append(",\"recipient\":\"");
    let rh = m.recipient.to_hex();
    d.append(rh.as_str());
    d.append("\",\"valid_till_block_height\":");
    match &m.valid_till_block_height {
        None => d.append("null"),
        Some(h) => {
            let hs = u64_to_dec(*h);
            d.append(hs.as_str());
        },
    }
    d.append(",\"aurora_sender\":");
    match &m.aurora_sender {
        None => d.append("null"),
        Some(a) => {
            d.append("\"");
            let ah = a.to_hex();
            d.append(ah.as_str());
            d.append("\"");
        },
    }
    d.append("}");
    proof {
        assert(d@ =~= json_message(m@));
    }
    d
}

impl Event {
    /// Renders the event as its single log line: the `EVENT_JSON:` marker
    /// followed by the envelope. The caller appends the line to the log
    /// sink; emission itself is a pure computation.
    pub fn emit(&self) -> (r: String)
        requires
            self@.wf(),
        ensures
            r@ == event_line(self@),
    {
        let mut d: String;
        let tag: &str;
        match self {
            Event::FastBridgeInitTransferEvent { nonce, sender_id, transfer_message } => {
                tag = "fast_bridge_init_transfer_event";
                d = String::from_str("{\"nonce\":\"");
                let ns = u128_to_dec(*nonce);
                d.append(ns.as_str());
                d.append("\",\"sender_id\":\"");
                d.append(sender_id.as_str());
                d.append("\",\"transfer_message\":");
                let ms = json_message_str(transfer_message);
                d.append(ms.as_str());
                d.append("}");
            },
            Event::FastBridgeUnlockEvent { nonce, recipient_id, transfer_message } => {
                tag = "fast_bridge_unlock_event";
                d = String::from_str("{\"nonce\":\"");
                let ns = u128_to_dec(*nonce);
                d.append(ns.as_str());
                d.append("\",\"recipient_id\":\"");
                d.append(recipient_id.as_str());
                d.append("\",\"transfer_message\":");
                let ms = json_message_str(transfer_message);
                d.append(ms.as_str());
                d.append("}");
            },
            Event::FastBridgeLpUnlockEvent { nonce, recipient_id, transfer_message } => {
                tag = "fast_bridge_lp_unlock_event";
                d = String::from_str("{\"nonce\":\"");
                let ns = u128_to_dec(*nonce);
                d.append(ns.as_str());
                d.append("\",\"recipient_id\":\"");
                d.append(recipient_id.as_str());
                d.append("\",\"transfer_message\":");
                let ms = json_message_str(transfer_message);
                d.append(ms.as_str());
                d.append("}");
            },
            Event::FastBridgeDepositEvent { sender_id, token, amount } => {
                tag = "fast_bridge_deposit_event";
                d = String::from_str("{\"sender_id\":\"");
                d.append(sender_id.as_str());
                d.append("\",\"token\":\"");
                d.append(token.as_str());
                d.append("\",\"amount\":\"");
                let am = u128_to_dec(*amount);
                d.append(am.as_str());
                d.append("\"}");
            },
            Event::FastBridgeWithdrawEvent { sender_id, recipient_id, token, amount } => {
                tag = "fast_bridge_withdraw_event";
                d = String::from_str("{\"sender_id\":");
                match sender_id {
                    None => d.append("null"),
                    Some(s) => {
                        d.append("\"");
                        d.append(s.as_str());
                        d.append("\"");
                    },
                }
                d.append(",\"recipient_id\":\"");
                d.append(recipient_id.as_str());
                d.append("\",\"token\":\"");
                d.append(token.as_str());
                d.append("\",\"amount\":\"");
                let am = u128_to_dec(*amount);
                d.append(am.as_str());
                d.append("\"}");
            },
        }
        proof {
            assert(d@ =~= self@.data_json());
            assert(tag@ == self@.tag());
        }
        let msg = EventMessage {
            standard: String::from_str("nep297"),
            version: String::from_str("1.0.0"),
            event: String::from_str(tag),
            data: d,
        };
        let line = msg.to_line();
        proof {
            assert(line@ =~= event_line(self@));
        }
        line
    }
}

/// Every emitted line begins with the `EVENT_JSON:` marker, and what follows
/// the marker is exactly the envelope body: stripping the marker off an
/// emitted line recovers the envelope.
pub proof fn lemma_event_line_marked(ev: EventV)
    ensures
        event_line(ev).len() >= 11,
        event_line(ev).subrange(0, 11) == "EVENT_JSON:"@,
        event_line(ev).skip(11) == "{\"standard\":\""@ + "nep297"@ + "\",\"version\":\""@
            + "1.0.0"@ + "\",\"event\":\""@ + ev.tag() + "\",\"data\":"@ + ev.data_json() + "}"@,
{
    reveal_strlit("EVENT_JSON:");
    let body = "{\"standard\":\""@ + "nep297"@ + "\",\"version\":\""@ + "1.0.0"@
        + "\",\"event\":\""@ + ev.tag() + "\",\"data\":"@ + ev.data_json() + "}"@;
    assert(event_line(ev).subrange(0, 11) =~= "EVENT_JSON:"@);
    assert(event_line(ev).skip(11) =~= body);
}

// ---------------------------------------------------------------------------
// Reading a log line back, for verification tooling.
// ---------------------------------------------------------------------------

#[verifier::external_type_specification]
#[verifier::external_body]
pub struct ExJsonValue(serde_json::Value);

/// Whether text is well-formed JSON, as serde_json's parser accepts it: a
/// fixed property of the text alone.
pub uninterp spec fn json_parses(s: Seq<char>) -> bool;

/// Relies on serde_json::from_str: parsing succeeds exactly on well-formed
/// JSON text, a deterministic function of the text.
#[verifier::external_body]
fn json_parse(s: &str) -> (r: Option<serde_json::Value>)
    ensures
        r is Some <==> json_parses(s@),
{
    serde_json::from_str::<serde_json::Value>(s).ok()
}

/// Strips the `EVENT_JSON:` marker off a raw log line and parses the rest:
/// the parsed JSON body when the marker is present and the rest is
/// well-formed JSON, absent otherwise.
pub fn remove_prefix(event_str: &str) -> (r: Option<serde_json::Value>)
    ensures
        r is Some <==> (event_str@.len() >= 11 && event_str@.subrange(0, 11) == "EVENT_JSON:"@
            && json_parses(event_str@.skip(11))),
{
    proof {
        reveal_strlit("EVENT_JSON:");
    }
    let n = event_str.unicode_len();
    if n < 11 {
        return None;
    }
    let mut i: usize = 0;
    while i < 11
        invariant
            0 <= i <= 11,
            n == event_str@.len(),
            n >= 11,
            forall|j: int| 0 <= j < i ==> event_str@[j] == "EVENT_JSON:"@[j],
        decreases 11 - i,
    {
        proof {
            reveal_strlit("EVENT_JSON:");
        }
        if event_str.get_char(i) != "EVENT_JSON:".get_char(i) {
            proof {
                assert(event_str@.subrange(0, 11)[i as int] != "EVENT_JSON:"@[i as int]);
            }
            return None;
        }
        i += 1;
    }
    proof {
        assert(event_str@.subrange(0, 11) =~= "EVENT_JSON:"@);
    }
    let rest = event_str.substring_char(11, n);
    json_parse(rest)
}

} // verus!
