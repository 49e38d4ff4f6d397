use vstd::prelude::*;
use vstd::string::StringExecFns;

verus! {

/// The kind tag of an inbound frame, classified from its `type` field.
#[derive(Clone, Copy, PartialEq, Eq, Structural, Debug)]
pub enum Kind {
    Delta,
    Ticker,
    Snapshot,
    Other,
}

/// What the wire decoder extracts from one JSON text frame: the `type`
/// tag, the top-level `ticker` field, the nested `msg.market_ticker`
/// field, and the `seq` counter. Every field is optional on the wire.
pub struct FrameFields {
    pub kind_tag: Option<String>,
    pub ticker: Option<String>,
    pub market_ticker: Option<String>,
    pub seq: Option<u64>,
}

pub open spec fn opt_str_view(o: Option<String>) -> Option<Seq<char>> {
    match o {
        Some(s) => Some(s@),
        None => None,
    }
}

pub open spec fn fields_view(f: FrameFields) -> (
    Option<Seq<char>>,
    Option<Seq<char>>,
    Option<Seq<char>>,
    Option<u64>,
) {
    (opt_str_view(f.kind_tag), opt_str_view(f.ticker), opt_str_view(f.market_ticker), f.seq)
}

/// The fields that JSON decoding extracts from a frame text, `None` when
/// the text is not a JSON document. Decoding is a function of the text
/// alone, so the same text always yields the same fields.
pub uninterp spec fn json_frame_of(s: Seq<char>) -> Option<
    (Option<Seq<char>>, Option<Seq<char>>, Option<Seq<char>>, Option<u64>),
>;

/// Relies on `serde_json::from_str` and `serde_json::Value`'s indexing and
/// `as_str` / `as_u64` accessors: parsing is deterministic in the text, a
/// missing or differently-typed field reads as `None`, and a text that is
/// not a JSON document fails to parse.
#[verifier::external_body]
fn parse_frame(text: &str) -> (r: Option<FrameFields>)
    ensures
        match r {
            Some(f) => json_frame_of(text@) == Some(fields_view(f)),
            None => json_frame_of(text@) is None,
        },
{
    let v: serde_json::Value = match serde_json::from_str(text) {
        Ok(v) => v,
        Err(_) => return None,
    };
    Some(FrameFields {
        kind_tag: v["type"].as_str().map(|s| s.to_string()),
        ticker: v["ticker"].as_str().map(|s| s.to_string()),
        market_ticker: v["msg"]["market_ticker"].as_str().map(|s| s.to_string()),
        seq: v["seq"].as_u64(),
    })
}

/// How a `type` tag maps to a frame kind.
pub open spec fn kind_of_tag(tag: Option<Seq<char>>) -> Kind {
    if tag == Some("orderbook_delta"@) {
        Kind::Delta
    } else if tag == Some("ticker"@) {
        Kind::Ticker
    } else if tag == Some("orderbook_snapshot"@) {
        Kind::Snapshot
    } else {
        Kind::Other
    }
}

fn classify(tag: &Option<String>) -> (k: Kind)
    ensures
        k == kind_of_tag(opt_str_view(*tag)),
{
    match tag {
        None => Kind::Other,
        Some(t) => {
            let delta = String::from_str("orderbook_delta");
            let ticker = String::from_str("ticker");
            let snapshot = String::from_str("orderbook_snapshot");
            if *t == delta {
                Kind::Delta
            } else if *t == ticker {
                Kind::Ticker
            } else if *t == snapshot {
                Kind::Snapshot
            } else {
                Kind::Other
            }
        },
    }
}

/// One decoded inbound message: its routing fields and the verbatim wire
/// text it came from. The raw text is what the persistence worker appends
/// to the symbol's log, one line per message.
pub struct Record {
    pub kind: Kind,
    pub ticker: Option<String>,
    pub market_ticker: Option<String>,
    pub seq: Option<u64>,
    pub raw: String,
}

/// The mathematical value of a `Record`.
pub struct RecordV {
    pub kind: Kind,
    pub ticker: Option<Seq<char>>,
    pub market_ticker: Option<Seq<char>>,
    pub seq: Option<u64>,
    pub raw: Seq<char>,
}

impl View for Record {
    type V = RecordV;

    open spec fn view(&self) -> RecordV {
        RecordV {
            kind: self.kind,
            ticker: opt_str_view(self.ticker),
            market_ticker: opt_str_view(self.market_ticker),
            seq: self.seq,
            raw: self.raw@,
        }
    }
}

/// The record a frame text decodes to, `None` for an undecodable frame.
pub open spec fn spec_decode(s: Seq<char>) -> Option<RecordV> {
    match json_frame_of(s) {
        Some(f) => Some(
            RecordV { kind: kind_of_tag(f.0), ticker: f.1, market_ticker: f.2, seq: f.3, raw: s },
        ),
        None => None,
    }
}

/// Decodes one text frame into a record, keeping the verbatim text as the
/// record's raw line. Returns `None` exactly when the text does not parse
/// as a JSON document; such frames are dropped by the session.
pub fn decode_frame(text: &String) -> (r: Option<Record>)
    ensures
        match r {
            Some(rec) => spec_decode(text@) == Some(rec@),
            None => spec_decode(text@) is None,
        },
{
    match parse_frame(text.as_str()) {
        None => None,
        Some(f) => {
            let kind = classify(&f.kind_tag);
            Some(
                Record {
                    kind,
                    ticker: f.ticker,
                    market_ticker: f.market_ticker,
                    seq: f.seq,
                    raw: text.clone(),
                },
            )
        },
    }
}

/// Law: a line written to a symbol's log is the record's verbatim raw
/// text, and decoding that line again reproduces the record's routing
/// fields — kind, both symbol fields, and the sequence number.
pub proof fn lemma_log_line_round_trip(s: Seq<char>)
    requires
        spec_decode(s) is Some,
    ensures
        spec_decode(spec_decode(s)->Some_0.raw) == spec_decode(s),
{
}

} // verus!
