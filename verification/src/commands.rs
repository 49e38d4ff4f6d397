use vstd::prelude::*;
use vstd::string::StringExecFns;
use crate::numeral::{dec_seq, u64_to_dec};

verus! {

/// `s` wrapped in JSON string quotes.
pub open spec fn quoted(s: Seq<char>) -> Seq<char> {
    "\""@ + s + "\""@
}

/// A JSON array body: the items quoted and comma-separated, no brackets.
pub open spec fn list_body(items: Seq<Seq<char>>) -> Seq<char>
    decreases items.len(),
{
    if items.len() == 0 {
        Seq::empty()
    } else if items.len() == 1 {
        quoted(items.last())
    } else {
        list_body(items.drop_last()) + ","@ + quoted(items.last())
    }
}

/// The outbound subscribe command envelope:
/// `{"id":<id>,"cmd":"subscribe","params":{"channels":[...],"market_tickers":[...]}}`.
pub open spec fn spec_subscribe_cmd(id: u64, channels: Seq<Seq<char>>, tickers: Seq<Seq<char>>) -> Seq<char> {
    "{\"id\":"@ + dec_seq(id) + ",\"cmd\":\"subscribe\",\"params\":{\"channels\":["@ + list_body(
        channels,
    ) + "],\"market_tickers\":["@ + list_body(tickers) + "]}}"@
}

/// The outbound unsubscribe command envelope, scoped to tickers only:
/// `{"id":<id>,"cmd":"unsubscribe","params":{"market_tickers":[...]}}`.
pub open spec fn spec_unsubscribe_cmd(id: u64, tickers: Seq<Seq<char>>) -> Seq<char> {
    "{\"id\":"@ + dec_seq(id) + ",\"cmd\":\"unsubscribe\",\"params\":{\"market_tickers\":["@
        + list_body(tickers) + "]}}"@
}

fn append_list(out: &mut String, items: &Vec<String>)
    ensures
        final(out)@ == old(out)@ + list_body(items.deep_view()),
{
    let ghost base = out@;
    let ghost view = items.deep_view();
    let mut i: usize = 0;
    while i < items.len()
        invariant
            i <= items.len(),
            view == items.deep_view(),
            view.len() == items.len(),
            out@ == base + list_body(view.take(i as int)),
        decreases items.len() - i,
    {
        if i > 0 {
            out.append(",");
        }
        out.append("\"");
        out.append(items[i].as_str());
        out.append("\"");
        proof {
            assert(view.take(i + 1).drop_last() =~= view.take(i as int));
            assert(view.take(i + 1).last() == view[i as int]);
            assert(view[i as int] == items@[i as int]@);
            if i == 0 {
                assert(list_body(view.take(1)) == quoted(view[0]));
                assert(out@ =~= base + list_body(view.take(1)));
            } else {
                assert(list_body(view.take(i + 1)) == list_body(view.take(i as int)) + ","@
                    + quoted(view[i as int]));
                assert(out@ =~= base + list_body(view.take(i + 1)));
            }
        }
        i += 1;
    }
    proof {
        assert(view.take(items.len() as int) =~= view);
    }
}

/// Builds the subscribe command text for the given channels and tickers.
pub fn subscribe_cmd(id: u64, channels: &Vec<String>, tickers: &Vec<String>) -> (s: String)
    ensures
        s@ == spec_subscribe_cmd(id, channels.deep_view(), tickers.deep_view()),
{
    let mut out = String::from_str("{\"id\":");
    let num = u64_to_dec(id);
    out.append(num.as_str());
    out.append(",\"cmd\":\"subscribe\",\"params\":{\"channels\":[");
    append_list(&mut out, channels);
    out.append("],\"market_tickers\":[");
    append_list(&mut out, tickers);
    out.append("]}}");
    proof {
        assert(out@ =~= spec_subscribe_cmd(id, channels.deep_view(), tickers.deep_view()));
    }
    out
}

/// Builds the unsubscribe command text, scoped to the given tickers.
pub fn unsubscribe_cmd(id: u64, tickers: &Vec<String>) -> (s: String)
    ensures
        s@ == spec_unsubscribe_cmd(id, tickers.deep_view()),
{
    let mut out = String::from_str("{\"id\":");
    let num = u64_to_dec(id);
    out.append(num.as_str());
    out.append(",\"cmd\":\"unsubscribe\",\"params\":{\"market_tickers\":[");
    append_list(&mut out, tickers);
    out.append("]}}");
    proof {
        assert(out@ =~= spec_unsubscribe_cmd(id, tickers.deep_view()));
    }
    out
}

} // verus!
