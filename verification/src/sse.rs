//! The server-sent-event framing of a relayed chat completion stream.
//!
//! Each upstream chunk is re-emitted as a `data:` event. A failure is emitted
//! as one error-envelope `data:` event and ends the stream there; only a clean
//! end is marked with the `data: [DONE]` sentinel. Response headers forward the
//! upstream `Content-Type`/`Cache-Control` when they are valid header values,
//! defaulting to `text/event-stream`/`no-cache`.

use vstd::prelude::*;
use vstd::string::StringExecFns;
use vstd::string::StringSliceAdditionalSpecFns;

use axum::http::HeaderValue;

verus! {

/// One item of the upstream chunk stream, already rendered as JSON text.
pub enum RelayItem {
    /// A chunk, serialized.
    Data(String),
    /// A failure (upstream error or a chunk that failed to serialize), as its
    /// error envelope.
    Error(String),
}

pub enum RelayItemView {
    Data(Seq<char>),
    Error(Seq<char>),
}

impl View for RelayItem {
    type V = RelayItemView;

    open spec fn view(&self) -> RelayItemView {
        match self {
            RelayItem::Data(json) => RelayItemView::Data(json@),
            RelayItem::Error(envelope) => RelayItemView::Error(envelope@),
        }
    }
}

pub open spec fn items_view(items: Seq<RelayItem>) -> Seq<RelayItemView> {
    items.map_values(|item: RelayItem| item@)
}

pub open spec fn strings_view(strings: Seq<String>) -> Seq<Seq<char>> {
    strings.map_values(|s: String| s@)
}

/// The SSE event that carries `payload`.
pub open spec fn sse_event(payload: Seq<char>) -> Seq<char> {
    "data: "@ + payload + "\n\n"@
}

/// The end-of-stream sentinel event.
pub open spec fn done_event() -> Seq<char> {
    "data: [DONE]\n\n"@
}

/// The events a relayed stream emits: one per chunk up to and including the
/// first failure; the sentinel follows only when nothing failed.
pub open spec fn relay_events(items: Seq<RelayItemView>) -> Seq<Seq<char>>
    decreases items.len(),
{
    if items.len() == 0 {
        seq![done_event()]
    } else {
        match items[0] {
            RelayItemView::Data(json) => seq![sse_event(json)] + relay_events(items.drop_first()),
            RelayItemView::Error(envelope) => seq![sse_event(envelope)],
        }
    }
}

/// The SSE event that carries `payload`.
pub fn sse_data_event(payload: &str) -> (event: String)
    ensures
        event@ == sse_event(payload@),
{
    "data: ".to_owned().concat(payload).concat("\n\n")
}

/// One step of the relay: after a failure the relay has ended and emits
/// nothing; a chunk is emitted as an event; a failure is emitted as its error
/// envelope and ends the relay.
pub fn relay_step(failed: bool, item: &RelayItem) -> (next: (bool, Option<String>))
    ensures
        failed ==> next.0 && next.1 is None,
        !failed ==> match item@ {
            RelayItemView::Data(json) => !next.0 && (next.1 matches Some(e) && e@ == sse_event(json)),
            RelayItemView::Error(envelope) => next.0 && (next.1 matches Some(e) && e@ == sse_event(
                envelope,
            )),
        },
{
    if failed {
        return (true, None);
    }
    match item {
        RelayItem::Data(json) => (false, Some(sse_data_event(json.as_str()))),
        RelayItem::Error(envelope) => (true, Some(sse_data_event(envelope.as_str()))),
    }
}

/// The event that closes the relay once the upstream stream is exhausted: the
/// sentinel after a clean end, nothing after a failure.
pub fn relay_end(failed: bool) -> (event: Option<String>)
    ensures
        failed ==> event is None,
        !failed ==> (event matches Some(e) && e@ == done_event()),
{
    if failed {
        None
    } else {
        Some("data: [DONE]\n\n".to_owned())
    }
}

/// The whole event sequence a relayed stream emits for `items`.
pub fn relay_events_for(items: &[RelayItem]) -> (events: Vec<String>)
    ensures
        strings_view(events@) == relay_events(items_view(items@)),
{
    let ghost all = items_view(items@);
    let mut events: Vec<String> = Vec::new();
    let mut failed = false;
    let mut index: usize = 0;
    proof {
        assert(all.skip(0) =~= all);
        assert(strings_view(events@) + relay_events(all) =~= relay_events(all));
    }
    while index < items.len() && !failed
        invariant
            index <= items@.len(),
            all == items_view(items@),
            !failed ==> strings_view(events@) + relay_events(all.skip(index as int)) == relay_events(all),
            failed ==> strings_view(events@) == relay_events(all),
        decreases items@.len() - index,
    {
        let ghost rest = all.skip(index as int);
        let ghost before = events@;
        let (next_failed, event) = relay_step(false, &items[index]);
        proof {
            assert(rest[0] == items@[index as int]@);
            assert(rest.drop_first() =~= all.skip(index + 1));
        }
        match event {
            Some(e) => {
                events.push(e);
                proof {
                    assert(strings_view(events@) =~= strings_view(before).push(e@));
                    if next_failed {
                        assert(relay_events(rest) =~= seq![e@]);
                        assert(strings_view(events@) =~= strings_view(before) + relay_events(rest));
                    } else {
                        assert(relay_events(rest) =~= seq![e@] + relay_events(all.skip(index + 1)));
                        assert(strings_view(events@) + relay_events(all.skip(index + 1))
                            =~= strings_view(before) + relay_events(rest));
                    }
                }
            },
            None => {},
        }
        failed = next_failed;
        index = index + 1;
    }
    let ghost before = events@;
    match relay_end(failed) {
        Some(done) => {
            events.push(done);
            proof {
                assert(strings_view(events@) =~= strings_view(before).push(done_event()));
                assert(all.skip(index as int) =~= Seq::<RelayItemView>::empty());
                assert(strings_view(before) + seq![done_event()] =~= strings_view(before).push(done_event()));
            }
        },
        None => {},
    }
    events
}

/// A relayed stream emits one event per item up to and including the first
/// failure. When no item failed it holds one event per item and then the
/// sentinel; after a failure it ends with that failure's envelope event.
pub proof fn lemma_relay_events_shape(items: Seq<RelayItemView>)
    ensures
        relay_events(items).len() >= 1,
        relay_events(items).len() <= items.len() + 1,
        (forall|i: int| 0 <= i < items.len() ==> #[trigger] items[i] is Data) ==> (relay_events(items).len()
            == items.len() + 1 && relay_events(items).last() == done_event()),
        forall|k: int|
            0 <= k < items.len() && (#[trigger] items[k] matches RelayItemView::Error(envelope)) && (forall|
                j: int,
            | 0 <= j < k ==> #[trigger] items[j] is Data) ==> relay_events(items).len() == k + 1
                && relay_events(items).last() == sse_event(items[k]->Error_0),
    decreases items.len(),
{
    if items.len() > 0 {
        let rest = items.drop_first();
        lemma_relay_events_shape(rest);
        if items[0] is Data {
            assert forall|i: int| 0 <= i < rest.len() && (forall|k: int| 0 <= k < items.len() ==> #[trigger] items[k] is Data)
                implies #[trigger] rest[i] is Data by {
                assert(rest[i] == items[i + 1]);
            }
            assert forall|k: int|
                0 <= k < items.len() && (#[trigger] items[k] matches RelayItemView::Error(envelope)) && (forall|
                    j: int,
                | 0 <= j < k ==> #[trigger] items[j] is Data) implies relay_events(items).len() == k + 1
                    && relay_events(items).last() == sse_event(items[k]->Error_0) by {
                assert(k >= 1);
                assert(rest[k - 1] == items[k]);
                assert forall|j: int| 0 <= j < k - 1 implies #[trigger] rest[j] is Data by {
                    assert(rest[j] == items[j + 1]);
                }
            }
        }
    }
}

/// A byte that a header value may hold: visible ASCII, space, tab, or any
/// byte from 0x80 up.
pub open spec fn is_header_value_byte(b: u8) -> bool {
    (b >= 32 && b != 127) || b == 9
}

/// `http::HeaderValue::from_str` succeeds: every byte is allowed in a header
/// value (as its `is_valid` byte test defines).
#[verifier::external_body]
fn header_value_is_valid(value: &str) -> (valid: bool)
    ensures
        valid == forall|i: int| 0 <= i < value.spec_bytes().len() ==> is_header_value_byte(
            #[trigger] value.spec_bytes()[i],
        ),
{
    HeaderValue::from_str(value).is_ok()
}

pub open spec fn header_valid(value: Seq<u8>) -> bool {
    forall|i: int| 0 <= i < value.len() ==> is_header_value_byte(#[trigger] value[i])
}

/// The header value a relayed response forwards: the upstream value when it is
/// a valid header value, the default otherwise.
pub fn header_or_default(upstream: Option<&str>, default: &str) -> (value: String)
    ensures
        match upstream {
            Some(v) => if header_valid(v.spec_bytes()) {
                value@ == v@
            } else {
                value@ == default@
            },
            None => value@ == default@,
        },
{
    match upstream {
        Some(v) => {
            if header_value_is_valid(v) {
                v.to_owned()
            } else {
                default.to_owned()
            }
        },
        None => default.to_owned(),
    }
}

} // verus!
