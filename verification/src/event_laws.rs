//! What is appended to an event log: what was given, under the next number.
use crate::error::PlanErrorModel;
use crate::events::{
    last_loop_seq, last_ordinal, EventLogModel, EventRowModel, TranscriptSegmentModel,
};
use vstd::prelude::*;

verus! {

/// The number comes right after those of the loop: it is one more than the
/// greatest of them, or one.
pub open spec fn is_next_number(events: Seq<EventRowModel>, loop_id: Seq<char>, number: int) -> bool {
    &&& forall|k: int|
        0 <= k < events.len() && (#[trigger] events[k]).loop_id == loop_id ==> events[k].loop_seq
            < number
    &&& number == 1 && (forall|k: int|
        0 <= k < events.len() ==> (#[trigger] events[k]).loop_id != loop_id) || exists|k: int|
        0 <= k < events.len() && (#[trigger] events[k]).loop_id == loop_id && events[k].loop_seq
            == number - 1
}

/// The ordinal comes right after those of the invocation.
pub open spec fn is_next_ordinal(
    segments: Seq<TranscriptSegmentModel>,
    invocation_id: Seq<char>,
    ordinal: int,
) -> bool {
    &&& forall|k: int|
        0 <= k < segments.len() && (#[trigger] segments[k]).invocation_id == invocation_id
            ==> segments[k].ordinal < ordinal
    &&& ordinal == 1 && (forall|k: int|
        0 <= k < segments.len() ==> (#[trigger] segments[k]).invocation_id != invocation_id)
        || exists|k: int|
        0 <= k < segments.len() && (#[trigger] segments[k]).invocation_id == invocation_id
            && segments[k].ordinal == ordinal - 1
}

proof fn last_number_is_greatest(events: Seq<EventRowModel>, loop_id: Seq<char>, n: int)
    requires
        0 <= n <= events.len(),
    ensures
        match last_loop_seq(events, loop_id, n) {
            Some(last) => {
                &&& forall|k: int|
                    0 <= k < n && (#[trigger] events[k]).loop_id == loop_id ==> events[k].loop_seq
                        <= last
                &&& exists|k: int|
                    0 <= k < n && (#[trigger] events[k]).loop_id == loop_id && events[k].loop_seq
                        == last
            },
            None => forall|k: int| 0 <= k < n ==> (#[trigger] events[k]).loop_id != loop_id,
        },
    decreases n,
{
    if n > 0 {
        last_number_is_greatest(events, loop_id, n - 1);
        assert(events[n - 1] == events[n - 1]);
    }
}

proof fn last_ordinal_is_greatest(
    segments: Seq<TranscriptSegmentModel>,
    invocation_id: Seq<char>,
    n: int,
)
    requires
        0 <= n <= segments.len(),
    ensures
        match last_ordinal(segments, invocation_id, n) {
            Some(last) => {
                &&& forall|k: int|
                    0 <= k < n && (#[trigger] segments[k]).invocation_id == invocation_id
                        ==> segments[k].ordinal <= last
                &&& exists|k: int|
                    0 <= k < n && (#[trigger] segments[k]).invocation_id == invocation_id
                        && segments[k].ordinal == last
            },
            None => forall|k: int|
                0 <= k < n ==> (#[trigger] segments[k]).invocation_id != invocation_id,
        },
    decreases n,
{
    if n > 0 {
        last_ordinal_is_greatest(segments, invocation_id, n - 1);
        assert(segments[n - 1] == segments[n - 1]);
    }
}

/// An event is appended behind the others as it was given, at the moment that the
/// clock tells and under the next number of its loop. Nothing else changes, and
/// nothing at all where the clock fails or no number is left.
pub proof fn events_are_appended_as_given(
    log: EventLogModel,
    event_id: i64,
    loop_id: Seq<char>,
    event_name: Seq<char>,
    payload_json: Seq<char>,
    clock: Result<Seq<char>, PlanErrorModel>,
)
    ensures
        ({
            let (next, result) = log.event_appended(
                event_id,
                loop_id,
                event_name,
                payload_json,
                clock,
            );
            let room = forall|k: int|
                0 <= k < log.events.len() && (#[trigger] log.events[k]).loop_id == loop_id
                    ==> log.events[k].loop_seq < i64::MAX;
            &&& result is Ok <==> room && clock is Ok
            &&& result is Err ==> next == log
            &&& result matches Ok(id) ==> {
                let row = next.events.last();
                &&& id == event_id
                &&& next.events.len() == log.events.len() + 1
                &&& next.events.drop_last() == log.events
                &&& row.event_id == event_id
                &&& row.loop_id == loop_id
                &&& row.event_name == event_name
                &&& row.payload_json == payload_json
                &&& row.occurred_at == clock->Ok_0
                &&& row.recorded_at == clock->Ok_0
                &&& is_next_number(log.events, loop_id, row.loop_seq as int)
                &&& next.segments == log.segments
                &&& next.contents == log.contents
            }
        }),
{
    let (next, result) = log.event_appended(event_id, loop_id, event_name, payload_json, clock);
    last_number_is_greatest(log.events, loop_id, log.events.len() as int);
    if result is Ok {
        assert(next.events.drop_last() =~= log.events);
    }
}

/// A segment is appended behind the others as it was given, at the moment that the
/// clock tells and under the next ordinal of its invocation.
pub proof fn segments_are_appended_as_given(
    log: EventLogModel,
    invocation_id: Seq<char>,
    speaker: Seq<char>,
    segment_kind: Seq<char>,
    summary: Option<Seq<char>>,
    content_ref: Seq<char>,
    clock: Result<Seq<char>, PlanErrorModel>,
)
    ensures
        ({
            let (next, result) = log.segment_appended(
                invocation_id,
                speaker,
                segment_kind,
                summary,
                content_ref,
                clock,
            );
            let room = forall|k: int|
                0 <= k < log.segments.len() && (#[trigger] log.segments[k]).invocation_id
                    == invocation_id ==> log.segments[k].ordinal < i64::MAX;
            &&& result is Ok <==> room && clock is Ok
            &&& result is Err ==> next == log
            &&& result is Ok ==> {
                let row = next.segments.last();
                &&& next.segments.len() == log.segments.len() + 1
                &&& next.segments.drop_last() == log.segments
                &&& row.invocation_id == invocation_id
                &&& row.speaker == speaker
                &&& row.segment_kind == segment_kind
                &&& row.summary == summary
                &&& row.content_ref == content_ref
                &&& row.occurred_at == clock->Ok_0
                &&& is_next_ordinal(log.segments, invocation_id, row.ordinal as int)
                &&& next.events == log.events
                &&& next.contents == log.contents
            }
        }),
{
    let (next, result) = log.segment_appended(
        invocation_id,
        speaker,
        segment_kind,
        summary,
        content_ref,
        clock,
    );
    last_ordinal_is_greatest(log.segments, invocation_id, log.segments.len() as int);
    if result is Ok {
        assert(next.segments.drop_last() =~= log.segments);
    }
}

} // verus!
