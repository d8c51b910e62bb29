//! Events, contents and transcripts: what is appended, and how it is read back.
//!
//! Payloads are JSON texts.
use crate::digest::{fingerprint, sha256_hex};
use crate::error::{failure, outcome, PlanError, PlanErrorModel};
use crate::text::{bytes_of, concat2, same_text};
use vstd::prelude::*;
use vstd::utf8::encode_utf8;

verus! {

/// The table of the events.
pub const CORE_EVENT_TABLE: &'static str = "CORE__events";

/// A content that is referred to.
#[derive(Debug, PartialEq, Eq)]
pub struct ContentRow {
    pub content_ref: String,
    pub content_kind: String,
    pub payload_json: String,
    pub created_at: String,
}

/// The meaning of a [`ContentRow`].
pub struct ContentRowModel {
    pub content_ref: Seq<char>,
    pub content_kind: Seq<char>,
    pub payload_json: Seq<char>,
    pub created_at: Seq<char>,
}

impl DeepView for ContentRow {
    type V = ContentRowModel;

    open spec fn deep_view(&self) -> ContentRowModel {
        ContentRowModel {
            content_ref: self.content_ref@,
            content_kind: self.content_kind@,
            payload_json: self.payload_json@,
            created_at: self.created_at@,
        }
    }
}

impl Clone for ContentRow {
    fn clone(&self) -> (r: Self)
        ensures
            r.deep_view() == self.deep_view(),
    {
        ContentRow {
            content_ref: self.content_ref.clone(),
            content_kind: self.content_kind.clone(),
            payload_json: self.payload_json.clone(),
            created_at: self.created_at.clone(),
        }
    }
}

/// An event of a loop.
#[derive(Debug, PartialEq, Eq)]
pub struct EventRow {
    pub event_id: i64,
    pub loop_id: String,
    pub loop_seq: i64,
    pub event_name: String,
    pub payload_json: String,
    pub occurred_at: String,
    pub recorded_at: String,
}

/// The meaning of a [`EventRow`].
pub struct EventRowModel {
    pub event_id: i64,
    pub loop_id: Seq<char>,
    pub loop_seq: i64,
    pub event_name: Seq<char>,
    pub payload_json: Seq<char>,
    pub occurred_at: Seq<char>,
    pub recorded_at: Seq<char>,
}

impl DeepView for EventRow {
    type V = EventRowModel;

    open spec fn deep_view(&self) -> EventRowModel {
        EventRowModel {
            event_id: self.event_id,
            loop_id: self.loop_id@,
            loop_seq: self.loop_seq,
            event_name: self.event_name@,
            payload_json: self.payload_json@,
            occurred_at: self.occurred_at@,
            recorded_at: self.recorded_at@,
        }
    }
}

impl Clone for EventRow {
    fn clone(&self) -> (r: Self)
        ensures
            r.deep_view() == self.deep_view(),
    {
        EventRow {
            event_id: self.event_id,
            loop_id: self.loop_id.clone(),
            loop_seq: self.loop_seq,
            event_name: self.event_name.clone(),
            payload_json: self.payload_json.clone(),
            occurred_at: self.occurred_at.clone(),
            recorded_at: self.recorded_at.clone(),
        }
    }
}

/// A part of what was said in an invocation.
#[derive(Debug, PartialEq, Eq)]
pub struct TranscriptSegment {
    pub invocation_id: String,
    pub ordinal: i64,
    pub speaker: String,
    pub segment_kind: String,
    pub summary: Option<String>,
    pub content_ref: String,
    pub occurred_at: String,
}

/// The meaning of a [`TranscriptSegment`].
pub struct TranscriptSegmentModel {
    pub invocation_id: Seq<char>,
    pub ordinal: i64,
    pub speaker: Seq<char>,
    pub segment_kind: Seq<char>,
    pub summary: Option<Seq<char>>,
    pub content_ref: Seq<char>,
    pub occurred_at: Seq<char>,
}

impl DeepView for TranscriptSegment {
    type V = TranscriptSegmentModel;

    open spec fn deep_view(&self) -> TranscriptSegmentModel {
        TranscriptSegmentModel {
            invocation_id: self.invocation_id@,
            ordinal: self.ordinal,
            speaker: self.speaker@,
            segment_kind: self.segment_kind@,
            summary: self.summary.deep_view(),
            content_ref: self.content_ref@,
            occurred_at: self.occurred_at@,
        }
    }
}

impl Clone for TranscriptSegment {
    fn clone(&self) -> (r: Self)
        ensures
            r.deep_view() == self.deep_view(),
    {
        TranscriptSegment {
            invocation_id: self.invocation_id.clone(),
            ordinal: self.ordinal,
            speaker: self.speaker.clone(),
            segment_kind: self.segment_kind.clone(),
            summary: self.summary.clone(),
            content_ref: self.content_ref.clone(),
            occurred_at: self.occurred_at.clone(),
        }
    }
}

/// An event as it is replayed.
#[derive(Debug, PartialEq, Eq)]
pub struct EventRecord {
    pub event_id: i64,
    pub loop_id: String,
    pub event_name: String,
    pub payload: String,
    pub recorded_at: String,
}

/// The meaning of a [`EventRecord`].
pub struct EventRecordModel {
    pub event_id: i64,
    pub loop_id: Seq<char>,
    pub event_name: Seq<char>,
    pub payload: Seq<char>,
    pub recorded_at: Seq<char>,
}

impl DeepView for EventRecord {
    type V = EventRecordModel;

    open spec fn deep_view(&self) -> EventRecordModel {
        EventRecordModel {
            event_id: self.event_id,
            loop_id: self.loop_id@,
            event_name: self.event_name@,
            payload: self.payload@,
            recorded_at: self.recorded_at@,
        }
    }
}

impl Clone for EventRecord {
    fn clone(&self) -> (r: Self)
        ensures
            r.deep_view() == self.deep_view(),
    {
        EventRecord {
            event_id: self.event_id,
            loop_id: self.loop_id.clone(),
            event_name: self.event_name.clone(),
            payload: self.payload.clone(),
            recorded_at: self.recorded_at.clone(),
        }
    }
}

/// All that was appended.
#[derive(Debug, PartialEq, Eq)]
pub struct EventLog {
    pub contents: Vec<ContentRow>,
    pub events: Vec<EventRow>,
    pub segments: Vec<TranscriptSegment>,
}

/// The meaning of a [`EventLog`].
pub struct EventLogModel {
    pub contents: Seq<ContentRowModel>,
    pub events: Seq<EventRowModel>,
    pub segments: Seq<TranscriptSegmentModel>,
}

impl DeepView for EventLog {
    type V = EventLogModel;

    open spec fn deep_view(&self) -> EventLogModel {
        EventLogModel {
            contents: self.contents.deep_view(),
            events: self.events.deep_view(),
            segments: self.segments.deep_view(),
        }
    }
}

impl Clone for EventLog {
    fn clone(&self) -> (r: Self)
        ensures
            r.deep_view() == self.deep_view(),
    {
        let r: EventLog = EventLog {
            contents: self.contents.clone(),
            events: self.events.clone(),
            segments: self.segments.clone(),
        };
        assert(r.contents.deep_view() =~= self.contents.deep_view());
        assert(r.events.deep_view() =~= self.events.deep_view());
        assert(r.segments.deep_view() =~= self.segments.deep_view());
        r
    }
}

/// The reference of a content: the fingerprint of its kind, a zero byte and
/// its text.
pub open spec fn content_ref_of(content_kind: Seq<char>, payload_json: Seq<char>) -> Seq<char> {
    fingerprint(encode_utf8(content_kind) + seq![0u8] + encode_utf8(payload_json))
}

/// The reference of a content.
pub fn content_ref(content_kind: &str, payload_json: &str) -> (r: String)
    ensures
        r@ == content_ref_of(content_kind@, payload_json@),
{
    let mut bytes: Vec<u8> = bytes_of(content_kind);
    bytes.push(0);
    let more: Vec<u8> = bytes_of(payload_json);
    bytes.extend_from_slice(more.as_slice());
    assert(bytes@ =~= encode_utf8(content_kind@) + seq![0u8] + encode_utf8(payload_json@));
    sha256_hex(&bytes)
}

/// The first content at or after `i` with this reference.
pub open spec fn content_from(contents: Seq<ContentRowModel>, content_ref: Seq<char>, i: int) -> Option<
    ContentRowModel,
>
    decreases contents.len() - i,
{
    if i >= contents.len() {
        None
    } else if contents[i].content_ref == content_ref {
        Some(contents[i])
    } else {
        content_from(contents, content_ref, i + 1)
    }
}

/// The greatest number that an event of the loop has, among the first `n`, or
/// zero where none has a greater one.
pub open spec fn last_loop_seq(events: Seq<EventRowModel>, loop_id: Seq<char>, n: int) -> Option<i64>
    decreases n,
{
    if n <= 0 {
        None
    } else {
        let before = last_loop_seq(events, loop_id, n - 1);
        if events[n - 1].loop_id != loop_id {
            before
        } else {
            match before {
                Some(seq) => if events[n - 1].loop_seq > seq {
                    Some(events[n - 1].loop_seq)
                } else {
                    Some(seq)
                },
                None => Some(events[n - 1].loop_seq),
            }
        }
    }
}

/// The greatest ordinal that a segment of the invocation has, among the first
/// `n`.
pub open spec fn last_ordinal(segments: Seq<TranscriptSegmentModel>, invocation_id: Seq<char>, n: int) -> Option<
    i64,
>
    decreases n,
{
    if n <= 0 {
        None
    } else {
        let before = last_ordinal(segments, invocation_id, n - 1);
        if segments[n - 1].invocation_id != invocation_id {
            before
        } else {
            match before {
                Some(ordinal) => if segments[n - 1].ordinal > ordinal {
                    Some(segments[n - 1].ordinal)
                } else {
                    Some(ordinal)
                },
                None => Some(segments[n - 1].ordinal),
            }
        }
    }
}

/// One more than the greatest number so far, or one.
pub open spec fn following(last: Option<i64>) -> int {
    match last {
        Some(n) => n + 1,
        None => 1,
    }
}

/// The event as it is replayed.
pub open spec fn record_of_event(row: EventRowModel) -> EventRecordModel {
    EventRecordModel {
        event_id: row.event_id,
        loop_id: row.loop_id,
        event_name: row.event_name,
        payload: row.payload_json,
        recorded_at: row.recorded_at,
    }
}

/// The records with one more behind all that do not have a greater id.
pub open spec fn insert_record(records: Seq<EventRecordModel>, record: EventRecordModel) -> Seq<
    EventRecordModel,
>
    decreases records.len(),
{
    if records.len() > 0 && record.event_id < records.last().event_id {
        insert_record(records.drop_last(), record).push(records.last())
    } else {
        records.push(record)
    }
}

/// The records of the first `n` events, of one loop or of all, by their ids.
pub open spec fn records_of(events: Seq<EventRowModel>, loop_id: Option<Seq<char>>, n: int) -> Seq<
    EventRecordModel,
>
    decreases n,
{
    if n <= 0 {
        Seq::empty()
    } else if loop_id is None || loop_id == Some(events[n - 1].loop_id) {
        insert_record(records_of(events, loop_id, n - 1), record_of_event(events[n - 1]))
    } else {
        records_of(events, loop_id, n - 1)
    }
}

impl EventLogModel {
    /// The number of the next event of a loop.
    pub open spec fn next_loop_seq(self, loop_id: Seq<char>) -> int {
        following(last_loop_seq(self.events, loop_id, self.events.len() as int))
    }

    /// The ordinal of the next segment of an invocation.
    pub open spec fn next_ordinal(self, invocation_id: Seq<char>) -> int {
        following(last_ordinal(self.segments, invocation_id, self.segments.len() as int))
    }

    /// The log with a content, unless it is there already.
    pub open spec fn with_content(
        self,
        content_kind: Seq<char>,
        payload_json: Seq<char>,
        created_at: Seq<char>,
    ) -> EventLogModel {
        let content_ref = content_ref_of(content_kind, payload_json);
        if content_from(self.contents, content_ref, 0) is Some {
            self
        } else {
            EventLogModel {
                contents: self.contents.push(
                    ContentRowModel { content_ref, content_kind, payload_json, created_at },
                ),
                ..self
            }
        }
    }

    /// The content with this reference.
    pub open spec fn content(self, content_ref: Seq<char>) -> Result<Seq<char>, PlanErrorModel> {
        match content_from(self.contents, content_ref, 0) {
            Some(row) => Ok(row.payload_json),
            None => Err(failure("unknown content_ref "@ + content_ref)),
        }
    }
}

fn find_content<'a>(contents: &'a Vec<ContentRow>, reference: &str) -> (r: Option<&'a ContentRow>)
    ensures
        match r {
            Some(row) => content_from(contents.deep_view(), reference@, 0) == Some(
                row.deep_view(),
            ),
            None => content_from(contents.deep_view(), reference@, 0) is None,
        },
{
    let ghost all = contents.deep_view();
    let mut i: usize = 0;
    while i < contents.len()
        invariant
            i <= contents.len(),
            all == contents.deep_view(),
            content_from(all, reference@, 0) == content_from(all, reference@, i as int),
        decreases contents.len() - i,
    {
        assert(all[i as int] == contents@[i as int].deep_view());
        if same_text(contents[i].content_ref.as_str(), reference) {
            return Some(&contents[i]);
        }
        i = i + 1;
    }
    None
}

proof fn insert_record_at(records: Seq<EventRecordModel>, record: EventRecordModel, k: int)
    requires
        0 <= k <= records.len(),
        forall|j: int|
            k <= j < records.len() ==> record.event_id < (#[trigger] records[j]).event_id,
        k > 0 ==> record.event_id >= records[k - 1].event_id,
    ensures
        insert_record(records, record) == records.insert(k, record),
    decreases records.len(),
{
    if k < records.len() {
        insert_record_at(records.drop_last(), record, k);
    }
    assert(insert_record(records, record) =~= records.insert(k, record));
}

impl EventLog {
    /// Remembers a content as of the given time, unless it is there already,
    /// and gives its reference.
    pub fn store_json_content_at(
        &mut self,
        content_kind: &str,
        payload_json: &str,
        created_at: &str,
    ) -> (r: String)
        ensures
            r@ == content_ref_of(content_kind@, payload_json@),
            final(self).deep_view() == old(self).deep_view().with_content(
                content_kind@,
                payload_json@,
                created_at@,
            ),
    {
        let reference: String = content_ref(content_kind, payload_json);
        if find_content(&self.contents, reference.as_str()).is_none() {
            let ghost before = self.contents.deep_view();
            let row: ContentRow = ContentRow {
                content_ref: reference.clone(),
                content_kind: content_kind.to_owned(),
                payload_json: payload_json.to_owned(),
                created_at: created_at.to_owned(),
            };
            let ghost model = row.deep_view();
            self.contents.push(row);
            assert(self.contents.deep_view() =~= before.push(model));
        }
        reference
    }

    /// The content with this reference.
    pub fn load_json_content(&self, reference: &str) -> (r: Result<String, PlanError>)
        ensures
            outcome(r) == self.deep_view().content(reference@),
    {
        match find_content(&self.contents, reference) {
            Some(row) => Ok(row.payload_json.clone()),
            None => Err(PlanError::new(concat2("unknown content_ref ", reference))),
        }
    }

    fn find_last_loop_seq(&self, loop_id: &str) -> (r: Option<i64>)
        ensures
            r == last_loop_seq(self.deep_view().events, loop_id@, self.events.len() as int),
    {
        let ghost all = self.events.deep_view();
        let mut best: Option<i64> = None;
        let mut n: usize = 0;
        while n < self.events.len()
            invariant
                n <= self.events.len(),
                all == self.events.deep_view(),
                best == last_loop_seq(all, loop_id@, n as int),
            decreases self.events.len() - n,
        {
            assert(all[n as int] == self.events@[n as int].deep_view());
            if same_text(self.events[n].loop_id.as_str(), loop_id) {
                let seq: i64 = self.events[n].loop_seq;
                best = match best {
                    Some(other) => if seq > other {
                        Some(seq)
                    } else {
                        Some(other)
                    },
                    None => Some(seq),
                };
            }
            n = n + 1;
        }
        best
    }

    fn find_last_ordinal(&self, invocation_id: &str) -> (r: Option<i64>)
        ensures
            r == last_ordinal(
                self.deep_view().segments,
                invocation_id@,
                self.segments.len() as int,
            ),
    {
        let ghost all = self.segments.deep_view();
        let mut best: Option<i64> = None;
        let mut n: usize = 0;
        while n < self.segments.len()
            invariant
                n <= self.segments.len(),
                all == self.segments.deep_view(),
                best == last_ordinal(all, invocation_id@, n as int),
            decreases self.segments.len() - n,
        {
            assert(all[n as int] == self.segments@[n as int].deep_view());
            if same_text(self.segments[n].invocation_id.as_str(), invocation_id) {
                let ordinal: i64 = self.segments[n].ordinal;
                best = match best {
                    Some(other) => if ordinal > other {
                        Some(ordinal)
                    } else {
                        Some(other)
                    },
                    None => Some(ordinal),
                };
            }
            n = n + 1;
        }
        best
    }

    /// Appends an event as of the given time under the id that it was given:
    /// it gets the next number of its loop.
    pub fn append_event_at(
        &mut self,
        event_id: i64,
        loop_id: &str,
        event_name: &str,
        payload_json: &str,
        recorded_at: &str,
    ) -> (r: i64)
        requires
            old(self).deep_view().next_loop_seq(loop_id@) <= i64::MAX,
        ensures
            r == event_id,
            final(self).deep_view() == old(self).deep_view().with_event(
                event_id,
                loop_id@,
                event_name@,
                payload_json@,
                recorded_at@,
            ),
    {
        let loop_seq: i64 = match self.find_last_loop_seq(loop_id) {
            Some(seq) => seq + 1,
            None => 1,
        };
        let ghost before = self.events.deep_view();
        let row: EventRow = EventRow {
            event_id,
            loop_id: loop_id.to_owned(),
            loop_seq,
            event_name: event_name.to_owned(),
            payload_json: payload_json.to_owned(),
            occurred_at: recorded_at.to_owned(),
            recorded_at: recorded_at.to_owned(),
        };
        let ghost model = row.deep_view();
        self.events.push(row);
        assert(self.events.deep_view() =~= before.push(model));
        event_id
    }

    /// Appends a segment as of the given time to the transcript of an
    /// invocation: it gets the next ordinal.
    pub fn append_transcript_segment_at(
        &mut self,
        invocation_id: &str,
        speaker: &str,
        segment_kind: &str,
        summary: &Option<String>,
        content_ref: &str,
        occurred_at: &str,
    )
        requires
            old(self).deep_view().next_ordinal(invocation_id@) <= i64::MAX,
        ensures
            final(self).deep_view() == old(self).deep_view().with_segment(
                invocation_id@,
                speaker@,
                segment_kind@,
                summary.deep_view(),
                content_ref@,
                occurred_at@,
            ),
    {
        let ordinal: i64 = match self.find_last_ordinal(invocation_id) {
            Some(last) => last + 1,
            None => 1,
        };
        let ghost before = self.segments.deep_view();
        let row: TranscriptSegment = TranscriptSegment {
            invocation_id: invocation_id.to_owned(),
            ordinal,
            speaker: speaker.to_owned(),
            segment_kind: segment_kind.to_owned(),
            summary: summary.clone(),
            content_ref: content_ref.to_owned(),
            occurred_at: occurred_at.to_owned(),
        };
        let ghost model = row.deep_view();
        self.segments.push(row);
        assert(self.segments.deep_view() =~= before.push(model));
    }

    fn scan_event_records(&self, loop_id: &Option<String>) -> (r: Vec<EventRecord>)
        ensures
            r.deep_view() == records_of(
                self.deep_view().events,
                loop_id.deep_view(),
                self.events.len() as int,
            ),
    {
        let ghost all = self.events.deep_view();
        let ghost wanted = loop_id.deep_view();
        let mut records: Vec<EventRecord> = Vec::new();
        let mut n: usize = 0;
        assert(records.deep_view() =~= Seq::empty());
        while n < self.events.len()
            invariant
                n <= self.events.len(),
                all == self.events.deep_view(),
                wanted == loop_id.deep_view(),
                records.deep_view() == records_of(all, wanted, n as int),
            decreases self.events.len() - n,
        {
            let row: &EventRow = &self.events[n];
            assert(all[n as int] == row.deep_view());
            let fits: bool = match loop_id {
                Some(id) => same_text(id.as_str(), row.loop_id.as_str()),
                None => true,
            };
            if fits {
                let ghost before = records.deep_view();
                let mut k: usize = records.len();
                while k > 0 && row.event_id < records[k - 1].event_id
                    invariant
                        k <= records.len(),
                        before == records.deep_view(),
                        forall|j: int|
                            k <= j < records.len() ==> row.event_id < (
                            #[trigger] before[j]).event_id,
                    decreases k,
                {
                    k = k - 1;
                }
                let record: EventRecord = EventRecord {
                    event_id: row.event_id,
                    loop_id: row.loop_id.clone(),
                    event_name: row.event_name.clone(),
                    payload: row.payload_json.clone(),
                    recorded_at: row.recorded_at.clone(),
                };
                let ghost model = record.deep_view();
                proof {
                    insert_record_at(before, model, k as int);
                }
                records.insert(k, record);
                assert(records.deep_view() =~= before.insert(k as int, model));
            }
            n = n + 1;
        }
        records
    }

    /// The records of all events, by their ids.
    pub fn scan_all_event_records(&self) -> (r: Vec<EventRecord>)
        ensures
            r.deep_view() == records_of(self.deep_view().events, None, self.events.len() as int),
    {
        self.scan_event_records(&None)
    }

    /// The records of the events of a loop, by their ids.
    pub fn scan_loop_event_records(&self, loop_id: &str) -> (r: Vec<EventRecord>)
        ensures
            r.deep_view() == records_of(
                self.deep_view().events,
                Some(loop_id@),
                self.events.len() as int,
            ),
    {
        self.scan_event_records(&Some(loop_id.to_owned()))
    }
}

// ---------------------------------------------------------------------
// The time
// ---------------------------------------------------------------------
/// The text is a moment in UTC as RFC 3339 writes it.
pub open spec fn is_utc_moment(text: Seq<char>) -> bool {
    &&& text.len() >= 20
    &&& text[4] == '-'
    &&& text[7] == '-'
    &&& text[10] == 'T'
    &&& text[13] == ':'
    &&& text[16] == ':'
    &&& text.last() == 'Z'
}

/// What the clock can answer: a moment in UTC, or that its year cannot be
/// written with four digits.
pub open spec fn is_clock_answer(answer: Result<Seq<char>, PlanErrorModel>) -> bool {
    match answer {
        Ok(text) => is_utc_moment(text),
        Err(error) => error == failure(
            "The year component cannot be formatted into the requested format."@,
        ),
    }
}

/// The time, from `time::OffsetDateTime::now_utc`, as its `format` writes it by
/// `Rfc3339`. It depends on the clock: what is claimed is the form of the text,
/// and the one error that there is for a moment in UTC, which comes where its
/// year is not one of 0 to 9999. Which of the two comes is left unsaid.
/// `now_utc` panics where the system's clock is set to a moment outside the
/// dates that the crate can hold, which no argument decides.
#[verifier::external_body]
pub fn timestamp() -> (r: Result<String, PlanError>)
    ensures
        is_clock_answer(outcome(r)),
{
    time::OffsetDateTime::now_utc().format(&time::format_description::well_known::Rfc3339).map_err(
        |error| PlanError::new(error.to_string()),
    )
}

impl EventLogModel {
    /// The log with one more event.
    pub open spec fn with_event(
        self,
        event_id: i64,
        loop_id: Seq<char>,
        event_name: Seq<char>,
        payload_json: Seq<char>,
        recorded_at: Seq<char>,
    ) -> EventLogModel {
        EventLogModel {
            events: self.events.push(
                EventRowModel {
                    event_id,
                    loop_id,
                    loop_seq: self.next_loop_seq(loop_id) as i64,
                    event_name,
                    payload_json,
                    occurred_at: recorded_at,
                    recorded_at,
                },
            ),
            ..self
        }
    }

    /// The log with one more segment.
    pub open spec fn with_segment(
        self,
        invocation_id: Seq<char>,
        speaker: Seq<char>,
        segment_kind: Seq<char>,
        summary: Option<Seq<char>>,
        content_ref: Seq<char>,
        occurred_at: Seq<char>,
    ) -> EventLogModel {
        EventLogModel {
            segments: self.segments.push(
                TranscriptSegmentModel {
                    invocation_id,
                    ordinal: self.next_ordinal(invocation_id) as i64,
                    speaker,
                    segment_kind,
                    summary,
                    content_ref,
                    occurred_at,
                },
            ),
            ..self
        }
    }
}

impl EventLogModel {
    /// The log after a content was to be remembered, and its reference, given
    /// what the clock answered.
    pub open spec fn content_stored(
        self,
        content_kind: Seq<char>,
        payload_json: Seq<char>,
        clock: Result<Seq<char>, PlanErrorModel>,
    ) -> (EventLogModel, Result<Seq<char>, PlanErrorModel>) {
        match clock {
            Err(error) => (self, Err(error)),
            Ok(moment) => (
                self.with_content(content_kind, payload_json, moment),
                Ok(content_ref_of(content_kind, payload_json)),
            ),
        }
    }

    /// The log after an event was to be appended, and its id, given what the
    /// clock answered.
    pub open spec fn event_appended(
        self,
        event_id: i64,
        loop_id: Seq<char>,
        event_name: Seq<char>,
        payload_json: Seq<char>,
        clock: Result<Seq<char>, PlanErrorModel>,
    ) -> (EventLogModel, Result<i64, PlanErrorModel>) {
        if self.next_loop_seq(loop_id) > i64::MAX {
            (self, Err(failure("loop has no event number left"@)))
        } else {
            match clock {
                Err(error) => (self, Err(error)),
                Ok(moment) => (
                    self.with_event(event_id, loop_id, event_name, payload_json, moment),
                    Ok(event_id),
                ),
            }
        }
    }

    /// The log after a segment was to be appended, given what the clock
    /// answered.
    pub open spec fn segment_appended(
        self,
        invocation_id: Seq<char>,
        speaker: Seq<char>,
        segment_kind: Seq<char>,
        summary: Option<Seq<char>>,
        content_ref: Seq<char>,
        clock: Result<Seq<char>, PlanErrorModel>,
    ) -> (EventLogModel, Result<(), PlanErrorModel>) {
        if self.next_ordinal(invocation_id) > i64::MAX {
            (self, Err(failure("invocation has no ordinal left"@)))
        } else {
            match clock {
                Err(error) => (self, Err(error)),
                Ok(moment) => (
                    self.with_segment(
                        invocation_id,
                        speaker,
                        segment_kind,
                        summary,
                        content_ref,
                        moment,
                    ),
                    Ok(()),
                ),
            }
        }
    }
}

impl EventLog {
    /// Remembers a content as of what the clock answered, unless it is there
    /// already, and gives its reference.
    pub fn store_json_content_by(
        &mut self,
        content_kind: &str,
        payload_json: &str,
        clock: Result<String, PlanError>,
    ) -> (r: Result<String, PlanError>)
        ensures
            (final(self).deep_view(), outcome(r)) == old(self).deep_view().content_stored(
                content_kind@,
                payload_json@,
                outcome(clock),
            ),
    {
        let moment: String = clock?;
        Ok(self.store_json_content_at(content_kind, payload_json, moment.as_str()))
    }

    /// Appends an event as of what the clock answered, under the id that it
    /// was given, unless its loop has no number left.
    pub fn append_event_by(
        &mut self,
        event_id: i64,
        loop_id: &str,
        event_name: &str,
        payload_json: &str,
        clock: Result<String, PlanError>,
    ) -> (r: Result<i64, PlanError>)
        ensures
            (final(self).deep_view(), outcome(r)) == old(self).deep_view().event_appended(
                event_id,
                loop_id@,
                event_name@,
                payload_json@,
                outcome(clock),
            ),
    {
        match self.find_last_loop_seq(loop_id) {
            Some(last) => {
                if last == i64::MAX {
                    return Err(PlanError::new("loop has no event number left".to_owned()));
                }
            },
            None => {},
        }
        let moment: String = clock?;
        Ok(self.append_event_at(event_id, loop_id, event_name, payload_json, moment.as_str()))
    }

    /// Appends a segment as of what the clock answered to the transcript of an
    /// invocation, unless it has no ordinal left.
    pub fn append_transcript_segment_by(
        &mut self,
        invocation_id: &str,
        speaker: &str,
        segment_kind: &str,
        summary: &Option<String>,
        content_ref: &str,
        clock: Result<String, PlanError>,
    ) -> (r: Result<(), PlanError>)
        ensures
            (final(self).deep_view(), outcome(r)) == old(self).deep_view().segment_appended(
                invocation_id@,
                speaker@,
                segment_kind@,
                summary.deep_view(),
                content_ref@,
                outcome(clock),
            ),
    {
        match self.find_last_ordinal(invocation_id) {
            Some(last) => {
                if last == i64::MAX {
                    return Err(PlanError::new("invocation has no ordinal left".to_owned()));
                }
            },
            None => {},
        }
        let moment: String = clock?;
        self.append_transcript_segment_at(
            invocation_id,
            speaker,
            segment_kind,
            summary,
            content_ref,
            moment.as_str(),
        );
        Ok(())
    }

    /// Remembers a content as of now, unless it is there already, and gives
    /// its reference.
    pub fn store_json_content(&mut self, content_kind: &str, payload_json: &str) -> (r: Result<
        String,
        PlanError,
    >)
        ensures
            exists|clock: Result<Seq<char>, PlanErrorModel>|
                #[trigger] is_clock_answer(clock) && (final(self).deep_view(), outcome(r)) == old(
                    self,
                ).deep_view().content_stored(content_kind@, payload_json@, clock),
    {
        let clock: Result<String, PlanError> = timestamp();
        let ghost answer = outcome(clock);
        let r: Result<String, PlanError> = self.store_json_content_by(
            content_kind,
            payload_json,
            clock,
        );
        assert(is_clock_answer(answer));
        r
    }

    /// Appends an event as of now under the id that it was given, unless its
    /// loop has no number left.
    pub fn append_event(
        &mut self,
        event_id: i64,
        loop_id: &str,
        event_name: &str,
        payload_json: &str,
    ) -> (r: Result<i64, PlanError>)
        ensures
            exists|clock: Result<Seq<char>, PlanErrorModel>|
                #[trigger] is_clock_answer(clock) && (final(self).deep_view(), outcome(r)) == old(
                    self,
                ).deep_view().event_appended(
                    event_id,
                    loop_id@,
                    event_name@,
                    payload_json@,
                    clock,
                ),
    {
        let clock: Result<String, PlanError> = timestamp();
        let ghost answer = outcome(clock);
        let r: Result<i64, PlanError> = self.append_event_by(
            event_id,
            loop_id,
            event_name,
            payload_json,
            clock,
        );
        assert(is_clock_answer(answer));
        r
    }

    /// Appends a segment as of now to the transcript of an invocation, unless
    /// it has no ordinal left.
    pub fn append_transcript_segment(
        &mut self,
        invocation_id: &str,
        speaker: &str,
        segment_kind: &str,
        summary: &Option<String>,
        content_ref: &str,
    ) -> (r: Result<(), PlanError>)
        ensures
            exists|clock: Result<Seq<char>, PlanErrorModel>|
                #[trigger] is_clock_answer(clock) && (final(self).deep_view(), outcome(r)) == old(
                    self,
                ).deep_view().segment_appended(
                    invocation_id@,
                    speaker@,
                    segment_kind@,
                    summary.deep_view(),
                    content_ref@,
                    clock,
                ),
    {
        let clock: Result<String, PlanError> = timestamp();
        let ghost answer = outcome(clock);
        let r: Result<(), PlanError> = self.append_transcript_segment_by(
            invocation_id,
            speaker,
            segment_kind,
            summary,
            content_ref,
            clock,
        );
        assert(is_clock_answer(answer));
        r
    }
}

/// A content that was stored is read back by its reference, provided that no
/// other content has that reference.
pub proof fn stored_content_is_read_back(
    log: EventLogModel,
    content_kind: Seq<char>,
    payload_json: Seq<char>,
    created_at: Seq<char>,
)
    requires
        forall|i: int|
            0 <= i < log.contents.len() && (#[trigger] log.contents[i]).content_ref
                == content_ref_of(content_kind, payload_json) ==> log.contents[i].payload_json
                == payload_json,
    ensures
        log.with_content(content_kind, payload_json, created_at).content(
            content_ref_of(content_kind, payload_json),
        ) == Ok::<Seq<char>, PlanErrorModel>(payload_json),
{
    let reference = content_ref_of(content_kind, payload_json);
    let next = log.with_content(content_kind, payload_json, created_at);
    content_is_found(log.contents, reference, 0);
    if content_from(log.contents, reference, 0) is None {
        let row = ContentRowModel { content_ref: reference, content_kind, payload_json, created_at };
        content_is_found(next.contents, reference, 0);
        assert(next.contents[log.contents.len() as int] == row);
        assert forall|i: int| 0 <= i < log.contents.len() implies (
        #[trigger] next.contents[i]).content_ref != reference by {
            assert(next.contents[i] == log.contents[i]);
        }
    }
}

proof fn last_loop_seq_is_greatest(events: Seq<EventRowModel>, loop_id: Seq<char>, n: int)
    requires
        0 <= n <= events.len(),
    ensures
        match last_loop_seq(events, loop_id, n) {
            Some(seq) => forall|k: int|
                0 <= k < n && (#[trigger] events[k]).loop_id == loop_id ==> events[k].loop_seq
                    <= seq,
            None => forall|k: int| 0 <= k < n ==> (#[trigger] events[k]).loop_id != loop_id,
        },
    decreases n,
{
    if n > 0 {
        last_loop_seq_is_greatest(events, loop_id, n - 1);
    }
}

/// The number that the next event of a loop gets is greater than that of every
/// event of this loop, so that no two events of a loop share one.
pub proof fn event_numbers_grow(log: EventLogModel, loop_id: Seq<char>)
    ensures
        forall|k: int|
            0 <= k < log.events.len() && (#[trigger] log.events[k]).loop_id == loop_id
                ==> log.events[k].loop_seq < log.next_loop_seq(loop_id),
{
    last_loop_seq_is_greatest(log.events, loop_id, log.events.len() as int);
}

proof fn last_ordinal_is_greatest(
    segments: Seq<TranscriptSegmentModel>,
    invocation_id: Seq<char>,
    n: int,
)
    requires
        0 <= n <= segments.len(),
    ensures
        match last_ordinal(segments, invocation_id, n) {
            Some(ordinal) => forall|k: int|
                0 <= k < n && (#[trigger] segments[k]).invocation_id == invocation_id
                    ==> segments[k].ordinal <= ordinal,
            None => forall|k: int|
                0 <= k < n ==> (#[trigger] segments[k]).invocation_id != invocation_id,
        },
    decreases n,
{
    if n > 0 {
        last_ordinal_is_greatest(segments, invocation_id, n - 1);
    }
}

/// The ordinal that the next segment of an invocation gets is greater than
/// that of every segment of this invocation.
pub proof fn ordinals_grow(log: EventLogModel, invocation_id: Seq<char>)
    ensures
        forall|k: int|
            0 <= k < log.segments.len() && (#[trigger] log.segments[k]).invocation_id
                == invocation_id ==> log.segments[k].ordinal < log.next_ordinal(invocation_id),
{
    last_ordinal_is_greatest(log.segments, invocation_id, log.segments.len() as int);
}

/// No record has a greater id than one behind it.
pub open spec fn records_are_sorted(records: Seq<EventRecordModel>) -> bool {
    forall|i: int, j: int|
        0 <= i < j < records.len() ==> (#[trigger] records[i]).event_id <= (
        #[trigger] records[j]).event_id
}

proof fn inserted_record_is_sorted(records: Seq<EventRecordModel>, record: EventRecordModel)
    requires
        records_are_sorted(records),
    ensures
        records_are_sorted(insert_record(records, record)),
        insert_record(records, record).to_multiset() =~= records.to_multiset().insert(record),
        forall|k: int|
            0 <= k < insert_record(records, record).len() ==> (#[trigger] insert_record(
                records,
                record,
            )[k]).event_id <= record.event_id || (records.len() > 0 && insert_record(
                records,
                record,
            )[k].event_id <= records.last().event_id),
    decreases records.len(),
{
    broadcast use vstd::seq_lib::group_to_multiset_ensures;
    let out = insert_record(records, record);
    if records.len() > 0 && record.event_id < records.last().event_id {
        let front = records.drop_last();
        let inner = insert_record(front, record);
        inserted_record_is_sorted(front, record);
        assert(out == inner.push(records.last()));
        assert(records =~= front.push(records.last()));
        assert forall|i: int, j: int| 0 <= i < j < out.len() implies (#[trigger] out[i]).event_id
            <= (#[trigger] out[j]).event_id by {
            assert(out[i] == inner[i]);
            if j < inner.len() {
                assert(out[j] == inner[j]);
            } else if front.len() > 0 {
                assert(records[front.len() - 1].event_id <= records[records.len() - 1].event_id);
            }
        }
        assert forall|k: int| 0 <= k < out.len() implies (#[trigger] out[k]).event_id
            <= record.event_id || (records.len() > 0 && out[k].event_id
            <= records.last().event_id) by {
            if k < inner.len() {
                assert(out[k] == inner[k]);
            }
        }
    } else {
        assert(out == records.push(record));
        assert forall|i: int, j: int| 0 <= i < j < out.len() implies (#[trigger] out[i]).event_id
            <= (#[trigger] out[j]).event_id by {
            if j == records.len() && i < records.len() - 1 {
                assert(records[i].event_id <= records[records.len() - 1].event_id);
            }
        }
    }
}

/// The events that are of the loop, or all of them.
pub open spec fn events_of(
    events: Seq<EventRowModel>,
    loop_id: Option<Seq<char>>,
    n: int,
) -> Seq<EventRecordModel>
    decreases n,
{
    if n <= 0 {
        Seq::empty()
    } else if loop_id is None || loop_id == Some(events[n - 1].loop_id) {
        events_of(events, loop_id, n - 1).push(record_of_event(events[n - 1]))
    } else {
        events_of(events, loop_id, n - 1)
    }
}

/// A scan gives every event that it is asked for, each once, by their ids.
pub proof fn scans_are_sorted_and_complete(
    events: Seq<EventRowModel>,
    loop_id: Option<Seq<char>>,
    n: int,
)
    requires
        0 <= n <= events.len(),
    ensures
        records_are_sorted(records_of(events, loop_id, n)),
        records_of(events, loop_id, n).to_multiset() =~= events_of(
            events,
            loop_id,
            n,
        ).to_multiset(),
    decreases n,
{
    broadcast use vstd::seq_lib::group_to_multiset_ensures;
    if n > 0 {
        scans_are_sorted_and_complete(events, loop_id, n - 1);
        inserted_record_is_sorted(
            records_of(events, loop_id, n - 1),
            record_of_event(events[n - 1]),
        );
    }
}

proof fn content_is_found(contents: Seq<ContentRowModel>, reference: Seq<char>, i: int)
    requires
        0 <= i,
    ensures
        match content_from(contents, reference, i) {
            Some(row) => exists|k: int|
                i <= k < contents.len() && #[trigger] contents[k] == row && row.content_ref
                    == reference,
            None => forall|k: int|
                i <= k < contents.len() ==> (#[trigger] contents[k]).content_ref != reference,
        },
    decreases contents.len() - i,
{
    if i < contents.len() {
        if contents[i].content_ref != reference {
            content_is_found(contents, reference, i + 1);
        } else {
            assert(contents[i] == content_from(contents, reference, i)->0);
        }
    }
}

/// Hands the records to `apply`, one after the other, up to the first that
/// fails.
pub fn replay_event_records<F: Fn(&EventRecord) -> Result<(), PlanError>>(
    records: Vec<EventRecord>,
    apply: F,
) -> (r: Result<(), PlanError>)
    requires
        forall|i: int| 0 <= i < records@.len() ==> apply.requires((&#[trigger] records@[i],)),
    ensures
        match r {
            Ok(()) => forall|i: int|
                0 <= i < records@.len() ==> apply.ensures((&#[trigger] records@[i],), Ok(())),
            Err(error) => exists|k: int|
                0 <= k < records@.len() && apply.ensures((&#[trigger] records@[k],), Err(error))
                    && forall|i: int|
                    0 <= i < k ==> apply.ensures((&#[trigger] records@[i],), Ok(())),
        },
{
    let mut i: usize = 0;
    while i < records.len()
        invariant
            i <= records.len(),
            forall|k: int| 0 <= k < records@.len() ==> apply.requires((&#[trigger] records@[k],)),
            forall|k: int| 0 <= k < i ==> apply.ensures((&#[trigger] records@[k],), Ok(())),
        decreases records.len() - i,
    {
        let result: Result<(), PlanError> = apply(&records[i]);
        assert(apply.ensures((&records@[i as int],), result));
        match result {
            Ok(unit) => {
                assert(unit == ());
            },
            Err(error) => {
                return Err(error);
            },
        }
        i = i + 1;
    }
    Ok(())
}

} // verus!
