//! The shape in which an event is written to durable storage, one row per
//! event, and the way between rows and events.

use vstd::prelude::*;
use vstd::string::*;
use crate::clock::{format_rfc3339, parse_rfc3339, rfc3339_micros, rfc3339_text};
use crate::models::{
    ComponentType, EventSource, EventView, LatencyEvent, lemma_component_name_reads_back,
    lemma_source_name_reads_back,
};
use crate::storage::StorageError;
use crate::text::copy_optional_text;

verus! {

/// Whether a text is a JSON document.
pub uninterp spec fn json_valid(text: Seq<char>) -> bool;

/// `serde_json::from_str` into a `serde_json::Value`: whether the text
/// parses is a function of the text alone, named `json_valid`.
#[verifier::external_body]
pub(crate) fn is_json(text: &str) -> (valid: bool)
    ensures
        valid == json_valid(text@),
{
    serde_json::from_str::<serde_json::Value>(text).is_ok()
}

/// One stored row.
#[derive(Debug, Clone)]
pub struct EventRecord {
    pub id: Option<i64>,
    /// The capture time as RFC 3339 text.
    pub timestamp: String,
    pub component_class: String,
    pub source_kind: String,
    pub duration_microseconds: i64,
    pub description: String,
    /// The payload as JSON text, if there is one.
    pub metadata: Option<String>,
}

/// What a row holds, with its texts as sequences of characters.
pub struct RecordView {
    pub id: Option<i64>,
    pub timestamp: Seq<char>,
    pub component_class: Seq<char>,
    pub source_kind: Seq<char>,
    pub duration_microseconds: i64,
    pub description: Seq<char>,
    pub metadata: Option<Seq<char>>,
}

impl View for EventRecord {
    type V = RecordView;

    open spec fn view(&self) -> RecordView {
        RecordView {
            id: self.id,
            timestamp: self.timestamp@,
            component_class: self.component_class@,
            source_kind: self.source_kind@,
            duration_microseconds: self.duration_microseconds,
            description: self.description@,
            metadata: match self.metadata {
                Some(text) => Some(text@),
                None => None,
            },
        }
    }
}

/// The row of an event. There is none for an event whose timestamp has no
/// text form, nor for one whose duration is beyond the stored integer.
pub open spec fn encoded(event: EventView) -> Result<RecordView, StorageError> {
    match rfc3339_text(event.timestamp) {
        None => Err(StorageError::TimestampOutOfRange),
        Some(timestamp) => if event.duration_us > i64::MAX {
            Err(StorageError::DurationOutOfRange)
        } else {
            Ok(
                RecordView {
                    id: event.id,
                    timestamp,
                    component_class: event.component_type.name_text(),
                    source_kind: event.event_source.name_text(),
                    duration_microseconds: event.duration_us as i64,
                    description: event.description,
                    metadata: event.metadata,
                },
            )
        },
    }
}

/// The event of a row. There is none for a row whose timestamp is no RFC
/// 3339 text, nor for one with a negative duration. An unknown class reads
/// as `System`, an unknown source as `ProcessMonitor`, and a payload that
/// is no JSON document as no payload.
pub open spec fn decoded(record: RecordView) -> Result<EventView, StorageError> {
    match rfc3339_micros(record.timestamp) {
        None => Err(StorageError::BadTimestamp),
        Some(timestamp) => if record.duration_microseconds < 0 {
            Err(StorageError::NegativeDuration)
        } else {
            Ok(
                EventView {
                    id: record.id,
                    timestamp,
                    component_type: ComponentType::parse_name(record.component_class),
                    event_source: EventSource::parse_name(record.source_kind),
                    duration_us: record.duration_microseconds as u64,
                    description: record.description,
                    metadata: match record.metadata {
                        Some(text) => if json_valid(text) {
                            Some(text)
                        } else {
                            None
                        },
                        None => None,
                    },
                },
            )
        },
    }
}

/// The view of an outcome that holds a row.
pub open spec fn record_outcome(outcome: Result<EventRecord, StorageError>) -> Result<
    RecordView,
    StorageError,
> {
    match outcome {
        Ok(record) => Ok(record@),
        Err(error) => Err(error),
    }
}

/// The view of an outcome that holds an event.
pub open spec fn event_outcome(outcome: Result<LatencyEvent, StorageError>) -> Result<
    EventView,
    StorageError,
> {
    match outcome {
        Ok(event) => Ok(event@),
        Err(error) => Err(error),
    }
}

/// The row that an event is stored as.
pub fn encode_record(event: &LatencyEvent) -> (outcome: Result<EventRecord, StorageError>)
    ensures
        record_outcome(outcome) == encoded(event@),
{
    let timestamp = match format_rfc3339(event.timestamp) {
        Some(text) => text,
        None => {
            return Err(StorageError::TimestampOutOfRange);
        },
    };
    if event.duration_us > i64::MAX as u64 {
        return Err(StorageError::DurationOutOfRange);
    }
    Ok(
        EventRecord {
            id: event.id,
            timestamp,
            component_class: event.component_type.name(),
            source_kind: event.event_source.name(),
            duration_microseconds: event.duration_us as i64,
            description: event.description.clone(),
            metadata: copy_optional_text(&event.metadata),
        },
    )
}

/// The event that a stored row stands for.
pub fn decode_record(record: &EventRecord) -> (outcome: Result<LatencyEvent, StorageError>)
    ensures
        event_outcome(outcome) == decoded(record@),
{
    let timestamp = match parse_rfc3339(record.timestamp.as_str()) {
        Ok(micros) => micros,
        Err(_) => {
            return Err(StorageError::BadTimestamp);
        },
    };
    if record.duration_microseconds < 0 {
        return Err(StorageError::NegativeDuration);
    }
    let metadata = match &record.metadata {
        Some(text) => if is_json(text.as_str()) {
            Some(text.clone())
        } else {
            None
        },
        None => None,
    };
    Ok(
        LatencyEvent {
            id: record.id,
            timestamp,
            component_type: ComponentType::from_name(record.component_class.as_str()),
            event_source: EventSource::from_name(record.source_kind.as_str()),
            duration_us: record.duration_microseconds as u64,
            description: record.description.clone(),
            metadata,
        },
    )
}

/// A stored row reads back as the event that it was made of, wherever the
/// text that chrono wrote for the timestamp reads back as that instant
/// and the payload, if there is one, is a JSON document.
pub proof fn lemma_record_reads_back(event: EventView)
    ensures
        (encoded(event) is Ok && rfc3339_micros(encoded(event).unwrap().timestamp) == Some(
            event.timestamp,
        ) && (event.metadata is Some ==> json_valid(event.metadata.unwrap()))) ==> decoded(
            encoded(event).unwrap(),
        ) == Ok::<EventView, StorageError>(event),
{
    lemma_component_name_reads_back(event.component_type);
    lemma_source_name_reads_back(event.event_source);
}

} // verus!
