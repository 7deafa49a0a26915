//! Reports and exports of the stored events: which events go into one, and
//! the text of a report in comma-separated form.

use vstd::prelude::*;
use vstd::string::*;
use crate::models::{CLASS_COUNT, ComponentType, EventView, LatencyEvent, event_views};
use crate::storage::{MetricsStorage, newest};
use crate::text::{decimal, decimal_text, same_text};

verus! {

/// How many events a report holds at most.
pub const REPORT_LIMIT: u32 = 100;

/// How many events an export holds at most.
pub const EXPORT_LIMIT: u32 = 1000;

/// Why a report or an export was not made.
#[derive(Debug, Clone, Copy, PartialEq, Eq, Structural)]
pub enum ReportError {
    /// The format is not one that reports or exports come in.
    UnsupportedFormat,
    /// An event's timestamp has no calendar form.
    TimestampOutOfRange,
}

impl ReportError {
    /// The fault in words.
    pub open spec fn message_text(self) -> Seq<char> {
        match self {
            ReportError::UnsupportedFormat => "Unsupported format"@,
            ReportError::TimestampOutOfRange => "Timestamp beyond the calendar"@,
        }
    }

    /// The fault in words.
    pub fn message(&self) -> (text: String)
        ensures
            text@ == self.message_text(),
    {
        match self {
            ReportError::UnsupportedFormat => String::from_str("Unsupported format"),
            ReportError::TimestampOutOfRange => String::from_str("Timestamp beyond the calendar"),
        }
    }
}

/// A report, as far as the library makes it.
#[derive(Debug, Clone)]
pub enum Report {
    /// The events to be written as JSON, newest first.
    Json(Vec<LatencyEvent>),
    /// The finished text in comma-separated form.
    Csv(String),
}

/// What an export consists of.
#[derive(Debug, Clone)]
pub enum Export {
    /// The events to be written as JSON, newest first.
    Json(Vec<LatencyEvent>),
    /// A notice in place of the data.
    Notice(String),
}

/// What an export in the database's own format consists of.
pub open spec fn database_notice() -> Seq<char> {
    "SQLite export not yet implemented"@
}

/// The calendar form of an instant, as year, month, day, hour, minute and
/// second in UTC, where the calendar can express it.
pub uninterp spec fn clock_text(micros: i64) -> Option<Seq<char>>;

/// `chrono::DateTime::format` with the pattern `%Y-%m-%d %H:%M:%S`, on the
/// instant that `DateTime::from_timestamp_micros` makes of `micros`. The
/// text is a function of `micros` alone, named `clock_text`; there is none
/// where chrono's calendar does not reach the instant.
#[verifier::external_body]
fn format_clock(micros: i64) -> (text: Option<String>)
    ensures
        match text {
            Some(t) => clock_text(micros) == Some(t@),
            None => clock_text(micros) is None,
        },
{
    chrono::DateTime::from_timestamp_micros(micros).map(
        |instant| instant.format("%Y-%m-%d %H:%M:%S").to_string(),
    )
}

/// A text in which each occurrence of `from` has given way to `to`.
pub open spec fn replaced(text: Seq<char>, from: char, to: Seq<char>) -> Seq<char>
    decreases text.len(),
{
    if text.len() == 0 {
        Seq::empty()
    } else {
        replaced(text.drop_last(), from, to) + if text.last() == from {
            to
        } else {
            seq![text.last()]
        }
    }
}

/// `str::replace` of the standard library with a character as the pattern:
/// every occurrence of the character gives way to the replacement.
#[verifier::external_body]
fn replace_char(text: &str, from: char, to: &str) -> (out: String)
    ensures
        out@ == replaced(text@, from, to@),
{
    text.replace(from, to)
}

/// The first line of a report in comma-separated form.
pub open spec fn csv_header() -> Seq<char> {
    "timestamp,component,duration_ms,description\n"@
}

/// The line of one event: its time, its class in words, its duration in
/// whole milliseconds and its description with semicolons for commas.
pub open spec fn csv_line(event: EventView) -> Option<Seq<char>> {
    match clock_text(event.timestamp) {
        Some(time) => Some(
            time + ","@ + event.component_type.label_text() + ","@ + decimal_text(
                (event.duration_us / 1000) as nat,
            ) + ","@ + replaced(event.description, ',', ";"@) + "\n"@,
        ),
        None => None,
    }
}

/// The lines of the events, one after another; none if one of the events
/// has no line.
pub open spec fn csv_lines(events: Seq<EventView>) -> Option<Seq<char>>
    decreases events.len(),
{
    if events.len() == 0 {
        Some(Seq::empty())
    } else {
        match (csv_lines(events.drop_last()), csv_line(events.last())) {
            (Some(before), Some(line)) => Some(before + line),
            _ => None,
        }
    }
}

/// The report of the events in comma-separated form: a header line, then
/// one line for each event.
pub fn csv_report(events: &Vec<LatencyEvent>) -> (report: Result<String, ReportError>)
    ensures
        match report {
            Ok(text) => csv_lines(event_views(events@)) == Some(text@.skip(csv_header().len() as int))
                && text@.take(csv_header().len() as int) == csv_header(),
            Err(error) => error == ReportError::TimestampOutOfRange && csv_lines(
                event_views(events@),
            ) is None,
        },
{
    let mut text = String::from_str("timestamp,component,duration_ms,description\n");
    let ghost header = text@;
    let ghost views = event_views(events@);
    let mut i: usize = 0;
    while i < events.len()
        invariant
            i <= events.len(),
            header == csv_header(),
            views == event_views(events@),
            text@.take(header.len() as int) == header,
            text@.len() >= header.len(),
            csv_lines(views.take(i as int)) == Some(text@.skip(header.len() as int)),
        decreases events.len() - i,
    {
        let event = &events[i];
        proof {
            assert(views.take(i as int + 1).drop_last() =~= views.take(i as int));
        }
        let time = match format_clock(event.timestamp) {
            Some(time) => time,
            None => {
                proof {
                    lemma_missing_line(views, i as int);
                }
                return Err(ReportError::TimestampOutOfRange);
            },
        };
        let mut line = time;
        line.append(",");
        let label = event.component_type.label();
        line.append(label.as_str());
        line.append(",");
        let millis = decimal(event.duration_us / 1000);
        line.append(millis.as_str());
        line.append(",");
        let description = replace_char(event.description.as_str(), ',', ";");
        line.append(description.as_str());
        line.append("\n");
        text.append(line.as_str());
        i = i + 1;
    }
    proof {
        assert(views.take(events.len() as int) =~= views);
    }
    Ok(text)
}

/// Where one event has no line, the events have no lines.
proof fn lemma_missing_line(events: Seq<EventView>, at: int)
    requires
        0 <= at < events.len(),
        csv_line(events[at]) is None,
    ensures
        csv_lines(events) is None,
    decreases events.len(),
{
    if at < events.len() - 1 {
        lemma_missing_line(events.drop_last(), at);
    }
}

/// The events of a report or an export, and the form that it takes.
pub open spec fn report_events(rows: Seq<LatencyEvent>, limit: u32) -> Seq<LatencyEvent> {
    newest(rows, limit as nat)
}

impl MetricsStorage {
    /// The report in the format asked for, over the `REPORT_LIMIT` newest
    /// events: `"json"` gives the events for the caller to write out,
    /// `"csv"` the finished text. Any other format is refused.
    pub fn generate_report(&self, format: &str) -> (report: Result<Report, ReportError>)
        requires
            self.wf(),
        ensures
            match report {
                Ok(Report::Json(events)) => format@ == "json"@ && events@ == report_events(
                    self.rows(),
                    REPORT_LIMIT,
                ),
                Ok(Report::Csv(text)) => format@ != "json"@ && format@ == "csv"@ && csv_lines(
                    event_views(report_events(self.rows(), REPORT_LIMIT)),
                ) == Some(text@.skip(csv_header().len() as int)) && text@.take(
                    csv_header().len() as int,
                ) == csv_header(),
                Err(ReportError::TimestampOutOfRange) => format@ != "json"@ && format@ == "csv"@
                    && csv_lines(event_views(report_events(self.rows(), REPORT_LIMIT))) is None,
                Err(ReportError::UnsupportedFormat) => format@ != "json"@ && format@ != "csv"@,
            },
    {
        if same_text(format, "json") {
            Ok(Report::Json(self.get_recent_events(REPORT_LIMIT)))
        } else if same_text(format, "csv") {
            let events = self.get_recent_events(REPORT_LIMIT);
            match csv_report(&events) {
                Ok(text) => Ok(Report::Csv(text)),
                Err(error) => Err(error),
            }
        } else {
            Err(ReportError::UnsupportedFormat)
        }
    }

    /// What an export in the format asked for consists of: `"json"` gives
    /// the `EXPORT_LIMIT` newest events for the caller to write out,
    /// `"sqlite"` a notice that says that there is no such export. Any
    /// other format is refused.
    pub fn export_metrics(&self, format: &str) -> (export: Result<Export, ReportError>)
        requires
            self.wf(),
        ensures
            match export {
                Ok(Export::Json(events)) => format@ == "json"@ && events@ == report_events(
                    self.rows(),
                    EXPORT_LIMIT,
                ),
                Ok(Export::Notice(text)) => format@ != "json"@ && format@ == "sqlite"@ && text@
                    == database_notice(),
                Err(error) => error == ReportError::UnsupportedFormat && format@ != "json"@
                    && format@ != "sqlite"@,
            },
    {
        if same_text(format, "json") {
            Ok(Export::Json(self.get_recent_events(EXPORT_LIMIT)))
        } else if same_text(format, "sqlite") {
            Ok(Export::Notice(String::from_str("SQLite export not yet implemented")))
        } else {
            Err(ReportError::UnsupportedFormat)
        }
    }
}

/// How many of the events belong to a class.
pub open spec fn count_of_class(events: Seq<LatencyEvent>, class: ComponentType) -> nat
    decreases events.len(),
{
    if events.len() == 0 {
        0
    } else {
        count_of_class(events.drop_last(), class) + if events.last().component_type == class {
            1nat
        } else {
            0nat
        }
    }
}

proof fn lemma_class_count_bound(events: Seq<LatencyEvent>, class: ComponentType)
    ensures
        count_of_class(events, class) <= events.len(),
    decreases events.len(),
{
    if events.len() > 0 {
        lemma_class_count_bound(events.drop_last(), class);
    }
}

/// How many of the events belong to each class, in the order of the
/// classes.
pub fn class_counts(events: &Vec<LatencyEvent>) -> (counts: Vec<usize>)
    ensures
        counts.len() == CLASS_COUNT,
        forall|c: int|
            0 <= c < CLASS_COUNT ==> #[trigger] counts[c] == count_of_class(
                events@,
                ComponentType::at(c as nat),
            ),
{
    let mut counts: Vec<usize> = Vec::new();
    while counts.len() < CLASS_COUNT
        invariant
            counts.len() <= CLASS_COUNT,
            forall|c: int| 0 <= c < counts.len() ==> counts[c] == 0,
        decreases CLASS_COUNT - counts.len(),
    {
        counts.push(0);
    }
    let mut i: usize = 0;
    while i < events.len()
        invariant
            i <= events.len(),
            counts.len() == CLASS_COUNT,
            forall|c: int|
                0 <= c < CLASS_COUNT ==> #[trigger] counts[c] == count_of_class(
                    events@.take(i as int),
                    ComponentType::at(c as nat),
                ),
        decreases events.len() - i,
    {
        let at = events[i].component_type.index();
        proof {
            assert(events@.take(i as int + 1).drop_last() =~= events@.take(i as int));
            lemma_class_count_bound(events@.take(i as int), ComponentType::at(at as nat));
        }
        counts[at] = counts[at] + 1;
        i = i + 1;
    }
    proof {
        assert(events@.take(events.len() as int) =~= events@);
    }
    counts
}

} // verus!
