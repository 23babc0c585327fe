//! The recovery journal: one JSON object per line, appended and never
//! rewritten. The library stamps and frames the records; appending them to
//! the file is the embedding program's part.

use vstd::prelude::*;
use crate::text::join;

verus! {

/// A file path of std. Opaque: the library carries it and never reads it.
#[verifier::external_type_specification]
#[verifier::external_body]
pub struct ExPathBuf(std::path::PathBuf);

/// Whether a text holds no line feed.
pub open spec fn no_line_feed(text: Seq<char>) -> bool {
    forall|i: int| 0 <= i < text.len() ==> text[i] != '\n'
}

/// Whether a text is one line: it ends in a line feed and holds no other.
pub open spec fn is_one_line(text: Seq<char>) -> bool {
    text.len() > 0 && text.last() == '\n' && no_line_feed(text.drop_last())
}

/// Whether a text has the shape of a timestamp in UTC as chrono writes it:
/// date and time of day, at least 19 characters, followed by the offset
/// `+00:00`.
pub open spec fn is_utc_stamp(text: Seq<char>) -> bool {
    text.len() >= 25 && text.subrange(text.len() - 6, text.len() as int) == "+00:00"@
}

/// The JSON string literal that serde_json writes for a text: the text in
/// double quotes, with quotes, backslashes and control characters escaped.
pub uninterp spec fn json_string(text: Seq<char>) -> Seq<char>;

/// `serde_json::to_string` on a string slice: the slice as a JSON string
/// literal. serde_json escapes every control character, the line feed among
/// them, so the literal holds no line feed. Writing a string to memory
/// cannot fail, so the error arm is never taken.
#[verifier::external_body]
fn quote_json(text: &str) -> (quoted: String)
    ensures
        quoted@ == json_string(text@),
        no_line_feed(quoted@),
{
    match serde_json::to_string(text) {
        Ok(quoted) => quoted,
        Err(_) => String::new(),
    }
}

/// `Utc::now` and `DateTime::to_rfc3339` of chrono: the present moment as
/// an RFC 3339 timestamp in UTC. Which moment is left open; the claim is the
/// shape that chrono gives every such text: four or more digits of year,
/// month, day, `T`, hours, minutes, seconds and perhaps a fraction, then the
/// offset of UTC written as `+00:00`. chrono panics where the system clock
/// stands before 1970.
#[verifier::external_body]
fn utc_timestamp() -> (stamp: String)
    ensures
        is_utc_stamp(stamp@),
{
    chrono::Utc::now().to_rfc3339()
}

/// One record of the journal.
#[derive(Debug, PartialEq, Eq)]
pub struct LedgerEntry {
    /// When the record was made: RFC 3339, UTC.
    pub timestamp: String,
    /// The service the record is about.
    pub service: String,
    /// What happened: `register` or `evict`.
    pub event: String,
    /// What is known beside that, as JSON text on one line.
    pub metadata: String,
}

/// A journal record as a mathematical value.
pub struct EntryView {
    pub timestamp: Seq<char>,
    pub service: Seq<char>,
    pub event: Seq<char>,
    pub metadata: Seq<char>,
}

impl View for LedgerEntry {
    type V = EntryView;

    open spec fn view(&self) -> EntryView {
        EntryView {
            timestamp: self.timestamp@,
            service: self.service@,
            event: self.event@,
            metadata: self.metadata@,
        }
    }
}

/// The line that stands for a record in the journal file: a JSON object
/// with the members `timestamp`, `service`, `event` and `metadata` in this
/// order, the first three as string literals, the metadata as it stands,
/// closed by a line feed.
pub open spec fn journal_line(entry: EntryView) -> Seq<char> {
    "{\"timestamp\":"@ + json_string(entry.timestamp) + ",\"service\":"@ + json_string(
        entry.service,
    ) + ",\"event\":"@ + json_string(entry.event) + ",\"metadata\":"@ + entry.metadata
        + "}\n"@
}

/// Two texts without a line feed make one without a line feed.
proof fn lemma_no_line_feed_joined(head: Seq<char>, tail: Seq<char>)
    requires
        no_line_feed(head),
        no_line_feed(tail),
    ensures
        no_line_feed(head + tail),
{
    assert forall|i: int| 0 <= i < (head + tail).len() implies (head + tail)[i] != '\n' by {
        if i < head.len() {
            assert((head + tail)[i] == head[i]);
        } else {
            assert((head + tail)[i] == tail[i - head.len()]);
        }
    }
}

/// The fixed texts between the members of a record hold no line feed.
proof fn lemma_frame_has_no_line_feed()
    ensures
        no_line_feed("{\"timestamp\":"@),
        no_line_feed(",\"service\":"@),
        no_line_feed(",\"event\":"@),
        no_line_feed(",\"metadata\":"@),
        "}\n"@ == seq!['}', '\n'],
{
    reveal_strlit("{\"timestamp\":");
    reveal_strlit(",\"service\":");
    reveal_strlit(",\"event\":");
    reveal_strlit(",\"metadata\":");
    reveal_strlit("}\n");
    assert("}\n"@ =~= seq!['}', '\n']);
}

impl LedgerEntry {
    /// The record as its line of the journal file. Where the metadata holds
    /// no line feed the result is one line, whatever the other members
    /// hold: they are written as JSON strings, which escape it.
    pub fn to_line(&self) -> (line: String)
        ensures
            line@ == journal_line(self@),
            no_line_feed(self@.metadata) ==> is_one_line(line@),
    {
        let mut line = join("{\"timestamp\":", quote_json(self.timestamp.as_str()).as_str());
        proof {
            lemma_frame_has_no_line_feed();
            lemma_no_line_feed_joined("{\"timestamp\":"@, json_string(self@.timestamp));
        }
        line.append(",\"service\":");
        proof {
            lemma_no_line_feed_joined(
                "{\"timestamp\":"@ + json_string(self@.timestamp),
                ",\"service\":"@,
            );
        }
        line.append(quote_json(self.service.as_str()).as_str());
        let ghost with_service = line@;
        proof {
            lemma_no_line_feed_joined(
                "{\"timestamp\":"@ + json_string(self@.timestamp) + ",\"service\":"@,
                json_string(self@.service),
            );
        }
        line.append(",\"event\":");
        proof {
            lemma_no_line_feed_joined(with_service, ",\"event\":"@);
        }
        line.append(quote_json(self.event.as_str()).as_str());
        let ghost with_event = line@;
        proof {
            lemma_no_line_feed_joined(with_service + ",\"event\":"@, json_string(self@.event));
        }
        line.append(",\"metadata\":");
        proof {
            lemma_no_line_feed_joined(with_event, ",\"metadata\":"@);
        }
        line.append(self.metadata.as_str());
        let ghost body = line@;
        line.append("}\n");
        proof {
            if no_line_feed(self@.metadata) {
                lemma_no_line_feed_joined(with_event + ",\"metadata\":"@, self@.metadata);
                assert(no_line_feed(body));
                assert(line@ == body + "}\n"@);
                assert(line@.drop_last() =~= body + seq!['}']);
                lemma_no_line_feed_joined(body, seq!['}']);
            }
        }
        line
    }
}

/// The journal of one file.
pub struct RecoveryLedger {
    path: std::path::PathBuf,
}

impl RecoveryLedger {
    /// The file the journal is appended to.
    pub closed spec fn location(&self) -> std::path::PathBuf {
        self.path
    }

    /// A journal on the file at `path`. The file is touched only when a
    /// record is appended.
    pub fn new(path: std::path::PathBuf) -> (ledger: Self)
        ensures
            ledger.location() == path,
    {
        Self { path }
    }

    /// The file the journal is appended to.
    pub fn path(&self) -> (path: &std::path::PathBuf)
        ensures
            *path == self.location(),
    {
        &self.path
    }

    /// Makes the record of `event` on `service`, stamped with the present
    /// time in UTC. `metadata` is JSON text and is taken as it stands; where
    /// it holds no line feed, `to_line()` of the record is one line. The
    /// caller appends that line to the file.
    pub fn log(&self, service: &str, event: &str, metadata: &str) -> (entry: LedgerEntry)
        ensures
            is_utc_stamp(entry@.timestamp),
            entry@.service == service@,
            entry@.event == event@,
            entry@.metadata == metadata@,
    {
        LedgerEntry {
            timestamp: utc_timestamp(),
            service: String::from_str(service),
            event: String::from_str(event),
            metadata: String::from_str(metadata),
        }
    }
}

} // verus!
