//! Persistence of the event log.
//!
//! The persisted form is a sequence of MessagePack values: a header (the
//! array of the format version and the watermark) followed by the entries,
//! each one a value that ends itself, back to back up to the end of the
//! bytes. There is no outer length: decoding reads entries until the bytes
//! end cleanly.

use crate::codec::{
    dec_mark, dec_u32, dec_u64, enc_mark, enc_u32, enc_u64, holds_at, lemma_holds_split,
    lemma_mark_round_trip, lemma_mark_sound, lemma_subrange_join, lemma_u32_round_trip,
    lemma_u32_sound, lemma_u64_round_trip, lemma_u64_sound, put_mark, put_u32, put_u64,
    read_mark, read_u32, read_u64, ARRAY_OF_2,
};
use crate::decimal::{decimal, decimal_text};
use crate::event_codec::{
    dec_entry, enc_entry, event_fits, fits_event, lemma_dec_entry_bounds,
    lemma_entry_round_trip, lemma_entry_sound, put_entry, read_entry,
};
use crate::event_log::{entry_views, min, EventLog, LogEntry, LogEntryView, LogView};
use vstd::prelude::*;
use vstd::string::StringExecFns;

verus! {

/// The version of the persisted format that this library reads and writes.
pub const FORMAT_VERSION: u32 = 1;

/// What can go wrong when the log is persisted or loaded.
#[derive(Debug, PartialEq, Eq)]
pub enum EventLogError {
    /// The persisted bytes are of a version that is not supported.
    InvalidFormat(String),
    /// The log could not be encoded.
    Serialization(String),
    /// The persisted bytes are truncated or not well formed.
    Deserialization(String),
}

/// The encoding of a run of entries: one after the other.
pub open spec fn enc_entries(entries: Seq<LogEntryView>) -> Seq<u8>
    decreases entries.len(),
{
    if entries.len() == 0 {
        Seq::empty()
    } else {
        enc_entry(entries.first()) + enc_entries(entries.drop_first())
    }
}

/// The header of the persisted form: the array of a format version and a
/// watermark.
pub open spec fn enc_header(version: u32, consumed: u64) -> Seq<u8> {
    enc_mark(ARRAY_OF_2) + enc_u32(version) + enc_u64(consumed)
}

/// The header at the start of `bytes`: the version, the watermark, and the
/// position after the header.
pub open spec fn dec_header(bytes: Seq<u8>) -> Option<(u32, u64, int)> {
    match dec_mark(bytes, 0, ARRAY_OF_2) {
        Some(pos0) => match dec_u32(bytes, pos0) {
            Some((version, pos1)) => match dec_u64(bytes, pos1) {
                Some((consumed, pos2)) => Some((version, consumed, pos2)),
                None => None,
            },
            None => None,
        },
        None => None,
    }
}

/// The persisted form of a log with the given entries and watermark.
pub open spec fn enc_log(entries: Seq<LogEntryView>, consumed: u64) -> Seq<u8> {
    enc_header(FORMAT_VERSION, consumed) + enc_entries(entries)
}

/// `head` in front of `tail`, where there is a tail.
pub open spec fn prefixed(head: Seq<LogEntryView>, tail: Option<Seq<LogEntryView>>) -> Option<
    Seq<LogEntryView>,
> {
    match tail {
        Some(rest) => Some(head + rest),
        None => None,
    }
}

/// The entries from `at` to the end of `bytes`: nothing is left over and
/// nothing is cut short.
pub open spec fn dec_entries(bytes: Seq<u8>, at: int) -> Option<Seq<LogEntryView>>
    decreases bytes.len() - at,
{
    if at >= bytes.len() {
        Some(Seq::empty())
    } else {
        match dec_entry(bytes, at) {
            Some((entry, next)) => if next > at {
                prefixed(seq![entry], dec_entries(bytes, next))
            } else {
                None
            },
            None => None,
        }
    }
}

/// What loading a byte sequence comes to.
pub enum Loaded {
    /// The bytes are the persisted form of this log.
    Log(LogView),
    /// The header is of this version, which is not supported.
    UnsupportedVersion(u32),
    /// The header or an entry is truncated or not well formed.
    Malformed,
}

/// The outcome of loading `bytes`: the header is read first, its version is
/// checked, then the entries are read up to the end of the bytes. The
/// watermark is clamped to the number of entries.
pub open spec fn parse_log(bytes: Seq<u8>) -> Loaded {
    match dec_header(bytes) {
        Some((version, consumed, start)) => if version != FORMAT_VERSION {
            Loaded::UnsupportedVersion(version)
        } else {
            match dec_entries(bytes, start) {
                Some(entries) => Loaded::Log(
                    LogView { entries, consumed: min(consumed as int, entries.len() as int) },
                ),
                None => Loaded::Malformed,
            }
        },
        None => Loaded::Malformed,
    }
}

/// The message of the error for an unsupported version.
pub open spec fn unsupported_version_message(version: u32) -> Seq<char> {
    "unsupported version: "@ + decimal_text(version as nat)
}

/// The message of the error for malformed bytes.
pub open spec fn malformed_message() -> Seq<char> {
    "truncated or malformed record"@
}

/// The message of the error for a log that holds a text whose length
/// cannot be written down.
pub open spec fn too_long_message() -> Seq<char> {
    "text too long to encode"@
}

/// Decoding the encoding of a header gives the version and the watermark.
pub proof fn lemma_header_round_trip(bytes: Seq<u8>, version: u32, consumed: u64)
    requires
        holds_at(bytes, 0, enc_header(version, consumed)),
    ensures
        dec_header(bytes) == Some((version, consumed, enc_header(version, consumed).len() as int)),
{
    let m = enc_mark(ARRAY_OF_2);
    let a = enc_u32(version);
    lemma_holds_split(bytes, 0, m + a, enc_u64(consumed));
    lemma_holds_split(bytes, 0, m, a);
    lemma_mark_round_trip(bytes, 0, ARRAY_OF_2);
    lemma_u32_round_trip(bytes, 1, version);
    lemma_u64_round_trip(bytes, 1 + a.len() as int, consumed);
}

/// A header is decoded from nothing but its encoding.
pub proof fn lemma_header_sound(bytes: Seq<u8>)
    requires
        dec_header(bytes) is Some,
    ensures
        dec_header(bytes) matches Some(found) && 0 < found.2 <= bytes.len() && bytes.subrange(
            0,
            found.2,
        ) == enc_header(found.0, found.1),
{
    lemma_mark_sound(bytes, 0, ARRAY_OF_2);
    lemma_u32_sound(bytes, 1);
    let (version, pos1) = dec_u32(bytes, 1)->0;
    lemma_u64_sound(bytes, pos1);
    let (consumed, pos2) = dec_u64(bytes, pos1)->0;
    lemma_subrange_join(bytes, 0, 1, pos1);
    lemma_subrange_join(bytes, 0, pos1, pos2);
}

/// Adding an entry at the end adds its encoding at the end.
pub proof fn lemma_enc_entries_push(entries: Seq<LogEntryView>, entry: LogEntryView)
    ensures
        enc_entries(entries.push(entry)) == enc_entries(entries) + enc_entry(entry),
    decreases entries.len(),
{
    let all = entries.push(entry);
    if entries.len() == 0 {
        assert(all.drop_first() =~= Seq::<LogEntryView>::empty());
        assert(enc_entries(all.drop_first()) =~= Seq::<u8>::empty());
        assert(enc_entries(all) =~= enc_entries(entries) + enc_entry(entry));
    } else {
        assert(all.drop_first() =~= entries.drop_first().push(entry));
        lemma_enc_entries_push(entries.drop_first(), entry);
        assert(enc_entries(all) =~= enc_entries(entries) + enc_entry(entry));
    }
}

/// Decoding a run of encoded entries that ends with the bytes gives the
/// entries back.
pub proof fn lemma_entries_round_trip(bytes: Seq<u8>, at: int, entries: Seq<LogEntryView>)
    requires
        forall|i: int| 0 <= i < entries.len() ==> event_fits((#[trigger] entries[i]).event),
        holds_at(bytes, at, enc_entries(entries)),
        at + enc_entries(entries).len() == bytes.len(),
    ensures
        dec_entries(bytes, at) == Some(entries),
    decreases entries.len(),
{
    if entries.len() == 0 {
        assert(entries =~= Seq::empty());
    } else {
        let first = entries.first();
        let rest = entries.drop_first();
        lemma_holds_split(bytes, at, enc_entry(first), enc_entries(rest));
        lemma_entry_round_trip(bytes, at, first);
        assert forall|i: int| 0 <= i < rest.len() implies event_fits(
            (#[trigger] rest[i]).event,
        ) by {
            assert(rest[i] == entries[i + 1]);
        }
        lemma_entries_round_trip(bytes, at + enc_entry(first).len(), rest);
        assert(seq![first] + rest =~= entries);
    }
}

/// Loading the persisted form of a log gives the same entries in the same
/// order, and the watermark, clamped to the number of entries. This holds
/// of every log that can be persisted, the empty one included.
pub proof fn lemma_log_round_trip(entries: Seq<LogEntryView>, consumed: u64)
    requires
        entries_fit(entries),
    ensures
        parse_log(enc_log(entries, consumed)) == Loaded::Log(
            LogView { entries, consumed: min(consumed as int, entries.len() as int) },
        ),
{
    let bytes = enc_log(entries, consumed);
    let header = enc_header(FORMAT_VERSION, consumed);
    let body = enc_entries(entries);
    assert(bytes.subrange(0, bytes.len() as int) =~= bytes);
    assert(holds_at(bytes, 0, header + body));
    lemma_holds_split(bytes, 0, header, body);
    lemma_header_round_trip(bytes, FORMAT_VERSION, consumed);
    lemma_entries_round_trip(bytes, header.len() as int, entries);
}

/// A run of entries is decoded from nothing but its encoding.
pub proof fn lemma_entries_sound(bytes: Seq<u8>, at: int)
    requires
        0 <= at <= bytes.len(),
        dec_entries(bytes, at) is Some,
    ensures
        bytes.subrange(at, bytes.len() as int) == enc_entries(dec_entries(bytes, at)->0),
        forall|i: int|
            0 <= i < dec_entries(bytes, at)->0.len() ==> event_fits(
                (#[trigger] dec_entries(bytes, at)->0[i]).event,
            ),
    decreases bytes.len() - at,
{
    if at < bytes.len() {
        lemma_entry_sound(bytes, at);
        let (entry, next) = dec_entry(bytes, at)->0;
        lemma_entries_sound(bytes, next);
        let rest = dec_entries(bytes, next)->0;
        let all = seq![entry] + rest;
        assert(all.drop_first() =~= rest);
        lemma_subrange_join(bytes, at, next, bytes.len() as int);
        assert forall|i: int| 0 <= i < all.len() implies event_fits((#[trigger] all[i]).event) by {
            if i > 0 {
                assert(all[i] == rest[i - 1]);
            }
        }
    } else {
        assert(bytes.subrange(at, bytes.len() as int) =~= Seq::<u8>::empty());
    }
}

/// Nothing loads as a log but the persisted form of a log: bytes that load
/// are the persisted form of the entries that they load as, with a
/// watermark that is clamped to the watermark of the loaded log.
pub proof fn lemma_loaded_is_persisted(bytes: Seq<u8>)
    requires
        parse_log(bytes) is Log,
    ensures
        exists|consumed: u64| #[trigger]
            enc_log(parse_log(bytes)->Log_0.entries, consumed) == bytes && parse_log(
                bytes,
            )->Log_0.consumed == min(
                consumed as int,
                parse_log(bytes)->Log_0.entries.len() as int,
            ),
{
    lemma_header_sound(bytes);
    let (version, consumed, start) = dec_header(bytes)->0;
    lemma_entries_sound(bytes, start);
    lemma_subrange_join(bytes, 0, start, bytes.len() as int);
    assert(bytes.subrange(0, bytes.len() as int) =~= bytes);
    assert(enc_log(parse_log(bytes)->Log_0.entries, consumed) == bytes);
}

/// The entries can be persisted: the length of every text in them can be
/// written down, which takes a text of less than 4 GiB.
pub open spec fn entries_fit(entries: Seq<LogEntryView>) -> bool {
    forall|i: int| 0 <= i < entries.len() ==> event_fits((#[trigger] entries[i]).event)
}

/// `bytes` are the persisted form of some log.
pub open spec fn is_persisted_log(bytes: Seq<u8>) -> bool {
    exists|entries: Seq<LogEntryView>, consumed: u64|
        entries_fit(entries) && #[trigger] enc_log(entries, consumed) == bytes
}

/// Bytes load as a log if and only if they are the persisted form of a
/// log.
pub proof fn lemma_loads_iff_persisted(bytes: Seq<u8>)
    ensures
        parse_log(bytes) is Log <==> is_persisted_log(bytes),
{
    if parse_log(bytes) is Log {
        lemma_loaded_is_persisted(bytes);
        lemma_header_sound(bytes);
        let (version, watermark, start) = dec_header(bytes)->0;
        lemma_entries_sound(bytes, start);
        let entries = parse_log(bytes)->Log_0.entries;
        let consumed = choose|consumed: u64| #[trigger]
            enc_log(entries, consumed) == bytes && parse_log(bytes)->Log_0.consumed == min(
                consumed as int,
                entries.len() as int,
            );
        assert(entries_fit(entries) && enc_log(entries, consumed) == bytes);
    }
    if is_persisted_log(bytes) {
        let (entries, consumed) = choose|entries: Seq<LogEntryView>, consumed: u64|
            entries_fit(entries) && #[trigger] enc_log(entries, consumed) == bytes;
        lemma_log_round_trip(entries, consumed);
    }
}

impl EventLog {
    /// The persisted form of the log.
    ///
    /// Fails with `Serialization`, and only then, when the log holds a text
    /// of 4 GiB or more: the format has no way to write its length down.
    pub fn serialize(&self) -> (r: Result<Vec<u8>, EventLogError>)
        ensures
            r is Ok <==> entries_fit(self@.entries),
            r matches Ok(bytes) ==> bytes@ == enc_log(self@.entries, self@.consumed as u64)
                && parse_log(bytes@) == Loaded::Log(self@),
            r matches Err(e) ==> e matches EventLogError::Serialization(message) && message@
                == too_long_message(),
    {
        let mut out: Vec<u8> = Vec::new();
        let consumed = self.consumed_count() as u64;
        put_mark(&mut out, ARRAY_OF_2);
        put_u32(&mut out, FORMAT_VERSION);
        put_u64(&mut out, consumed);
        let ghost header = out@;
        let total = self.total_count();
        let mut i: usize = 0;
        while i < total
            invariant
                0 <= i <= total == self@.entries.len(),
                header == Seq::<u8>::empty() + enc_mark(ARRAY_OF_2) + enc_u32(FORMAT_VERSION)
                    + enc_u64(consumed),
                out@ == header + enc_entries(self@.entries.take(i as int)),
                forall|j: int| 0 <= j < i ==> event_fits((#[trigger] self@.entries[j]).event),
            decreases total - i,
        {
            match self.entry(i) {
                Some(entry) => {
                    if !fits_event(&entry.event) {
                        return Err(
                            EventLogError::Serialization("text too long to encode".to_owned()),
                        );
                    }
                    put_entry(&mut out, entry);
                    proof {
                        let done = self@.entries.take(i as int);
                        assert(self@.entries.take(i + 1) =~= done.push(entry@));
                        lemma_enc_entries_push(done, entry@);
                        assert(out@ =~= header + enc_entries(self@.entries.take(i + 1)));
                    }
                },
                None => {},
            }
            i += 1;
        }
        proof {
            assert(self@.entries.take(total as int) =~= self@.entries);
            assert(out@ =~= enc_log(self@.entries, consumed));
            lemma_log_round_trip(self@.entries, consumed);
        }
        Ok(out)
    }

    /// Load a log from its persisted form.
    ///
    /// Fails with `InvalidFormat` when the header is of another version,
    /// whatever follows it, and with `Deserialization` when the header or
    /// an entry is cut short or not well formed. The entries must end exactly where the bytes end.
    /// The watermark is clamped to the number of entries.
    pub fn deserialize(data: &[u8]) -> (r: Result<EventLog, EventLogError>)
        ensures
            match r {
                Ok(log) => parse_log(data@) == Loaded::Log(log@) && log@.wf(),
                Err(EventLogError::InvalidFormat(message)) => parse_log(data@)
                    matches Loaded::UnsupportedVersion(version) && message@
                    == unsupported_version_message(version),
                Err(EventLogError::Deserialization(message)) => parse_log(data@) is Malformed
                    && message@ == malformed_message(),
                Err(EventLogError::Serialization(_)) => false,
            },
    {
        let pos0 = match read_mark(data, 0, ARRAY_OF_2) {
            Some(found) => found,
            None => {
                return Err(malformed());
            },
        };
        let (version, pos1) = match read_u32(data, pos0) {
            Some(found) => found,
            None => {
                return Err(malformed());
            },
        };
        let (consumed, pos2) = match read_u64(data, pos1) {
            Some(found) => found,
            None => {
                return Err(malformed());
            },
        };
        if version != FORMAT_VERSION {
            let mut message = "unsupported version: ".to_owned();
            let number = decimal(version as u64);
            message.append(number.as_str());
            return Err(EventLogError::InvalidFormat(message));
        }
        let mut entries: Vec<LogEntry> = Vec::new();
        let mut pos: usize = pos2;
        while pos < data.len()
            invariant
                pos2 <= pos <= data@.len(),
                version == FORMAT_VERSION,
                dec_header(data@) == Some((version, consumed, pos2 as int)),
                dec_entries(data@, pos2 as int) == prefixed(
                    entry_views(entries@),
                    dec_entries(data@, pos as int),
                ),
            decreases data@.len() - pos,
        {
            let ghost read = entry_views(entries@);
            match read_entry(data, pos) {
                Some((entry, next)) => {
                    proof {
                        lemma_dec_entry_bounds(data@, pos as int);
                        let tail = dec_entries(data@, next as int);
                        assert(entry_views(entries@.push(entry)) =~= read.push(entry@));
                        if tail is Some {
                            assert(read + (seq![entry@] + tail->0) =~= read.push(entry@) + tail->0);
                        }
                    }
                    entries.push(entry);
                    pos = next;
                },
                None => {
                    return Err(malformed());
                },
            }
        }
        proof {
            assert(entry_views(entries@) + Seq::<LogEntryView>::empty() =~= entry_views(entries@));
        }
        let total = entries.len();
        let consumed_count = if consumed >= total as u64 {
            total
        } else {
            consumed as usize
        };
        Ok(EventLog::from_entries(entries, consumed_count))
    }
}

/// The error for malformed bytes.
fn malformed() -> (e: EventLogError)
    ensures
        e matches EventLogError::Deserialization(message) && message@ == malformed_message(),
{
    EventLogError::Deserialization("truncated or malformed record".to_owned())
}

} // verus!
