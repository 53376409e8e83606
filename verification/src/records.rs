//! Records: the typed form of one feed entry, how a feed is assembled into
//! records, and which of them lie in a trailing window.

use vstd::prelude::*;
use crate::bulletin::{bulletin_of, RecordMessage, RecordMessageView};
use crate::error::{RecordError, RecordErrorView};
use crate::instant::{envelope_instant, parse_envelope_time, Instant};
use crate::product::{classify_code, IDView, ID};

verus! {

/// One entry of the feed, as it arrives.
#[derive(Debug, Clone, PartialEq, Eq)]
pub struct RecordJson {
    pub issue_datetime: String,
    pub message: String,
    pub product_id: String,
}

/// A [`RecordJson`] with its texts as sequences of characters.
pub struct RecordJsonView {
    pub issue_datetime: Seq<char>,
    pub message: Seq<char>,
    pub product_id: Seq<char>,
}

impl View for RecordJson {
    type V = RecordJsonView;

    open spec fn view(&self) -> RecordJsonView {
        RecordJsonView {
            issue_datetime: self.issue_datetime@,
            message: self.message@,
            product_id: self.product_id@,
        }
    }
}

/// One bulletin of the feed.
#[derive(Debug, Clone, PartialEq, Eq)]
pub struct Record {
    pub issue_datetime: Instant,
    pub message: RecordMessage,
    pub product_id: ID,
}

/// A [`Record`] with its parts as their views.
pub struct RecordView {
    pub issue_datetime: Instant,
    pub message: RecordMessageView,
    pub product_id: IDView,
}

impl View for Record {
    type V = RecordView;

    open spec fn view(&self) -> RecordView {
        RecordView {
            issue_datetime: self.issue_datetime,
            message: self.message@,
            product_id: self.product_id@,
        }
    }
}

/// The record that an entry gives: the envelope timestamp is normalized
/// first, then the product code classified, then the message read; the first
/// of them to fail decides the error.
pub open spec fn record_of(entry: RecordJsonView) -> Result<RecordView, RecordErrorView> {
    match envelope_instant(entry.issue_datetime) {
        Err(_) => Err(RecordErrorView::TimestampFormat),
        Ok(issue_datetime) => match classify_code(entry.product_id) {
            Err(e) => Err(e),
            Ok(product_id) => match bulletin_of(entry.message) {
                Err(e) => Err(e),
                Ok(message) => Ok(RecordView { issue_datetime, message, product_id }),
            },
        },
    }
}

/// The records that a feed gives, or the error of its first entry that fails.
pub open spec fn records_of(entries: Seq<RecordJsonView>) -> Result<Seq<RecordView>, RecordErrorView>
    decreases entries.len(),
{
    if entries.len() == 0 {
        Ok(Seq::empty())
    } else {
        match records_of(entries.drop_last()) {
            Err(e) => Err(e),
            Ok(records) => match record_of(entries.last()) {
                Err(e) => Err(e),
                Ok(record) => Ok(records.push(record)),
            },
        }
    }
}

/// The entries of a feed as their views.
pub open spec fn entries_view(entries: Seq<RecordJson>) -> Seq<RecordJsonView> {
    Seq::new(entries.len(), |i: int| entries[i]@)
}

/// A list of records as their views.
pub open spec fn records_view(records: Seq<Record>) -> Seq<RecordView> {
    Seq::new(records.len(), |i: int| records[i]@)
}

impl Record {
    /// Assembles the record of one entry.
    pub fn from_json(json: RecordJson) -> (r: Result<Record, RecordError>)
        ensures
            match r {
                Ok(record) => record_of(json@) == Ok::<RecordView, RecordErrorView>(record@),
                Err(e) => record_of(json@) == Err::<RecordView, RecordErrorView>(e@),
            },
    {
        let issue_datetime = match parse_envelope_time(json.issue_datetime.as_str()) {
            Ok(t) => t,
            Err(_) => { return Err(RecordError::TimestampFormat); },
        };
        let product_id = match ID::from_string(json.product_id) {
            Ok(id) => id,
            Err(e) => { return Err(e); },
        };
        let message = match RecordMessage::from_message(json.message) {
            Ok(m) => m,
            Err(e) => { return Err(e); },
        };
        Ok(Record { issue_datetime, message, product_id })
    }

    /// Whether the record was issued inside the trailing window of `days`
    /// days that ends at `now`; with no window every record is.
    pub open spec fn in_window(record: RecordView, days_in_past: Option<u8>, now: Instant) -> bool {
        match days_in_past {
            None => true,
            Some(days) => record.issue_datetime.is_after(
                now.secs - crate::instant::SECONDS_PER_DAY * days,
                now.nanos as int,
            ),
        }
    }
}

/// Assembles the records of a feed, stopping at the first entry that fails.
pub fn parse_records(entries: Vec<RecordJson>) -> (r: Result<Vec<Record>, RecordError>)
    ensures
        match r {
            Ok(records) => records_of(entries_view(entries@)) == Ok::<Seq<RecordView>, RecordErrorView>(
                records_view(records@),
            ),
            Err(e) => records_of(entries_view(entries@)) == Err::<Seq<RecordView>, RecordErrorView>(e@),
        },
{
    let ghost all = entries_view(entries@);
    let mut records: Vec<Record> = Vec::new();
    proof {
        assert(all.take(0) =~= Seq::empty());
        assert(records_view(records@) =~= Seq::empty());
    }
    for entry in iter: entries.into_iter()
        invariant
            all == entries_view(entries@),
            iter.seq() == entries@,
            records_of(all.take(iter.index() as int)) == Ok::<Seq<RecordView>, RecordErrorView>(
                records_view(records@),
            ),
    {
        let ghost done = iter.index() as int;
        let ghost before = records_view(records@);
        proof {
            assert(all.take(done + 1).drop_last() =~= all.take(done));
            assert(all.take(done + 1).last() == entry@);
        }
        match Record::from_json(entry) {
            Ok(record) => {
                records.push(record);
                assert(records_view(records@) =~= before.push(record@));
            },
            Err(e) => {
                proof {
                    lemma_records_of_failure(all, done + 1);
                }
                return Err(e);
            },
        }
    }
    assert(all.take(all.len() as int) =~= all);
    Ok(records)
}

/// Once a prefix of a feed fails, the whole feed fails with the same error.
pub proof fn lemma_records_of_failure(entries: Seq<RecordJsonView>, n: int)
    requires
        0 <= n <= entries.len(),
        records_of(entries.take(n)) is Err,
    ensures
        records_of(entries) == records_of(entries.take(n)),
    decreases entries.len() - n,
{
    if n == entries.len() {
        assert(entries.take(n) =~= entries);
    } else {
        assert(entries.take(n + 1).drop_last() =~= entries.take(n));
        lemma_records_of_failure(entries, n + 1);
    }
}

/// The records of `records` that lie in the window, in their order.
pub open spec fn records_in_window(records: Seq<RecordView>, days_in_past: Option<u8>, now: Instant) -> Seq<
    RecordView,
> {
    records.filter(|r: RecordView| Record::in_window(r, days_in_past, now))
}

/// Keeps the records that were issued later than `days_in_past` days before
/// `now`; with `None` for the window, all of them.
pub fn filter_records(records: Vec<Record>, days_in_past: Option<u8>, now: Instant) -> (kept: Vec<Record>)
    ensures
        records_view(kept@) == records_in_window(records_view(records@), days_in_past, now),
{
    let ghost all = records_view(records@);
    let ghost pred = |r: RecordView| Record::in_window(r, days_in_past, now);
    let mut kept: Vec<Record> = Vec::new();
    proof {
        reveal(Seq::filter);
        assert(all.take(0) =~= Seq::empty());
        assert(records_view(kept@) =~= Seq::empty());
    }
    for record in iter: records.into_iter()
        invariant
            all == records_view(records@),
            iter.seq() == records@,
            pred == (|r: RecordView| Record::in_window(r, days_in_past, now)),
            records_view(kept@) == all.take(iter.index() as int).filter(pred),
    {
        let ghost done = iter.index() as int;
        let ghost before = records_view(kept@);
        proof {
            reveal(Seq::filter);
            assert(all.take(done + 1).drop_last() =~= all.take(done));
            assert(all.take(done + 1).last() == record@);
        }
        let keep = match days_in_past {
            None => true,
            Some(days) => record.issue_datetime.later_than_days_before(&now, days),
        };
        assert(keep == pred(record@));
        if keep {
            kept.push(record);
            assert(records_view(kept@) =~= before.push(record@));
        }
    }
    assert(all.take(all.len() as int) =~= all);
    kept
}

/// The records of a feed that lie in the window, or the error of the first
/// entry that fails, whether that entry lies in the window or not.
pub open spec fn records_of_window(entries: Seq<RecordJsonView>, days_in_past: Option<u8>, now: Instant) -> Result<
    Seq<RecordView>,
    RecordErrorView,
> {
    match records_of(entries) {
        Ok(records) => Ok(records_in_window(records, days_in_past, now)),
        Err(e) => Err(e),
    }
}

/// Assembles the records of a feed and keeps those that were issued later
/// than `days_in_past` days before `now`.
pub fn get_records(entries: Vec<RecordJson>, days_in_past: Option<u8>, now: Instant) -> (r: Result<
    Vec<Record>,
    RecordError,
>)
    ensures
        match r {
            Ok(records) => records_of_window(entries_view(entries@), days_in_past, now) == Ok::<
                Seq<RecordView>,
                RecordErrorView,
            >(records_view(records@)),
            Err(e) => records_of_window(entries_view(entries@), days_in_past, now) == Err::<
                Seq<RecordView>,
                RecordErrorView,
            >(e@),
        },
{
    match parse_records(entries) {
        Ok(records) => Ok(filter_records(records, days_in_past, now)),
        Err(e) => Err(e),
    }
}

/// Filtering no records gives no records, whatever the window.
pub proof fn lemma_window_over_nothing(days_in_past: Option<u8>, now: Instant)
    ensures
        records_in_window(Seq::empty(), days_in_past, now) == Seq::<RecordView>::empty(),
{
    reveal(Seq::filter);
}

/// With no window, filtering keeps every record.
pub proof fn lemma_unbounded_window_keeps_all(records: Seq<RecordView>, now: Instant)
    ensures
        records_in_window(records, None, now) == records,
    decreases records.len(),
{
    reveal(Seq::filter);
    if records.len() > 0 {
        lemma_unbounded_window_keeps_all(records.drop_last(), now);
        assert(records.drop_last().push(records.last()) =~= records);
    }
}

} // verus!
