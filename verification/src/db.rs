//! The event table: which bulletins are stored, and how a stored bulletin
//! refers to the one it extends.

use vstd::prelude::*;
use crate::instant::Instant;
use crate::records::Record;

verus! {

/// One row of the event table.
#[derive(Debug, Clone, Copy, PartialEq, Eq)]
pub struct RecordDB {
    /// Date and time of issue; rows are told apart by its local wall clock.
    pub issue_time: Instant,
    pub serial_num: u64,
    /// Serial number of the bulletin that this one extends.
    pub serial_num_ext: Option<u64>,
    /// Key of the row, given by the table.
    pub id: i32,
    /// Key of the row that `serial_num_ext` refers to, once resolved.
    pub id_ext: Option<i32>,
}

/// A row that is offered to the table.
#[derive(Debug, Clone, Copy, PartialEq, Eq)]
pub struct NewEvent {
    pub issue_time: Instant,
    pub serial_num: u64,
    pub serial_num_ext: Option<u64>,
}

/// Why the table could not be updated. Link resolution on this table cannot
/// fail, so the one failure belongs to the insert.
#[derive(Debug, Clone, Copy, PartialEq, Eq, Structural)]
pub enum StorageError {
    /// The insert failed: the table has no key left for a row that it
    /// takes, or it does not admit the one row that had to be inserted.
    Insert,
}

/// Whether some row carries the serial number `serial`.
pub open spec fn serial_taken(rows: Seq<RecordDB>, serial: u64) -> bool {
    exists|i: int| 0 <= i < rows.len() && (#[trigger] rows[i]).serial_num == serial
}

/// Whether some row was issued at the wall-clock time of `time`.
pub open spec fn time_taken(rows: Seq<RecordDB>, time: Instant) -> bool {
    exists|i: int| 0 <= i < rows.len() && (#[trigger] rows[i]).issue_time.same_wall_clock(time)
}

/// Whether the table takes the candidate: neither its serial number nor its
/// issue time occurs in any row. The two are looked up independently.
pub open spec fn admits(rows: Seq<RecordDB>, candidate: NewEvent) -> bool {
    !serial_taken(rows, candidate.serial_num) && !time_taken(rows, candidate.issue_time)
}

/// The row that a candidate becomes under the key `id`.
pub open spec fn row_of(candidate: NewEvent, id: i32) -> RecordDB {
    RecordDB {
        issue_time: candidate.issue_time,
        serial_num: candidate.serial_num,
        serial_num_ext: candidate.serial_num_ext,
        id,
        id_ext: None,
    }
}

/// The table after one candidate was offered.
pub open spec fn insert_one(rows: Seq<RecordDB>, id: int, candidate: NewEvent) -> Seq<RecordDB> {
    if admits(rows, candidate) {
        rows.push(row_of(candidate, id as i32))
    } else {
        rows
    }
}

/// The table after the candidates were offered one after the other. Each is
/// held against the rows that are there when its turn comes, those of its own
/// batch included. Keys are given out in order, starting at `next_id`.
pub open spec fn insert_all(rows: Seq<RecordDB>, next_id: int, candidates: Seq<NewEvent>) -> Seq<RecordDB>
    decreases candidates.len(),
{
    if candidates.len() == 0 {
        rows
    } else {
        let before = insert_all(rows, next_id, candidates.drop_last());
        insert_one(before, next_id + before.len() - rows.len(), candidates.last())
    }
}

/// Whether row `j` is the one that row `i` extends.
pub open spec fn is_target(rows: Seq<RecordDB>, i: int, j: int) -> bool {
    0 <= j < rows.len() && j != i && rows[i].serial_num_ext == Some(rows[j].serial_num)
}

/// The link of row `i` after resolution: the key of the other row that it
/// extends, or what it held before where there is no such row.
pub open spec fn link_of(rows: Seq<RecordDB>, i: int) -> Option<i32> {
    if exists|j: int| is_target(rows, i, j) {
        Some(rows[choose|j: int| is_target(rows, i, j)].id)
    } else {
        rows[i].id_ext
    }
}

/// The table after link resolution.
pub open spec fn resolved(rows: Seq<RecordDB>) -> Seq<RecordDB> {
    Seq::new(
        rows.len(),
        |i: int|
            RecordDB {
                issue_time: rows[i].issue_time,
                serial_num: rows[i].serial_num,
                serial_num_ext: rows[i].serial_num_ext,
                id: rows[i].id,
                id_ext: link_of(rows, i),
            },
    )
}

/// No two rows share a serial number.
pub open spec fn serials_distinct(rows: Seq<RecordDB>) -> bool {
    forall|i: int, j: int|
        0 <= i < rows.len() && 0 <= j < rows.len() && i != j ==> (#[trigger] rows[i]).serial_num != (
        #[trigger] rows[j]).serial_num
}

/// No two rows share the wall-clock time of their issue.
pub open spec fn times_distinct(rows: Seq<RecordDB>) -> bool {
    forall|i: int, j: int|
        0 <= i < rows.len() && 0 <= j < rows.len() && i != j ==> !(#[trigger] rows[i]).issue_time.same_wall_clock(
            (#[trigger] rows[j]).issue_time,
        )
}

/// Keys are positive, below `next_id`, and no two rows share one.
pub open spec fn ids_fresh(rows: Seq<RecordDB>, next_id: int) -> bool {
    &&& 1 <= next_id <= i32::MAX
    &&& forall|i: int| 0 <= i < rows.len() ==> 1 <= (#[trigger] rows[i]).id < next_id
    &&& forall|i: int, j: int|
        0 <= i < rows.len() && 0 <= j < rows.len() && i != j ==> (#[trigger] rows[i]).id != (#[trigger] rows[j]).id
}

/// The candidate that a record gives. A record names no bulletin that it
/// extends.
pub open spec fn candidate_of(record: Record) -> NewEvent {
    NewEvent { issue_time: record.issue_datetime, serial_num: record.message.sn, serial_num_ext: None }
}

/// The candidates that a batch of records gives.
pub open spec fn candidates_of(records: Seq<Record>) -> Seq<NewEvent> {
    Seq::new(records.len(), |i: int| candidate_of(records[i]))
}

/// The event table.
pub struct EventTable {
    rows: Vec<RecordDB>,
    next_id: i32,
}

impl View for EventTable {
    type V = Seq<RecordDB>;

    closed spec fn view(&self) -> Seq<RecordDB> {
        self.rows@
    }
}

impl EventTable {
    /// The key that the next row will get.
    pub closed spec fn next_key(&self) -> int {
        self.next_id as int
    }

    /// Serial numbers, issue times and keys each tell the rows apart.
    pub open spec fn wf(&self) -> bool {
        &&& serials_distinct(self@)
        &&& times_distinct(self@)
        &&& ids_fresh(self@, self.next_key())
    }

    /// An empty table, whose first key is 1.
    pub fn new() -> (table: EventTable)
        ensures
            table.wf(),
            table@ == Seq::<RecordDB>::empty(),
            table.next_key() == 1,
    {
        EventTable { rows: Vec::new(), next_id: 1 }
    }

    /// An empty table whose first key is `first`, or `None` where `first` is
    /// not positive.
    pub fn with_first_key(first: i32) -> (table: Option<EventTable>)
        ensures
            table is Some <==> first >= 1,
            table matches Some(t) ==> t.wf() && t@ == Seq::<RecordDB>::empty() && t.next_key() == first,
    {
        if first >= 1 {
            Some(EventTable { rows: Vec::new(), next_id: first })
        } else {
            None
        }
    }

    /// The table that holds `rows` and gives `next_id` as its next key, or
    /// `None` where two rows share a serial number, an issue time or a key,
    /// or a key is not positive and below `next_id`.
    pub fn from_rows(rows: Vec<RecordDB>, next_id: i32) -> (table: Option<EventTable>)
        ensures
            table is Some <==> serials_distinct(rows@) && times_distinct(rows@) && ids_fresh(
                rows@,
                next_id as int,
            ),
            table matches Some(t) ==> t.wf() && t@ == rows@ && t.next_key() == next_id,
    {
        if next_id < 1 {
            return None;
        }
        let mut i: usize = 0;
        while i < rows.len()
            invariant
                1 <= next_id,
                i <= rows@.len(),
                serials_distinct(rows@.take(i as int)),
                times_distinct(rows@.take(i as int)),
                ids_fresh(rows@.take(i as int), next_id as int),
            decreases rows@.len() - i,
        {
            let row = rows[i];
            if row.id < 1 || row.id >= next_id {
                return None;
            }
            let mut j: usize = 0;
            while j < i
                invariant
                    i < rows@.len(),
                    j <= i,
                    row == rows@[i as int],
                    forall|k: int|
                        0 <= k < j ==> {
                            &&& (#[trigger] rows@[k]).serial_num != row.serial_num
                            &&& !rows@[k].issue_time.same_wall_clock(row.issue_time)
                            &&& rows@[k].id != row.id
                        },
                decreases i - j,
            {
                let other = rows[j];
                if other.serial_num == row.serial_num || other.id == row.id || other.issue_time.wall_clock_eq(
                    &row.issue_time,
                ) {
                    return None;
                }
                j = j + 1;
            }
            proof {
                let before = rows@.take(i as int);
                let after = rows@.take(i + 1);
                assert forall|a: int, b: int|
                    0 <= a < after.len() && 0 <= b < after.len() && a != b implies (#[trigger] after[a]).serial_num
                    != (#[trigger] after[b]).serial_num && !after[a].issue_time.same_wall_clock(
                    after[b].issue_time,
                ) && after[a].id != after[b].id by {
                    if a < i && b < i {
                        assert(before[a] == after[a] && before[b] == after[b]);
                    }
                }
                assert forall|a: int| 0 <= a < after.len() implies 1 <= (#[trigger] after[a]).id < next_id by {
                    if a < i {
                        assert(before[a] == after[a]);
                    }
                }
            }
            i = i + 1;
        }
        assert(rows@.take(i as int) =~= rows@);
        Some(EventTable { rows, next_id })
    }

    /// The rows, in the order of their insertion.
    pub fn rows(&self) -> (rows: &Vec<RecordDB>)
        ensures
            rows@ == self@,
    {
        &self.rows
    }

    /// Whether the table takes the candidate.
    pub fn admits(&self, candidate: &NewEvent) -> (r: bool)
        ensures
            r == admits(self@, *candidate),
    {
        let mut i: usize = 0;
        while i < self.rows.len()
            invariant
                i <= self.rows@.len(),
                admits(self.rows@.take(i as int), *candidate),
            decreases self.rows@.len() - i,
        {
            let row = self.rows[i];
            if row.serial_num == candidate.serial_num || row.issue_time.wall_clock_eq(&candidate.issue_time) {
                return false;
            }
            i = i + 1;
        }
        assert(self.rows@.take(i as int) =~= self.rows@);
        true
    }

    /// Offers the candidates to the table one after the other and returns how
    /// many it took. Where the keys run out before all that it takes are
    /// inserted, the insert fails and the table stays as it was.
    pub fn insert_events(&mut self, candidates: &Vec<NewEvent>) -> (r: Result<usize, StorageError>)
        requires
            old(self).wf(),
        ensures
            final(self).wf(),
            r is Ok <==> old(self).next_key() + insert_all(old(self)@, old(self).next_key(), candidates@).len()
                - old(self)@.len() <= i32::MAX,
            match r {
                Ok(count) => {
                    &&& final(self)@ == insert_all(old(self)@, old(self).next_key(), candidates@)
                    &&& count == final(self)@.len() - old(self)@.len()
                    &&& final(self).next_key() == old(self).next_key() + count
                },
                Err(e) => {
                    &&& e == StorageError::Insert
                    &&& final(self)@ == old(self)@
                    &&& final(self).next_key() == old(self).next_key()
                },
            },
    {
        let ghost start = self@;
        let ghost first = self.next_key();
        let stored: usize = self.rows.len();
        let first_id: i32 = self.next_id;
        let mut count: usize = 0;
        let mut i: usize = 0;
        while i < candidates.len()
            invariant
                i <= candidates@.len(),
                start == old(self)@,
                first == old(self).next_key(),
                old(self).wf(),
                stored == start.len(),
                first_id == first,
                self.wf(),
                self@ == insert_all(start, first, candidates@.take(i as int)),
                count <= i,
                count == self@.len() - start.len(),
                self.next_key() == first + count,
            decreases candidates@.len() - i,
        {
            let candidate = candidates[i];
            proof {
                assert(candidates@.take(i + 1).drop_last() =~= candidates@.take(i as int));
                assert(candidates@.take(i + 1).last() == candidate);
            }
            if self.admits(&candidate) {
                if self.next_id == i32::MAX {
                    proof {
                        lemma_insert_all_grows(start, first, candidates@.take(i as int));
                        lemma_rest_adds_no_less(start, first, candidates@, i + 1);
                    }
                    self.rows.truncate(stored);
                    self.next_id = first_id;
                    assert(self@ =~= start);
                    return Err(StorageError::Insert);
                }
                let ghost before = self@;
                let row = RecordDB {
                    issue_time: candidate.issue_time,
                    serial_num: candidate.serial_num,
                    serial_num_ext: candidate.serial_num_ext,
                    id: self.next_id,
                    id_ext: None,
                };
                self.rows.push(row);
                self.next_id = self.next_id + 1;
                count = count + 1;
                proof {
                    assert(self@ == before.push(row));
                    assert forall|a: int, b: int|
                        0 <= a < self@.len() && 0 <= b < self@.len() && a != b implies (#[trigger] self@[a]).serial_num
                        != (#[trigger] self@[b]).serial_num && !self@[a].issue_time.same_wall_clock(
                        self@[b].issue_time,
                    ) && self@[a].id != self@[b].id by {
                        if a < before.len() {
                            assert(before[a] == self@[a]);
                        }
                        if b < before.len() {
                            assert(before[b] == self@[b]);
                        }
                    }
                }
            }
            i = i + 1;
        }
        assert(candidates@.take(i as int) =~= candidates@);
        Ok(count)
    }

    /// The position of the row that row `i` extends, if there is one.
    fn find_target(&self, i: usize) -> (r: Option<usize>)
        requires
            i < self@.len(),
        ensures
            match r {
                Some(j) => is_target(self@, i as int, j as int),
                None => forall|j: int| !is_target(self@, i as int, j),
            },
    {
        match self.rows[i].serial_num_ext {
            None => None,
            Some(wanted) => {
                let mut j: usize = 0;
                while j < self.rows.len()
                    invariant
                        i < self.rows@.len(),
                        j <= self.rows@.len(),
                        self.rows@[i as int].serial_num_ext == Some(wanted),
                        forall|k: int| 0 <= k < j ==> !is_target(self@, i as int, k),
                    decreases self.rows@.len() - j,
                {
                    if j != i && self.rows[j].serial_num == wanted {
                        return Some(j);
                    }
                    j = j + 1;
                }
                None
            },
        }
    }

    /// Resolves the links of all rows: each row that extends another row of
    /// the table gets that row's key; the other rows keep what they hold.
    pub fn update_id_references(&mut self)
        requires
            old(self).wf(),
        ensures
            final(self).wf(),
            final(self)@ == resolved(old(self)@),
            final(self).next_key() == old(self).next_key(),
    {
        let ghost start = self@;
        let mut linked: Vec<RecordDB> = Vec::new();
        let mut i: usize = 0;
        while i < self.rows.len()
            invariant
                self@ == start,
                serials_distinct(start),
                i <= start.len(),
                linked@ == resolved(start).take(i as int),
            decreases start.len() - i,
        {
            let row = self.rows[i];
            let id_ext = match self.find_target(i) {
                Some(j) => Some(self.rows[j].id),
                None => row.id_ext,
            };
            linked.push(
                RecordDB {
                    issue_time: row.issue_time,
                    serial_num: row.serial_num,
                    serial_num_ext: row.serial_num_ext,
                    id: row.id,
                    id_ext,
                },
            );
            proof {
                assert(id_ext == link_of(start, i as int));
                assert(linked@ =~= resolved(start).take(i + 1));
            }
            i = i + 1;
        }
        proof {
            assert(linked@ =~= resolved(start));
            lemma_resolved_keeps_columns(start);
        }
        self.rows = linked;
    }
}

/// Link resolution changes nothing but the links.
pub proof fn lemma_resolved_keeps_columns(rows: Seq<RecordDB>)
    ensures
        resolved(rows).len() == rows.len(),
        forall|i: int|
            0 <= i < rows.len() ==> {
                &&& (#[trigger] resolved(rows)[i]).issue_time == rows[i].issue_time
                &&& resolved(rows)[i].serial_num == rows[i].serial_num
                &&& resolved(rows)[i].serial_num_ext == rows[i].serial_num_ext
                &&& resolved(rows)[i].id == rows[i].id
            },
        serials_distinct(rows) ==> serials_distinct(resolved(rows)),
        times_distinct(rows) ==> times_distinct(resolved(rows)),
        forall|next_id: int| ids_fresh(rows, next_id) ==> ids_fresh(resolved(rows), next_id),
{
}

impl RecordDB {
    /// Offers a batch of records to the table, then resolves the links of all
    /// rows. Returns how many records the table took. Where the keys run
    /// out, the insert fails and the table stays as it was.
    pub fn add_all_records(data: &Vec<Record>, table: &mut EventTable) -> (r: Result<usize, StorageError>)
        requires
            old(table).wf(),
        ensures
            final(table).wf(),
            r is Ok <==> old(table).next_key() + insert_all(
                old(table)@,
                old(table).next_key(),
                candidates_of(data@),
            ).len() - old(table)@.len() <= i32::MAX,
            match r {
                Ok(count) => {
                    let inserted = insert_all(old(table)@, old(table).next_key(), candidates_of(data@));
                    &&& final(table)@ == resolved(inserted)
                    &&& count == inserted.len() - old(table)@.len()
                    &&& final(table).next_key() == old(table).next_key() + count
                },
                Err(e) => {
                    &&& e == StorageError::Insert
                    &&& final(table)@ == old(table)@
                    &&& final(table).next_key() == old(table).next_key()
                },
            },
    {
        let mut candidates: Vec<NewEvent> = Vec::new();
        let mut i: usize = 0;
        while i < data.len()
            invariant
                i <= data@.len(),
                candidates@ == candidates_of(data@).take(i as int),
            decreases data@.len() - i,
        {
            candidates.push(
                NewEvent {
                    issue_time: data[i].issue_datetime,
                    serial_num: data[i].message.sn,
                    serial_num_ext: None,
                },
            );
            assert(candidates@ =~= candidates_of(data@).take(i + 1));
            i = i + 1;
        }
        assert(candidates@ =~= candidates_of(data@));
        match table.insert_events(&candidates) {
            Ok(count) => {
                table.update_id_references();
                Ok(count)
            },
            Err(e) => Err(e),
        }
    }

    /// Inserts one record and resolves the links of all rows. Returns the
    /// record's row as it stands after that. The table keeps its rows apart
    /// by serial number and by issue time, so a record that it does not
    /// admit fails the insert, as does a table without a key left; the table
    /// then stays as it is.
    pub fn add_record(data: &Record, table: &mut EventTable) -> (r: Result<RecordDB, StorageError>)
        requires
            old(table).wf(),
        ensures
            final(table).wf(),
            r is Ok <==> admits(old(table)@, candidate_of(*data)) && old(table).next_key() < i32::MAX,
            match r {
                Ok(row) => {
                    &&& final(table)@ == resolved(
                        old(table)@.push(row_of(candidate_of(*data), old(table).next_key() as i32)),
                    )
                    &&& final(table).next_key() == old(table).next_key() + 1
                    &&& row == final(table)@.last()
                },
                Err(e) => {
                    &&& e == StorageError::Insert
                    &&& final(table)@ == old(table)@
                    &&& final(table).next_key() == old(table).next_key()
                },
            },
    {
        let candidate = NewEvent {
            issue_time: data.issue_datetime,
            serial_num: data.message.sn,
            serial_num_ext: None,
        };
        if !table.admits(&candidate) {
            return Err(StorageError::Insert);
        }
        let mut batch: Vec<NewEvent> = Vec::new();
        batch.push(candidate);
        proof {
            assert(batch@.drop_last() =~= Seq::<NewEvent>::empty());
            assert(batch@.last() == candidate);
            assert(insert_all(table@, table.next_key(), batch@.drop_last()) == table@);
        }
        match table.insert_events(&batch) {
            Ok(_) => {
                table.update_id_references();
                let rows = table.rows();
                Ok(rows[rows.len() - 1])
            },
            Err(e) => Err(e),
        }
    }

    /// Resolves the links of all rows of the table.
    pub fn update_id_references(table: &mut EventTable)
        requires
            old(table).wf(),
        ensures
            final(table).wf(),
            final(table)@ == resolved(old(table)@),
            final(table).next_key() == old(table).next_key(),
    {
        table.update_id_references();
    }
}

/// Offering candidates only adds rows at the end, at most one for each, and
/// a candidate that the table refuses is refused afterwards too.
pub proof fn lemma_insert_all_grows(rows: Seq<RecordDB>, next_id: int, candidates: Seq<NewEvent>)
    ensures
        rows.len() <= insert_all(rows, next_id, candidates).len() <= rows.len() + candidates.len(),
        forall|k: int| 0 <= k < rows.len() ==> insert_all(rows, next_id, candidates)[k] == rows[k],
        forall|c: NewEvent| !admits(rows, c) ==> !admits(insert_all(rows, next_id, candidates), c),
    decreases candidates.len(),
{
    if candidates.len() > 0 {
        let before = insert_all(rows, next_id, candidates.drop_last());
        let after = insert_all(rows, next_id, candidates);
        lemma_insert_all_grows(rows, next_id, candidates.drop_last());
        assert forall|c: NewEvent| !admits(rows, c) implies !admits(after, c) by {
            lemma_refusal_stays(before, after, c);
        }
    }
}

/// A candidate that a table refuses is refused by every table that holds the
/// same rows and more.
pub proof fn lemma_refusal_stays(before: Seq<RecordDB>, after: Seq<RecordDB>, candidate: NewEvent)
    requires
        before.len() <= after.len(),
        forall|k: int| 0 <= k < before.len() ==> after[k] == before[k],
        !admits(before, candidate),
    ensures
        !admits(after, candidate),
{
    if serial_taken(before, candidate.serial_num) {
        let i = choose|i: int| 0 <= i < before.len() && (#[trigger] before[i]).serial_num == candidate.serial_num;
        assert(after[i].serial_num == candidate.serial_num);
    } else {
        let i = choose|i: int|
            0 <= i < before.len() && (#[trigger] before[i]).issue_time.same_wall_clock(candidate.issue_time);
        assert(after[i].issue_time.same_wall_clock(candidate.issue_time));
    }
}

/// Once a candidate was offered, the table refuses it: it holds the
/// candidate's row, or a row that kept the candidate out.
pub proof fn lemma_offered_is_refused(rows: Seq<RecordDB>, next_id: int, candidates: Seq<NewEvent>, i: int)
    requires
        0 <= i < candidates.len(),
    ensures
        !admits(insert_all(rows, next_id, candidates), candidates[i]),
    decreases candidates.len(),
{
    let before = insert_all(rows, next_id, candidates.drop_last());
    let after = insert_all(rows, next_id, candidates);
    let last = candidates.last();
    if i == candidates.len() - 1 {
        if admits(before, last) {
            assert(after[before.len() as int].serial_num == last.serial_num);
        }
    } else {
        lemma_offered_is_refused(rows, next_id, candidates.drop_last(), i);
        lemma_refusal_stays(before, after, candidates[i]);
    }
}

/// What is offered behind a prefix of a batch adds at most one row for each
/// candidate.
pub proof fn lemma_rest_adds_at_most_its_length(
    rows: Seq<RecordDB>,
    next_id: int,
    candidates: Seq<NewEvent>,
    n: int,
)
    requires
        0 <= n <= candidates.len(),
    ensures
        insert_all(rows, next_id, candidates).len() <= insert_all(rows, next_id, candidates.take(n)).len()
            + candidates.len() - n,
    decreases candidates.len() - n,
{
    if n == candidates.len() {
        assert(candidates.take(n) =~= candidates);
    } else {
        lemma_rest_adds_at_most_its_length(rows, next_id, candidates, n + 1);
        assert(candidates.take(n + 1).drop_last() =~= candidates.take(n));
    }
}

/// What is offered behind a prefix of a batch takes no row away.
pub proof fn lemma_rest_adds_no_less(rows: Seq<RecordDB>, next_id: int, candidates: Seq<NewEvent>, n: int)
    requires
        0 <= n <= candidates.len(),
    ensures
        insert_all(rows, next_id, candidates.take(n)).len() <= insert_all(rows, next_id, candidates).len(),
    decreases candidates.len() - n,
{
    if n == candidates.len() {
        assert(candidates.take(n) =~= candidates);
    } else {
        lemma_rest_adds_no_less(rows, next_id, candidates, n + 1);
        assert(candidates.take(n + 1).drop_last() =~= candidates.take(n));
    }
}

/// Of two candidates of one batch with the same serial number and the same
/// issue time the later one is never inserted, so the batch adds fewer rows
/// than it has candidates.
pub proof fn lemma_duplicate_inserted_at_most_once(
    rows: Seq<RecordDB>,
    next_id: int,
    candidates: Seq<NewEvent>,
    i: int,
    j: int,
)
    requires
        0 <= i < j < candidates.len(),
        candidates[i].serial_num == candidates[j].serial_num,
        candidates[i].issue_time.same_wall_clock(candidates[j].issue_time),
    ensures
        insert_all(rows, next_id, candidates.take(j + 1)) == insert_all(rows, next_id, candidates.take(j)),
        insert_all(rows, next_id, candidates).len() - rows.len() <= candidates.len() - 1,
{
    let before = insert_all(rows, next_id, candidates.take(j));
    lemma_offered_is_refused(rows, next_id, candidates.take(j), i);
    assert(candidates.take(j)[i] == candidates[i]);
    if serial_taken(before, candidates[i].serial_num) {
        assert(serial_taken(before, candidates[j].serial_num));
    } else {
        let k = choose|k: int|
            0 <= k < before.len() && (#[trigger] before[k]).issue_time.same_wall_clock(candidates[i].issue_time);
        assert(before[k].issue_time.same_wall_clock(candidates[j].issue_time));
    }
    assert(candidates.take(j + 1).drop_last() =~= candidates.take(j));
    assert(candidates.take(j + 1).last() == candidates[j]);
    lemma_insert_all_grows(rows, next_id, candidates.take(j));
    lemma_rest_adds_at_most_its_length(rows, next_id, candidates, j + 1);
}

/// Link resolution is idempotent: on a table whose serial numbers tell the
/// rows apart, a second resolution changes nothing.
pub proof fn lemma_resolution_idempotent(rows: Seq<RecordDB>)
    requires
        serials_distinct(rows),
    ensures
        resolved(resolved(rows)) == resolved(rows),
{
    let once = resolved(rows);
    assert forall|i: int| 0 <= i < rows.len() implies link_of(once, i) == link_of(rows, i) by {
        assert forall|j: int| is_target(once, i, j) == is_target(rows, i, j) by {}
        if exists|j: int| is_target(rows, i, j) {
            let a = choose|j: int| is_target(rows, i, j);
            assert(is_target(once, i, a));
            let b = choose|j: int| is_target(once, i, j);
            assert(is_target(rows, i, b));
            assert(rows[a].serial_num == rows[b].serial_num);
        } else {
            assert forall|j: int| !is_target(once, i, j) by {
                assert(!is_target(rows, i, j));
            }
        }
    }
    assert(resolved(once) =~= once);
}

/// A batch without candidates leaves a resolved table as it is.
pub proof fn lemma_empty_batch_changes_nothing(rows: Seq<RecordDB>, next_id: int)
    requires
        serials_distinct(rows),
    ensures
        resolved(insert_all(resolved(rows), next_id, Seq::<NewEvent>::empty())) == resolved(rows),
{
    lemma_resolved_keeps_columns(rows);
    lemma_resolution_idempotent(rows);
}

/// A row that extends another row of the table holds that row's key after
/// link resolution.
pub proof fn lemma_link_points_to_target(rows: Seq<RecordDB>, i: int, j: int)
    requires
        serials_distinct(rows),
        0 <= i < rows.len(),
        is_target(rows, i, j),
    ensures
        resolved(rows)[i].id_ext == Some(rows[j].id),
{
    let chosen = choose|k: int| is_target(rows, i, k);
    assert(rows[chosen].serial_num == rows[j].serial_num);
}

/// Link resolution does not change which candidates the table takes.
pub proof fn lemma_resolved_admits_the_same(rows: Seq<RecordDB>, candidate: NewEvent)
    ensures
        admits(resolved(rows), candidate) == admits(rows, candidate),
{
    let after = resolved(rows);
    if serial_taken(rows, candidate.serial_num) {
        let i = choose|i: int| 0 <= i < rows.len() && (#[trigger] rows[i]).serial_num == candidate.serial_num;
        assert(after[i].serial_num == candidate.serial_num);
    }
    if serial_taken(after, candidate.serial_num) {
        let i = choose|i: int| 0 <= i < after.len() && (#[trigger] after[i]).serial_num == candidate.serial_num;
        assert(rows[i].serial_num == candidate.serial_num);
    }
    if time_taken(rows, candidate.issue_time) {
        let i = choose|i: int|
            0 <= i < rows.len() && (#[trigger] rows[i]).issue_time.same_wall_clock(candidate.issue_time);
        assert(after[i].issue_time.same_wall_clock(candidate.issue_time));
    }
    if time_taken(after, candidate.issue_time) {
        let i = choose|i: int|
            0 <= i < after.len() && (#[trigger] after[i]).issue_time.same_wall_clock(candidate.issue_time);
        assert(rows[i].issue_time.same_wall_clock(candidate.issue_time));
    }
}

/// A batch of which the table takes no candidate leaves the table as it is.
pub proof fn lemma_refused_batch_changes_nothing(rows: Seq<RecordDB>, next_id: int, candidates: Seq<NewEvent>)
    requires
        forall|i: int| 0 <= i < candidates.len() ==> !admits(rows, #[trigger] candidates[i]),
    ensures
        insert_all(rows, next_id, candidates) == rows,
    decreases candidates.len(),
{
    if candidates.len() > 0 {
        let front = candidates.drop_last();
        assert forall|i: int| 0 <= i < front.len() implies !admits(rows, #[trigger] front[i]) by {
            assert(front[i] == candidates[i]);
        }
        lemma_refused_batch_changes_nothing(rows, next_id, front);
        assert(candidates.last() == candidates[candidates.len() - 1]);
    }
}

/// Offering candidates keeps the serial numbers of the rows apart.
pub proof fn lemma_insert_all_keeps_serials_distinct(rows: Seq<RecordDB>, next_id: int, candidates: Seq<NewEvent>)
    requires
        serials_distinct(rows),
    ensures
        serials_distinct(insert_all(rows, next_id, candidates)),
    decreases candidates.len(),
{
    if candidates.len() > 0 {
        let before = insert_all(rows, next_id, candidates.drop_last());
        let after = insert_all(rows, next_id, candidates);
        lemma_insert_all_keeps_serials_distinct(rows, next_id, candidates.drop_last());
        if admits(before, candidates.last()) {
            assert forall|a: int, b: int|
                0 <= a < after.len() && 0 <= b < after.len() && a != b implies (#[trigger] after[a]).serial_num != (
            #[trigger] after[b]).serial_num by {
                if a < before.len() {
                    assert(before[a] == after[a]);
                }
                if b < before.len() {
                    assert(before[b] == after[b]);
                }
            }
        }
    }
}

/// Running the same batch a second time is a no-op: once a batch was
/// offered and the links were resolved, offering it again and resolving
/// again leaves the table as it is.
pub proof fn lemma_second_run_changes_nothing(
    rows: Seq<RecordDB>,
    next_id: int,
    later_id: int,
    candidates: Seq<NewEvent>,
)
    requires
        serials_distinct(rows),
    ensures
        ({
            let first_run = resolved(insert_all(rows, next_id, candidates));
            resolved(insert_all(first_run, later_id, candidates)) == first_run
        }),
{
    let inserted = insert_all(rows, next_id, candidates);
    let first_run = resolved(inserted);
    assert forall|i: int| 0 <= i < candidates.len() implies !admits(first_run, #[trigger] candidates[i]) by {
        lemma_offered_is_refused(rows, next_id, candidates, i);
        lemma_resolved_admits_the_same(inserted, candidates[i]);
    }
    lemma_refused_batch_changes_nothing(first_run, later_id, candidates);
    lemma_insert_all_keeps_serials_distinct(rows, next_id, candidates);
    lemma_resolution_idempotent(inserted);
}

} // verus!
