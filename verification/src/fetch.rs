//! The plan of a fetch run, the names it gives to what it writes, and the
//! tally of what succeeded.

use crate::record::{
    file_name, record_views, remote_url, suffixes, OneKpRecord, RecordView, SequenceType,
};
use crate::text::{slice_texts, texts};
use vstd::prelude::*;

verus! {

/// One file to fetch: where it is, and the name under which it is written.
#[derive(Debug)]
pub struct Download {
    pub file_name: String,
    pub url: String,
}

/// The identifiers of the records of a run, by how they ended.
#[derive(Debug)]
pub struct Summary {
    succeeded: Vec<String>,
    failed: Vec<String>,
}

/// What a summary holds.
pub struct SummaryView {
    pub succeeded: Seq<Seq<char>>,
    pub failed: Seq<Seq<char>>,
}

/// A fetch run over chosen records: which file is to be fetched now, and
/// how the records before it ended.
#[derive(Debug)]
pub struct FetchRun {
    records: Vec<OneKpRecord>,
    names: Vec<&'static str>,
    rec: usize,
    file: usize,
    summary: Summary,
}

/// What a fetch run holds: the records and the suffixes of the files to
/// fetch for each, the place of the record that is being fetched and of
/// the file that comes next for it, and the tally so far.
pub struct FetchRunView {
    pub records: Seq<RecordView>,
    pub suffixes: Seq<Seq<char>>,
    pub rec: nat,
    pub file: nat,
    pub succeeded: Seq<Seq<char>>,
    pub failed: Seq<Seq<char>>,
}

/// The file to fetch now, as its local name and its address; none once
/// every record has ended.
pub open spec fn current(v: FetchRunView) -> Option<(Seq<char>, Seq<char>)> {
    if v.rec < v.records.len() {
        Some(
            (
                file_name(v.records[v.rec as int], v.suffixes[v.file as int]),
                remote_url(v.records[v.rec as int], v.suffixes[v.file as int]),
            ),
        )
    } else {
        None
    }
}

/// The run after the fetch of the current file ended as `ok` says. A
/// failure ends the record as failed, and its other files are not tried;
/// success of its last file ends it as succeeded. Either way the run goes
/// on with the next record.
pub open spec fn reported(v: FetchRunView, ok: bool) -> FetchRunView {
    if v.rec >= v.records.len() {
        v
    } else if !ok {
        FetchRunView {
            rec: v.rec + 1,
            file: 0,
            failed: v.failed.push(v.records[v.rec as int].id),
            ..v
        }
    } else if v.file + 1 < v.suffixes.len() {
        FetchRunView { file: v.file + 1, ..v }
    } else {
        FetchRunView {
            rec: v.rec + 1,
            file: 0,
            succeeded: v.succeeded.push(v.records[v.rec as int].id),
            ..v
        }
    }
}

/// Whether the report ends the current record, and how: `Some(true)` as
/// succeeded, `Some(false)` as failed, `None` while files of it are left
/// or where the run is over.
pub open spec fn ended(v: FetchRunView, ok: bool) -> Option<bool> {
    if v.rec >= v.records.len() {
        None
    } else if !ok {
        Some(false)
    } else if v.file + 1 < v.suffixes.len() {
        None
    } else {
        Some(true)
    }
}

/// Every record that has ended stands in exactly one of the two lists,
/// and the place of the next file is a place in the list of suffixes.
pub open spec fn run_inv(v: FetchRunView) -> bool {
    &&& v.rec <= v.records.len()
    &&& v.suffixes.len() >= 1
    &&& v.file < v.suffixes.len()
    &&& v.succeeded.len() + v.failed.len() == v.rec
}

impl View for FetchRun {
    type V = FetchRunView;

    closed spec fn view(&self) -> FetchRunView {
        FetchRunView {
            records: record_views(self.records@),
            suffixes: slice_texts(self.names@),
            rec: self.rec as nat,
            file: self.file as nat,
            succeeded: self.summary@.succeeded,
            failed: self.summary@.failed,
        }
    }
}

impl FetchRun {
    /// The validity of a run.
    pub open spec fn wf(&self) -> bool {
        run_inv(self@)
    }

    /// A run over `records` that has fetched nothing yet.
    pub fn new(records: Vec<OneKpRecord>, sequence_type: SequenceType) -> (out: Self)
        ensures
            out.wf(),
            out@ == (FetchRunView {
                records: record_views(records@),
                suffixes: suffixes(sequence_type),
                rec: 0,
                file: 0,
                succeeded: Seq::empty(),
                failed: Seq::empty(),
            }),
    {
        let names = sequence_type.to_filenames();
        assert(suffixes(sequence_type).len() >= 1);
        FetchRun { records, names, rec: 0, file: 0, summary: Summary::new() }
    }

    /// The file to fetch now; none once every record has ended.
    pub fn next(&self) -> (out: Option<Download>)
        requires
            self.wf(),
        ensures
            match current(self@) {
                Some(f) => out matches Some(d) && d.file_name@ == f.0 && d.url@ == f.1,
                None => out is None,
            },
    {
        if self.rec < self.records.len() {
            let rec = &self.records[self.rec];
            let name = self.names[self.file];
            assert(slice_texts(self.names@)[self.file as int] == name@);
            Some(Download { file_name: rec.to_filename(name), url: rec.to_gigadb_url(name) })
        } else {
            None
        }
    }

    /// The record whose file is to be fetched now.
    pub fn current_record(&self) -> (out: Option<&OneKpRecord>)
        ensures
            match out {
                Some(r) => self@.rec < self@.records.len() && r@ == self@.records[self@.rec as int],
                None => self@.rec >= self@.records.len(),
            },
    {
        if self.rec < self.records.len() {
            Some(&self.records[self.rec])
        } else {
            None
        }
    }

    /// Takes how the fetch of the current file ended, and says whether
    /// that ends the record, and how.
    pub fn report(&mut self, ok: bool) -> (end: Option<bool>)
        requires
            old(self).wf(),
        ensures
            final(self).wf(),
            final(self)@ == reported(old(self)@, ok),
            end == ended(old(self)@, ok),
    {
        assert(self.file < self.names.len()) by {
            assert(self.names@.len() == self@.suffixes.len());
        }
        if self.rec < self.records.len() {
            if !ok {
                self.summary.record(self.records[self.rec].id().as_str(), false);
                self.rec = self.rec + 1;
                self.file = 0;
                Some(false)
            } else if self.file + 1 < self.names.len() {
                self.file = self.file + 1;
                None
            } else {
                self.summary.record(self.records[self.rec].id().as_str(), true);
                self.rec = self.rec + 1;
                self.file = 0;
                Some(true)
            }
        } else {
            None
        }
    }

    /// Whether every record has ended.
    pub fn is_done(&self) -> (done: bool)
        ensures
            done == (current(self@) is None),
    {
        self.rec >= self.records.len()
    }

    /// The tally of the records that have ended.
    pub fn summary(&self) -> (out: &Summary)
        ensures
            out@.succeeded == self@.succeeded,
            out@.failed == self@.failed,
    {
        &self.summary
    }
}

impl View for Summary {
    type V = SummaryView;

    closed spec fn view(&self) -> SummaryView {
        SummaryView { succeeded: texts(self.succeeded@), failed: texts(self.failed@) }
    }
}

/// The files to fetch for a record, in the order of the suffixes.
pub fn plan(rec: &OneKpRecord, sequence_type: SequenceType) -> (out: Vec<Download>)
    ensures
        out.len() == suffixes(sequence_type).len(),
        forall|i: int|
            0 <= i < out.len() ==> (#[trigger] out[i]).file_name@ == file_name(
                rec@,
                suffixes(sequence_type)[i],
            ) && out[i].url@ == remote_url(rec@, suffixes(sequence_type)[i]),
{
    let names = sequence_type.to_filenames();
    let mut out: Vec<Download> = Vec::new();
    let mut i: usize = 0;
    while i < names.len()
        invariant
            i <= names.len(),
            out.len() == i,
            slice_texts(names@) == suffixes(sequence_type),
            forall|k: int|
                0 <= k < i ==> (#[trigger] out[k]).file_name@ == file_name(
                    rec@,
                    suffixes(sequence_type)[k],
                ) && out[k].url@ == remote_url(rec@, suffixes(sequence_type)[k]),
        decreases names.len() - i,
    {
        assert(slice_texts(names@)[i as int] == names[i as int]@);
        out.push(
            Download { file_name: rec.to_filename(names[i]), url: rec.to_gigadb_url(names[i]) },
        );
        i += 1;
    }
    assert(names@.len() == slice_texts(names@).len());
    out
}

impl Summary {
    /// The summary of a run in which nothing has ended yet.
    pub fn new() -> (out: Self)
        ensures
            out@.succeeded == Seq::<Seq<char>>::empty(),
            out@.failed == Seq::<Seq<char>>::empty(),
    {
        let out = Summary { succeeded: Vec::new(), failed: Vec::new() };
        assert(out@.succeeded =~= Seq::<Seq<char>>::empty());
        assert(out@.failed =~= Seq::<Seq<char>>::empty());
        out
    }

    /// Notes how the fetch of the record with the given identifier ended.
    pub fn record(&mut self, id: &str, ok: bool)
        ensures
            final(self)@.succeeded == if ok {
                old(self)@.succeeded.push(id@)
            } else {
                old(self)@.succeeded
            },
            final(self)@.failed == if ok {
                old(self)@.failed
            } else {
                old(self)@.failed.push(id@)
            },
    {
        if ok {
            self.succeeded.push(String::from_str(id));
            assert(self@.succeeded =~= old(self)@.succeeded.push(id@));
        } else {
            self.failed.push(String::from_str(id));
            assert(self@.failed =~= old(self)@.failed.push(id@));
        }
    }

    /// The identifiers of the records whose files were all fetched.
    pub fn succeeded(&self) -> (out: &Vec<String>)
        ensures
            texts(out@) == self@.succeeded,
    {
        &self.succeeded
    }

    /// The identifiers of the records of which a file could not be fetched.
    pub fn failed(&self) -> (out: &Vec<String>)
        ensures
            texts(out@) == self@.failed,
    {
        &self.failed
    }
}

} // verus!
