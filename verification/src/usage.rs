//! The log of the buttons that visitors press at the stations.

use vstd::prelude::*;
use crate::text::{decimal, decimal_text};

verus! {

/// The colleges of the consortium.
#[derive(Clone, Copy, Debug, Default, PartialEq, Eq)]
pub enum College {
    #[default]
    NA,
    HarveyMudd,
    ClaremontMcKenna,
    Scripps,
    Pitzer,
    Pomona,
    KeckGraduateInstitute,
    ClaremontGraduateUniversity,
}

/// The name of the college, as it is written in the exported log.
pub open spec fn college_name(college: College) -> Seq<char> {
    match college {
        College::NA => "NA"@,
        College::HarveyMudd => "HarveyMudd"@,
        College::ClaremontMcKenna => "ClaremontMcKenna"@,
        College::Scripps => "Scripps"@,
        College::Pitzer => "Pitzer"@,
        College::Pomona => "Pomona"@,
        College::KeckGraduateInstitute => "KeckGraduateInstitute"@,
        College::ClaremontGraduateUniversity => "ClaremontGraduateUniversity"@,
    }
}

impl College {
    /// The name of the college, as it is written in the exported log.
    pub fn name(&self) -> (r: String)
        ensures
            r@ == college_name(*self),
    {
        match self {
            College::NA => "NA".to_owned(),
            College::HarveyMudd => "HarveyMudd".to_owned(),
            College::ClaremontMcKenna => "ClaremontMcKenna".to_owned(),
            College::Scripps => "Scripps".to_owned(),
            College::Pitzer => "Pitzer".to_owned(),
            College::Pomona => "Pomona".to_owned(),
            College::KeckGraduateInstitute => "KeckGraduateInstitute".to_owned(),
            College::ClaremontGraduateUniversity => "ClaremontGraduateUniversity".to_owned(),
        }
    }
}

/// One press of a button.
#[derive(Clone, Debug, Default)]
pub struct ButtonRecord {
    pub college: College,
    pub timestamp: u64,
    pub station_id: String,
    pub length_milliseconds: u64,
}

/// A press of a button as a value.
pub struct RecordModel {
    pub college: College,
    pub timestamp: u64,
    pub station_id: Seq<char>,
    pub length_milliseconds: u64,
}

impl DeepView for ButtonRecord {
    type V = RecordModel;

    open spec fn deep_view(&self) -> RecordModel {
        RecordModel {
            college: self.college,
            timestamp: self.timestamp,
            station_id: self.station_id@,
            length_milliseconds: self.length_milliseconds,
        }
    }
}

impl ButtonRecord {
    /// A copy of the record.
    pub fn duplicate(&self) -> (r: ButtonRecord)
        ensures
            r.deep_view() == self.deep_view(),
    {
        ButtonRecord {
            college: self.college,
            timestamp: self.timestamp,
            station_id: self.station_id.clone(),
            length_milliseconds: self.length_milliseconds,
        }
    }
}

/// The presses in the order in which they were recorded, and the time of
/// the last one.
#[derive(Clone, Debug, Default)]
pub struct ButtonRecordLog {
    pub log: Vec<ButtonRecord>,
    pub last_update: u64,
}

/// The record was made within the span, ends included.
pub open spec fn within(record: RecordModel, start: u64, end: u64) -> bool {
    start <= record.timestamp <= end
}

impl ButtonRecordLog {
    /// An empty log.
    pub fn new() -> (r: ButtonRecordLog)
        ensures
            r.log@.len() == 0,
            r.last_update == 0,
    {
        ButtonRecordLog { log: Vec::new(), last_update: 0 }
    }

    /// Appends a record; its time becomes the time of the last update.
    pub fn add(&mut self, record: ButtonRecord)
        ensures
            final(self).log@ == old(self).log@.push(record),
            final(self).last_update == record.timestamp,
    {
        self.last_update = record.timestamp;
        self.log.push(record);
    }

    pub fn get_last_update(&self) -> (r: u64)
        ensures
            r == self.last_update,
    {
        self.last_update
    }

    pub fn get_log(&self) -> (r: &Vec<ButtonRecord>)
        ensures
            *r == self.log,
    {
        &self.log
    }

    pub fn get_log_mut(&mut self) -> (r: &mut Vec<ButtonRecord>)
        ensures
            *r == old(self).log,
            final(self).log == *final(r),
            final(self).last_update == old(self).last_update,
    {
        &mut self.log
    }

    /// The rows of the exported log: for every record its time in decimal
    /// digits, its station and the name of its college.
    pub fn csv_rows(&self) -> (r: Vec<Vec<String>>)
        ensures
            r@.len() == self.log@.len(),
            forall|i: int|
                0 <= i < self.log@.len() ==> (#[trigger] r@[i]).deep_view() == seq![
                    decimal_text(self.log@[i].timestamp),
                    self.log@[i].station_id@,
                    college_name(self.log@[i].college),
                ],
    {
        let mut rows: Vec<Vec<String>> = Vec::new();
        let mut i: usize = 0;
        while i < self.log.len()
            invariant
                0 <= i <= self.log@.len(),
                rows@.len() == i,
                forall|k: int|
                    0 <= k < i ==> (#[trigger] rows@[k]).deep_view() == seq![
                        decimal_text(self.log@[k].timestamp),
                        self.log@[k].station_id@,
                        college_name(self.log@[k].college),
                    ],
            decreases self.log@.len() - i,
        {
            let mut row: Vec<String> = Vec::new();
            row.push(decimal(self.log[i].timestamp));
            row.push(self.log[i].station_id.clone());
            row.push(self.log[i].college.name());
            proof {
                assert(row.deep_view() =~= seq![
                    decimal_text(self.log@[i as int].timestamp),
                    self.log@[i as int].station_id@,
                    college_name(self.log@[i as int].college),
                ]);
            }
            rows.push(row);
            i = i + 1;
        }
        rows
    }

    /// Copies of the records made within the span, ends included, in the
    /// order of the log.
    pub fn get_log_by_timerange(&self, start: u64, end: u64) -> (r: Vec<ButtonRecord>)
        ensures
            r.deep_view() == self.log.deep_view().filter(|m: RecordModel| within(m, start, end)),
    {
        let ghost keep = |m: RecordModel| within(m, start, end);
        let ghost all = self.log.deep_view();
        let mut out: Vec<ButtonRecord> = Vec::new();
        let mut i: usize = 0;
        while i < self.log.len()
            invariant
                0 <= i <= self.log@.len(),
                all == self.log.deep_view(),
                keep == |m: RecordModel| within(m, start, end),
                out.deep_view() == all.take(i as int).filter(keep),
            decreases self.log@.len() - i,
        {
            let ghost before = out.deep_view();
            proof {
                assert(all.take(i + 1).drop_last() =~= all.take(i as int));
                assert(all.take(i + 1).last() == self.log@[i as int].deep_view());
                reveal(Seq::filter);
            }
            if self.log[i].timestamp >= start && self.log[i].timestamp <= end {
                out.push(self.log[i].duplicate());
                proof {
                    assert(out.deep_view() =~= before.push(self.log@[i as int].deep_view()));
                }
            }
            i = i + 1;
        }
        proof {
            assert(all.take(all.len() as int) =~= all);
        }
        out
    }
}

} // verus!
