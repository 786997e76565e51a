//! The workshops that are announced.

use vstd::prelude::*;

verus! {

/// One announced workshop.
#[derive(Clone, Debug, Default)]
pub struct Workshop {
    pub title: String,
    pub date: String,
    pub time: String,
    pub instructor: String,
    pub description: String,
    pub slots_available: String,
}

/// The announced workshops, in the order of the sheet.
#[derive(Clone, Debug, Default)]
pub struct Workshops {
    pub workshops: Vec<Workshop>,
}

/// A workshop as a value.
pub struct WorkshopModel {
    pub title: Seq<char>,
    pub date: Seq<char>,
    pub time: Seq<char>,
    pub instructor: Seq<char>,
    pub description: Seq<char>,
    pub slots_available: Seq<char>,
}

impl DeepView for Workshop {
    type V = WorkshopModel;

    open spec fn deep_view(&self) -> WorkshopModel {
        WorkshopModel {
            title: self.title@,
            date: self.date@,
            time: self.time@,
            instructor: self.instructor@,
            description: self.description@,
            slots_available: self.slots_available@,
        }
    }
}

/// The workshop that a row of the sheet describes, as a value.
pub open spec fn workshop_of_row(row: Seq<Seq<char>>) -> WorkshopModel {
    WorkshopModel {
        date: row[0],
        time: row[1],
        instructor: row[2],
        title: row[3],
        description: row[4],
        slots_available: row[5],
    }
}

/// The number of rows that are read: those before the first row whose first
/// cell is empty.
pub open spec fn rows_read(rows: Seq<Seq<Seq<char>>>, from: int) -> int
    decreases rows.len() - from,
{
    if from >= rows.len() {
        rows.len() as int
    } else if rows[from].len() > 0 && rows[from][0].len() == 0 {
        from
    } else {
        rows_read(rows, from + 1)
    }
}

/// Every row that is read has the six cells of a workshop.
pub open spec fn rows_complete(rows: Seq<Seq<Seq<char>>>) -> bool {
    forall|i: int| 0 <= i < rows_read(rows, 0) ==> (#[trigger] rows[i]).len() >= 6
}

impl Workshop {
    /// The workshop that a row of the sheet describes: date, time,
    /// instructor, title, description and free slots, in this order.
    pub fn new(result: &Vec<String>) -> (r: Workshop)
        requires
            result@.len() >= 6,
        ensures
            r.deep_view() == workshop_of_row(result.deep_view()),
    {
        proof {
            let row = result.deep_view();
            assert(forall|i: int| 0 <= i < 6 ==> row[i] == #[trigger] result@[i]@);
        }
        Workshop {
            title: result[3].clone(),
            date: result[0].clone(),
            time: result[1].clone(),
            instructor: result[2].clone(),
            description: result[4].clone(),
            slots_available: result[5].clone(),
        }
    }
}

impl Workshops {
    /// No workshops.
    pub fn new() -> (r: Workshops)
        ensures
            r.workshops@.len() == 0,
    {
        Workshops { workshops: Vec::new() }
    }

    /// Replaces the workshops by those that the rows of the sheet describe,
    /// up to the first row whose first cell is empty.
    pub fn set_from_rows(&mut self, rows: &Vec<Vec<String>>)
        requires
            rows_complete(rows.deep_view()),
        ensures
            final(self).workshops.deep_view() == Seq::new(
                rows_read(rows.deep_view(), 0) as nat,
                |i: int| workshop_of_row(rows.deep_view()[i]),
            ),
    {
        let ghost cells = rows.deep_view();
        let mut workshops: Vec<Workshop> = Vec::new();
        let mut i: usize = 0;
        let mut done = false;
        while i < rows.len() && !done
            invariant
                0 <= i <= rows@.len(),
                cells == rows.deep_view(),
                rows_complete(cells),
                workshops@.len() == i,
                rows_read(cells, 0) == (if done {
                    i as int
                } else {
                    rows_read(cells, i as int)
                }),
                forall|k: int| 0 <= k < i ==> (#[trigger] workshops@[k]).deep_view() == workshop_of_row(cells[k]),
            decreases rows@.len() - i + (if done { 0int } else { 1int }),
        {
            proof {
                assert(cells[i as int] == rows@[i as int].deep_view());
                if rows@[i as int]@.len() > 0 {
                    assert(cells[i as int][0] == rows@[i as int]@[0]@);
                }
                reveal_strlit("");
            }
            if rows[i].len() > 0 && crate::text::same_text(rows[i][0].as_str(), "") {
                assert(rows@[i as int]@[0]@ =~= Seq::<char>::empty());
                done = true;
            } else {
                proof {
                    if rows@[i as int]@.len() > 0 && cells[i as int][0].len() == 0 {
                        assert(rows@[i as int]@[0]@ =~= ""@);
                    }
                    lemma_rows_read_bounds(cells, i as int + 1);
                    assert(i < rows_read(cells, 0));
                }
                workshops.push(Workshop::new(&rows[i]));
                i = i + 1;
            }
        }
        proof {
            assert(workshops.deep_view() =~= Seq::new(
                rows_read(cells, 0) as nat,
                |i: int| workshop_of_row(cells[i]),
            ));
        }
        self.workshops = workshops;
    }
}

/// Reading stops at or after the row it starts from, and within the sheet.
pub proof fn lemma_rows_read_bounds(rows: Seq<Seq<Seq<char>>>, from: int)
    requires
        0 <= from <= rows.len(),
    ensures
        from <= rows_read(rows, from) <= rows.len(),
    decreases rows.len() - from,
{
    if from < rows.len() && !(rows[from].len() > 0 && rows[from][0].len() == 0) {
        lemma_rows_read_bounds(rows, from + 1);
    }
}

} // verus!
