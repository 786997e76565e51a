//! The week's shifts and the stewards who work them.

use vstd::prelude::*;
use crate::ids::copy_texts;
use crate::inventory::holds_text;
use crate::text::{same_text, sort_texts, sorted_texts, split_pieces, split_text, trim_text, trimmed};
use crate::workshops::{lemma_rows_read_bounds, rows_read};

verus! {

/// One shift of a day.
#[derive(Clone, Debug, Default)]
pub struct Shift {
    pub time_string: String,
    pub stewards: Vec<String>,
    pub num_stewards: u32,
    pub proficiencies: Vec<String>,
}

/// One day of the week with its shifts.
#[derive(Clone, Debug, Default)]
pub struct ScheduleDay {
    pub day: String,
    pub shifts: Vec<Shift>,
}

/// The schedule of the week, and every proficiency that a steward has.
#[derive(Clone, Debug, Default)]
pub struct Schedule {
    pub days: Vec<ScheduleDay>,
    pub all_proficiencies: Vec<String>,
}

/// A shift as a value.
pub struct ShiftModel {
    pub time_string: Seq<char>,
    pub stewards: Seq<Seq<char>>,
    pub num_stewards: u32,
    pub proficiencies: Seq<Seq<char>>,
}

/// A day as a value.
pub struct DayModel {
    pub day: Seq<char>,
    pub shifts: Seq<ShiftModel>,
}

impl DeepView for Shift {
    type V = ShiftModel;

    open spec fn deep_view(&self) -> ShiftModel {
        ShiftModel {
            time_string: self.time_string@,
            stewards: self.stewards.deep_view(),
            num_stewards: self.num_stewards,
            proficiencies: self.proficiencies.deep_view(),
        }
    }
}

impl DeepView for ScheduleDay {
    type V = DayModel;

    open spec fn deep_view(&self) -> DayModel {
        DayModel { day: self.day@, shifts: self.shifts.deep_view() }
    }
}

/// The name that stands for every steward in a censored schedule.
pub open spec fn anonymous() -> Seq<char> {
    "Steward"@
}

/// A shift with every steward's name replaced.
pub open spec fn censored_shift(shift: ShiftModel) -> ShiftModel {
    ShiftModel { stewards: Seq::new(shift.stewards.len(), |i: int| anonymous()), ..shift }
}

/// A day with every steward's name replaced.
pub open spec fn censored_day(day: DayModel) -> DayModel {
    DayModel { shifts: day.shifts.map_values(|s: ShiftModel| censored_shift(s)), ..day }
}

impl Shift {
    /// A shift that nobody works yet.
    pub fn new(time_string: String) -> (r: Shift)
        ensures
            r.deep_view() == (ShiftModel {
                time_string: time_string@,
                stewards: Seq::empty(),
                num_stewards: 0,
                proficiencies: Seq::empty(),
            }),
    {
        let r = Shift { time_string, stewards: Vec::new(), num_stewards: 0, proficiencies: Vec::new() };
        proof {
            assert(r.stewards.deep_view() =~= Seq::<Seq<char>>::empty());
            assert(r.proficiencies.deep_view() =~= Seq::<Seq<char>>::empty());
        }
        r
    }

    /// Replaces every steward's name, in place.
    pub fn censor_names(&mut self)
        ensures
            final(self).deep_view() == censored_shift(old(self).deep_view()),
    {
        let count = self.stewards.len();
        let mut names: Vec<String> = Vec::new();
        let mut i: usize = 0;
        while i < count
            invariant
                0 <= i <= count,
                names@.len() == i,
                forall|j: int| 0 <= j < i ==> (#[trigger] names@[j])@ == anonymous(),
            decreases count - i,
        {
            names.push("Steward".to_owned());
            i = i + 1;
        }
        self.stewards = names;
        proof {
            assert(self.stewards.deep_view() =~= Seq::new(
                old(self).stewards.deep_view().len(),
                |i: int| anonymous(),
            ));
        }
    }
}

impl ScheduleDay {
    /// A day without shifts.
    pub fn new(day: String) -> (r: ScheduleDay)
        ensures
            r.day@ == day@,
            r.shifts@.len() == 0,
    {
        ScheduleDay { day, shifts: Vec::new() }
    }

    /// Appends a shift to the day.
    pub fn add_shift(&mut self, shift: Shift)
        ensures
            final(self).shifts@ == old(self).shifts@.push(shift),
            final(self).day@ == old(self).day@,
    {
        self.shifts.push(shift);
    }

    /// Replaces every steward's name in every shift, in place.
    pub fn censor_names(&mut self)
        ensures
            final(self).deep_view() == censored_day(old(self).deep_view()),
    {
        let ghost before = self.shifts.deep_view();
        let mut i: usize = 0;
        while i < self.shifts.len()
            invariant
                0 <= i <= self.shifts@.len(),
                self.shifts@.len() == old(self).shifts@.len(),
                self.day@ == old(self).day@,
                before == old(self).shifts.deep_view(),
                forall|j: int|
                    0 <= j < i ==> (#[trigger] self.shifts@[j]).deep_view() == censored_shift(before[j]),
                forall|j: int|
                    i <= j < self.shifts@.len() ==> (#[trigger] self.shifts@[j]).deep_view() == before[j],
            decreases self.shifts@.len() - i,
        {
            let mut shift = Shift {
                time_string: self.shifts[i].time_string.clone(),
                stewards: crate::ids::copy_texts(&self.shifts[i].stewards),
                num_stewards: self.shifts[i].num_stewards,
                proficiencies: crate::ids::copy_texts(&self.shifts[i].proficiencies),
            };
            shift.censor_names();
            self.shifts[i] = shift;
            i = i + 1;
        }
        proof {
            assert(self.shifts.deep_view() =~= before.map_values(|s: ShiftModel| censored_shift(s)));
        }
    }
}

impl Schedule {
    /// Replaces every steward's name by `Steward`, in every shift of every
    /// day; times, counts and proficiencies stay.
    pub fn censor_names(&mut self)
        ensures
            final(self).days.deep_view() == old(self).days.deep_view().map_values(
                |d: DayModel| censored_day(d),
            ),
            final(self).all_proficiencies@ == old(self).all_proficiencies@,
    {
        let ghost before = self.days.deep_view();
        let mut i: usize = 0;
        while i < self.days.len()
            invariant
                0 <= i <= self.days@.len(),
                self.days@.len() == old(self).days@.len(),
                self.all_proficiencies@ == old(self).all_proficiencies@,
                before == old(self).days.deep_view(),
                forall|j: int|
                    0 <= j < i ==> (#[trigger] self.days@[j]).deep_view() == censored_day(before[j]),
                forall|j: int|
                    i <= j < self.days@.len() ==> (#[trigger] self.days@[j]).deep_view() == before[j],
            decreases self.days@.len() - i,
        {
            let mut day = ScheduleDay { day: self.days[i].day.clone(), shifts: Vec::new() };
            let mut k: usize = 0;
            while k < self.days[i].shifts.len()
                invariant
                    0 <= i < self.days@.len(),
                    0 <= k <= self.days@[i as int].shifts@.len(),
                    day.day@ == self.days@[i as int].day@,
                    day.shifts@.len() == k,
                    forall|j: int|
                        0 <= j < k ==> (#[trigger] day.shifts@[j]).deep_view()
                            == self.days@[i as int].shifts@[j].deep_view(),
                decreases self.days@[i as int].shifts@.len() - k,
            {
                day.shifts.push(
                    Shift {
                        time_string: self.days[i].shifts[k].time_string.clone(),
                        stewards: crate::ids::copy_texts(&self.days[i].shifts[k].stewards),
                        num_stewards: self.days[i].shifts[k].num_stewards,
                        proficiencies: crate::ids::copy_texts(&self.days[i].shifts[k].proficiencies),
                    },
                );
                k = k + 1;
            }
            proof {
                assert(day.shifts.deep_view() =~= self.days@[i as int].shifts.deep_view());
            }
            day.censor_names();
            self.days[i] = day;
            i = i + 1;
        }
        proof {
            assert(self.days.deep_view() =~= before.map_values(|d: DayModel| censored_day(d)));
        }
    }
}

/// The stewards that a cell of the shift sheet names: its pieces between
/// commas, each without the white space at its ends.
pub open spec fn stewards_in(cell: Seq<char>) -> Seq<Seq<char>> {
    split_pieces(cell, seq![',']).map_values(|p: Seq<char>| trimmed(p))
}

/// A number of stewards as the shift records it: held at the largest
/// number that fits.
pub open spec fn steward_count(n: nat) -> u32 {
    if n <= u32::MAX {
        n as u32
    } else {
        u32::MAX
    }
}

/// The shift at the given time that a cell of the sheet staffs.
pub open spec fn staffed_shift(time: Seq<char>, cell: Seq<char>) -> ShiftModel {
    ShiftModel {
        time_string: time,
        stewards: stewards_in(cell),
        num_stewards: steward_count(stewards_in(cell).len()),
        proficiencies: Seq::empty(),
    }
}

/// The days after the cells 1 to `n - 1` of a row were entered: the first
/// cell names the time, and the cell `i` staffs a shift of day `i - 1`
/// unless it is blank.
pub open spec fn with_row(days: Seq<DayModel>, row: Seq<Seq<char>>, n: int) -> Seq<DayModel>
    decreases n,
{
    if n <= 1 {
        days
    } else {
        let before = with_row(days, row, n - 1);
        if trimmed(row[n - 1]).len() > 0 {
            before.update(
                n - 2,
                DayModel {
                    shifts: before[n - 2].shifts.push(staffed_shift(row[0], row[n - 1])),
                    ..before[n - 2]
                },
            )
        } else {
            before
        }
    }
}

impl Shift {
    /// A copy of the shift.
    pub fn duplicate(&self) -> (r: Shift)
        ensures
            r.deep_view() == self.deep_view(),
    {
        Shift {
            time_string: self.time_string.clone(),
            stewards: copy_texts(&self.stewards),
            num_stewards: self.num_stewards,
            proficiencies: copy_texts(&self.proficiencies),
        }
    }

    /// The shift at the given time that a cell of the sheet staffs.
    pub fn staffed(time_string: &str, cell: &str) -> (r: Shift)
        ensures
            r.deep_view() == staffed_shift(time_string@, cell@),
    {
        let mut comma: Vec<char> = Vec::new();
        comma.push(',');
        assert(comma@ =~= seq![',']);
        let pieces = split_text(cell, &comma);
        let mut stewards: Vec<String> = Vec::new();
        let mut i: usize = 0;
        while i < pieces.len()
            invariant
                0 <= i <= pieces@.len(),
                stewards@.len() == i,
                forall|k: int| 0 <= k < i ==> (#[trigger] stewards@[k])@ == trimmed(pieces@[k]@),
            decreases pieces@.len() - i,
        {
            stewards.push(trim_text(pieces[i].as_str()));
            i = i + 1;
        }
        proof {
            assert(stewards.deep_view() =~= stewards_in(cell@));
        }
        let count: u32 = if stewards.len() <= 0xffff_ffff {
            stewards.len() as u32
        } else {
            0xffff_ffff
        };
        let r = Shift {
            time_string: time_string.to_owned(),
            stewards,
            num_stewards: count,
            proficiencies: Vec::new(),
        };
        proof {
            assert(r.proficiencies.deep_view() =~= Seq::<Seq<char>>::empty());
        }
        r
    }
}

impl ScheduleDay {
    /// A copy of the day.
    pub fn duplicate(&self) -> (r: ScheduleDay)
        ensures
            r.deep_view() == self.deep_view(),
    {
        let mut shifts: Vec<Shift> = Vec::new();
        let mut i: usize = 0;
        while i < self.shifts.len()
            invariant
                0 <= i <= self.shifts@.len(),
                shifts@.len() == i,
                forall|k: int|
                    0 <= k < i ==> (#[trigger] shifts@[k]).deep_view() == self.shifts@[k].deep_view(),
            decreases self.shifts@.len() - i,
        {
            shifts.push(self.shifts[i].duplicate());
            i = i + 1;
        }
        proof {
            assert(shifts.deep_view() =~= self.shifts.deep_view());
        }
        ScheduleDay { day: self.day.clone(), shifts }
    }
}

/// Enters a row of the shift sheet into the days: the first cell names the
/// time, and every further cell that is not blank staffs a shift of the day
/// of its column.
pub fn enter_shift_row(days: &mut Vec<ScheduleDay>, row: &Vec<String>)
    requires
        row@.len() <= old(days)@.len() + 1,
    ensures
        final(days).deep_view() == with_row(old(days).deep_view(), row.deep_view(), row@.len() as int),
        final(days)@.len() == old(days)@.len(),
{
    let ghost start = days.deep_view();
    let ghost cells = row.deep_view();
    let mut i: usize = 1;
    while i < row.len()
        invariant
            1 <= i,
            i <= row@.len() || (row@.len() == 0 && i == 1),
            row@.len() <= days@.len() + 1,
            days@.len() == old(days)@.len(),
            start == old(days).deep_view(),
            cells == row.deep_view(),
            days.deep_view() == with_row(start, cells, i as int),
        decreases row@.len() - i,
    {
        let ghost before = days.deep_view();
        proof {
            assert(cells[i as int] == row@[i as int]@);
            assert(cells[0] == row@[0]@);
            reveal_strlit("");
        }
        let name = trim_text(row[i].as_str());
        if !same_text(name.as_str(), "") {
            assert(trimmed(cells[i as int]).len() > 0) by {
                if trimmed(cells[i as int]).len() == 0 {
                    assert(name@ =~= ""@);
                }
            }
            let mut day = days[i - 1].duplicate();
            day.add_shift(Shift::staffed(row[0].as_str(), row[i].as_str()));
            proof {
                assert(day.shifts.deep_view() =~= before[i - 1].shifts.push(
                    staffed_shift(cells[0], cells[i as int]),
                ));
            }
            days[i - 1] = day;
            proof {
                assert(days.deep_view() =~= before.update(
                    i - 1,
                    DayModel {
                        shifts: before[i - 1].shifts.push(staffed_shift(cells[0], cells[i as int])),
                        ..before[i - 1]
                    },
                ));
            }
        } else {
            assert(name@ =~= Seq::<char>::empty());
        }
        i = i + 1;
    }
    proof {
        if row@.len() == 0 {
            assert(i == 1);
            assert(with_row(start, cells, 1) == start);
            assert(with_row(start, cells, 0) == start);
        } else {
            assert(i == row@.len());
        }
        assert(cells.len() == row@.len());
    }
}

/// A day without shifts, as a value.
pub open spec fn empty_day(name: Seq<char>) -> DayModel {
    DayModel { day: name, shifts: Seq::empty() }
}

/// The seven days of the week, from Monday on, without shifts.
pub open spec fn empty_week() -> Seq<DayModel> {
    seq![
        empty_day("Monday"@),
        empty_day("Tuesday"@),
        empty_day("Wednesday"@),
        empty_day("Thursday"@),
        empty_day("Friday"@),
        empty_day("Saturday"@),
        empty_day("Sunday"@),
    ]
}

/// The days after the first `n` rows of the shift sheet were entered.
pub open spec fn with_rows(days: Seq<DayModel>, rows: Seq<Seq<Seq<char>>>, n: int) -> Seq<DayModel>
    decreases n,
{
    if n <= 0 {
        days
    } else {
        with_row(with_rows(days, rows, n - 1), rows[n - 1], rows[n - 1].len() as int)
    }
}

/// Every row that is read has a time and at most one cell for each day of
/// the week.
pub open spec fn shift_rows_fit(rows: Seq<Seq<Seq<char>>>) -> bool {
    forall|i: int| 0 <= i < rows_read(rows, 0) ==> 1 <= (#[trigger] rows[i]).len() <= 8
}

/// Entering cells keeps the number of days.
pub proof fn lemma_with_row_len(days: Seq<DayModel>, row: Seq<Seq<char>>, n: int)
    requires
        n <= days.len() + 1,
    ensures
        with_row(days, row, n).len() == days.len(),
    decreases n,
{
    if n > 1 {
        lemma_with_row_len(days, row, n - 1);
    }
}

/// The seven days of the week, from Monday on, without shifts.
pub fn new_week() -> (r: Vec<ScheduleDay>)
    ensures
        r.deep_view() == empty_week(),
        r@.len() == 7,
{
    let mut days: Vec<ScheduleDay> = Vec::new();
    days.push(ScheduleDay::new("Monday".to_owned()));
    days.push(ScheduleDay::new("Tuesday".to_owned()));
    days.push(ScheduleDay::new("Wednesday".to_owned()));
    days.push(ScheduleDay::new("Thursday".to_owned()));
    days.push(ScheduleDay::new("Friday".to_owned()));
    days.push(ScheduleDay::new("Saturday".to_owned()));
    days.push(ScheduleDay::new("Sunday".to_owned()));
    proof {
        assert forall|i: int| 0 <= i < 7 implies (#[trigger] days@[i]).deep_view() == empty_week()[i] by {
            assert(days@[i].shifts.deep_view() =~= Seq::<ShiftModel>::empty());
        }
        assert(days.deep_view() =~= empty_week());
    }
    days
}

/// The week that the rows of the shift sheet describe, read up to the first
/// row whose first cell is empty.
pub fn week_from_rows(rows: &Vec<Vec<String>>) -> (r: Vec<ScheduleDay>)
    requires
        shift_rows_fit(rows.deep_view()),
    ensures
        r.deep_view() == with_rows(empty_week(), rows.deep_view(), rows_read(rows.deep_view(), 0)),
        r@.len() == 7,
{
    let ghost cells = rows.deep_view();
    let mut days = new_week();
    let mut i: usize = 0;
    let mut done = false;
    while i < rows.len() && !done
        invariant
            0 <= i <= rows@.len(),
            cells == rows.deep_view(),
            shift_rows_fit(cells),
            days@.len() == 7,
            rows_read(cells, 0) == (if done {
                i as int
            } else {
                rows_read(cells, i as int)
            }),
            days.deep_view() == with_rows(empty_week(), cells, i as int),
        decreases rows@.len() - i + (if done { 0int } else { 1int }),
    {
        proof {
            assert(cells[i as int] == rows@[i as int].deep_view());
            if rows@[i as int]@.len() > 0 {
                assert(cells[i as int][0] == rows@[i as int]@[0]@);
            }
            reveal_strlit("");
        }
        if rows[i].len() > 0 && same_text(rows[i][0].as_str(), "") {
            assert(rows@[i as int]@[0]@ =~= Seq::<char>::empty());
            done = true;
        } else {
            proof {
                if rows@[i as int]@.len() > 0 && cells[i as int][0].len() == 0 {
                    assert(rows@[i as int]@[0]@ =~= ""@);
                }
                lemma_rows_read_bounds(cells, i as int + 1);
                assert(i < rows_read(cells, 0));
                assert(cells[i as int].len() <= 8);
            }
            enter_shift_row(&mut days, &rows[i]);
            i = i + 1;
        }
    }
    days
}

/// The proficiencies after the first `n` of `skills` were added: each
/// that is not blank and not yet listed goes to the end.
pub open spec fn with_skills(have: Seq<Seq<char>>, skills: Seq<Seq<char>>, n: int) -> Seq<Seq<char>>
    decreases n,
{
    if n <= 0 {
        have
    } else {
        let before = with_skills(have, skills, n - 1);
        if skills[n - 1].len() > 0 && !before.contains(skills[n - 1]) {
            before.push(skills[n - 1])
        } else {
            before
        }
    }
}

/// The shift after a steward's proficiencies were made known: a shift that
/// the steward works lists them all.
pub open spec fn skilled_shift(shift: ShiftModel, steward: Seq<char>, skills: Seq<Seq<char>>) -> ShiftModel {
    if shift.stewards.contains(steward) {
        ShiftModel {
            proficiencies: with_skills(shift.proficiencies, skills, skills.len() as int),
            ..shift
        }
    } else {
        shift
    }
}

/// The day after a steward's proficiencies were made known.
pub open spec fn skilled_day(day: DayModel, steward: Seq<char>, skills: Seq<Seq<char>>) -> DayModel {
    DayModel { shifts: day.shifts.map_values(|s: ShiftModel| skilled_shift(s, steward, skills)), ..day }
}

/// The proficiencies that a row of the proficiency sheet lists: its cells
/// from the fourth on.
pub open spec fn skills_of_row(row: Seq<Seq<char>>) -> Seq<Seq<char>> {
    if row.len() > 3 {
        row.subrange(3, row.len() as int)
    } else {
        Seq::empty()
    }
}

/// The days after the rows 1 to `n - 1` of the proficiency sheet were
/// made known; the first row is passed over, the second cell of a row names
/// the steward.
pub open spec fn with_stewards(days: Seq<DayModel>, rows: Seq<Seq<Seq<char>>>, n: int) -> Seq<DayModel>
    decreases n,
{
    if n <= 1 {
        days
    } else {
        with_stewards(days, rows, n - 1).map_values(
            |d: DayModel| skilled_day(d, rows[n - 1][1], skills_of_row(rows[n - 1])),
        )
    }
}

/// The list of proficiencies after those of the rows 1 to `n - 1` were
/// appended.
pub open spec fn all_skills(have: Seq<Seq<char>>, rows: Seq<Seq<Seq<char>>>, n: int) -> Seq<Seq<char>>
    decreases n,
{
    if n <= 1 {
        have
    } else {
        all_skills(have, rows, n - 1) + skills_of_row(rows[n - 1])
    }
}

/// The first `n` texts of a list without the blank ones and without those
/// that repeat the one before them.
pub open spec fn tidied(texts: Seq<Seq<char>>, n: int) -> Seq<Seq<char>>
    decreases n,
{
    if n <= 0 {
        Seq::empty()
    } else if texts[n - 1].len() > 0 && (n == 1 || texts[n - 1] != texts[n - 2]) {
        tidied(texts, n - 1).push(texts[n - 1])
    } else {
        tidied(texts, n - 1)
    }
}

/// The texts in sorted order, each once, the blank one left out.
pub open spec fn listed(texts: Seq<Seq<char>>) -> Seq<Seq<char>> {
    tidied(sorted_texts(texts), sorted_texts(texts).len() as int)
}

/// Every row of the proficiency sheet after the first names its steward.
pub open spec fn stewards_named(rows: Seq<Seq<Seq<char>>>) -> bool {
    forall|i: int| 1 <= i < rows.len() ==> (#[trigger] rows[i]).len() >= 2
}

/// The texts in sorted order, each once, the blank one left out.
pub fn list_texts(texts: &Vec<String>) -> (r: Vec<String>)
    ensures
        r.deep_view() == listed(texts.deep_view()),
{
    let sorted = sort_texts(texts);
    let ghost all = sorted.deep_view();
    let mut out: Vec<String> = Vec::new();
    let mut i: usize = 0;
    proof {
        assert(out.deep_view() =~= tidied(all, 0));
    }
    while i < sorted.len()
        invariant
            0 <= i <= sorted@.len(),
            all == sorted.deep_view(),
            out.deep_view() == tidied(all, i as int),
        decreases sorted@.len() - i,
    {
        let ghost before = out.deep_view();
        proof {
            assert(all[i as int] == sorted@[i as int]@);
            if i > 0 {
                assert(all[i - 1] == sorted@[i - 1]@);
            }
            reveal_strlit("");
        }
        let blank = same_text(sorted[i].as_str(), "");
        proof {
            if blank {
                assert(all[i as int] =~= Seq::<char>::empty());
            } else if all[i as int].len() == 0 {
                assert(all[i as int] =~= ""@);
            }
        }
        if !blank && (i == 0 || sorted[i] != sorted[i - 1]) {
            out.push(sorted[i].clone());
            proof {
                assert(out.deep_view() =~= before.push(all[i as int]));
            }
        }
        i = i + 1;
    }
    out
}

impl Shift {
    /// Makes a steward's proficiencies known to the shift: where the steward
    /// works the shift, each of them that is not blank and not yet listed
    /// is added to the shift's.
    pub fn learn(&mut self, steward: &str, skills: &Vec<String>)
        ensures
            final(self).deep_view() == skilled_shift(old(self).deep_view(), steward@, skills.deep_view()),
    {
        if !holds_text(&self.stewards, steward) {
            return;
        }
        let ghost have = self.proficiencies.deep_view();
        let ghost wanted = skills.deep_view();
        let mut i: usize = 0;
        while i < skills.len()
            invariant
                0 <= i <= skills@.len(),
                wanted == skills.deep_view(),
                have == old(self).proficiencies.deep_view(),
                self.time_string == old(self).time_string,
                self.stewards == old(self).stewards,
                self.num_stewards == old(self).num_stewards,
                self.proficiencies.deep_view() == with_skills(have, wanted, i as int),
            decreases skills@.len() - i,
        {
            let ghost before = self.proficiencies.deep_view();
            proof {
                assert(wanted[i as int] == skills@[i as int]@);
                reveal_strlit("");
            }
            let blank = same_text(skills[i].as_str(), "");
            proof {
                if blank {
                    assert(wanted[i as int] =~= Seq::<char>::empty());
                } else if wanted[i as int].len() == 0 {
                    assert(wanted[i as int] =~= ""@);
                }
            }
            if !blank && !holds_text(&self.proficiencies, skills[i].as_str()) {
                self.proficiencies.push(skills[i].clone());
                proof {
                    assert(self.proficiencies.deep_view() =~= before.push(wanted[i as int]));
                }
            }
            i = i + 1;
        }
    }
}

impl ScheduleDay {
    /// Makes a steward's proficiencies known to every shift of the day.
    pub fn learn(&mut self, steward: &str, skills: &Vec<String>)
        ensures
            final(self).deep_view() == skilled_day(old(self).deep_view(), steward@, skills.deep_view()),
    {
        let ghost before = self.shifts.deep_view();
        let mut i: usize = 0;
        while i < self.shifts.len()
            invariant
                0 <= i <= self.shifts@.len(),
                self.shifts@.len() == old(self).shifts@.len(),
                self.day@ == old(self).day@,
                before == old(self).shifts.deep_view(),
                forall|j: int|
                    0 <= j < i ==> (#[trigger] self.shifts@[j]).deep_view() == skilled_shift(
                        before[j],
                        steward@,
                        skills.deep_view(),
                    ),
                forall|j: int|
                    i <= j < self.shifts@.len() ==> (#[trigger] self.shifts@[j]).deep_view() == before[j],
            decreases self.shifts@.len() - i,
        {
            let mut shift = self.shifts[i].duplicate();
            shift.learn(steward, skills);
            self.shifts[i] = shift;
            i = i + 1;
        }
        proof {
            assert(self.shifts.deep_view() =~= before.map_values(
                |s: ShiftModel| skilled_shift(s, steward@, skills.deep_view()),
            ));
        }
    }
}

/// Makes a steward's proficiencies known to every shift of every day.
pub fn teach_week(days: &mut Vec<ScheduleDay>, steward: &str, skills: &Vec<String>)
    ensures
        final(days).deep_view() == old(days).deep_view().map_values(
            |d: DayModel| skilled_day(d, steward@, skills.deep_view()),
        ),
{
    let ghost before = days.deep_view();
    let mut i: usize = 0;
    while i < days.len()
        invariant
            0 <= i <= days@.len(),
            days@.len() == old(days)@.len(),
            before == old(days).deep_view(),
            forall|j: int|
                0 <= j < i ==> (#[trigger] days@[j]).deep_view() == skilled_day(
                    before[j],
                    steward@,
                    skills.deep_view(),
                ),
            forall|j: int| i <= j < days@.len() ==> (#[trigger] days@[j]).deep_view() == before[j],
        decreases days@.len() - i,
    {
        let mut day = days[i].duplicate();
        day.learn(steward, skills);
        days[i] = day;
        i = i + 1;
    }
    proof {
        assert(days.deep_view() =~= before.map_values(
            |d: DayModel| skilled_day(d, steward@, skills.deep_view()),
        ));
    }
}

/// The proficiencies that a row of the proficiency sheet lists.
pub fn row_skills(row: &Vec<String>) -> (r: Vec<String>)
    ensures
        r.deep_view() == skills_of_row(row.deep_view()),
{
    let mut out: Vec<String> = Vec::new();
    let mut i: usize = 3;
    while i < row.len()
        invariant
            3 <= i,
            i <= row@.len() || row@.len() < 3,
            out@.len() == (if row@.len() >= 3 {
                i - 3
            } else {
                0
            }),
            forall|k: int| 0 <= k < out@.len() ==> (#[trigger] out@[k])@ == row@[k + 3]@,
        decreases row@.len() - i,
    {
        out.push(row[i].clone());
        i = i + 1;
    }
    proof {
        assert(out.deep_view() =~= skills_of_row(row.deep_view()));
    }
    out
}

impl Schedule {
    /// Takes in the two sheets of the schedule, each as its rows where it
    /// could be read.
    ///
    /// Where both sheets were read, the days become the week that the shift
    /// sheet describes, with the proficiencies of each steward of the
    /// proficiency sheet made known to the shifts they work, and the
    /// proficiencies of that sheet are appended to the list of all
    /// proficiencies. In any case that list is then sorted, with each
    /// proficiency once and the blank one left out.
    pub fn update_from_rows(&mut self, shift_rows: Option<&Vec<Vec<String>>>, proficiency_rows: Option<&Vec<Vec<String>>>)
        requires
            shift_rows is Some ==> shift_rows_fit(shift_rows->0.deep_view()),
            shift_rows is Some && proficiency_rows is Some ==> stewards_named(
                proficiency_rows->0.deep_view(),
            ),
        ensures
            shift_rows is Some && proficiency_rows is Some ==> {
                let shifts = shift_rows->0.deep_view();
                let skills = proficiency_rows->0.deep_view();
                &&& final(self).days.deep_view() == with_stewards(
                    with_rows(empty_week(), shifts, rows_read(shifts, 0)),
                    skills,
                    skills.len() as int,
                )
                &&& final(self).all_proficiencies.deep_view() == listed(
                    all_skills(old(self).all_proficiencies.deep_view(), skills, skills.len() as int),
                )
            },
            !(shift_rows is Some && proficiency_rows is Some) ==> {
                &&& final(self).days@ == old(self).days@
                &&& final(self).all_proficiencies.deep_view() == listed(
                    old(self).all_proficiencies.deep_view(),
                )
            },
    {
        match (shift_rows, proficiency_rows) {
            (Some(shifts), Some(skills)) => {
                let ghost cells = skills.deep_view();
                let ghost have = self.all_proficiencies.deep_view();
                let mut days = week_from_rows(shifts);
                let ghost week = days.deep_view();
                let mut i: usize = 1;
                while i < skills.len()
                    invariant
                        1 <= i,
                        i <= skills@.len() || (skills@.len() == 0 && i == 1),
                        cells == skills.deep_view(),
                        stewards_named(cells),
                        have == old(self).all_proficiencies.deep_view(),
                        self.days@ == old(self).days@,
                        days.deep_view() == with_stewards(week, cells, i as int),
                        self.all_proficiencies.deep_view() == all_skills(have, cells, i as int),
                    decreases skills@.len() - i,
                {
                    let ghost listed_before = self.all_proficiencies.deep_view();
                    proof {
                        assert(cells[i as int] == skills@[i as int].deep_view());
                        assert(cells[i as int].len() >= 2);
                        assert(cells[i as int][1] == skills@[i as int]@[1]@);
                    }
                    let row = &skills[i];
                    let taught = row_skills(row);
                    let mut more = copy_texts(&taught);
                    self.all_proficiencies.append(&mut more);
                    proof {
                        assert(self.all_proficiencies.deep_view() =~= listed_before + taught.deep_view());
                    }
                    teach_week(&mut days, row[1].as_str(), &taught);
                    i = i + 1;
                }
                proof {
                    if skills@.len() == 0 {
                        assert(with_stewards(week, cells, 1) == with_stewards(week, cells, 0));
                        assert(all_skills(have, cells, 1) == all_skills(have, cells, 0));
                    }
                }
                self.days = days;
            },
            _ => {},
        }
        self.all_proficiencies = list_texts(&self.all_proficiencies);
    }
}

} // verus!
