//! Storage slots that students check out, renew and release.

use vstd::prelude::*;
use vstd::string::StringExecFns;
use crate::clock::{later, time_after, unix_now};
use crate::text::{decimal, decimal_text};
use crate::users::User;

verus! {

/// A slot is first checked out for thirty days.
pub const INITIAL_CHECKOUT_PERIOD: u64 = 2592000;

/// A renewal runs for two weeks from the day it is made.
pub const RENEW_LENGTH: u64 = 1209600;

/// A checkout can be renewed twice.
pub const RENEWALS_ALLOWED: u64 = 2;

/// A renewal is open during the last day before the checkout ends.
pub const RENEWAL_WINDOW: u64 = 86400;

/// Who holds a slot, and until when.
#[derive(Clone, Copy, Debug, Default, PartialEq, Eq)]
pub struct OccupiedDetails {
    pub college_id: u64,
    pub timestamp_start: u64,
    pub timestamp_end: u64,
    pub renewals_left: u64,
}

/// The details of a checkout that starts at `now`.
pub open spec fn checkout_at(college_id: u64, length_of_checkout: u64, now: u64) -> OccupiedDetails {
    OccupiedDetails {
        college_id,
        timestamp_start: now,
        timestamp_end: later(now, length_of_checkout),
        renewals_left: RENEWALS_ALLOWED,
    }
}

/// The checkout has ended before `now`.
pub open spec fn overdue_at(details: OccupiedDetails, now: u64) -> bool {
    now > details.timestamp_end
}

/// A renewal can be made at `now`: one is left, and the checkout ends
/// within a day.
pub open spec fn renewable_at(details: OccupiedDetails, now: u64) -> bool {
    details.renewals_left > 0 && details.timestamp_end < later(now, RENEWAL_WINDOW)
}

/// The details after a renewal made at `now`.
pub open spec fn renewed_at(details: OccupiedDetails, now: u64) -> OccupiedDetails {
    OccupiedDetails {
        timestamp_end: later(now, RENEW_LENGTH),
        renewals_left: (details.renewals_left - 1) as u64,
        ..details
    }
}

impl OccupiedDetails {
    /// A checkout of `length_of_checkout` seconds that starts at `now`.
    pub fn new_at(college_id: u64, length_of_checkout: u64, now: u64) -> (r: OccupiedDetails)
        ensures
            r == checkout_at(college_id, length_of_checkout, now),
    {
        OccupiedDetails {
            college_id,
            timestamp_start: now,
            timestamp_end: time_after(now, length_of_checkout),
            renewals_left: RENEWALS_ALLOWED,
        }
    }

    /// A checkout of `length_of_checkout` seconds that starts now.
    pub fn new(college_id: u64, length_of_checkout: u64) -> (r: OccupiedDetails)
        ensures
            r == checkout_at(college_id, length_of_checkout, r.timestamp_start),
    {
        OccupiedDetails::new_at(college_id, length_of_checkout, unix_now())
    }

    /// Whether the checkout has ended before `now`.
    pub fn is_overdue_at(&self, now: u64) -> (r: bool)
        ensures
            r == overdue_at(*self, now),
    {
        now > self.timestamp_end
    }

    /// Whether the checkout has ended by the clock.
    pub fn is_overdue(&self) -> (r: bool)
        ensures
            exists|now: u64| r == overdue_at(*self, now),
    {
        let now = unix_now();
        let r = self.is_overdue_at(now);
        assert(r == overdue_at(*self, now));
        r
    }

    /// The span from the start of the checkout to its end; zero where the
    /// end was set before the start.
    pub fn get_length_of_checkout(&self) -> (r: u64)
        ensures
            r == (if self.timestamp_end >= self.timestamp_start {
                self.timestamp_end - self.timestamp_start
            } else {
                0
            }),
    {
        if self.timestamp_end >= self.timestamp_start {
            self.timestamp_end - self.timestamp_start
        } else {
            0
        }
    }

    /// Moves the end of the checkout back by `length_of_checkout` seconds.
    pub fn extend_checkout(&mut self, length_of_checkout: u64)
        ensures
            *final(self) == (OccupiedDetails {
                timestamp_end: later(old(self).timestamp_end, length_of_checkout),
                ..*old(self)
            }),
    {
        self.timestamp_end = time_after(self.timestamp_end, length_of_checkout);
    }

    /// Sets the end of the checkout.
    pub fn set_timestamp_end(&mut self, timestamp_end: u64)
        ensures
            *final(self) == (OccupiedDetails { timestamp_end, ..*old(self) }),
    {
        self.timestamp_end = timestamp_end;
    }

    /// The details as a stranger may see them: the times, but neither the
    /// holder nor the renewals.
    pub fn censor(&self) -> (r: OccupiedDetails)
        ensures
            r == (OccupiedDetails { college_id: 0, renewals_left: 0, ..*self }),
    {
        OccupiedDetails {
            college_id: 0,
            timestamp_start: self.timestamp_start,
            timestamp_end: self.timestamp_end,
            renewals_left: 0,
        }
    }

    /// Renews the checkout at `now`: where a renewal is left and the
    /// checkout ends within a day, it then ends two weeks after `now` and
    /// one renewal is used up. Otherwise nothing changes and the reason is
    /// returned.
    pub fn renew_at(&mut self, now: u64) -> (r: Result<(), String>)
        ensures
            r is Ok == renewable_at(*old(self), now),
            r is Ok ==> *final(self) == renewed_at(*old(self), now),
            r is Err ==> *final(self) == *old(self),
            r is Err && old(self).renewals_left == 0 ==> r->Err_0@ == "No renewals left"@,
            r is Err && old(self).renewals_left > 0 ==> r->Err_0@
                == "Cannot renew slot until expiry date"@,
    {
        if self.renewals_left == 0 {
            return Err("No renewals left".to_owned());
        }
        if self.timestamp_end < time_after(now, RENEWAL_WINDOW) {
            self.timestamp_end = time_after(now, RENEW_LENGTH);
            self.renewals_left = self.renewals_left - 1;
            Ok(())
        } else {
            Err("Cannot renew slot until expiry date".to_owned())
        }
    }

    /// Renews the checkout by the clock.
    pub fn renew(&mut self) -> (r: Result<(), String>)
        ensures
            exists|now: u64|
                r is Ok == renewable_at(*old(self), now) && (r is Ok ==> *final(self) == renewed_at(
                    *old(self),
                    now,
                )),
            r is Err ==> *final(self) == *old(self),
            old(self).renewals_left == 0 ==> r is Err,
    {
        let now = unix_now();
        let r = self.renew_at(now);
        assert(r is Ok == renewable_at(*old(self), now) && (r is Ok ==> *self == renewed_at(
            *old(self),
            now,
        )));
        r
    }
}

/// One storage slot.
#[derive(Clone, Debug, Default)]
pub struct Slot {
    pub id: String,
    pub occupied: bool,
    pub occupied_details: Option<OccupiedDetails>,
}

/// A slot as a value.
pub struct SlotModel {
    pub id: Seq<char>,
    pub occupied: bool,
    pub occupied_details: Option<OccupiedDetails>,
}

impl DeepView for Slot {
    type V = SlotModel;

    open spec fn deep_view(&self) -> SlotModel {
        SlotModel { id: self.id@, occupied: self.occupied, occupied_details: self.occupied_details }
    }
}

/// A slot as a stranger may see it.
pub open spec fn censored(slot: SlotModel) -> SlotModel {
    SlotModel {
        occupied_details: match slot.occupied_details {
            Some(d) => Some(OccupiedDetails { college_id: 0, renewals_left: 0, ..d }),
            None => None,
        },
        ..slot
    }
}

/// The student holds the slot.
pub open spec fn owns(slot: SlotModel, college_id: u64) -> bool {
    slot.occupied_details is Some && slot.occupied_details->0.college_id == college_id
}

/// A slot as the student sees it: their own in full, any other censored.
pub open spec fn seen_by(slot: SlotModel, college_id: u64) -> SlotModel {
    if owns(slot, college_id) {
        slot
    } else {
        censored(slot)
    }
}

/// The slot after the student gave it up: free, where they held it.
pub open spec fn released(slot: SlotModel, college_id: u64) -> SlotModel {
    if owns(slot, college_id) {
        SlotModel { occupied: false, occupied_details: None, ..slot }
    } else {
        slot
    }
}

impl Slot {
    /// A free slot.
    pub fn new(id: String) -> (r: Slot)
        ensures
            r.deep_view() == (SlotModel { id: id@, occupied: false, occupied_details: None }),
    {
        Slot { id, occupied: false, occupied_details: None }
    }

    /// Hands the slot to the student for the initial period, from `now`.
    pub fn checkout_at(&mut self, college_id: u64, now: u64)
        ensures
            final(self).deep_view() == (SlotModel {
                occupied: true,
                occupied_details: Some(checkout_at(college_id, INITIAL_CHECKOUT_PERIOD, now)),
                ..old(self).deep_view()
            }),
    {
        self.occupied = true;
        self.occupied_details = Some(OccupiedDetails::new_at(college_id, INITIAL_CHECKOUT_PERIOD, now));
    }

    /// Hands the slot to the student for the initial period, from now.
    pub fn checkout(&mut self, college_id: u64)
        ensures
            exists|now: u64|
                final(self).deep_view() == (SlotModel {
                    occupied: true,
                    occupied_details: Some(
                        #[trigger] checkout_at(college_id, INITIAL_CHECKOUT_PERIOD, now),
                    ),
                    ..old(self).deep_view()
                }),
    {
        let now = unix_now();
        self.checkout_at(college_id, now);
        assert(self.occupied_details == Some(checkout_at(college_id, INITIAL_CHECKOUT_PERIOD, now)));
    }

    /// The slot as a stranger may see it: with its details censored.
    pub fn censor(&self) -> (r: Slot)
        ensures
            r.deep_view() == censored(self.deep_view()),
    {
        match self.occupied_details {
            Some(details) => Slot {
                id: self.id.clone(),
                occupied: self.occupied,
                occupied_details: Some(details.censor()),
            },
            None => Slot { id: self.id.clone(), occupied: self.occupied, occupied_details: None },
        }
    }

    /// A copy of the slot.
    pub fn duplicate(&self) -> (r: Slot)
        ensures
            r.deep_view() == self.deep_view(),
    {
        Slot { id: self.id.clone(), occupied: self.occupied, occupied_details: self.occupied_details }
    }

    pub fn is_occupied(&self) -> (r: bool)
        ensures
            r == self.occupied,
    {
        self.occupied
    }

    pub fn get_details(&self) -> (r: Option<OccupiedDetails>)
        ensures
            r == self.occupied_details,
    {
        self.occupied_details
    }

    /// Whether the student holds the slot.
    pub fn is_owner(&self, id: &u64) -> (r: bool)
        ensures
            r == owns(self.deep_view(), *id),
    {
        match self.occupied_details {
            Some(details) => details.college_id == *id,
            None => false,
        }
    }

    pub fn get_id(&self) -> (r: &String)
        ensures
            r@ == self.id@,
    {
        &self.id
    }

    /// Renews the slot's checkout at `now`. A free slot cannot be renewed.
    pub fn renew_at(&mut self, now: u64) -> (r: Result<(), String>)
        ensures
            r is Ok == slot_renewable_at(old(self).deep_view(), now),
            final(self).deep_view() == slot_after_renewal(
                old(self).deep_view(),
                now,
            ),
            r is Err ==> r->Err_0@ == renewal_refusal(old(self).deep_view()),
            r is Ok ==> final(self).deep_view() == (SlotModel {
                occupied_details: Some(renewed_at(old(self).occupied_details->0, now)),
                ..old(self).deep_view()
            }),
            r is Err ==> final(self).deep_view() == old(self).deep_view(),
    {
        match self.occupied_details {
            Some(details) => {
                let mut details = details;
                let r = details.renew_at(now);
                self.occupied_details = Some(details);
                r
            },
            None => Err("No slot found with id ".to_owned().concat(self.id.as_str())),
        }
    }

    /// Renews the slot's checkout by the clock.
    pub fn renew(&mut self) -> (r: Result<(), String>)
        ensures
            exists|now: u64|
                r is Ok == #[trigger] slot_renewable_at(old(self).deep_view(), now) && final(self).deep_view() == slot_after_renewal(old(self).deep_view(), now),
            slot_renewable_at(old(self).deep_view(), 0) ==> r is Ok,
            old(self).occupied_details is None || old(self).occupied_details->0.renewals_left == 0
                ==> r is Err,
            r is Err ==> r->Err_0@ == renewal_refusal(old(self).deep_view()),
            r is Err ==> final(self).deep_view() == old(self).deep_view(),
    {
        let now = unix_now();
        let r = self.renew_at(now);
        assert(r is Ok == slot_renewable_at(old(self).deep_view(), now));
        r
    }

    /// Frees the slot where the student holds it; otherwise nothing changes.
    pub fn release(&mut self, college_id: u64)
        ensures
            final(self).deep_view() == released(old(self).deep_view(), college_id),
    {
        if self.is_owner(&college_id) {
            self.occupied = false;
            self.occupied_details = None;
        }
    }
}

/// The slot's checkout can be renewed at `now`: the slot is held, a renewal
/// is left, and the checkout ends within a day.
pub open spec fn slot_renewable_at(slot: SlotModel, now: u64) -> bool {
    slot.occupied_details is Some && renewable_at(slot.occupied_details->0, now)
}

/// The slot after a renewal was asked for at `now`: with its checkout
/// renewed where that can be done, else as it was.
pub open spec fn slot_after_renewal(slot: SlotModel, now: u64) -> SlotModel {
    if slot_renewable_at(slot, now) {
        SlotModel { occupied_details: Some(renewed_at(slot.occupied_details->0, now)), ..slot }
    } else {
        slot
    }
}

/// Why a slot's checkout is not renewed: the slot is free, or no renewal is
/// left, or the checkout does not end within a day.
pub open spec fn renewal_refusal(slot: SlotModel) -> Seq<char> {
    match slot.occupied_details {
        None => "No slot found with id "@ + slot.id,
        Some(details) => if details.renewals_left == 0 {
            "No renewals left"@
        } else {
            "Cannot renew slot until expiry date"@
        },
    }
}

/// All the storage slots, in their fixed order.
#[derive(Clone, Debug)]
pub struct StudentStorage {
    pub slots: Vec<Slot>,
}

/// The two lists have the same slots by id, in the same order.
pub open spec fn same_layout(a: Seq<SlotModel>, b: Seq<SlotModel>) -> bool {
    a.len() == b.len() && forall|i: int| 0 <= i < a.len() ==> (#[trigger] a[i]).id == b[i].id
}

/// The first slot at or after `from` that has the id; the length of the
/// list where none has.
pub open spec fn find_slot(slots: Seq<SlotModel>, slot_id: Seq<char>, from: int) -> int
    decreases slots.len() - from,
{
    if from >= slots.len() {
        slots.len() as int
    } else if slots[from].id == slot_id {
        from
    } else {
        find_slot(slots, slot_id, from + 1)
    }
}

/// The first slot at or after `from` that has the id and is held by the
/// student; the length of the list where none is.
pub open spec fn find_owned_slot(slots: Seq<SlotModel>, college_id: u64, slot_id: Seq<char>, from: int) -> int
    decreases slots.len() - from,
{
    if from >= slots.len() {
        slots.len() as int
    } else if owns(slots[from], college_id) && slots[from].id == slot_id {
        from
    } else {
        find_owned_slot(slots, college_id, slot_id, from + 1)
    }
}

/// Whether a renewal at `now` succeeds: the student holds a slot with the
/// id, and the first such slot can be renewed.
pub open spec fn renewal_succeeds(slots: Seq<SlotModel>, college_id: u64, slot_id: Seq<char>, now: u64) -> bool {
    let i = find_owned_slot(slots, college_id, slot_id, 0);
    i < slots.len() && renewable_at(slots[i].occupied_details->0, now)
}

/// The slots after a renewal at `now` was asked for.
pub open spec fn after_renewal(slots: Seq<SlotModel>, college_id: u64, slot_id: Seq<char>, now: u64) -> Seq<SlotModel> {
    let i = find_owned_slot(slots, college_id, slot_id, 0);
    if renewal_succeeds(slots, college_id, slot_id, now) {
        slots.update(
            i,
            SlotModel {
                occupied_details: Some(renewed_at(slots[i].occupied_details->0, now)),
                ..slots[i]
            },
        )
    } else {
        slots
    }
}

/// The slots after the first slot with the id was handed to the student at
/// `now`; unchanged where no slot has the id.
pub open spec fn after_checkout(slots: Seq<SlotModel>, college_id: u64, slot_id: Seq<char>, now: u64) -> Seq<SlotModel> {
    let i = find_slot(slots, slot_id, 0);
    if i < slots.len() {
        slots.update(
            i,
            SlotModel {
                occupied: true,
                occupied_details: Some(checkout_at(college_id, INITIAL_CHECKOUT_PERIOD, now)),
                ..slots[i]
            },
        )
    } else {
        slots
    }
}

/// The text that tells that no slot has the id.
pub open spec fn no_slot_text(slot_id: Seq<char>) -> Seq<char> {
    "No slot found with id "@ + slot_id
}

/// A free slot as a value.
pub open spec fn free_slot(id: Seq<char>) -> SlotModel {
    SlotModel { id, occupied: false, occupied_details: None }
}

/// The slots of one row of the layout: the row's name followed by the
/// numbers from 1 to `count`.
pub open spec fn row_slots(name: Seq<char>, count: int) -> Seq<SlotModel>
    decreases count,
{
    if count <= 0 {
        Seq::empty()
    } else {
        row_slots(name, count - 1).push(free_slot(name + decimal_text(count as u64)))
    }
}

/// The slots of the first `rows` rows of the layout, row after row.
pub open spec fn laid_out(sizings: Seq<(Seq<char>, i64)>, rows: int) -> Seq<SlotModel>
    decreases rows,
{
    if rows <= 0 {
        Seq::empty()
    } else {
        laid_out(sizings, rows - 1) + row_slots(sizings[rows - 1].0, sizings[rows - 1].1 as int)
    }
}

impl StudentStorage {
    /// The storage that a layout defines: for every row, given by its name
    /// and its size, the free slots named by the row's name and the numbers
    /// from 1 to the size; a size under 1 gives no slot.
    pub fn from_sizings(sizings: &Vec<(String, i64)>) -> (r: StudentStorage)
        ensures
            r.slots.deep_view() == laid_out(sizings.deep_view(), sizings@.len() as int),
    {
        let ghost rows = sizings.deep_view();
        let mut slots: Vec<Slot> = Vec::new();
        let mut k: usize = 0;
        proof {
            assert(slots.deep_view() =~= laid_out(rows, 0));
        }
        while k < sizings.len()
            invariant
                0 <= k <= sizings@.len(),
                rows == sizings.deep_view(),
                slots.deep_view() == laid_out(rows, k as int),
            decreases sizings@.len() - k,
        {
            let size: i64 = sizings[k].1;
            let ghost name = sizings@[k as int].0@;
            let ghost start = slots.deep_view();
            assert(rows[k as int] == (name, size));
            let mut i: i64 = 0;
            proof {
                assert(start + row_slots(name, 0) =~= start);
            }
            while i < size
                invariant
                    0 <= i,
                    i <= size || size < 0,
                    size < 0 ==> i == 0,
                    0 <= k < sizings@.len(),
                    name == sizings@[k as int].0@,
                    slots.deep_view() == start + row_slots(name, i as int),
                decreases size - i,
            {
                let ghost before = slots.deep_view();
                let number: u64 = (i + 1) as u64;
                let label = sizings[k].0.clone().concat(decimal(number).as_str());
                slots.push(Slot::new(label));
                proof {
                    assert(slots.deep_view() =~= before.push(free_slot(name + decimal_text(number))));
                    assert(slots.deep_view() =~= start + row_slots(name, i + 1));
                }
                i = i + 1;
            }
            proof {
                if size < 0 {
                    assert(i == 0);
                }
                assert(row_slots(name, i as int) == row_slots(name, size as int));
            }
            k = k + 1;
        }
        StudentStorage { slots }
    }

    /// A storage without slots.
    pub fn new() -> (r: StudentStorage)
        ensures
            r.slots@.len() == 0,
    {
        StudentStorage { slots: Vec::new() }
    }

    /// Whether the storage no longer has the slots that the defined layout
    /// has: another number of them, or another id at some place.
    pub fn needs_update(&self, defined: &StudentStorage) -> (r: bool)
        ensures
            r == !same_layout(defined.slots.deep_view(), self.slots.deep_view()),
    {
        if defined.slots.len() != self.slots.len() {
            return true;
        }
        let mut i: usize = 0;
        while i < defined.slots.len()
            invariant
                0 <= i <= defined.slots@.len(),
                defined.slots@.len() == self.slots@.len(),
                forall|j: int|
                    0 <= j < i ==> (#[trigger] defined.slots.deep_view()[j]).id
                        == self.slots.deep_view()[j].id,
            decreases defined.slots@.len() - i,
        {
            if defined.slots[i].id != self.slots[i].id {
                assert(defined.slots.deep_view()[i as int].id != self.slots.deep_view()[i as int].id);
                return true;
            }
            i = i + 1;
        }
        false
    }

    /// The storage as the student sees it: their own slots in full, every
    /// other slot censored.
    pub fn view_for_id(&self, college_id: &u64) -> (r: StudentStorage)
        ensures
            r.slots.deep_view() == self.slots.deep_view().map_values(
                |s: SlotModel| seen_by(s, *college_id),
            ),
    {
        let mut slots: Vec<Slot> = Vec::new();
        let mut i: usize = 0;
        while i < self.slots.len()
            invariant
                0 <= i <= self.slots@.len(),
                slots@.len() == i,
                forall|j: int|
                    0 <= j < i ==> (#[trigger] slots@[j]).deep_view() == seen_by(
                        self.slots@[j].deep_view(),
                        *college_id,
                    ),
            decreases self.slots@.len() - i,
        {
            if self.slots[i].is_owner(college_id) {
                slots.push(self.slots[i].duplicate());
            } else {
                slots.push(self.slots[i].censor());
            }
            i = i + 1;
        }
        proof {
            assert(slots.deep_view() =~= self.slots.deep_view().map_values(
                |s: SlotModel| seen_by(s, *college_id),
            ));
        }
        StudentStorage { slots }
    }

    /// The storage as the user sees it.
    pub fn view_for_user(&self, user: &User) -> (r: StudentStorage)
        ensures
            r.slots.deep_view() == self.slots.deep_view().map_values(
                |s: SlotModel| seen_by(s, user.college_id),
            ),
    {
        let id = user.get_id();
        self.view_for_id(&id)
    }

    /// Renews, at `now`, the first slot with the id that the student holds.
    /// Where there is none, nothing changes and the error says so; where
    /// the slot cannot be renewed, nothing changes and the error says why.
    pub fn renew_by_id_at(&mut self, college_id: &u64, slot_id: &String, now: u64) -> (r: Result<(), String>)
        ensures
            final(self).slots@.len() == old(self).slots@.len(),
            r is Ok == renewal_succeeds(old(self).slots.deep_view(), *college_id, slot_id@, now),
            final(self).slots.deep_view() == after_renewal(
                old(self).slots.deep_view(),
                *college_id,
                slot_id@,
                now,
            ),
            ({
                let before = old(self).slots.deep_view();
                let after = final(self).slots.deep_view();
                let i = find_owned_slot(before, *college_id, slot_id@, 0);
                &&& 0 <= i <= before.len()
                &&& i == before.len() ==> r is Err && r->Err_0@ == no_slot_text(slot_id@) && after
                    == before
                &&& i < before.len() ==> {
                    &&& r is Ok == renewable_at(before[i].occupied_details->0, now)
                    &&& r is Ok ==> after == before.update(
                        i,
                        SlotModel {
                            occupied_details: Some(renewed_at(before[i].occupied_details->0, now)),
                            ..before[i]
                        },
                    )
                    &&& r is Err ==> after == before
                }
            }),
    {
        let ghost before = self.slots.deep_view();
        let mut i: usize = 0;
        while i < self.slots.len()
            invariant
                0 <= i <= self.slots@.len(),
                self.slots@ == old(self).slots@,
                before == self.slots.deep_view(),
                find_owned_slot(before, *college_id, slot_id@, 0) == find_owned_slot(
                    before,
                    *college_id,
                    slot_id@,
                    i as int,
                ),
            decreases self.slots@.len() - i,
        {
            if self.slots[i].is_owner(college_id) && self.slots[i].id == *slot_id {
                let mut slot = self.slots[i].duplicate();
                let r = slot.renew_at(now);
                self.slots[i] = slot;
                proof {
                    let after = self.slots.deep_view();
                    if r is Ok {
                        assert(after =~= before.update(
                            i as int,
                            SlotModel {
                                occupied_details: Some(
                                    renewed_at(before[i as int].occupied_details->0, now),
                                ),
                                ..before[i as int]
                            },
                        ));
                    } else {
                        assert(after =~= before);
                    }
                }
                return r;
            }
            i = i + 1;
        }
        Err("No slot found with id ".to_owned().concat(slot_id.as_str()))
    }

    /// Renews by the clock the first slot with the id that the student
    /// holds.
    pub fn renew_by_id(&mut self, college_id: &u64, slot_id: &String) -> (r: Result<(), String>)
        ensures
            exists|now: u64|
                r is Ok == #[trigger] renewal_succeeds(
                    old(self).slots.deep_view(),
                    *college_id,
                    slot_id@,
                    now,
                ) && final(self).slots.deep_view() == after_renewal(
                    old(self).slots.deep_view(),
                    *college_id,
                    slot_id@,
                    now,
                ),
            r is Err ==> final(self).slots.deep_view() == old(self).slots.deep_view(),
            find_owned_slot(old(self).slots.deep_view(), *college_id, slot_id@, 0) == old(self).slots@.len() ==> r is Err && r->Err_0@ == no_slot_text(slot_id@),
    {
        let now = unix_now();
        let r = self.renew_by_id_at(college_id, slot_id, now);
        assert(r is Ok == renewal_succeeds(old(self).slots.deep_view(), *college_id, slot_id@, now));
        r
    }

    /// Hands the first slot with the id to the student, from `now`, whoever
    /// held it before. Returns whether there is such a slot.
    pub fn checkout_slot_by_id_at(&mut self, college_id: &u64, slot_id: &String, now: u64) -> (r: bool)
        ensures
            final(self).slots@.len() == old(self).slots@.len(),
            final(self).slots.deep_view() == after_checkout(
                old(self).slots.deep_view(),
                *college_id,
                slot_id@,
                now,
            ),
            ({
                let before = old(self).slots.deep_view();
                let after = final(self).slots.deep_view();
                let i = find_slot(before, slot_id@, 0);
                &&& 0 <= i <= before.len()
                &&& r == (i < before.len())
                &&& !r ==> after == before
                &&& r ==> after == before.update(
                    i,
                    SlotModel {
                        occupied: true,
                        occupied_details: Some(checkout_at(*college_id, INITIAL_CHECKOUT_PERIOD, now)),
                        ..before[i]
                    },
                )
            }),
    {
        let ghost before = self.slots.deep_view();
        let mut i: usize = 0;
        while i < self.slots.len()
            invariant
                0 <= i <= self.slots@.len(),
                self.slots@ == old(self).slots@,
                before == self.slots.deep_view(),
                find_slot(before, slot_id@, 0) == find_slot(before, slot_id@, i as int),
            decreases self.slots@.len() - i,
        {
            if self.slots[i].id == *slot_id {
                let mut slot = self.slots[i].duplicate();
                slot.checkout_at(*college_id, now);
                self.slots[i] = slot;
                proof {
                    assert(self.slots.deep_view() =~= before.update(
                        i as int,
                        SlotModel {
                            occupied: true,
                            occupied_details: Some(
                                checkout_at(*college_id, INITIAL_CHECKOUT_PERIOD, now),
                            ),
                            ..before[i as int]
                        },
                    ));
                }
                return true;
            }
            i = i + 1;
        }
        false
    }

    /// Hands the first slot with the id to the student, from now. Returns
    /// whether there is such a slot.
    pub fn checkout_slot_by_id(&mut self, college_id: &u64, slot_id: &String) -> (r: bool)
        ensures
            r == (find_slot(old(self).slots.deep_view(), slot_id@, 0) < old(self).slots@.len()),
            exists|now: u64|
                final(self).slots.deep_view() == #[trigger] after_checkout(
                    old(self).slots.deep_view(),
                    *college_id,
                    slot_id@,
                    now,
                ),
    {
        let now = unix_now();
        let r = self.checkout_slot_by_id_at(college_id, slot_id, now);
        assert(self.slots.deep_view() == after_checkout(
            old(self).slots.deep_view(),
            *college_id,
            slot_id@,
            now,
        ));
        r
    }

    /// Frees every slot with the id that the student holds.
    pub fn release_by_id(&mut self, college_id: &u64, slot_id: &String)
        ensures
            final(self).slots.deep_view() == old(self).slots.deep_view().map_values(
                |s: SlotModel|
                    if s.id == slot_id@ {
                        released(s, *college_id)
                    } else {
                        s
                    },
            ),
    {
        let ghost before = self.slots.deep_view();
        let ghost freed = |s: SlotModel|
            if s.id == slot_id@ {
                released(s, *college_id)
            } else {
                s
            };
        let mut i: usize = 0;
        while i < self.slots.len()
            invariant
                0 <= i <= self.slots@.len(),
                self.slots@.len() == old(self).slots@.len(),
                before == old(self).slots.deep_view(),
                freed == |s: SlotModel|
                    if s.id == slot_id@ {
                        released(s, *college_id)
                    } else {
                        s
                    },
                forall|j: int| 0 <= j < i ==> (#[trigger] self.slots@[j]).deep_view() == freed(before[j]),
                forall|j: int|
                    i <= j < self.slots@.len() ==> (#[trigger] self.slots@[j]).deep_view() == before[j],
            decreases self.slots@.len() - i,
        {
            if self.slots[i].id == *slot_id {
                let mut slot = self.slots[i].duplicate();
                slot.release(*college_id);
                self.slots[i] = slot;
            }
            i = i + 1;
        }
        proof {
            assert(self.slots.deep_view() =~= before.map_values(freed));
        }
    }
}

} // verus!
