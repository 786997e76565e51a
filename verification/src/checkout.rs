//! The log of tools that are checked out and of those that came back.

use vstd::prelude::*;
use vstd::string::StringExecFns;
use crate::clock::{later, time_after, unix_now};
use crate::ids::{copy_texts, fresh_uuid};

verus! {

/// The seconds of a day.
pub const DAY: u64 = 86400;

/// One checkout: who took which items, when, and until when.
#[derive(Clone, Debug, Default)]
pub struct CheckoutLogEntry {
    pub college_id: u64,
    pub checkout_uuid: String,
    pub items: Vec<String>,
    pub checked_in: bool,
    pub timestamp_checked_out: u64,
    pub timestamp_expires: u64,
    pub timestamp_checked_in: Option<u64>,
    pub num_time_notified: u64,
}

/// A checkout as a value.
pub struct EntryModel {
    pub college_id: u64,
    pub checkout_uuid: Seq<char>,
    pub items: Seq<Seq<char>>,
    pub checked_in: bool,
    pub timestamp_checked_out: u64,
    pub timestamp_expires: u64,
    pub timestamp_checked_in: Option<u64>,
    pub num_time_notified: u64,
}

impl DeepView for CheckoutLogEntry {
    type V = EntryModel;

    open spec fn deep_view(&self) -> EntryModel {
        EntryModel {
            college_id: self.college_id,
            checkout_uuid: self.checkout_uuid@,
            items: self.items.deep_view(),
            checked_in: self.checked_in,
            timestamp_checked_out: self.timestamp_checked_out,
            timestamp_expires: self.timestamp_expires,
            timestamp_checked_in: self.timestamp_checked_in,
            num_time_notified: self.num_time_notified,
        }
    }
}

/// A checkout that starts at `start` and runs for `length` seconds, under
/// the given identifier.
pub open spec fn opened(college_id: u64, start: u64, length: u64, items: Seq<Seq<char>>, uuid: Seq<char>) -> EntryModel {
    EntryModel {
        college_id,
        checkout_uuid: uuid,
        items,
        checked_in: false,
        timestamp_checked_out: start,
        timestamp_expires: later(start, length),
        timestamp_checked_in: None,
        num_time_notified: 0,
    }
}

/// The checkout after its items came back at `now`.
pub open spec fn returned(entry: EntryModel, now: u64) -> EntryModel {
    EntryModel { checked_in: true, timestamp_checked_in: Some(now), ..entry }
}

/// The checkout has run out before `now`.
pub open spec fn expired_at(entry: EntryModel, now: u64) -> bool {
    now > entry.timestamp_expires
}

/// The whole days between the end of the checkout and `now`; none before
/// the end.
pub open spec fn days_overdue(entry: EntryModel, now: u64) -> int {
    if now >= entry.timestamp_expires {
        (now - entry.timestamp_expires) / 86400
    } else {
        0
    }
}

/// The items as lines of a message: each as `- `, the item, `<br>`.
pub open spec fn items_text(items: Seq<Seq<char>>) -> Seq<char>
    decreases items.len(),
{
    if items.len() == 0 {
        Seq::empty()
    } else {
        items_text(items.drop_last()) + "- "@ + items.last() + "<br>"@
    }
}

impl CheckoutLogEntry {
    /// A checkout of `length` seconds that starts now, under a fresh
    /// identifier.
    pub fn new(college_id: u64, length: u64, items: Vec<String>) -> (r: CheckoutLogEntry)
        ensures
            r.deep_view() == opened(
                college_id,
                r.timestamp_checked_out,
                length,
                items.deep_view(),
                r.checkout_uuid@,
            ),
    {
        CheckoutLogEntry::new_reservation(college_id, unix_now(), length, items)
    }

    /// A checkout of `length` seconds that starts at `start_time`, under a
    /// fresh identifier.
    pub fn new_reservation(college_id: u64, start_time: u64, length: u64, items: Vec<String>) -> (r: CheckoutLogEntry)
        ensures
            r.deep_view() == opened(
                college_id,
                start_time,
                length,
                items.deep_view(),
                r.checkout_uuid@,
            ),
    {
        CheckoutLogEntry {
            college_id,
            checkout_uuid: fresh_uuid(),
            items,
            checked_in: false,
            timestamp_checked_out: start_time,
            timestamp_expires: time_after(start_time, length),
            timestamp_checked_in: None,
            num_time_notified: 0,
        }
    }

    /// A copy of the checkout.
    pub fn duplicate(&self) -> (r: CheckoutLogEntry)
        ensures
            r.deep_view() == self.deep_view(),
    {
        CheckoutLogEntry {
            college_id: self.college_id,
            checkout_uuid: self.checkout_uuid.clone(),
            items: copy_texts(&self.items),
            checked_in: self.checked_in,
            timestamp_checked_out: self.timestamp_checked_out,
            timestamp_expires: self.timestamp_expires,
            timestamp_checked_in: self.timestamp_checked_in,
            num_time_notified: self.num_time_notified,
        }
    }

    /// Whether the checkout has run out before `now`.
    pub fn is_expired_at(&self, now: u64) -> (r: bool)
        ensures
            r == expired_at(self.deep_view(), now),
    {
        now > self.timestamp_expires
    }

    /// Whether the checkout has run out by the clock.
    pub fn is_expired(&self) -> (r: bool)
        ensures
            exists|now: u64| r == expired_at(self.deep_view(), now),
    {
        let now = unix_now();
        let r = self.is_expired_at(now);
        assert(r == expired_at(self.deep_view(), now));
        r
    }

    pub fn get_emails_sent(&self) -> (r: u64)
        ensures
            r == self.num_time_notified,
    {
        self.num_time_notified
    }

    /// Counts one more reminder sent.
    pub fn add_email_sent(&mut self)
        requires
            old(self).num_time_notified < u64::MAX,
        ensures
            final(self).deep_view() == (EntryModel {
                num_time_notified: (old(self).num_time_notified + 1) as u64,
                ..old(self).deep_view()
            }),
    {
        self.num_time_notified = self.num_time_notified + 1;
    }

    pub fn get_college_id(&self) -> (r: u64)
        ensures
            r == self.college_id,
    {
        self.college_id
    }

    /// The items as lines of a message.
    pub fn get_items_as_string(&self) -> (r: String)
        ensures
            r@ == items_text(self.items.deep_view()),
    {
        let mut text = String::new();
        let mut i: usize = 0;
        while i < self.items.len()
            invariant
                0 <= i <= self.items@.len(),
                text@ == items_text(self.items.deep_view().take(i as int)),
            decreases self.items@.len() - i,
        {
            proof {
                let all = self.items.deep_view();
                assert(all.take(i + 1).drop_last() =~= all.take(i as int));
                assert(all.take(i + 1).last() == self.items@[i as int]@);
            }
            text.append("- ");
            text.append(self.items[i].as_str());
            text.append("<br>");
            i = i + 1;
        }
        proof {
            let all = self.items.deep_view();
            assert(all.take(all.len() as int) =~= all);
        }
        text
    }

    /// The whole days since the checkout ran out, at `now`; none before it
    /// ran out.
    pub fn num_24_hours_passed_at(&self, now: u64) -> (r: u64)
        ensures
            r == days_overdue(self.deep_view(), now),
    {
        if now >= self.timestamp_expires {
            (now - self.timestamp_expires) / DAY
        } else {
            0
        }
    }

    /// The whole days since the checkout ran out, by the clock.
    pub fn num_24_hours_passed(&self) -> (r: u64)
        ensures
            exists|now: u64| r == days_overdue(self.deep_view(), now),
    {
        let now = unix_now();
        let r = self.num_24_hours_passed_at(now);
        assert(r == days_overdue(self.deep_view(), now));
        r
    }

    /// Marks the items as back at `now`.
    pub fn check_in_at(&mut self, now: u64)
        ensures
            final(self).deep_view() == returned(old(self).deep_view(), now),
    {
        self.checked_in = true;
        self.timestamp_checked_in = Some(now);
    }

    /// Marks the items as back now.
    pub fn check_in(&mut self)
        ensures
            exists|now: u64| final(self).deep_view() == returned(old(self).deep_view(), now),
    {
        let now = unix_now();
        self.check_in_at(now);
        assert(self.deep_view() == returned(old(self).deep_view(), now));
    }
}

/// The checkouts that are out, and those that came back.
#[derive(Clone, Debug, Default)]
pub struct CheckoutLog {
    pub currently_checked_out: Vec<CheckoutLogEntry>,
    pub checkout_history: Vec<CheckoutLogEntry>,
}

/// The first checkout at or after `from` with the identifier; the length of
/// the list where none has it.
pub open spec fn find_checkout(entries: Seq<EntryModel>, uuid: Seq<char>, from: int) -> int
    decreases entries.len() - from,
{
    if from >= entries.len() {
        entries.len() as int
    } else if entries[from].checkout_uuid == uuid {
        from
    } else {
        find_checkout(entries, uuid, from + 1)
    }
}

/// The text that tells that no checkout has the identifier.
pub open spec fn no_checkout_text() -> Seq<char> {
    "Could not find checkout entry with UUID"@
}

impl CheckoutLog {
    /// Adds a checkout to those that are out.
    pub fn add_checkout(&mut self, entry: CheckoutLogEntry)
        ensures
            final(self).currently_checked_out@ == old(self).currently_checked_out@.push(entry),
            final(self).checkout_history@ == old(self).checkout_history@,
    {
        self.currently_checked_out.push(entry);
    }

    /// Takes the first checkout with the identifier from those that are
    /// out, marks it as back at `now` and files it in the history. Where no
    /// checkout has the identifier nothing changes.
    pub fn check_in_at(&mut self, checkout_uuid: String, now: u64) -> (r: Result<(), String>)
        ensures
            ({
                let out = old(self).currently_checked_out.deep_view();
                let i = find_checkout(out, checkout_uuid@, 0);
                &&& 0 <= i <= out.len()
                &&& r is Ok == (i < out.len())
                &&& r is Ok ==> final(self).currently_checked_out.deep_view() == out.remove(i)
                    && final(self).checkout_history.deep_view() == old(self).checkout_history.deep_view().push(returned(out[i], now))
                &&& r is Err ==> r->Err_0@ == no_checkout_text() && final(self).currently_checked_out.deep_view() == out && final(self).checkout_history.deep_view()
                    == old(self).checkout_history.deep_view()
            }),
    {
        let ghost out = self.currently_checked_out.deep_view();
        let ghost history = self.checkout_history.deep_view();
        let mut i: usize = 0;
        while i < self.currently_checked_out.len()
            invariant
                0 <= i <= self.currently_checked_out@.len(),
                self.currently_checked_out@ == old(self).currently_checked_out@,
                self.checkout_history@ == old(self).checkout_history@,
                out == self.currently_checked_out.deep_view(),
                history == self.checkout_history.deep_view(),
                find_checkout(out, checkout_uuid@, 0) == find_checkout(out, checkout_uuid@, i as int),
            decreases self.currently_checked_out@.len() - i,
        {
            if self.currently_checked_out[i].checkout_uuid == checkout_uuid {
                let mut entry = self.currently_checked_out.remove(i);
                entry.check_in_at(now);
                self.checkout_history.push(entry);
                proof {
                    assert(self.currently_checked_out.deep_view() =~= out.remove(i as int));
                    assert(self.checkout_history.deep_view() =~= history.push(
                        returned(out[i as int], now),
                    ));
                }
                return Ok(());
            }
            i = i + 1;
        }
        Err("Could not find checkout entry with UUID".to_owned())
    }

    /// Checks in, by the clock, the first checkout with the identifier.
    pub fn check_in(&mut self, checkout_uuid: String) -> (r: Result<(), String>)
        ensures
            ({
                let out = old(self).currently_checked_out.deep_view();
                let i = find_checkout(out, checkout_uuid@, 0);
                &&& r is Ok == (i < out.len())
                &&& r is Ok ==> final(self).currently_checked_out.deep_view() == out.remove(i)
                    && exists|now: u64|
                    final(self).checkout_history.deep_view() == old(self).checkout_history.deep_view().push(#[trigger] returned(out[i], now))
                &&& r is Err ==> r->Err_0@ == no_checkout_text() && final(self).currently_checked_out.deep_view() == out && final(self).checkout_history.deep_view()
                    == old(self).checkout_history.deep_view()
            }),
    {
        let now = unix_now();
        let ghost out = self.currently_checked_out.deep_view();
        let ghost i = find_checkout(out, checkout_uuid@, 0);
        let r = self.check_in_at(checkout_uuid, now);
        proof {
            if r is Ok {
                assert(self.checkout_history.deep_view() == old(self).checkout_history.deep_view().push(
                    returned(out[i], now),
                ));
            }
        }
        r
    }

    /// Copies of the checkouts that are out.
    pub fn get_current_checkouts(&self) -> (r: Vec<CheckoutLogEntry>)
        ensures
            r.deep_view() == self.currently_checked_out.deep_view(),
    {
        let mut out: Vec<CheckoutLogEntry> = Vec::new();
        let mut i: usize = 0;
        while i < self.currently_checked_out.len()
            invariant
                0 <= i <= self.currently_checked_out@.len(),
                out@.len() == i,
                forall|j: int|
                    0 <= j < i ==> (#[trigger] out@[j]).deep_view()
                        == self.currently_checked_out@[j].deep_view(),
            decreases self.currently_checked_out@.len() - i,
        {
            out.push(self.currently_checked_out[i].duplicate());
            i = i + 1;
        }
        proof {
            assert(out.deep_view() =~= self.currently_checked_out.deep_view());
        }
        out
    }

    /// Adds a reservation to the checkouts that are out.
    pub fn add_reservation(&mut self, entry: CheckoutLogEntry)
        ensures
            final(self).currently_checked_out@ == old(self).currently_checked_out@.push(entry),
            final(self).checkout_history@ == old(self).checkout_history@,
    {
        self.currently_checked_out.push(entry);
    }
}

} // verus!
