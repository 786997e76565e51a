//! The 3D printers, the queue of people who wait for one, and the logs.

use vstd::prelude::*;
use crate::clock::unix_now;
use crate::text::{sort_texts, sorted_texts};
use crate::users::User;

verus! {

/// A place in the queue lapses a quarter of an hour after the person was
/// told or has accepted.
pub const PRINT_QUEUE_ENTRY_EXPIRATION_TIME: u64 = 900;

/// The state that a printer reports of itself.
#[derive(Clone, Debug)]
pub struct PrinterWebhookState {
    pub text: String,
    pub flags: PrinterWebhookStateFlags,
}

/// The flags of a reported state.
#[allow(non_snake_case)]
#[derive(Clone, Copy, Debug)]
pub struct PrinterWebhookStateFlags {
    pub operational: bool,
    pub printing: bool,
    pub cancelling: bool,
    pub pausing: bool,
    pub resuming: bool,
    pub finishing: bool,
    pub closedOrError: bool,
    pub error: bool,
    pub paused: bool,
    pub ready: bool,
    pub sdReady: bool,
}

/// The file of a reported job.
#[derive(Clone, Debug)]
pub struct PrinterWebhookJobFile {
    pub name: String,
    pub path: String,
    pub display: String,
    pub origin: String,
    pub size: u64,
    pub date: u64,
}

/// What a printer is doing.
#[derive(Clone, Copy, Debug, PartialEq, Eq, Structural)]
pub enum PrinterStatus {
    Idle,
    Printing,
    Paused,
    Offline,
    Error,
}

impl Default for PrinterStatus {
    fn default() -> (r: PrinterStatus)
        ensures
            r == PrinterStatus::Idle,
    {
        PrinterStatus::Idle
    }
}

/// The status that the flags stand for: offline unless operational; then
/// printing, paused and error take precedence in this order over idle.
pub open spec fn status_of(flags: PrinterWebhookStateFlags) -> PrinterStatus {
    if !flags.operational {
        PrinterStatus::Offline
    } else if flags.printing {
        PrinterStatus::Printing
    } else if flags.paused {
        PrinterStatus::Paused
    } else if flags.error {
        PrinterStatus::Error
    } else {
        PrinterStatus::Idle
    }
}

impl PrinterStatus {
    /// The status that a reported state stands for.
    pub fn from_webhook(state: &PrinterWebhookState) -> (r: PrinterStatus)
        ensures
            r == status_of(state.flags),
    {
        if state.flags.operational {
            if state.flags.printing {
                PrinterStatus::Printing
            } else if state.flags.paused {
                PrinterStatus::Paused
            } else if state.flags.error {
                PrinterStatus::Error
            } else {
                PrinterStatus::Idle
            }
        } else {
            PrinterStatus::Offline
        }
    }
}

/// One printer.
#[derive(Clone, Debug, Default)]
pub struct Printer {
    pub id: String,
    pub status: PrinterStatus,
    pub last_updated: u64,
    pub current_time_left: u64,
}

/// A printer as a value.
pub struct PrinterModel {
    pub id: Seq<char>,
    pub status: PrinterStatus,
    pub last_updated: u64,
    pub current_time_left: u64,
}

impl DeepView for Printer {
    type V = PrinterModel;

    open spec fn deep_view(&self) -> PrinterModel {
        PrinterModel {
            id: self.id@,
            status: self.status,
            last_updated: self.last_updated,
            current_time_left: self.current_time_left,
        }
    }
}

impl Printer {
    /// An idle printer that never reported.
    pub fn new(id: &str) -> (r: Printer)
        ensures
            r.deep_view() == (PrinterModel {
                id: id@,
                status: PrinterStatus::Idle,
                last_updated: 0,
                current_time_left: 0,
            }),
    {
        Printer { id: id.to_owned(), status: PrinterStatus::Idle, last_updated: 0, current_time_left: 0 }
    }

    /// A copy of the printer.
    pub fn duplicate(&self) -> (r: Printer)
        ensures
            r.deep_view() == self.deep_view(),
    {
        Printer {
            id: self.id.clone(),
            status: self.status,
            last_updated: self.last_updated,
            current_time_left: self.current_time_left,
        }
    }

    /// Sets the status, reported at `now`.
    pub fn set_status_at(&mut self, status: PrinterStatus, now: u64)
        ensures
            final(self).deep_view() == (PrinterModel { status, last_updated: now, ..old(self).deep_view() }),
    {
        self.status = status;
        self.last_updated = now;
    }

    /// Sets the status, reported now.
    pub fn set_status(&mut self, status: PrinterStatus)
        ensures
            final(self).deep_view() == (PrinterModel {
                status,
                last_updated: final(self).last_updated,
                ..old(self).deep_view()
            }),
    {
        self.set_status_at(status, unix_now());
    }

    pub fn get_status(&self) -> (r: PrinterStatus)
        ensures
            r == self.status,
    {
        self.status
    }

    pub fn set_time_left(&mut self, time_left: u64)
        ensures
            final(self).deep_view() == (PrinterModel {
                current_time_left: time_left,
                ..old(self).deep_view()
            }),
    {
        self.current_time_left = time_left;
    }
}

/// One print that was started.
#[derive(Clone, Debug, Default)]
pub struct PrintLogEntry {
    pub timestamp: u64,
    pub printer_id: String,
    pub college_id: u64,
}

/// A person's place in the queue.
#[derive(Clone, Debug, Default)]
pub struct PrintQueueEntry {
    pub uuid: String,
    pub college_id: u64,
    pub email: String,
    pub timestamp_submitted: u64,
    pub timestamp_notified: Option<u64>,
    pub timestamp_accepted: Option<u64>,
}

/// A place in the queue as a value.
pub struct QueueEntryModel {
    pub uuid: Seq<char>,
    pub college_id: u64,
    pub email: Seq<char>,
    pub timestamp_submitted: u64,
    pub timestamp_notified: Option<u64>,
    pub timestamp_accepted: Option<u64>,
}

impl DeepView for PrintQueueEntry {
    type V = QueueEntryModel;

    open spec fn deep_view(&self) -> QueueEntryModel {
        QueueEntryModel {
            uuid: self.uuid@,
            college_id: self.college_id,
            email: self.email@,
            timestamp_submitted: self.timestamp_submitted,
            timestamp_notified: self.timestamp_notified,
            timestamp_accepted: self.timestamp_accepted,
        }
    }
}

/// The place has lapsed at `now`: more than the expiration time has passed
/// since the person accepted, or, where they have not, since they were
/// told.
pub open spec fn lapsed_at(entry: QueueEntryModel, now: u64) -> bool {
    match entry.timestamp_accepted {
        Some(accepted) => accepted + PRINT_QUEUE_ENTRY_EXPIRATION_TIME < now,
        None => match entry.timestamp_notified {
            Some(notified) => notified + PRINT_QUEUE_ENTRY_EXPIRATION_TIME < now,
            None => false,
        },
    }
}

/// The place is to be cleared from the queue at `now`: the person was told
/// or has accepted, and the place has lapsed.
pub open spec fn stale_at(entry: QueueEntryModel, now: u64) -> bool {
    (entry.timestamp_notified is Some || entry.timestamp_accepted is Some) && lapsed_at(entry, now)
}

/// The places of the queue that stay at `now`, in their order.
pub open spec fn still_waiting(queue: Seq<QueueEntryModel>, now: u64) -> Seq<QueueEntryModel> {
    queue.filter(|e: QueueEntryModel| !stale_at(e, now))
}

/// The places of the queue that are cleared at `now`, in their order.
pub open spec fn cleared(queue: Seq<QueueEntryModel>, now: u64) -> Seq<QueueEntryModel> {
    queue.filter(|e: QueueEntryModel| stale_at(e, now))
}

/// Whether more than the expiration time has passed from `since` to `now`.
fn lapsed_since(since: u64, now: u64) -> (r: bool)
    ensures
        r == (since + PRINT_QUEUE_ENTRY_EXPIRATION_TIME < now),
{
    now > PRINT_QUEUE_ENTRY_EXPIRATION_TIME && since < now - PRINT_QUEUE_ENTRY_EXPIRATION_TIME
}

impl PrintQueueEntry {
    /// A copy of the place.
    pub fn duplicate(&self) -> (r: PrintQueueEntry)
        ensures
            r.deep_view() == self.deep_view(),
    {
        PrintQueueEntry {
            uuid: self.uuid.clone(),
            college_id: self.college_id,
            email: self.email.clone(),
            timestamp_submitted: self.timestamp_submitted,
            timestamp_notified: self.timestamp_notified,
            timestamp_accepted: self.timestamp_accepted,
        }
    }

    /// Records that the person was told at `now`.
    pub fn mark_notified_at(&mut self, now: u64)
        ensures
            final(self).deep_view() == (QueueEntryModel {
                timestamp_notified: Some(now),
                ..old(self).deep_view()
            }),
    {
        self.timestamp_notified = Some(now);
    }

    /// Records that the person accepted at `now`.
    pub fn accept_at(&mut self, now: u64)
        ensures
            final(self).deep_view() == (QueueEntryModel {
                timestamp_accepted: Some(now),
                ..old(self).deep_view()
            }),
    {
        self.timestamp_accepted = Some(now);
    }

    /// Records that the person accepted now.
    pub fn accept(&mut self)
        ensures
            final(self).timestamp_accepted is Some,
            final(self).deep_view() == (QueueEntryModel {
                timestamp_accepted: final(self).timestamp_accepted,
                ..old(self).deep_view()
            }),
    {
        self.accept_at(unix_now());
    }

    pub fn was_notified(&self) -> (r: bool)
        ensures
            r == self.timestamp_notified is Some,
    {
        self.timestamp_notified.is_some()
    }

    pub fn was_accepted(&self) -> (r: bool)
        ensures
            r == self.timestamp_accepted is Some,
    {
        self.timestamp_accepted.is_some()
    }

    /// Whether the place has lapsed at `now`.
    pub fn has_expired_at(&self, now: u64) -> (r: bool)
        ensures
            r == lapsed_at(self.deep_view(), now),
    {
        match self.timestamp_accepted {
            Some(accepted) => lapsed_since(accepted, now),
            None => match self.timestamp_notified {
                Some(notified) => lapsed_since(notified, now),
                None => false,
            },
        }
    }

    /// Whether the place has lapsed by the clock.
    pub fn has_expired(&self) -> (r: bool)
        ensures
            exists|now: u64| r == lapsed_at(self.deep_view(), now),
            self.timestamp_accepted is None && self.timestamp_notified is None ==> !r,
    {
        let now = unix_now();
        let r = self.has_expired_at(now);
        assert(r == lapsed_at(self.deep_view(), now));
        r
    }
}

/// The printers, the log of prints, the queue, and the log of places that
/// were cleared from the queue. No two printers have the same id.
#[derive(Clone, Debug, Default)]
pub struct Printers {
    pub printers: Vec<Printer>,
    pub print_log: Vec<PrintLogEntry>,
    pub queue: Vec<PrintQueueEntry>,
    pub queue_log: Vec<PrintQueueEntry>,
}

/// No two printers of the list have the same id.
pub open spec fn distinct_ids(printers: Seq<PrinterModel>) -> bool {
    forall|i: int, j: int|
        0 <= i < j < printers.len() ==> (#[trigger] printers[i]).id != (#[trigger] printers[j]).id
}

/// The place of the printer with the id at or after `from`; the length of
/// the list where none has it.
pub open spec fn find_printer(printers: Seq<PrinterModel>, id: Seq<char>, from: int) -> int
    decreases printers.len() - from,
{
    if from >= printers.len() {
        printers.len() as int
    } else if printers[from].id == id {
        from
    } else {
        find_printer(printers, id, from + 1)
    }
}

/// The ids of the printers, in their order.
pub open spec fn ids_of(printers: Seq<PrinterModel>) -> Seq<Seq<char>> {
    Seq::new(printers.len(), |i: int| printers[i].id)
}

/// The printers that the first `n` ids name, in the order of the ids; an id
/// that no printer has names none.
pub open spec fn listed_by(printers: Seq<PrinterModel>, ids: Seq<Seq<char>>, n: int) -> Seq<PrinterModel>
    decreases n,
{
    if n <= 0 {
        Seq::empty()
    } else {
        let i = find_printer(printers, ids[n - 1], 0);
        if i < printers.len() {
            listed_by(printers, ids, n - 1).push(printers[i])
        } else {
            listed_by(printers, ids, n - 1)
        }
    }
}

/// An idle printer that never reported, as a value.
pub open spec fn new_printer(id: Seq<char>) -> PrinterModel {
    PrinterModel { id, status: PrinterStatus::Idle, last_updated: 0, current_time_left: 0 }
}

/// The printers after an idle one was put in for each of the first `n`
/// ids: in the place of the one with the same id, or after the others.
pub open spec fn with_printers(printers: Seq<PrinterModel>, ids: Seq<Seq<char>>, n: int) -> Seq<PrinterModel>
    decreases n,
{
    if n <= 0 {
        printers
    } else {
        let before = with_printers(printers, ids, n - 1);
        let i = find_printer(before, ids[n - 1], 0);
        if i < before.len() {
            before.update(i, new_printer(ids[n - 1]))
        } else {
            before.push(new_printer(ids[n - 1]))
        }
    }
}

/// The first place in the queue, at or after `from`, that is the person's;
/// the length of the queue where none is.
pub open spec fn find_in_queue(queue: Seq<QueueEntryModel>, college_id: u64, from: int) -> int
    decreases queue.len() - from,
{
    if from >= queue.len() {
        queue.len() as int
    } else if queue[from].college_id == college_id {
        from
    } else {
        find_in_queue(queue, college_id, from + 1)
    }
}

/// The printer with the id is at the place that `find_printer` gives, and
/// no other place has it before.
pub proof fn lemma_find_printer(printers: Seq<PrinterModel>, id: Seq<char>, from: int)
    requires
        0 <= from <= printers.len(),
    ensures
        from <= find_printer(printers, id, from) <= printers.len(),
        find_printer(printers, id, from) < printers.len() ==> printers[find_printer(
            printers,
            id,
            from,
        )].id == id,
        forall|k: int| from <= k < find_printer(printers, id, from) ==> (#[trigger] printers[k]).id != id,
    decreases printers.len() - from,
{
    if from < printers.len() && printers[from].id != id {
        lemma_find_printer(printers, id, from + 1);
    }
}

impl Printers {
    /// The representation invariant: no two printers have the same id.
    pub open spec fn wf(&self) -> bool {
        distinct_ids(self.printers.deep_view())
    }

    /// No printers, nobody in the queue, empty logs.
    pub fn new() -> (r: Printers)
        ensures
            r.wf(),
            r.printers@.len() == 0,
            r.print_log@.len() == 0,
            r.queue@.len() == 0,
            r.queue_log@.len() == 0,
    {
        Printers { printers: Vec::new(), print_log: Vec::new(), queue: Vec::new(), queue_log: Vec::new() }
    }

    /// The place of the printer with the id; the number of printers where
    /// none has it.
    fn position_of(&self, id: &str) -> (r: usize)
        ensures
            r == find_printer(self.printers.deep_view(), id@, 0),
            r <= self.printers@.len(),
    {
        let mut i: usize = 0;
        while i < self.printers.len()
            invariant
                0 <= i <= self.printers@.len(),
                find_printer(self.printers.deep_view(), id@, 0) == find_printer(
                    self.printers.deep_view(),
                    id@,
                    i as int,
                ),
            decreases self.printers@.len() - i,
        {
            if self.printers[i].id.as_str().to_owned() == id.to_owned() {
                return i;
            }
            i = i + 1;
        }
        i
    }

    /// Copies of the printers in the order of their ids.
    pub fn get_printer_statuses(&self) -> (r: Vec<Printer>)
        ensures
            r.deep_view() == listed_by(
                self.printers.deep_view(),
                sorted_texts(ids_of(self.printers.deep_view())),
                sorted_texts(ids_of(self.printers.deep_view())).len() as int,
            ),
    {
        let ghost all = self.printers.deep_view();
        let mut ids: Vec<String> = Vec::new();
        let mut i: usize = 0;
        while i < self.printers.len()
            invariant
                0 <= i <= self.printers@.len(),
                all == self.printers.deep_view(),
                ids@.len() == i,
                forall|k: int| 0 <= k < i ==> (#[trigger] ids@[k])@ == all[k].id,
            decreases self.printers@.len() - i,
        {
            ids.push(self.printers[i].id.clone());
            i = i + 1;
        }
        proof {
            assert(ids.deep_view() =~= ids_of(all));
        }
        let order = sort_texts(&ids);
        let ghost wanted = order.deep_view();
        let mut out: Vec<Printer> = Vec::new();
        let mut k: usize = 0;
        proof {
            assert(out.deep_view() =~= listed_by(all, wanted, 0));
        }
        while k < order.len()
            invariant
                0 <= k <= order@.len(),
                all == self.printers.deep_view(),
                wanted == order.deep_view(),
                out.deep_view() == listed_by(all, wanted, k as int),
            decreases order@.len() - k,
        {
            let ghost before = out.deep_view();
            assert(wanted[k as int] == order@[k as int]@);
            let place = self.position_of(order[k].as_str());
            if place < self.printers.len() {
                out.push(self.printers[place].duplicate());
                proof {
                    assert(out.deep_view() =~= before.push(all[place as int]));
                }
            }
            k = k + 1;
        }
        out
    }

    /// A copy of the printer with the id.
    pub fn get_printer_by_id(&self, id: &str) -> (r: Option<Printer>)
        ensures
            ({
                let all = self.printers.deep_view();
                let i = find_printer(all, id@, 0);
                &&& r is Some == (i < all.len())
                &&& r is Some ==> r->0.deep_view() == all[i]
            }),
    {
        let i = self.position_of(id);
        if i < self.printers.len() {
            Some(self.printers[i].duplicate())
        } else {
            None
        }
    }

    /// Puts the printer in the place of the one with the same id, or, where
    /// there is none, after the others.
    pub fn add_set_printer(&mut self, printer: Printer)
        requires
            old(self).wf(),
        ensures
            final(self).wf(),
            ({
                let before = old(self).printers.deep_view();
                let i = find_printer(before, printer.id@, 0);
                final(self).printers.deep_view() == (if i < before.len() {
                    before.update(i, printer.deep_view())
                } else {
                    before.push(printer.deep_view())
                })
            }),
            final(self).print_log@ == old(self).print_log@,
            final(self).queue@ == old(self).queue@,
            final(self).queue_log@ == old(self).queue_log@,
    {
        let ghost before = self.printers.deep_view();
        let i = self.position_of(printer.id.as_str());
        proof {
            lemma_find_printer(before, printer.id@, 0);
        }
        if i < self.printers.len() {
            self.printers[i] = printer;
            proof {
                assert(self.printers.deep_view() =~= before.update(i as int, printer.deep_view()));
            }
        } else {
            self.printers.push(printer);
            proof {
                assert(self.printers.deep_view() =~= before.push(printer.deep_view()));
            }
        }
    }

    /// Whether a printer has the id.
    pub fn has_printer(&self, id: &str) -> (r: bool)
        ensures
            r == (find_printer(self.printers.deep_view(), id@, 0) < self.printers@.len()),
    {
        self.position_of(id) < self.printers.len()
    }

    /// Puts in an idle printer for every id, as `add_set_printer` does.
    pub fn add_printers(&mut self, ids: &Vec<String>)
        requires
            old(self).wf(),
        ensures
            final(self).wf(),
            final(self).printers.deep_view() == with_printers(
                old(self).printers.deep_view(),
                ids.deep_view(),
                ids@.len() as int,
            ),
            final(self).print_log@ == old(self).print_log@,
            final(self).queue@ == old(self).queue@,
            final(self).queue_log@ == old(self).queue_log@,
    {
        let ghost start = self.printers.deep_view();
        let mut i: usize = 0;
        while i < ids.len()
            invariant
                0 <= i <= ids@.len(),
                self.wf(),
                start == old(self).printers.deep_view(),
                self.printers.deep_view() == with_printers(start, ids.deep_view(), i as int),
                self.print_log@ == old(self).print_log@,
                self.queue@ == old(self).queue@,
                self.queue_log@ == old(self).queue_log@,
            decreases ids@.len() - i,
        {
            assert(ids.deep_view()[i as int] == ids@[i as int]@);
            self.add_set_printer(Printer::new(ids[i].as_str()));
            i = i + 1;
        }
    }

    /// Takes in what a printer reports of itself at `now`: where the key is
    /// the expected one and a printer has the id, the printer gets the
    /// status that the state stands for, the time that is left, and `now`
    /// as the time of its last report.
    pub fn add_printer_status(&mut self, id: &str, api_key: &str, expected_key: &str, state: &PrinterWebhookState, print_time_left: u64, now: u64) -> (r: Result<(), String>)
        requires
            old(self).wf(),
        ensures
            final(self).wf(),
            ({
                let before = old(self).printers.deep_view();
                let i = find_printer(before, id@, 0);
                &&& r is Ok == (api_key@ == expected_key@ && i < before.len())
                &&& r is Ok ==> final(self).printers.deep_view() == before.update(
                    i,
                    PrinterModel {
                        id: id@,
                        status: status_of(state.flags),
                        last_updated: now,
                        current_time_left: print_time_left,
                    },
                )
                &&& r is Err ==> final(self).printers.deep_view() == before
                &&& r is Err && api_key@ != expected_key@ ==> r->Err_0@ == "Invalid API key"@
                &&& r is Err && api_key@ == expected_key@ ==> r->Err_0@ == "Unknown printer"@
            }),
            final(self).print_log@ == old(self).print_log@,
            final(self).queue@ == old(self).queue@,
            final(self).queue_log@ == old(self).queue_log@,
    {
        if !crate::text::same_text(api_key, expected_key) {
            return Err("Invalid API key".to_owned());
        }
        proof {
            lemma_find_printer(self.printers.deep_view(), id@, 0);
        }
        match self.get_printer_by_id(id) {
            Some(found) => {
                let mut printer = found;
                printer.set_status_at(PrinterStatus::from_webhook(state), now);
                printer.set_time_left(print_time_left);
                self.add_set_printer(printer);
                Ok(())
            },
            None => Err("Unknown printer".to_owned()),
        }
    }

    /// Takes the first place out of the queue, records that its person is
    /// told at `now`, and files it in the queue's log. Returns a copy of the
    /// place, for the person to be told; `None` where the queue is empty.
    pub fn process_next_queue_entry(&mut self, now: u64) -> (r: Option<PrintQueueEntry>)
        ensures
            r is Some == (old(self).queue@.len() > 0),
            r is None ==> final(self).queue@ == old(self).queue@ && final(self).queue_log@ == old(self).queue_log@,
            r is Some ==> {
                let told = QueueEntryModel {
                    timestamp_notified: Some(now),
                    ..old(self).queue@[0].deep_view()
                };
                &&& r->0.deep_view() == told
                &&& final(self).queue@ == old(self).queue@.remove(0)
                &&& final(self).queue_log.deep_view() == old(self).queue_log.deep_view().push(told)
            },
            final(self).printers@ == old(self).printers@,
            final(self).print_log@ == old(self).print_log@,
    {
        if self.queue.len() == 0 {
            return None;
        }
        let ghost log = self.queue_log.deep_view();
        let mut entry = self.queue.remove(0);
        entry.mark_notified_at(now);
        let copy = entry.duplicate();
        self.queue_log.push(entry);
        proof {
            assert(self.queue_log.deep_view() =~= log.push(copy.deep_view()));
        }
        Some(copy)
    }

    /// Files a print in the log.
    pub fn add_log(&mut self, entry: PrintLogEntry)
        ensures
            final(self).print_log@ == old(self).print_log@.push(entry),
            final(self).printers@ == old(self).printers@,
            final(self).queue@ == old(self).queue@,
            final(self).queue_log@ == old(self).queue_log@,
    {
        self.print_log.push(entry);
    }

    /// Files in the log a print that starts now.
    pub fn create_add_log(&mut self, printer_id: String, college_id: u64)
        ensures
            final(self).print_log@.len() == old(self).print_log@.len() + 1,
            final(self).print_log@.drop_last() == old(self).print_log@,
            final(self).print_log@.last().printer_id == printer_id,
            final(self).print_log@.last().college_id == college_id,
            final(self).printers@ == old(self).printers@,
            final(self).queue@ == old(self).queue@,
            final(self).queue_log@ == old(self).queue_log@,
    {
        let entry = PrintLogEntry { printer_id, college_id, timestamp: unix_now() };
        self.add_log(entry);
        proof {
            assert(self.print_log@.drop_last() =~= old(self).print_log@);
        }
    }

    /// Puts a place for the user at the end of the queue. A user who has a
    /// place already gets no second one.
    pub fn add_user_to_queue(&mut self, user: &User) -> (r: Result<(), String>)
        ensures
            ({
                let before = old(self).queue.deep_view();
                let after = final(self).queue.deep_view();
                let i = find_in_queue(before, user.college_id, 0);
                &&& r is Err == (i < before.len())
                &&& r is Err ==> r->Err_0@ == "User is already in queue"@ && after == before
                &&& r is Ok ==> after.len() == before.len() + 1 && after.drop_last() == before
                    && after.last().college_id == user.college_id && after.last().email
                    == user.college_email@ && after.last().timestamp_notified is None
                    && after.last().timestamp_accepted is None
            }),
            final(self).printers@ == old(self).printers@,
            final(self).print_log@ == old(self).print_log@,
            final(self).queue_log@ == old(self).queue_log@,
    {
        let ghost before = self.queue.deep_view();
        if self.get_queue_pos_for(user.get_id()).is_some() {
            return Err("User is already in queue".to_owned());
        }
        let entry = user.create_print_queue_entry();
        self.queue.push(entry);
        proof {
            assert(self.queue.deep_view().drop_last() =~= before);
        }
        Ok(())
    }

    /// Takes the user's first place out of the queue.
    pub fn remove_user_from_queue(&mut self, user: &User) -> (r: Result<(), String>)
        ensures
            ({
                let before = old(self).queue.deep_view();
                let after = final(self).queue.deep_view();
                let i = find_in_queue(before, user.college_id, 0);
                &&& r is Ok == (i < before.len())
                &&& r is Ok ==> after == before.remove(i)
                &&& r is Err ==> r->Err_0@ == "User is not in queue"@ && after == before
            }),
            final(self).printers@ == old(self).printers@,
            final(self).print_log@ == old(self).print_log@,
            final(self).queue_log@ == old(self).queue_log@,
    {
        let ghost before = self.queue.deep_view();
        match self.get_queue_pos_for(user.get_id()) {
            Some(i) => {
                let _ = self.queue.remove(i);
                proof {
                    assert(self.queue.deep_view() =~= before.remove(i as int));
                }
                Ok(())
            },
            None => Err("User is not in queue".to_owned()),
        }
    }

    /// Copies of the printers that are idle, in their order.
    pub fn get_available_printers(&self) -> (r: Vec<Printer>)
        ensures
            r.deep_view() == self.printers.deep_view().filter(
                |p: PrinterModel| p.status == PrinterStatus::Idle,
            ),
    {
        let ghost idle = |p: PrinterModel| p.status == PrinterStatus::Idle;
        let ghost all = self.printers.deep_view();
        let mut out: Vec<Printer> = Vec::new();
        let mut i: usize = 0;
        while i < self.printers.len()
            invariant
                0 <= i <= self.printers@.len(),
                all == self.printers.deep_view(),
                idle == |p: PrinterModel| p.status == PrinterStatus::Idle,
                out.deep_view() == all.take(i as int).filter(idle),
            decreases self.printers@.len() - i,
        {
            let ghost before = out.deep_view();
            proof {
                assert(all.take(i + 1).drop_last() =~= all.take(i as int));
                assert(all.take(i + 1).last() == self.printers@[i as int].deep_view());
                reveal(Seq::filter);
            }
            if self.printers[i].status == PrinterStatus::Idle {
                out.push(self.printers[i].duplicate());
                proof {
                    assert(out.deep_view() =~= before.push(self.printers@[i as int].deep_view()));
                }
            }
            i = i + 1;
        }
        proof {
            assert(all.take(all.len() as int) =~= all);
        }
        out
    }

    /// Clears the queue, at `now`, of the places that have lapsed after the
    /// person was told or has accepted; they go to the queue's log, in
    /// their order. The other places stay, in their order.
    pub fn cleanup_print_queue_at(&mut self, now: u64)
        ensures
            final(self).queue.deep_view() == still_waiting(old(self).queue.deep_view(), now),
            final(self).queue_log.deep_view() == old(self).queue_log.deep_view() + cleared(
                old(self).queue.deep_view(),
                now,
            ),
            final(self).printers@ == old(self).printers@,
            final(self).print_log@ == old(self).print_log@,
    {
        let ghost fresh = |e: QueueEntryModel| !stale_at(e, now);
        let ghost stale = |e: QueueEntryModel| stale_at(e, now);
        let ghost all = self.queue.deep_view();
        let ghost log = self.queue_log.deep_view();
        let mut kept: Vec<PrintQueueEntry> = Vec::new();
        let mut i: usize = 0;
        while i < self.queue.len()
            invariant
                0 <= i <= self.queue@.len(),
                self.queue@ == old(self).queue@,
                self.printers@ == old(self).printers@,
                self.print_log@ == old(self).print_log@,
                all == self.queue.deep_view(),
                log == old(self).queue_log.deep_view(),
                fresh == |e: QueueEntryModel| !stale_at(e, now),
                stale == |e: QueueEntryModel| stale_at(e, now),
                kept.deep_view() == all.take(i as int).filter(fresh),
                self.queue_log.deep_view() == log + all.take(i as int).filter(stale),
            decreases self.queue@.len() - i,
        {
            let ghost kept_before = kept.deep_view();
            let ghost log_before = self.queue_log.deep_view();
            proof {
                assert(all.take(i + 1).drop_last() =~= all.take(i as int));
                assert(all.take(i + 1).last() == self.queue@[i as int].deep_view());
                reveal(Seq::filter);
            }
            let entry = self.queue[i].duplicate();
            if (entry.was_notified() || entry.was_accepted()) && entry.has_expired_at(now) {
                self.queue_log.push(entry);
                proof {
                    assert(self.queue_log.deep_view() =~= log_before.push(
                        self.queue@[i as int].deep_view(),
                    ));
                    assert(self.queue_log.deep_view() =~= log + all.take(i + 1).filter(stale));
                }
            } else {
                kept.push(entry);
                proof {
                    assert(kept.deep_view() =~= kept_before.push(self.queue@[i as int].deep_view()));
                }
            }
            i = i + 1;
        }
        proof {
            assert(all.take(all.len() as int) =~= all);
        }
        self.queue = kept;
    }

    /// Clears the queue, by the clock, of the places that have lapsed.
    pub fn cleanup_print_queue(&mut self)
        ensures
            exists|now: u64|
                final(self).queue.deep_view() == #[trigger] still_waiting(
                    old(self).queue.deep_view(),
                    now,
                ) && final(self).queue_log.deep_view() == old(self).queue_log.deep_view() + cleared(
                    old(self).queue.deep_view(),
                    now,
                ),
            final(self).printers@ == old(self).printers@,
            final(self).print_log@ == old(self).print_log@,
    {
        let now = unix_now();
        self.cleanup_print_queue_at(now);
        assert(self.queue.deep_view() == still_waiting(old(self).queue.deep_view(), now));
    }

    pub fn get_print_queue_length(&self) -> (r: usize)
        ensures
            r == self.queue@.len(),
    {
        self.queue.len()
    }

    /// A copy of the place at the index of the queue.
    pub fn get_queue_at(&self, index: usize) -> (r: Option<PrintQueueEntry>)
        ensures
            r is Some == (index < self.queue@.len()),
            r is Some ==> r->0.deep_view() == self.queue@[index as int].deep_view(),
    {
        if index < self.queue.len() {
            Some(self.queue[index].duplicate())
        } else {
            None
        }
    }

    /// Puts the place at the index of the queue.
    pub fn update_queue_at(&mut self, index: usize, queue_entry: PrintQueueEntry)
        requires
            index < old(self).queue@.len(),
        ensures
            final(self).queue@ == old(self).queue@.update(index as int, queue_entry),
            final(self).printers@ == old(self).printers@,
            final(self).print_log@ == old(self).print_log@,
            final(self).queue_log@ == old(self).queue_log@,
    {
        self.queue[index] = queue_entry;
    }

    /// The index of the person's first place in the queue.
    pub fn get_queue_pos_for(&self, college_id: u64) -> (r: Option<usize>)
        ensures
            ({
                let i = find_in_queue(self.queue.deep_view(), college_id, 0);
                &&& r is Some == (i < self.queue@.len())
                &&& r is Some ==> r->0 == i
            }),
    {
        let mut i: usize = 0;
        while i < self.queue.len()
            invariant
                0 <= i <= self.queue@.len(),
                find_in_queue(self.queue.deep_view(), college_id, 0) == find_in_queue(
                    self.queue.deep_view(),
                    college_id,
                    i as int,
                ),
            decreases self.queue@.len() - i,
        {
            if self.queue[i].college_id == college_id {
                return Some(i);
            }
            i = i + 1;
        }
        None
    }

    /// Moves the place at `from` to the index `to` of the queue.
    pub fn move_queue_index(&mut self, from: usize, to: usize)
        requires
            from < old(self).queue@.len(),
            to < old(self).queue@.len(),
        ensures
            final(self).queue@ == old(self).queue@.remove(from as int).insert(
                to as int,
                old(self).queue@[from as int],
            ),
            final(self).printers@ == old(self).printers@,
            final(self).print_log@ == old(self).print_log@,
            final(self).queue_log@ == old(self).queue_log@,
    {
        let queue_entry = self.queue.remove(from);
        self.queue.insert(to, queue_entry);
    }
}

} // verus!
