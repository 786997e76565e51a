//! The people of the makerspace and what they are allowed to do.

use vstd::prelude::*;
use std::collections::HashMap;
use crate::checkout::{CheckoutLog, CheckoutLogEntry, EntryModel};
use crate::quizzes::Quiz;
use crate::clock::unix_now;
use crate::ids::fresh_uuid;
use crate::printers::PrintQueueEntry;
use crate::quizzes::{QuizName, Response, ResponseModel};

verus! {

/// What a person may do, from least to most.
#[derive(Clone, Copy, Debug, PartialEq, Eq, Structural)]
pub enum AuthLevel {
    Banned,
    User,
    Steward,
    Admin,
    System,
}

impl Default for AuthLevel {
    fn default() -> (r: AuthLevel)
        ensures
            r == AuthLevel::User,
    {
        AuthLevel::User
    }
}

impl AuthLevel {
    /// The place of the level in the order from least to most.
    pub open spec fn rank_of(self) -> int {
        match self {
            AuthLevel::Banned => 0,
            AuthLevel::User => 1,
            AuthLevel::Steward => 2,
            AuthLevel::Admin => 3,
            AuthLevel::System => 4,
        }
    }

    /// The place of the level in the order from least to most.
    pub fn rank(&self) -> (r: u8)
        ensures
            r == self.rank_of(),
    {
        match self {
            AuthLevel::Banned => 0,
            AuthLevel::User => 1,
            AuthLevel::Steward => 2,
            AuthLevel::Admin => 3,
            AuthLevel::System => 4,
        }
    }
}

/// One person.
#[derive(Clone, Debug, Default)]
pub struct User {
    pub name: String,
    pub college_id: u64,
    pub college_email: String,
    pub passed_quizzes: Vec<QuizName>,
    pub auth_level: AuthLevel,
}

/// A person as a value.
pub struct UserModel {
    pub name: Seq<char>,
    pub college_id: u64,
    pub college_email: Seq<char>,
    pub passed_quizzes: Seq<QuizName>,
    pub auth_level: AuthLevel,
}

impl DeepView for User {
    type V = UserModel;

    open spec fn deep_view(&self) -> UserModel {
        UserModel {
            name: self.name@,
            college_id: self.college_id,
            college_email: self.college_email@,
            passed_quizzes: self.passed_quizzes@,
            auth_level: self.auth_level,
        }
    }
}

/// A copy of a list of quiz names.
pub fn copy_quiz_names(names: &Vec<QuizName>) -> (r: Vec<QuizName>)
    ensures
        r@ == names@,
{
    let mut out: Vec<QuizName> = Vec::new();
    let mut i: usize = 0;
    while i < names.len()
        invariant
            0 <= i <= names@.len(),
            out@ == names@.take(i as int),
        decreases names@.len() - i,
    {
        out.push(names[i]);
        proof {
            assert(names@.take(i + 1) =~= names@.take(i as int).push(names@[i as int]));
        }
        i = i + 1;
    }
    proof {
        assert(names@.take(names@.len() as int) =~= names@);
    }
    out
}

impl User {
    /// The person who handed in an answer sheet: an ordinary user who has
    /// passed nothing yet.
    pub fn from_response(response: &Response) -> (r: User)
        ensures
            r.deep_view() == (UserModel {
                name: response.name@,
                college_id: response.college_id,
                college_email: response.college_email@,
                passed_quizzes: Seq::empty(),
                auth_level: AuthLevel::User,
            }),
    {
        User {
            name: response.name.clone(),
            college_id: response.college_id,
            college_email: response.college_email.clone(),
            passed_quizzes: Vec::new(),
            auth_level: AuthLevel::User,
        }
    }

    /// A copy of the person.
    pub fn duplicate(&self) -> (r: User)
        ensures
            r.deep_view() == self.deep_view(),
    {
        User {
            name: self.name.clone(),
            college_id: self.college_id,
            college_email: self.college_email.clone(),
            passed_quizzes: copy_quiz_names(&self.passed_quizzes),
            auth_level: self.auth_level,
        }
    }

    /// Records the quiz as passed where `passed` holds; a failed quiz
    /// leaves no trace.
    pub fn log_quiz(&mut self, quiz_name: QuizName, passed: bool)
        ensures
            final(self).deep_view() == (UserModel {
                passed_quizzes: if passed {
                    old(self).passed_quizzes@.push(quiz_name)
                } else {
                    old(self).passed_quizzes@
                },
                ..old(self).deep_view()
            }),
    {
        if passed {
            self.passed_quizzes.push(quiz_name);
        }
    }

    pub fn get_id(&self) -> (r: u64)
        ensures
            r == self.college_id,
    {
        self.college_id
    }

    pub fn get_email(&self) -> (r: String)
        ensures
            r@ == self.college_email@,
    {
        self.college_email.clone()
    }

    pub fn get_name(&self) -> (r: String)
        ensures
            r@ == self.name@,
    {
        self.name.clone()
    }

    pub fn get_passed_quizzes(&self) -> (r: Vec<QuizName>)
        ensures
            r@ == self.passed_quizzes@,
    {
        copy_quiz_names(&self.passed_quizzes)
    }

    pub fn get_auth_level(&self) -> (r: AuthLevel)
        ensures
            r == self.auth_level,
    {
        self.auth_level
    }

    pub fn set_auth_level(&mut self, auth_level: AuthLevel)
        ensures
            final(self).deep_view() == (UserModel { auth_level, ..old(self).deep_view() }),
    {
        self.auth_level = auth_level;
    }

    /// A place in the print queue for this person, submitted now under a
    /// fresh identifier; the person has neither been told nor accepted.
    pub fn create_print_queue_entry(&self) -> (r: PrintQueueEntry)
        ensures
            r.college_id == self.college_id,
            r.email@ == self.college_email@,
            r.timestamp_notified is None,
            r.timestamp_accepted is None,
    {
        PrintQueueEntry {
            uuid: fresh_uuid(),
            college_id: self.college_id,
            email: self.college_email.clone(),
            timestamp_submitted: unix_now(),
            timestamp_notified: None,
            timestamp_accepted: None,
        }
    }

    /// Records the quiz as passed, or, where `passed` does not hold, strikes
    /// every record of it.
    pub fn set_quiz_passed(&mut self, quiz_name: &QuizName, passed: bool)
        ensures
            final(self).deep_view() == (UserModel {
                passed_quizzes: if passed {
                    old(self).passed_quizzes@.push(*quiz_name)
                } else {
                    old(self).passed_quizzes@.filter(|q: QuizName| q != *quiz_name)
                },
                ..old(self).deep_view()
            }),
    {
        if passed {
            self.passed_quizzes.push(*quiz_name);
        } else {
            let ghost keep = |q: QuizName| q != *quiz_name;
            let mut kept: Vec<QuizName> = Vec::new();
            let mut i: usize = 0;
            while i < self.passed_quizzes.len()
                invariant
                    0 <= i <= self.passed_quizzes@.len(),
                    self.passed_quizzes@ == old(self).passed_quizzes@,
                    keep == |q: QuizName| q != *quiz_name,
                    kept@ == self.passed_quizzes@.take(i as int).filter(keep),
                decreases self.passed_quizzes@.len() - i,
            {
                let q = self.passed_quizzes[i];
                proof {
                    let before = self.passed_quizzes@.take(i as int);
                    assert(self.passed_quizzes@.take(i + 1) =~= before.push(q));
                    assert(before.push(q).drop_last() =~= before);
                    reveal(Seq::filter);
                }
                if q != *quiz_name {
                    kept.push(q);
                }
                i = i + 1;
            }
            proof {
                assert(self.passed_quizzes@.take(self.passed_quizzes@.len() as int)
                    =~= self.passed_quizzes@);
            }
            self.passed_quizzes = kept;
        }
    }
}

/// The quizzes in their fixed order.
pub open spec fn quiz_order() -> Seq<QuizName> {
    seq![
        QuizName::General,
        QuizName::Laser3D,
        QuizName::SprayPaint,
        QuizName::Composite,
        QuizName::Welding,
        QuizName::Studio,
        QuizName::Waterjet,
    ]
}

/// The quizzes that either list names, each once, in the fixed order.
pub open spec fn merged_quizzes(a: Seq<QuizName>, b: Seq<QuizName>) -> Seq<QuizName> {
    quiz_order().filter(|q: QuizName| a.contains(q) || b.contains(q))
}

/// The higher of two levels.
pub open spec fn higher_level(a: AuthLevel, b: AuthLevel) -> AuthLevel {
    if b.rank_of() > a.rank_of() {
        b
    } else {
        a
    }
}

/// Whether the list names the quiz.
pub fn names_quiz(names: &Vec<QuizName>, quiz: QuizName) -> (r: bool)
    ensures
        r == names@.contains(quiz),
{
    let mut i: usize = 0;
    while i < names.len()
        invariant
            0 <= i <= names@.len(),
            forall|j: int| 0 <= j < i ==> names@[j] != quiz,
        decreases names@.len() - i,
    {
        if names[i] == quiz {
            return true;
        }
        i = i + 1;
    }
    false
}

/// The checkouts of the list that are the student's, in their order.
pub open spec fn checkouts_of(entries: Seq<EntryModel>, college_id: u64) -> Seq<EntryModel> {
    entries.filter(|e: EntryModel| e.college_id == college_id)
}

/// Copies of the checkouts of the list that are the student's.
fn collect_checkouts(entries: &Vec<CheckoutLogEntry>, college_id: u64, out: &mut Vec<CheckoutLogEntry>)
    ensures
        final(out).deep_view() == old(out).deep_view() + checkouts_of(entries.deep_view(), college_id),
{
    let ghost mine = |e: EntryModel| e.college_id == college_id;
    let ghost all = entries.deep_view();
    let ghost start = out.deep_view();
    let mut i: usize = 0;
    proof {
        assert(all.take(0).filter(mine) =~= Seq::<EntryModel>::empty()) by {
            reveal(Seq::filter);
        }
        assert(start + Seq::<EntryModel>::empty() =~= start);
    }
    while i < entries.len()
        invariant
            0 <= i <= entries@.len(),
            all == entries.deep_view(),
            start == old(out).deep_view(),
            mine == |e: EntryModel| e.college_id == college_id,
            out.deep_view() == start + all.take(i as int).filter(mine),
        decreases entries@.len() - i,
    {
        let ghost before = out.deep_view();
        proof {
            assert(all.take(i + 1).drop_last() =~= all.take(i as int));
            assert(all.take(i + 1).last() == entries@[i as int].deep_view());
            reveal(Seq::filter);
        }
        if entries[i].college_id == college_id {
            out.push(entries[i].duplicate());
            proof {
                assert(out.deep_view() =~= before.push(entries@[i as int].deep_view()));
                assert(out.deep_view() =~= start + all.take(i + 1).filter(mine));
            }
        }
        i = i + 1;
    }
    proof {
        assert(all.take(all.len() as int) =~= all);
    }
}

impl User {
    /// Copies of the student's checkouts that are out.
    pub fn get_pending_checked_out_items(&self, checkout_log: &CheckoutLog) -> (r: Vec<CheckoutLogEntry>)
        ensures
            r.deep_view() == checkouts_of(
                checkout_log.currently_checked_out.deep_view(),
                self.college_id,
            ),
    {
        let mut out: Vec<CheckoutLogEntry> = Vec::new();
        proof {
            assert(out.deep_view() =~= Seq::<EntryModel>::empty());
        }
        collect_checkouts(&checkout_log.currently_checked_out, self.college_id, &mut out);
        proof {
            assert(Seq::<EntryModel>::empty() + checkouts_of(
                checkout_log.currently_checked_out.deep_view(),
                self.college_id,
            ) =~= checkouts_of(checkout_log.currently_checked_out.deep_view(), self.college_id));
        }
        out
    }

    /// Copies of the student's checkouts: those that are out, then those
    /// that came back.
    pub fn get_all_checked_out_items(&self, checkout_log: &CheckoutLog) -> (r: Vec<CheckoutLogEntry>)
        ensures
            r.deep_view() == checkouts_of(
                checkout_log.currently_checked_out.deep_view(),
                self.college_id,
            ) + checkouts_of(checkout_log.checkout_history.deep_view(), self.college_id),
    {
        let mut out = self.get_pending_checked_out_items(checkout_log);
        collect_checkouts(&checkout_log.checkout_history, self.college_id, &mut out);
        out
    }

    /// Takes over what the other record knows: the passed quizzes become
    /// those that either record names, each once and in the fixed order,
    /// and the level becomes the higher of the two.
    pub fn update_soft_from(&mut self, other: &User)
        ensures
            final(self).deep_view() == (UserModel {
                passed_quizzes: merged_quizzes(old(self).passed_quizzes@, other.passed_quizzes@),
                auth_level: higher_level(old(self).auth_level, other.auth_level),
                ..old(self).deep_view()
            }),
    {
        let ghost a = self.passed_quizzes@;
        let ghost b = other.passed_quizzes@;
        let ghost either = |q: QuizName| a.contains(q) || b.contains(q);
        let order: Vec<QuizName> = vec![
            QuizName::General,
            QuizName::Laser3D,
            QuizName::SprayPaint,
            QuizName::Composite,
            QuizName::Welding,
            QuizName::Studio,
            QuizName::Waterjet,
        ];
        assert(order@ =~= quiz_order());
        let mut merged: Vec<QuizName> = Vec::new();
        let mut i: usize = 0;
        proof {
            assert(order@.take(0).filter(either) =~= Seq::<QuizName>::empty()) by {
                reveal(Seq::filter);
            }
        }
        while i < order.len()
            invariant
                0 <= i <= order@.len(),
                order@ == quiz_order(),
                a == self.passed_quizzes@,
                b == other.passed_quizzes@,
                self.deep_view() == old(self).deep_view(),
                either == |q: QuizName| a.contains(q) || b.contains(q),
                merged@ == order@.take(i as int).filter(either),
            decreases order@.len() - i,
        {
            let q = order[i];
            proof {
                assert(order@.take(i + 1).drop_last() =~= order@.take(i as int));
                reveal(Seq::filter);
            }
            if names_quiz(&self.passed_quizzes, q) || names_quiz(&other.passed_quizzes, q) {
                merged.push(q);
            }
            i = i + 1;
        }
        proof {
            assert(order@.take(order@.len() as int) =~= order@);
        }
        self.passed_quizzes = merged;
        if other.auth_level.rank() > self.auth_level.rank() {
            self.auth_level = other.auth_level;
        }
    }
}

/// The people, by college id.
#[derive(Clone, Debug, Default)]
pub struct Users {
    pub users: HashMap<u64, User>,
}

impl Users {
    /// Nobody.
    pub fn new() -> (r: Users)
        ensures
            r.users@ == Map::<u64, User>::empty(),
            r.wf(),
    {
        Users { users: HashMap::new() }
    }

    /// Whether a person with the user's id is on record.
    pub fn has_user(&self, user: &User) -> (r: bool)
        ensures
            r == self.users@.contains_key(user.college_id),
    {
        broadcast use vstd::std_specs::hash::group_hash_axioms;

        self.users.contains_key(&user.college_id)
    }

    /// A copy of the record of the person with the user's id.
    pub fn get_user(&self, user: &User) -> (r: Option<User>)
        ensures
            r is Some == self.users@.contains_key(user.college_id),
            r is Some ==> r->0.deep_view() == self.users@[user.college_id].deep_view(),
    {
        self.get_user_by_id(&user.college_id)
    }

    /// Puts the record in the place of the one with the same id, or adds it.
    pub fn add_set_user(&mut self, user: User)
        ensures
            final(self).users@ == old(self).users@.insert(user.college_id, user),
            old(self).wf() ==> final(self).wf(),
    {
        broadcast use vstd::std_specs::hash::group_hash_axioms;

        let _ = self.users.insert(user.college_id, user);
    }

    /// A copy of the record of the person with the id.
    pub fn get_user_by_id(&self, id_number: &u64) -> (r: Option<User>)
        ensures
            r is Some == self.users@.contains_key(*id_number),
            r is Some ==> r->0.deep_view() == self.users@[*id_number].deep_view(),
    {
        broadcast use vstd::std_specs::hash::group_hash_axioms;

        match self.users.get(id_number) {
            Some(user) => Some(user.duplicate()),
            None => None,
        }
    }

    /// Takes over the records of the other list: a person who is not on
    /// record yet is added; a person who is takes over what the other record
    /// knows, as `update_soft_from` does; everybody else stays as they are.
    pub fn update_from(&mut self, other: &Users)
        ensures
            final(self).model().dom() == old(self).model().dom().union(other.model().dom()),
            forall|k: u64| #[trigger]
                final(self).model().contains_key(k) ==> final(self).model()[k] == updated_person(
                    old(self).model(),
                    other.model(),
                    k,
                ),
    {
        broadcast use vstd::std_specs::hash::group_hash_axioms;

        let ghost a = self.model();
        let ghost b = other.model();
        let ghost mut seen: Seq<u64> = Seq::empty();
        for key in it: other.users.keys()
            invariant
                a == old(self).model(),
                b == other.model(),
                it.seq().unref().to_set() == other.users@.dom(),
                it.seq().no_duplicates(),
                seen == it.seq().unref().take(it.index()),
                it.index() == it.seq().len() ==> seen.to_set() == other.users@.dom(),
                self.model().dom() == a.dom().union(seen.to_set()),
                forall|k: u64| #[trigger]
                    self.model().contains_key(k) ==> self.model()[k] == (if seen.contains(k) {
                        updated_person(a, b, k)
                    } else {
                        a[k]
                    }),
        {
            let ghost before = self.model();
            let ghost done = seen;
            assert(it.seq().unref()[it.index()] == *key);
            assert(other.users@.contains_key(*key)) by {
                assert(it.seq().unref().to_set().contains(*key));
            }
            assert(!done.contains(*key));
            match other.users.get(key) {
                Some(theirs) => {
                    let merged = match self.users.get(key) {
                        Some(ours) => {
                            let mut current = ours.duplicate();
                            current.update_soft_from(theirs);
                            current
                        },
                        None => theirs.duplicate(),
                    };
                    proof {
                        assert(theirs.deep_view() == b[*key]);
                        if self.users@.contains_key(*key) {
                            assert(before.contains_key(*key));
                            assert(before[*key] == a[*key]);
                            assert(a.contains_key(*key));
                        } else {
                            assert(!before.contains_key(*key));
                            assert(!a.dom().contains(*key));
                        }
                        assert(merged.deep_view() == updated_person(a, b, *key));
                    }
                    let _ = self.users.insert(*key, merged);
                    proof {
                        assert(self.model() =~= before.insert(*key, updated_person(a, b, *key)));
                        seen = done.push(*key);
                        assert(it.seq().unref().take(it.index() + 1) =~= seen);
                        done.lemma_push_to_set_commute(*key);
                        if it.index() + 1 == it.seq().len() {
                            assert(it.seq().unref().take(it.index() + 1) =~= it.seq().unref());
                        }
                        assert forall|k: u64| #[trigger] self.model().contains_key(k) implies self.model()[k]
                            == (if done.push(*key).contains(k) {
                            updated_person(a, b, k)
                        } else {
                            a[k]
                        }) by {
                            vstd::seq_lib::lemma_seq_contains_after_push(done, *key, k);
                            if k != *key {
                                assert(before.contains_key(k));
                            }
                        }
                    }
                },
                None => {
                    assert(false);
                },
            }
        }
        proof {
            assert(other.model().dom() =~= other.users@.dom());
            assert(self.model().dom() =~= a.dom().union(b.dom()));
            assert forall|k: u64| #[trigger] self.model().contains_key(k) implies self.model()[k]
                == updated_person(a, b, k) by {
                if !seen.contains(k) {
                    assert(!seen.to_set().contains(k));
                    assert(!b.contains_key(k));
                    assert(a.dom().union(b.dom()).contains(k));
                }
            }
        }
    }

    /// The number of people on record.
    pub fn len(&self) -> (r: usize)
        ensures
            r == self.users@.len(),
    {
        self.users.len()
    }

    /// Whether a person with the id is on record.
    pub fn has_id(&self, id_number: &u64) -> (r: bool)
        ensures
            r == self.users@.contains_key(*id_number),
    {
        broadcast use vstd::std_specs::hash::group_hash_axioms;

        self.users.contains_key(id_number)
    }
}

/// The person who handed in the answer sheet, as a value.
pub open spec fn newcomer(response: ResponseModel) -> UserModel {
    UserModel {
        name: response.name,
        college_id: response.college_id,
        college_email: response.college_email,
        passed_quizzes: Seq::empty(),
        auth_level: AuthLevel::User,
    }
}

/// The records after one more answer sheet of the quiz was read: its author
/// is on record (as first seen), with the quiz among those passed where the
/// sheet passed.
pub open spec fn recorded(people: Map<u64, UserModel>, response: ResponseModel, quiz: QuizName) -> Map<u64, UserModel> {
    let known = if people.contains_key(response.college_id) {
        people[response.college_id]
    } else {
        newcomer(response)
    };
    people.insert(
        response.college_id,
        UserModel {
            passed_quizzes: if response.passed {
                known.passed_quizzes.push(quiz)
            } else {
                known.passed_quizzes
            },
            ..known
        },
    )
}

/// The records after the first `n` answer sheets of a quiz were read.
pub open spec fn tally_quiz(people: Map<u64, UserModel>, responses: Seq<ResponseModel>, quiz: QuizName, n: nat) -> Map<u64, UserModel>
    decreases n,
{
    if n == 0 {
        people
    } else {
        recorded(tally_quiz(people, responses, quiz, (n - 1) as nat), responses[n - 1], quiz)
    }
}

/// The records after the first `n` quizzes were read, from nobody on.
pub open spec fn tally(quizzes: Seq<Quiz>, n: nat) -> Map<u64, UserModel>
    decreases n,
{
    if n == 0 {
        Map::empty()
    } else {
        tally_quiz(
            tally(quizzes, (n - 1) as nat),
            quizzes[n - 1].responses.deep_view(),
            quizzes[n - 1].name,
            quizzes[n - 1].responses@.len(),
        )
    }
}

/// What a record takes over from another: the passed quizzes of both,
/// each once and in the fixed order, and the higher level.
pub open spec fn soft_merged(ours: UserModel, theirs: UserModel) -> UserModel {
    UserModel {
        passed_quizzes: merged_quizzes(ours.passed_quizzes, theirs.passed_quizzes),
        auth_level: higher_level(ours.auth_level, theirs.auth_level),
        ..ours
    }
}

/// The record under an id after the records of another list were taken
/// over.
pub open spec fn updated_person(ours: Map<u64, UserModel>, theirs: Map<u64, UserModel>, k: u64) -> UserModel {
    if !ours.contains_key(k) {
        theirs[k]
    } else if theirs.contains_key(k) {
        soft_merged(ours[k], theirs[k])
    } else {
        ours[k]
    }
}

impl Users {
    /// The records as values.
    pub open spec fn model(&self) -> Map<u64, UserModel> {
        self.users@.map_values(|u: User| u.deep_view())
    }

    /// Every record is filed under its own id.
    pub open spec fn wf(&self) -> bool {
        forall|k: u64| #[trigger] self.users@.contains_key(k) ==> self.users@[k].college_id == k
    }
}

/// The people who handed in answer sheets, each with the quizzes they
/// passed, in the order in which the sheets are read: quiz by quiz, sheet by
/// sheet.
pub fn create_users_from_quizzes(quizzes: &Vec<Quiz>) -> (r: Users)
    ensures
        r.model() == tally(quizzes@, quizzes@.len()),
        r.wf(),
{
    let mut users = Users::new();
    proof {
        assert(users.model() =~= Map::<u64, UserModel>::empty());
    }
    let mut q: usize = 0;
    while q < quizzes.len()
        invariant
            0 <= q <= quizzes@.len(),
            users.model() == tally(quizzes@, q as nat),
            users.wf(),
        decreases quizzes@.len() - q,
    {
        let quiz = &quizzes[q];
        let ghost start = users.model();
        let mut i: usize = 0;
        while i < quiz.responses.len()
            invariant
                0 <= i <= quiz.responses@.len(),
                users.model() == tally_quiz(start, quiz.responses.deep_view(), quiz.name, i as nat),
                users.wf(),
            decreases quiz.responses@.len() - i,
        {
            let response = &quiz.responses[i];
            let ghost before = users.model();
            let mut user = match users.get_user_by_id(&response.college_id) {
                Some(known) => known,
                None => User::from_response(response),
            };
            user.log_quiz(quiz.name, response.passed);
            proof {
                assert(user.college_id == response.college_id);
                assert(quiz.responses.deep_view()[i as int] == response.deep_view());
            }
            users.add_set_user(user);
            proof {
                assert(users.model() =~= recorded(before, response.deep_view(), quiz.name));
            }
            i = i + 1;
        }
        q = q + 1;
    }
    users
}

} // verus!
