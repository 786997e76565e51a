//! The safety quizzes and the answers handed in for them.

use vstd::prelude::*;
use vstd::string::StringExecFns;
use crate::text::{
    keep_numeric, numeric_part, parse_u64, parsed_u64, same_text, split_pieces, split_text, trim_text,
    trimmed,
};

verus! {

/// The safety quizzes of the makerspace.
#[derive(Clone, Copy, Debug, PartialEq, Eq, Structural)]
pub enum QuizName {
    General,
    Laser3D,
    SprayPaint,
    Composite,
    Welding,
    Studio,
    Waterjet,
}

impl Default for QuizName {
    fn default() -> (r: QuizName)
        ensures
            r == QuizName::General,
    {
        QuizName::General
    }
}

/// One answer sheet handed in for a quiz.
#[derive(Clone, Debug, Default)]
pub struct Response {
    pub timestamp: String,
    pub name: String,
    pub college_id: u64,
    pub college_email: String,
    pub passed: bool,
}

/// An answer sheet as a value.
pub struct ResponseModel {
    pub timestamp: Seq<char>,
    pub name: Seq<char>,
    pub college_id: u64,
    pub college_email: Seq<char>,
    pub passed: bool,
}

impl DeepView for Response {
    type V = ResponseModel;

    open spec fn deep_view(&self) -> ResponseModel {
        ResponseModel {
            timestamp: self.timestamp@,
            name: self.name@,
            college_id: self.college_id,
            college_email: self.college_email@,
            passed: self.passed,
        }
    }
}

/// Whether the pieces of a score, cut at the slash, show a pass: there are
/// at least two and the first two are the same but for white space at their
/// ends. A score without a slash is no pass.
pub open spec fn score_passes(pieces: Seq<Seq<char>>) -> bool {
    pieces.len() >= 2 && trimmed(pieces[0]) == trimmed(pieces[1])
}

/// The college id that a cell gives: the number read from the numeric
/// characters before the first hyphen; 0 where none can be read.
pub open spec fn college_id_of(cell: Seq<char>) -> u64 {
    let pieces = split_pieces(cell, seq!['-']);
    if pieces.len() == 0 {
        0
    } else {
        match parsed_u64(numeric_part(pieces[0])) {
            Some(id) => id,
            None => 0,
        }
    }
}

/// The answer sheet that a row of the quiz's sheet describes, as a value.
pub open spec fn response_of_row(row: Seq<Seq<char>>) -> ResponseModel {
    ResponseModel {
        timestamp: row[0],
        passed: score_passes(split_pieces(row[1], seq!['/'])),
        name: row[2],
        college_id: college_id_of(row[3]),
        college_email: row[4],
    }
}

impl Response {
    /// The answer sheet that a row of the quiz's sheet describes: time,
    /// score, name, college id and email, in this order.
    pub fn new_from_line(line: Vec<String>) -> (r: Response)
        requires
            line@.len() >= 5,
        ensures
            r.deep_view() == response_of_row(line.deep_view()),
    {
        proof {
            let row = line.deep_view();
            assert(forall|i: int| 0 <= i < 5 ==> row[i] == #[trigger] line@[i]@);
        }
        Response {
            timestamp: line[0].clone(),
            passed: Response::determine_if_passed(line[1].clone()),
            name: line[2].clone(),
            college_id: Response::parse_college_id(line[3].clone()),
            college_email: line[4].clone(),
        }
    }

    /// The college id that a cell gives: what stands after the first hyphen
    /// is dropped, every character that is not numeric is struck, and the
    /// rest is read as a number; 0 where it cannot be read.
    pub fn parse_college_id(id_str: String) -> (r: u64)
        ensures
            r == college_id_of(id_str@),
    {
        let mut hyphen: Vec<char> = Vec::new();
        hyphen.push('-');
        assert(hyphen@ =~= seq!['-']);
        let pieces = split_text(id_str.as_str(), &hyphen);
        if pieces.len() == 0 {
            return 0;
        }
        assert(pieces.deep_view()[0] == pieces@[0]@);
        let digits = keep_numeric(pieces[0].as_str());
        match parse_u64(digits.as_str()) {
            Some(id) => id,
            None => 0,
        }
    }

    /// Whether a score such as `100 / 100` shows a pass: whether its two
    /// sides are the same.
    pub fn determine_if_passed(score_str: String) -> (r: bool)
        ensures
            r == score_passes(split_pieces(score_str@, seq!['/'])),
    {
        let mut slash: Vec<char> = Vec::new();
        slash.push('/');
        assert(slash@ =~= seq!['/']);
        let score = split_text(score_str.as_str(), &slash);
        passed_from_pieces(&score)
    }
}

/// Whether the pieces of a score show a pass.
pub fn passed_from_pieces(pieces: &Vec<String>) -> (r: bool)
    ensures
        r == score_passes(pieces.deep_view()),
{
    if pieces.len() < 2 {
        return false;
    }
    assert(pieces.deep_view()[0] == pieces@[0]@);
    assert(pieces.deep_view()[1] == pieces@[1]@);
    let left = trim_text(pieces[0].as_str());
    let right = trim_text(pieces[1].as_str());
    same_text(left.as_str(), right.as_str())
}

/// A quiz with the answer sheets that were read for it.
#[derive(Clone, Debug, Default)]
pub struct Quiz {
    pub last_updated: u64,
    pub responses: Vec<Response>,
    pub id: String,
    pub name: QuizName,
}

/// Some answer sheet among `responses` is the student's.
pub open spec fn answered_by(responses: Seq<Response>, college_id: u64) -> bool {
    exists|i: int| 0 <= i < responses.len() && (#[trigger] responses[i]).college_id == college_id
}

impl Quiz {
    /// A quiz that has not been read yet.
    pub fn new(id: &str, name: QuizName) -> (r: Quiz)
        ensures
            r.last_updated == 0,
            r.responses@.len() == 0,
            r.id@ == id@,
            r.name == name,
    {
        Quiz { last_updated: 0, responses: Vec::new(), id: id.to_owned(), name }
    }

    /// Whether an answer sheet of the student is on record for this quiz.
    pub fn passed_by(&self, college_id: &u64) -> (r: bool)
        ensures
            r == answered_by(self.responses@, *college_id),
    {
        let mut i: usize = 0;
        while i < self.responses.len()
            invariant
                0 <= i <= self.responses@.len(),
                forall|j: int| 0 <= j < i ==> (#[trigger] self.responses@[j]).college_id != *college_id,
            decreases self.responses@.len() - i,
        {
            if self.responses[i].college_id == *college_id {
                return true;
            }
            i = i + 1;
        }
        false
    }

    /// Replaces the answer sheets by those that the rows of the sheet
    /// describe, read at `now`.
    pub fn set_responses(&mut self, rows: &Vec<Vec<String>>, now: u64)
        requires
            forall|i: int| 0 <= i < rows@.len() ==> (#[trigger] rows@[i])@.len() >= 5,
        ensures
            final(self).responses.deep_view() == Seq::new(
                rows@.len(),
                |i: int| response_of_row(rows.deep_view()[i]),
            ),
            final(self).last_updated == now,
            final(self).id@ == old(self).id@,
            final(self).name == old(self).name,
    {
        let ghost cells = rows.deep_view();
        let mut responses: Vec<Response> = Vec::new();
        let mut i: usize = 0;
        while i < rows.len()
            invariant
                0 <= i <= rows@.len(),
                cells == rows.deep_view(),
                forall|k: int| 0 <= k < rows@.len() ==> (#[trigger] rows@[k])@.len() >= 5,
                responses@.len() == i,
                forall|k: int|
                    0 <= k < i ==> (#[trigger] responses@[k]).deep_view() == response_of_row(cells[k]),
            decreases rows@.len() - i,
        {
            assert(cells[i as int] == rows@[i as int].deep_view());
            let line = crate::ids::copy_texts(&rows[i]);
            assert(line@.len() == line.deep_view().len());
            responses.push(Response::new_from_line(line));
            i = i + 1;
        }
        proof {
            assert(responses.deep_view() =~= Seq::new(
                rows@.len(),
                |i: int| response_of_row(cells[i]),
            ));
        }
        self.responses = responses;
        self.last_updated = now;
    }

    pub fn get_responses(&self) -> (r: &Vec<Response>)
        ensures
            *r == self.responses,
    {
        &self.responses
    }

    pub fn get_name(&self) -> (r: &QuizName)
        ensures
            *r == self.name,
    {
        &self.name
    }
}

/// The address of the published sheet, up to the quiz's id.
pub open spec fn quiz_url_head() -> Seq<char> {
    "https://docs.google.com/spreadsheets/d/e/2PACX-1vRyOdR5ZzocTVLi02rPVQPVwoGyuPrGmULHznFB66pDnqsWrCWVTi5JM5KCbBn8oMVLa-vwIS3RvK6z/pub?gid="@
}

/// The address of the published sheet, after the quiz's id.
pub open spec fn quiz_url_tail() -> Seq<char> {
    "&single=true&output=csv"@
}

/// The address at which the answers of a quiz are published.
pub fn get_quiz_url(quiz_id: &str) -> (r: String)
    ensures
        r@ == quiz_url_head() + quiz_id@ + quiz_url_tail(),
{
    "https://docs.google.com/spreadsheets/d/e/2PACX-1vRyOdR5ZzocTVLi02rPVQPVwoGyuPrGmULHznFB66pDnqsWrCWVTi5JM5KCbBn8oMVLa-vwIS3RvK6z/pub?gid=".to_owned().concat(
        quiz_id,
    ).concat("&single=true&output=csv")
}

/// The seven quizzes, none of them read yet, in the order of `QuizName`.
pub fn get_all_quizzes() -> (r: Vec<Quiz>)
    ensures
        r@.len() == 7,
        r@[0].name == QuizName::General && r@[0].id@ == "66546920"@,
        r@[1].name == QuizName::Laser3D && r@[1].id@ == "1524924728"@,
        r@[2].name == QuizName::SprayPaint && r@[2].id@ == "1841312496"@,
        r@[3].name == QuizName::Composite && r@[3].id@ == "913890505"@,
        r@[4].name == QuizName::Welding && r@[4].id@ == "482685426"@,
        r@[5].name == QuizName::Studio && r@[5].id@ == "2079405017"@,
        r@[6].name == QuizName::Waterjet && r@[6].id@ == "2100779718"@,
        forall|i: int| 0 <= i < 7 ==> (#[trigger] r@[i]).last_updated == 0 && r@[i].responses@.len() == 0,
{
    let mut quizzes: Vec<Quiz> = Vec::new();
    quizzes.push(Quiz::new("66546920", QuizName::General));
    quizzes.push(Quiz::new("1524924728", QuizName::Laser3D));
    quizzes.push(Quiz::new("1841312496", QuizName::SprayPaint));
    quizzes.push(Quiz::new("913890505", QuizName::Composite));
    quizzes.push(Quiz::new("482685426", QuizName::Welding));
    quizzes.push(Quiz::new("2079405017", QuizName::Studio));
    quizzes.push(Quiz::new("2100779718", QuizName::Waterjet));
    quizzes
}

} // verus!
