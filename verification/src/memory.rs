//! A store that keeps its rows in memory.
//!
//! It stands where a relational engine would, for callers that want the
//! contract of the stores without a database: it assigns keys and creation
//! times, lets no key name two rows, refuses an answer whose question is not
//! stored, and deletes the answers of a question together with the question.
//!
//! A key is drawn at random. Where the key drawn is in use, the store takes
//! the key after the largest one in use instead, so that creating a row
//! fails for want of a key only in a store that holds the last key there is.

use vstd::prelude::*;
use crate::clock::timestamp_now;
use crate::identifier::{has_uuid_length, new_uuid, parse_identifier, uuid_parse};
use crate::models::postgres_error_codes::{FOREIGN_KEY_VIOLATION, UNIQUE_VIOLATION};
use crate::models::{Answer, AnswerDetail, DBError, DBErrorView, Question, QuestionDetail};
use crate::persistance::answers_dao::{
    answer_row, create_answer_outcome, delete_answer_outcome, get_answers_outcome, AnswersDao,
};
use crate::persistance::questions_dao::{
    create_question_outcome, delete_question_outcome, get_questions_outcome, question_row,
    QuestionsDao,
};
use crate::rows::lemma_filter_step;
use crate::storage::{
    answer_key, answer_other_than, answer_to, answer_to_other_than, question_key,
    question_other_than, AnswerRow, AnswerRowView, QuestionRow, QuestionRowView, StorageFailure,
    StorageFailureView, Tables,
};

verus! {

/// What the store says of a key that is already in use.
pub const KEY_IN_USE: &'static str = "duplicate key value violates unique constraint";

/// What the store says of an answer whose question is not stored.
pub const QUESTION_MISSING: &'static str =
    "insert on table \"answers\" violates foreign key constraint";

/// The failure with which the store refuses a key that is already in use.
pub open spec fn unique_violation() -> StorageFailureView {
    StorageFailureView { code: Some(UNIQUE_VIOLATION@), message: KEY_IN_USE@ }
}

/// The failure with which the store refuses an answer whose question is not
/// stored.
pub open spec fn foreign_key_violation() -> StorageFailureView {
    StorageFailureView { code: Some(FOREIGN_KEY_VIOLATION@), message: QUESTION_MISSING@ }
}

/// A choice among the rows of a table, made by a key.
trait Choice<T: DeepView> {
    /// The rows that the choice keeps.
    spec fn keep(&self) -> spec_fn(T::V) -> bool;

    /// Whether the choice keeps `row`.
    fn keeps(&self, row: &T) -> (kept: bool)
        ensures
            kept == self.keep()(row.deep_view()),
    ;

    /// A copy of `row`.
    fn copy(row: &T) -> (copied: T)
        ensures
            copied.deep_view() == row.deep_view(),
    ;
}

/// The question rows with another key than this one.
struct QuestionsOtherThan(u128);

impl Choice<QuestionRow> for QuestionsOtherThan {
    spec fn keep(&self) -> spec_fn(QuestionRowView) -> bool {
        question_other_than(self.0)
    }

    fn keeps(&self, row: &QuestionRow) -> (kept: bool) {
        row.question_uuid != self.0
    }

    fn copy(row: &QuestionRow) -> (copied: QuestionRow) {
        row.clone()
    }
}

/// The answer rows with another key than this one, those that refer to the
/// question with this key, or those that refer to another question.
enum Answers {
    OtherThan(u128),
    To(u128),
    ToOtherThan(u128),
}

impl Choice<AnswerRow> for Answers {
    spec fn keep(&self) -> spec_fn(AnswerRowView) -> bool {
        match self {
            Answers::OtherThan(answer_uuid) => answer_other_than(*answer_uuid),
            Answers::To(question_uuid) => answer_to(*question_uuid),
            Answers::ToOtherThan(question_uuid) => answer_to_other_than(*question_uuid),
        }
    }

    fn keeps(&self, row: &AnswerRow) -> (kept: bool) {
        match self {
            Answers::OtherThan(answer_uuid) => row.answer_uuid != *answer_uuid,
            Answers::To(question_uuid) => row.question_uuid == *question_uuid,
            Answers::ToOtherThan(question_uuid) => row.question_uuid != *question_uuid,
        }
    }

    fn copy(row: &AnswerRow) -> (copied: AnswerRow) {
        row.clone()
    }
}

/// The rows that a choice keeps, in their order.
fn chosen<T: DeepView, C: Choice<T>>(rows: &Vec<T>, choice: &C) -> (kept: Vec<T>)
    ensures
        kept.deep_view() == rows.deep_view().filter(choice.keep()),
{
    let ghost all = rows.deep_view();
    let ghost keep = choice.keep();
    let mut kept: Vec<T> = Vec::new();
    let mut i: usize = 0;
    assert(all.take(0).filter(keep) =~= Seq::empty()) by {
        reveal(Seq::filter);
    }
    while i < rows.len()
        invariant
            i <= rows.len(),
            all == rows.deep_view(),
            keep == choice.keep(),
            kept.deep_view() =~= all.take(i as int).filter(keep),
        decreases rows.len() - i,
    {
        proof {
            lemma_filter_step(all, keep, i as int);
        }
        if choice.keeps(&rows[i]) {
            let ghost before = kept.deep_view();
            kept.push(C::copy(&rows[i]));
            assert(kept.deep_view() =~= before.push(all[i as int]));
        }
        i += 1;
    }
    assert(all.take(rows.len() as int) =~= all);
    kept
}

/// The rows of both tables, in the order in which they were stored.
pub struct MemoryStore {
    questions: Vec<QuestionRow>,
    answers: Vec<AnswerRow>,
}

impl View for MemoryStore {
    type V = Tables;

    closed spec fn view(&self) -> Tables {
        Tables { questions: self.questions.deep_view(), answers: self.answers.deep_view() }
    }
}

impl MemoryStore {
    /// A store without rows.
    pub fn new() -> (store: Self)
        ensures
            store@ == Tables::empty(),
    {
        let store = MemoryStore { questions: Vec::new(), answers: Vec::new() };
        assert(store@.questions =~= Seq::empty());
        assert(store@.answers =~= Seq::empty());
        store
    }

    /// Whether a question with this key is stored.
    pub fn holds_question(&self, question_uuid: u128) -> (held: bool)
        ensures
            held == self@.has_question(question_uuid),
    {
        let mut i: usize = 0;
        while i < self.questions.len()
            invariant
                i <= self.questions.len(),
                forall|j: int| 0 <= j < i ==> self.questions[j].question_uuid != question_uuid,
            decreases self.questions.len() - i,
        {
            if self.questions[i].question_uuid == question_uuid {
                assert(question_key()(self@.questions[i as int]) == question_uuid);
                return true;
            }
            i += 1;
        }
        assert forall|j: int| 0 <= j < self@.questions.len() implies question_key()(
            #[trigger] self@.questions[j],
        ) != question_uuid by {
            assert(self.questions[j].question_uuid != question_uuid);
        }
        false
    }

    /// Whether an answer with this key is stored.
    pub fn holds_answer(&self, answer_uuid: u128) -> (held: bool)
        ensures
            held == self@.has_answer(answer_uuid),
    {
        let mut i: usize = 0;
        while i < self.answers.len()
            invariant
                i <= self.answers.len(),
                forall|j: int| 0 <= j < i ==> self.answers[j].answer_uuid != answer_uuid,
            decreases self.answers.len() - i,
        {
            if self.answers[i].answer_uuid == answer_uuid {
                assert(answer_key()(self@.answers[i as int]) == answer_uuid);
                return true;
            }
            i += 1;
        }
        assert forall|j: int| 0 <= j < self@.answers.len() implies answer_key()(
            #[trigger] self@.answers[j],
        ) != answer_uuid by {
            assert(self.answers[j].answer_uuid != answer_uuid);
        }
        false
    }
    /// Whether a question or an answer with this key is stored.
    pub fn holds_key(&self, key: u128) -> (held: bool)
        ensures
            held == self@.has_key(key),
    {
        self.holds_question(key) || self.holds_answer(key)
    }

    /// The largest key in use, or zero where no row is stored.
    fn largest_key(&self) -> (largest: u128)
        ensures
            forall|key: u128| #[trigger] self@.has_key(key) ==> key <= largest,
            largest == 0 || self@.has_key(largest),
    {
        let mut largest: u128 = 0;
        let mut i: usize = 0;
        while i < self.questions.len()
            invariant
                i <= self.questions.len(),
                forall|j: int| 0 <= j < i ==> self.questions[j].question_uuid <= largest,
                largest == 0 || self@.has_key(largest),
            decreases self.questions.len() - i,
        {
            if self.questions[i].question_uuid > largest {
                largest = self.questions[i].question_uuid;
                assert(question_key()(self@.questions[i as int]) == largest);
            }
            i += 1;
        }
        let mut k: usize = 0;
        while k < self.answers.len()
            invariant
                k <= self.answers.len(),
                forall|j: int|
                    0 <= j < self.questions.len() ==> self.questions[j].question_uuid <= largest,
                forall|j: int| 0 <= j < k ==> self.answers[j].answer_uuid <= largest,
                largest == 0 || self@.has_key(largest),
            decreases self.answers.len() - k,
        {
            if self.answers[k].answer_uuid > largest {
                largest = self.answers[k].answer_uuid;
                assert(answer_key()(self@.answers[k as int]) == largest);
            }
            k += 1;
        }
        assert forall|key: u128| #[trigger] self@.has_key(key) implies key <= largest by {
            if self@.has_question(key) {
                let j = choose|j: int|
                    0 <= j < self@.questions.len() && question_key()(#[trigger] self@.questions[j])
                        == key;
                assert(self.questions[j].question_uuid == key);
            } else {
                let j = choose|j: int|
                    0 <= j < self@.answers.len() && answer_key()(#[trigger] self@.answers[j])
                        == key;
                assert(self.answers[j].answer_uuid == key);
            }
        }
        largest
    }

    /// The key under which the next row is stored, from the key that was
    /// drawn for it: the key drawn where it is free, else the key after the
    /// largest one in use. Where the key drawn is in use and the largest key
    /// in use is the last one there is, no free key is looked for, and the
    /// key drawn is handed back.
    pub fn assign_key(&self, drawn: u128) -> (key: u128)
        ensures
            !self@.has_key(drawn) ==> key == drawn,
            self@.has_key(drawn) && !self@.has_key(u128::MAX) ==> !self@.has_key(key) && key > 0
                && self@.is_largest_key((key - 1) as u128),
            self@.has_key(drawn) && self@.has_key(u128::MAX) ==> key == drawn,
    {
        if !self.holds_key(drawn) {
            return drawn;
        }
        let largest = self.largest_key();
        if largest < u128::MAX {
            largest + 1
        } else {
            drawn
        }
    }

    /// Stores a question under the key and the creation time given, as the
    /// engine does with those it assigned. A key that is in use, by a
    /// question or by an answer, is refused as a unique violation.
    pub fn insert_question(
        &mut self,
        title: String,
        description: String,
        question_uuid: u128,
        created_at: String,
    ) -> (outcome: Result<QuestionRow, StorageFailure>)
        requires
            old(self)@.wf(),
        ensures
            final(self)@.wf(),
            match outcome {
                Ok(row) => {
                    &&& !old(self)@.has_key(question_uuid)
                    &&& row@ == (QuestionRowView {
                        question_uuid,
                        title: title@,
                        description: description@,
                        created_at: created_at@,
                    })
                    &&& final(self)@ == old(self)@.with_question(row@)
                },
                Err(cause) => {
                    &&& old(self)@.has_key(question_uuid)
                    &&& cause@ == unique_violation()
                    &&& final(self)@ == old(self)@
                },
            },
    {
        if self.holds_key(question_uuid) {
            return Err(
                StorageFailure {
                    code: Some(UNIQUE_VIOLATION.to_owned()),
                    message: KEY_IN_USE.to_owned(),
                },
            );
        }
        let row = QuestionRow { question_uuid, title, description, created_at };
        proof {
            old(self)@.lemma_with_question(row@);
        }
        self.questions.push(row.clone());
        assert(self@.questions =~= old(self)@.questions.push(row@));
        Ok(row)
    }

    /// All question rows, in the order in which they were stored.
    pub fn select_questions(&self) -> (rows: Vec<QuestionRow>)
        ensures
            rows.deep_view() == self@.questions,
    {
        let mut rows: Vec<QuestionRow> = Vec::new();
        let mut i: usize = 0;
        while i < self.questions.len()
            invariant
                i <= self.questions.len(),
                rows.len() == i,
                forall|j: int| 0 <= j < i ==> rows[j] == self.questions[j],
            decreases self.questions.len() - i,
        {
            rows.push(self.questions[i].clone());
            i += 1;
        }
        assert(rows.deep_view() =~= self@.questions);
        rows
    }

    /// Deletes the question with this key, and with it the answers that
    /// refer to it. Returns the number of question rows deleted.
    pub fn remove_question(&mut self, question_uuid: u128) -> (rows_affected: u64)
        requires
            old(self)@.wf(),
        ensures
            final(self)@.wf(),
            final(self)@ == old(self)@.without_question(question_uuid),
            rows_affected == if old(self)@.has_question(question_uuid) {
                1u64
            } else {
                0u64
            },
    {
        let rows_affected: u64 = if self.holds_question(question_uuid) {
            1
        } else {
            0
        };
        let questions = chosen(&self.questions, &QuestionsOtherThan(question_uuid));
        let answers = chosen(&self.answers, &Answers::ToOtherThan(question_uuid));
        proof {
            old(self)@.lemma_without_question(question_uuid);
        }
        self.questions = questions;
        self.answers = answers;
        rows_affected
    }

    /// Stores an answer under the key and the creation time given, as the
    /// engine does with those it assigned. An answer to a question that is
    /// not stored is refused as a foreign-key violation, a key that is in
    /// use, by a question or by an answer, as a unique violation.
    pub fn insert_answer(
        &mut self,
        question_uuid: u128,
        content: String,
        answer_uuid: u128,
        created_at: String,
    ) -> (outcome: Result<AnswerRow, StorageFailure>)
        requires
            old(self)@.wf(),
        ensures
            final(self)@.wf(),
            match outcome {
                Ok(row) => {
                    &&& old(self)@.has_question(question_uuid)
                    &&& !old(self)@.has_key(answer_uuid)
                    &&& row@ == (AnswerRowView {
                        answer_uuid,
                        question_uuid,
                        content: content@,
                        created_at: created_at@,
                    })
                    &&& final(self)@ == old(self)@.with_answer(row@)
                },
                Err(cause) => {
                    &&& final(self)@ == old(self)@
                    &&& if old(self)@.has_question(question_uuid) {
                        old(self)@.has_key(answer_uuid) && cause@ == unique_violation()
                    } else {
                        cause@ == foreign_key_violation()
                    }
                },
            },
    {
        if !self.holds_question(question_uuid) {
            return Err(
                StorageFailure {
                    code: Some(FOREIGN_KEY_VIOLATION.to_owned()),
                    message: QUESTION_MISSING.to_owned(),
                },
            );
        }
        if self.holds_key(answer_uuid) {
            return Err(
                StorageFailure {
                    code: Some(UNIQUE_VIOLATION.to_owned()),
                    message: KEY_IN_USE.to_owned(),
                },
            );
        }
        let row = AnswerRow { answer_uuid, question_uuid, content, created_at };
        proof {
            old(self)@.lemma_with_answer(row@);
        }
        self.answers.push(row.clone());
        assert(self@.answers =~= old(self)@.answers.push(row@));
        Ok(row)
    }

    /// The answer rows that refer to the question with this key, in the
    /// order in which they were stored.
    pub fn select_answers(&self, question_uuid: u128) -> (rows: Vec<AnswerRow>)
        ensures
            rows.deep_view() == self@.answers_to(question_uuid),
    {
        chosen(&self.answers, &Answers::To(question_uuid))
    }

    /// Deletes the answer with this key. Returns the number of rows deleted.
    pub fn remove_answer(&mut self, answer_uuid: u128) -> (rows_affected: u64)
        requires
            old(self)@.wf(),
        ensures
            final(self)@.wf(),
            final(self)@ == old(self)@.without_answer(answer_uuid),
            rows_affected == if old(self)@.has_answer(answer_uuid) {
                1u64
            } else {
                0u64
            },
    {
        let rows_affected: u64 = if self.holds_answer(answer_uuid) {
            1
        } else {
            0
        };
        let answers = chosen(&self.answers, &Answers::OtherThan(answer_uuid));
        proof {
            old(self)@.lemma_without_answer(answer_uuid);
        }
        self.answers = answers;
        rows_affected
    }
}

impl QuestionsDao for MemoryStore {
    /// Stores the question with the time of the call, under a random key
    /// or, where that key is in use, under the key that [`assign_key`]
    /// names. Succeeds in every store in which the last key there is, is
    /// free; fails elsewhere, as a unique violation, only where the key
    /// drawn is in use.
    ///
    /// [`assign_key`]: MemoryStore::assign_key
    fn create_question(&mut self, question: Question) -> (r: Result<QuestionDetail, DBError>)
        ensures
            match r {
                Ok(record) => final(self)@ == old(self)@.with_question(question_row(record@)),
                Err(e) => e@ == DBErrorView::Other(unique_violation()) && final(self)@ == old(
                    self,
                )@,
            },
            !old(self)@.has_key(u128::MAX) ==> r is Ok,
    {
        let key = self.assign_key(new_uuid());
        let outcome = self.insert_question(
            question.title,
            question.description,
            key,
            timestamp_now(),
        );
        create_question_outcome(outcome)
    }

    /// Succeeds exactly where `question_uuid` is the text of the key of a
    /// stored question, and fails with [`DBError::InvalidUUID`] elsewhere.
    fn delete_question(&mut self, question_uuid: String) -> (r: Result<(), DBError>)
        ensures
            match uuid_parse(question_uuid@) {
                Some(key) => {
                    &&& r is Ok <==> old(self)@.has_question(key)
                    &&& final(self)@ == old(self)@.without_question(key)
                },
                None => final(self)@ == old(self)@,
            },
            r matches Err(e) ==> e@ == DBErrorView::InvalidUUID(question_uuid@) && final(self)@
                == old(self)@,
            r is Ok ==> has_uuid_length(question_uuid@),
    {
        match parse_identifier(question_uuid.as_str()) {
            Err(e) => Err(e),
            Ok(key) => {
                proof {
                    if !self@.has_question(key) {
                        self@.lemma_without_absent_question(key);
                    }
                }
                let rows_affected = self.remove_question(key);
                delete_question_outcome(question_uuid, Ok(rows_affected))
            },
        }
    }

    /// Never fails.
    fn get_questions(&self) -> (r: Result<Vec<QuestionDetail>, DBError>)
        ensures
            r is Ok,
    {
        get_questions_outcome(Ok(self.select_questions()))
    }
}

impl AnswersDao for MemoryStore {
    /// Stores the answer with the time of the call, under a random key or,
    /// where that key is in use, under the key that [`assign_key`] names.
    /// Where the question is stored it succeeds in every store in which the
    /// last key there is, is free; it fails elsewhere, as a unique
    /// violation, only where the key drawn is in use.
    ///
    /// [`assign_key`]: MemoryStore::assign_key
    fn create_answer(&mut self, answer: Answer) -> (r: Result<AnswerDetail, DBError>)
        ensures
            match r {
                Ok(record) => final(self)@ == old(self)@.with_answer(answer_row(record@)),
                Err(e) => {
                    &&& final(self)@ == old(self)@
                    &&& match uuid_parse(answer.question_uuid@) {
                        Some(key) => if old(self)@.has_question(key) {
                            e@ == DBErrorView::Other(unique_violation())
                        } else {
                            e@ == DBErrorView::InvalidUUID(answer.question_uuid@)
                        },
                        None => e@ == DBErrorView::InvalidUUID(answer.question_uuid@),
                    }
                },
            },
            uuid_parse(answer.question_uuid@) matches Some(key) && old(self)@.has_question(key)
                && !old(self)@.has_key(u128::MAX) ==> r is Ok,
            r is Ok ==> has_uuid_length(answer.question_uuid@),
    {
        match parse_identifier(answer.question_uuid.as_str()) {
            Err(e) => Err(e),
            Ok(question_key) => {
                let key = self.assign_key(new_uuid());
                let outcome = self.insert_answer(
                    question_key,
                    answer.content,
                    key,
                    timestamp_now(),
                );
                proof {
                    reveal_strlit("23503");
                    reveal_strlit("23505");
                    assert(UNIQUE_VIOLATION@[4] != FOREIGN_KEY_VIOLATION@[4]);
                }
                create_answer_outcome(answer.question_uuid, outcome)
            },
        }
    }

    /// Succeeds exactly where `answer_uuid` is the text of the key of a
    /// stored answer, and fails with [`DBError::InvalidUUID`] elsewhere.
    fn delete_answer(&mut self, answer_uuid: String) -> (r: Result<(), DBError>)
        ensures
            match uuid_parse(answer_uuid@) {
                Some(key) => {
                    &&& r is Ok <==> old(self)@.has_answer(key)
                    &&& final(self)@ == old(self)@.without_answer(key)
                },
                None => final(self)@ == old(self)@,
            },
            r matches Err(e) ==> e@ == DBErrorView::InvalidUUID(answer_uuid@) && final(self)@
                == old(self)@,
            r is Ok ==> has_uuid_length(answer_uuid@),
    {
        match parse_identifier(answer_uuid.as_str()) {
            Err(e) => Err(e),
            Ok(key) => {
                proof {
                    if !self@.has_answer(key) {
                        self@.lemma_without_absent_answer(key);
                    }
                }
                let rows_affected = self.remove_answer(key);
                delete_answer_outcome(answer_uuid, Ok(rows_affected))
            },
        }
    }

    /// Fails only where `question_uuid` is not the text of a UUID.
    fn get_answers(&self, question_uuid: String) -> (r: Result<Vec<AnswerDetail>, DBError>)
        ensures
            r is Ok <==> uuid_parse(question_uuid@) is Some,
            r is Ok ==> has_uuid_length(question_uuid@),
    {
        match parse_identifier(question_uuid.as_str()) {
            Err(e) => Err(e),
            Ok(key) => get_answers_outcome(Ok(self.select_answers(key))),
        }
    }
}

} // verus!
