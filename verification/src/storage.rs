//! The relational engine as the stores see it: the rows it hands out, the
//! failures it reports, and a model of its two tables.

use vstd::prelude::*;
use crate::models::postgres_error_codes::FOREIGN_KEY_VIOLATION;
use crate::rows::{
    distinct_keys, has_key, lemma_filter_all, lemma_filter_contains, lemma_filter_distinct,
    lemma_filter_has_key,
};

verus! {

/// A failure reported by the storage engine or by the connection to it.
///
/// `code` is the engine's structured error code (its SQLSTATE) where the
/// engine itself refused the statement, and `None` where the failure arose
/// before the engine answered. `message` is kept for logging only.
#[derive(Debug, PartialEq)]
pub struct StorageFailure {
    pub code: Option<String>,
    pub message: String,
}

impl Clone for StorageFailure {
    fn clone(&self) -> (copy: Self)
        ensures
            copy == *self,
    {
        StorageFailure {
            code: match &self.code {
                Some(code) => Some(code.clone()),
                None => None,
            },
            message: self.message.clone(),
        }
    }
}

/// Mathematical content of a [`StorageFailure`].
pub struct StorageFailureView {
    pub code: Option<Seq<char>>,
    pub message: Seq<char>,
}

impl StorageFailureView {
    /// The engine refused the statement because a row it refers to is missing.
    pub open spec fn is_foreign_key_violation(self) -> bool {
        self.code == Some(FOREIGN_KEY_VIOLATION@)
    }
}

impl View for StorageFailure {
    type V = StorageFailureView;

    open spec fn view(&self) -> StorageFailureView {
        StorageFailureView {
            code: match self.code {
                Some(code) => Some(code@),
                None => None,
            },
            message: self.message@,
        }
    }
}

impl StorageFailure {
    /// Tells a foreign-key violation from every other failure, by the
    /// engine's code alone.
    pub fn is_foreign_key_violation(&self) -> (yes: bool)
        ensures
            yes == self@.is_foreign_key_violation(),
    {
        match &self.code {
            Some(code) => {
                let expected = FOREIGN_KEY_VIOLATION.to_owned();
                *code == expected
            },
            None => false,
        }
    }
}

/// A row of the table of questions.
#[derive(Debug, PartialEq)]
pub struct QuestionRow {
    pub question_uuid: u128,
    pub title: String,
    pub description: String,
    pub created_at: String,
}

/// Mathematical content of a [`QuestionRow`].
pub struct QuestionRowView {
    pub question_uuid: u128,
    pub title: Seq<char>,
    pub description: Seq<char>,
    pub created_at: Seq<char>,
}

impl View for QuestionRow {
    type V = QuestionRowView;

    open spec fn view(&self) -> QuestionRowView {
        QuestionRowView {
            question_uuid: self.question_uuid,
            title: self.title@,
            description: self.description@,
            created_at: self.created_at@,
        }
    }
}

impl DeepView for QuestionRow {
    type V = QuestionRowView;

    open spec fn deep_view(&self) -> QuestionRowView {
        self@
    }
}

impl Clone for QuestionRow {
    fn clone(&self) -> (copy: Self)
        ensures
            copy == *self,
    {
        QuestionRow {
            question_uuid: self.question_uuid,
            title: self.title.clone(),
            description: self.description.clone(),
            created_at: self.created_at.clone(),
        }
    }
}

/// A row of the table of answers.
#[derive(Debug, PartialEq)]
pub struct AnswerRow {
    pub answer_uuid: u128,
    pub question_uuid: u128,
    pub content: String,
    pub created_at: String,
}

/// Mathematical content of an [`AnswerRow`].
pub struct AnswerRowView {
    pub answer_uuid: u128,
    pub question_uuid: u128,
    pub content: Seq<char>,
    pub created_at: Seq<char>,
}

impl View for AnswerRow {
    type V = AnswerRowView;

    open spec fn view(&self) -> AnswerRowView {
        AnswerRowView {
            answer_uuid: self.answer_uuid,
            question_uuid: self.question_uuid,
            content: self.content@,
            created_at: self.created_at@,
        }
    }
}

impl DeepView for AnswerRow {
    type V = AnswerRowView;

    open spec fn deep_view(&self) -> AnswerRowView {
        self@
    }
}

impl Clone for AnswerRow {
    fn clone(&self) -> (copy: Self)
        ensures
            copy == *self,
    {
        AnswerRow {
            answer_uuid: self.answer_uuid,
            question_uuid: self.question_uuid,
            content: self.content.clone(),
            created_at: self.created_at.clone(),
        }
    }
}

/// The key of a question row.
pub open spec fn question_key() -> spec_fn(QuestionRowView) -> u128 {
    |row: QuestionRowView| row.question_uuid
}

/// The key of an answer row.
pub open spec fn answer_key() -> spec_fn(AnswerRowView) -> u128 {
    |row: AnswerRowView| row.answer_uuid
}

/// The question rows that a delete by `question_uuid` leaves.
pub open spec fn question_other_than(question_uuid: u128) -> spec_fn(QuestionRowView) -> bool {
    |row: QuestionRowView| row.question_uuid != question_uuid
}

/// The answer rows that a delete by `answer_uuid` leaves.
pub open spec fn answer_other_than(answer_uuid: u128) -> spec_fn(AnswerRowView) -> bool {
    |row: AnswerRowView| row.answer_uuid != answer_uuid
}

/// The answer rows that refer to the question `question_uuid`.
pub open spec fn answer_to(question_uuid: u128) -> spec_fn(AnswerRowView) -> bool {
    |row: AnswerRowView| row.question_uuid == question_uuid
}

/// The answer rows that refer to another question than `question_uuid`.
pub open spec fn answer_to_other_than(question_uuid: u128) -> spec_fn(AnswerRowView) -> bool {
    |row: AnswerRowView| row.question_uuid != question_uuid
}

/// Model of the engine's state: the rows of its two tables, each in the
/// order in which the engine scans it.
pub struct Tables {
    pub questions: Seq<QuestionRowView>,
    pub answers: Seq<AnswerRowView>,
}

impl Tables {
    /// No rows at all.
    pub open spec fn empty() -> Tables {
        Tables { questions: Seq::empty(), answers: Seq::empty() }
    }

    /// A question with this key is stored.
    pub open spec fn has_question(self, question_uuid: u128) -> bool {
        has_key(self.questions, question_key(), question_uuid)
    }

    /// An answer with this key is stored.
    pub open spec fn has_answer(self, answer_uuid: u128) -> bool {
        has_key(self.answers, answer_key(), answer_uuid)
    }

    /// What the engine maintains: `question_uuid` is a key of the questions,
    /// `answer_uuid` is a key of the answers, every answer refers to a stored
    /// question, and no key names both a question and an answer.
    pub open spec fn wf(self) -> bool {
        &&& distinct_keys(self.questions, question_key())
        &&& distinct_keys(self.answers, answer_key())
        &&& forall|i: int|
            0 <= i < self.answers.len() ==> self.has_question(
                (#[trigger] self.answers[i]).question_uuid,
            )
        &&& forall|i: int|
            0 <= i < self.answers.len() ==> !self.has_question(
                (#[trigger] self.answers[i]).answer_uuid,
            )
    }

    /// A question or an answer with this key is stored.
    pub open spec fn has_key(self, key: u128) -> bool {
        self.has_question(key) || self.has_answer(key)
    }

    /// `key` is the largest key in use, of a question or of an answer.
    pub open spec fn is_largest_key(self, key: u128) -> bool {
        self.has_key(key) && forall|other: u128| #[trigger] self.has_key(other) ==> other <= key
    }

    /// The same rows are stored in `self` and in `other`, in whatever order.
    pub open spec fn same_rows(self, other: Tables) -> bool {
        &&& self.questions.to_set() == other.questions.to_set()
        &&& self.answers.to_set() == other.answers.to_set()
    }

    /// The tables after the engine stored one more question.
    pub open spec fn with_question(self, row: QuestionRowView) -> Tables {
        Tables { questions: self.questions.push(row), answers: self.answers }
    }

    /// The tables after the engine deleted the question with this key, and
    /// with it the answers that referred to it.
    pub open spec fn without_question(self, question_uuid: u128) -> Tables {
        Tables {
            questions: self.questions.filter(question_other_than(question_uuid)),
            answers: self.answers.filter(answer_to_other_than(question_uuid)),
        }
    }

    /// The tables after the engine stored one more answer.
    pub open spec fn with_answer(self, row: AnswerRowView) -> Tables {
        Tables { questions: self.questions, answers: self.answers.push(row) }
    }

    /// The tables after the engine deleted the answer with this key.
    pub open spec fn without_answer(self, answer_uuid: u128) -> Tables {
        Tables {
            questions: self.questions,
            answers: self.answers.filter(answer_other_than(answer_uuid)),
        }
    }

    /// The stored answers to one question, in the engine's order.
    pub open spec fn answers_to(self, question_uuid: u128) -> Seq<AnswerRowView> {
        self.answers.filter(answer_to(question_uuid))
    }

    /// Storing a question under a key that is not in use keeps the tables
    /// well formed, and adds that key and no other.
    pub proof fn lemma_with_question(self, row: QuestionRowView)
        requires
            self.wf(),
            !self.has_key(row.question_uuid),
        ensures
            self.with_question(row).wf(),
            forall|key: u128|
                self.with_question(row).has_question(key) <==> self.has_question(key) || key
                    == row.question_uuid,
    {
        let after = self.with_question(row);
        assert forall|key: u128|
            after.has_question(key) <==> self.has_question(key) || key
                == row.question_uuid by {
            if after.has_question(key) {
                let i = choose|i: int|
                    0 <= i < after.questions.len() && question_key()(#[trigger] after.questions[i])
                        == key;
                if i < self.questions.len() {
                    assert(question_key()(self.questions[i]) == key);
                }
            }
            if self.has_question(key) {
                let i = choose|i: int|
                    0 <= i < self.questions.len() && question_key()(#[trigger] self.questions[i])
                        == key;
                assert(question_key()(after.questions[i]) == key);
            }
            if key == row.question_uuid {
                assert(question_key()(after.questions[self.questions.len() as int]) == key);
            }
        }
        assert forall|i: int, j: int| 0 <= i < j < after.questions.len() implies question_key()(
            #[trigger] after.questions[i],
        ) != question_key()(#[trigger] after.questions[j]) by {
            if j < self.questions.len() {
                assert(after.questions[i] == self.questions[i]);
                assert(after.questions[j] == self.questions[j]);
            } else {
                assert(question_key()(self.questions[i]) == after.questions[i].question_uuid);
            }
        }
        assert forall|i: int| 0 <= i < after.answers.len() implies after.has_question(
            (#[trigger] after.answers[i]).question_uuid,
        ) by {
            assert(self.has_question(self.answers[i].question_uuid));
        }
        assert forall|i: int| 0 <= i < after.answers.len() implies !after.has_question(
            (#[trigger] after.answers[i]).answer_uuid,
        ) by {
            assert(!self.has_question(self.answers[i].answer_uuid));
            assert(answer_key()(self.answers[i]) == self.answers[i].answer_uuid);
        }
    }

    /// Deleting a question keeps the tables well formed, and removes that key
    /// and no other; no answer to that question is left.
    pub proof fn lemma_without_question(self, question_uuid: u128)
        requires
            self.wf(),
        ensures
            self.without_question(question_uuid).wf(),
            forall|key: u128|
                self.without_question(question_uuid).has_question(key) <==> self.has_question(key)
                    && key != question_uuid,
            forall|key: u128|
                self.without_question(question_uuid).has_answer(key) ==> self.has_answer(key),
            self.without_question(question_uuid).answers_to(question_uuid).len() == 0,
    {
        let after = self.without_question(question_uuid);
        lemma_filter_distinct(self.questions, question_other_than(question_uuid), question_key());
        lemma_filter_distinct(self.answers, answer_to_other_than(question_uuid), answer_key());
        assert forall|key: u128|
            after.has_question(key) <==> self.has_question(key) && key != question_uuid by {
            lemma_filter_has_key(
                self.questions,
                question_other_than(question_uuid),
                question_key(),
                key,
            );
        }
        assert forall|key: u128| after.has_answer(key) implies self.has_answer(key) by {
            lemma_filter_has_key(
                self.answers,
                answer_to_other_than(question_uuid),
                answer_key(),
                key,
            );
        }
        lemma_filter_contains(self.answers, answer_to_other_than(question_uuid));
        assert forall|i: int| 0 <= i < after.answers.len() implies after.has_question(
            (#[trigger] after.answers[i]).question_uuid,
        ) by {
            let row = after.answers[i];
            assert(after.answers.contains(row));
            assert(self.answers.contains(row));
            let k = choose|k: int| 0 <= k < self.answers.len() && self.answers[k] == row;
            assert(self.has_question(self.answers[k].question_uuid));
        }
        assert forall|i: int| 0 <= i < after.answers.len() implies !after.has_question(
            (#[trigger] after.answers[i]).answer_uuid,
        ) by {
            let row = after.answers[i];
            assert(after.answers.contains(row));
            assert(self.answers.contains(row));
            let k = choose|k: int| 0 <= k < self.answers.len() && self.answers[k] == row;
            assert(!self.has_question(self.answers[k].answer_uuid));
        }
        let left = after.answers.filter(answer_to(question_uuid));
        lemma_filter_contains(after.answers, answer_to(question_uuid));
        if left.len() > 0 {
            assert(left.contains(left[0]));
            assert(after.answers.contains(left[0]));
        }
    }

    /// Deleting a question that is not stored changes nothing.
    pub proof fn lemma_without_absent_question(self, question_uuid: u128)
        requires
            self.wf(),
            !self.has_question(question_uuid),
        ensures
            self.without_question(question_uuid) == self,
    {
        assert forall|i: int| 0 <= i < self.questions.len() implies question_other_than(
            question_uuid,
        )(#[trigger] self.questions[i]) by {
            assert(question_key()(self.questions[i]) != question_uuid);
        }
        lemma_filter_all(self.questions, question_other_than(question_uuid));
        assert forall|i: int| 0 <= i < self.answers.len() implies answer_to_other_than(
            question_uuid,
        )(#[trigger] self.answers[i]) by {
            assert(self.has_question(self.answers[i].question_uuid));
        }
        lemma_filter_all(self.answers, answer_to_other_than(question_uuid));
    }

    /// Deleting an answer that is not stored changes nothing.
    pub proof fn lemma_without_absent_answer(self, answer_uuid: u128)
        requires
            !self.has_answer(answer_uuid),
        ensures
            self.without_answer(answer_uuid) == self,
    {
        assert forall|i: int| 0 <= i < self.answers.len() implies answer_other_than(answer_uuid)(
            #[trigger] self.answers[i],
        ) by {
            assert(answer_key()(self.answers[i]) != answer_uuid);
        }
        lemma_filter_all(self.answers, answer_other_than(answer_uuid));
    }

    /// Storing an answer to a stored question under a key that is not in
    /// use keeps the tables well formed, and adds that key and no other.
    pub proof fn lemma_with_answer(self, row: AnswerRowView)
        requires
            self.wf(),
            self.has_question(row.question_uuid),
            !self.has_key(row.answer_uuid),
        ensures
            self.with_answer(row).wf(),
            forall|key: u128|
                self.with_answer(row).has_answer(key) <==> self.has_answer(key) || key
                    == row.answer_uuid,
    {
        let after = self.with_answer(row);
        assert forall|key: u128|
            after.has_answer(key) <==> self.has_answer(key) || key == row.answer_uuid by {
            if after.has_answer(key) {
                let i = choose|i: int|
                    0 <= i < after.answers.len() && answer_key()(#[trigger] after.answers[i])
                        == key;
                if i < self.answers.len() {
                    assert(answer_key()(self.answers[i]) == key);
                }
            }
            if self.has_answer(key) {
                let i = choose|i: int|
                    0 <= i < self.answers.len() && answer_key()(#[trigger] self.answers[i]) == key;
                assert(answer_key()(after.answers[i]) == key);
            }
            if key == row.answer_uuid {
                assert(answer_key()(after.answers[self.answers.len() as int]) == key);
            }
        }
        assert forall|i: int, j: int| 0 <= i < j < after.answers.len() implies answer_key()(
            #[trigger] after.answers[i],
        ) != answer_key()(#[trigger] after.answers[j]) by {
            if j < self.answers.len() {
                assert(after.answers[i] == self.answers[i]);
                assert(after.answers[j] == self.answers[j]);
            } else {
                assert(answer_key()(self.answers[i]) == after.answers[i].answer_uuid);
            }
        }
        assert forall|i: int| 0 <= i < after.answers.len() implies after.has_question(
            (#[trigger] after.answers[i]).question_uuid,
        ) by {
            if i < self.answers.len() {
                assert(after.answers[i] == self.answers[i]);
            }
        }
        assert forall|i: int| 0 <= i < after.answers.len() implies !after.has_question(
            (#[trigger] after.answers[i]).answer_uuid,
        ) by {
            if i < self.answers.len() {
                assert(after.answers[i] == self.answers[i]);
            }
        }
    }

    /// Deleting an answer keeps the tables well formed, and removes that key
    /// and no other.
    pub proof fn lemma_without_answer(self, answer_uuid: u128)
        requires
            self.wf(),
        ensures
            self.without_answer(answer_uuid).wf(),
            forall|key: u128|
                self.without_answer(answer_uuid).has_answer(key) <==> self.has_answer(key) && key
                    != answer_uuid,
    {
        let after = self.without_answer(answer_uuid);
        lemma_filter_distinct(self.answers, answer_other_than(answer_uuid), answer_key());
        assert forall|key: u128|
            after.has_answer(key) <==> self.has_answer(key) && key != answer_uuid by {
            lemma_filter_has_key(self.answers, answer_other_than(answer_uuid), answer_key(), key);
        }
        lemma_filter_contains(self.answers, answer_other_than(answer_uuid));
        assert forall|i: int| 0 <= i < after.answers.len() implies after.has_question(
            (#[trigger] after.answers[i]).question_uuid,
        ) by {
            let row = after.answers[i];
            assert(after.answers.contains(row));
            assert(self.answers.contains(row));
            let k = choose|k: int| 0 <= k < self.answers.len() && self.answers[k] == row;
            assert(self.has_question(self.answers[k].question_uuid));
        }
        assert forall|i: int| 0 <= i < after.answers.len() implies !after.has_question(
            (#[trigger] after.answers[i]).answer_uuid,
        ) by {
            let row = after.answers[i];
            assert(after.answers.contains(row));
            assert(self.answers.contains(row));
            let k = choose|k: int| 0 <= k < self.answers.len() && self.answers[k] == row;
            assert(!self.has_question(self.answers[k].answer_uuid));
        }
    }
}

} // verus!
