//! The question store.
//!
//! An operation on the relational engine runs in three steps: the identifier
//! that came as text is read ([`parse_identifier`](crate::identifier::parse_identifier)),
//! the caller has the engine run one statement, and the function of this
//! module named after the operation turns what the engine answered into the
//! operation's outcome.

use vstd::prelude::*;
use crate::identifier::{format_uuid, uuid_parse, uuid_text};
use crate::models::{
    outcome_view, DBError, DBErrorView, Question, QuestionDetail, QuestionDetailView, QuestionView,
};
use crate::storage::{QuestionRow, QuestionRowView, StorageFailure, Tables};

verus! {

/// The record that stands for a row: the same fields, the key as text.
pub open spec fn question_record(row: QuestionRowView) -> QuestionDetailView {
    QuestionDetailView {
        question_uuid: uuid_text(row.question_uuid),
        title: row.title,
        description: row.description,
        created_at: row.created_at,
    }
}

/// `record` is the record of `row`, and its `question_uuid` reads back as the
/// row's key.
pub open spec fn is_question_record(record: QuestionDetailView, row: QuestionRowView) -> bool {
    &&& record == question_record(row)
    &&& uuid_parse(record.question_uuid) == Some(row.question_uuid)
}

/// The row that a record stands for: the same fields, the key read from its
/// text.
pub open spec fn question_row(record: QuestionDetailView) -> QuestionRowView {
    QuestionRowView {
        question_uuid: uuid_parse(record.question_uuid)->0,
        title: record.title,
        description: record.description,
        created_at: record.created_at,
    }
}

/// `records` are the records of `rows`, in the same order.
pub open spec fn are_question_records(
    records: Seq<QuestionDetailView>,
    rows: Seq<QuestionRowView>,
) -> bool {
    &&& records.len() == rows.len()
    &&& forall|i: int| 0 <= i < rows.len() ==> is_question_record(#[trigger] records[i], rows[i])
}

/// What creating a question does to the tables and what it returns.
///
/// On success the record carries the client's title and description, its
/// `question_uuid` is the text of a key that no stored question and no
/// stored answer had, its `created_at` is not empty, and the tables hold one
/// row more: the row of that record. A failure is [`DBErrorView::Other`],
/// and the tables hold the rows they held.
pub open spec fn create_question_spec(
    before: Tables,
    question: QuestionView,
    after: Tables,
    result: Result<QuestionDetailView, DBErrorView>,
) -> bool {
    match result {
        Ok(record) => {
            let row = question_row(record);
            &&& is_question_record(record, row)
            &&& record.title == question.title
            &&& record.description == question.description
            &&& record.created_at.len() > 0
            &&& !before.has_key(row.question_uuid)
            &&& after.same_rows(before.with_question(row))
        },
        Err(e) => e is Other && after.same_rows(before),
    }
}

/// What listing the questions returns: the records of all stored rows, in
/// the engine's order, or a failure that is [`DBErrorView::Other`].
pub open spec fn get_questions_spec(
    tables: Tables,
    result: Result<Seq<QuestionDetailView>, DBErrorView>,
) -> bool {
    match result {
        Ok(records) => are_question_records(records, tables.questions),
        Err(e) => e is Other,
    }
}

/// What deleting a question does to the tables and what it returns.
///
/// Text that is not the text of a UUID is refused with
/// [`DBErrorView::InvalidUUID`]. Otherwise success means that the question
/// was stored and is deleted, together with its answers;
/// [`DBErrorView::InvalidUUID`] means that no question had the key. Every
/// error leaves the rows as they were, and `InvalidUUID` carries the
/// identifier as the caller gave it.
pub open spec fn delete_question_spec(
    before: Tables,
    question_uuid: Seq<char>,
    after: Tables,
    result: Result<(), DBErrorView>,
) -> bool {
    match uuid_parse(question_uuid) {
        None => {
            &&& result == Err::<(), DBErrorView>(DBErrorView::InvalidUUID(question_uuid))
            &&& after.same_rows(before)
        },
        Some(key) => match result {
            Ok(_) => before.has_question(key) && after.same_rows(before.without_question(key)),
            Err(DBErrorView::InvalidUUID(carried)) => {
                &&& carried == question_uuid
                &&& !before.has_question(key)
                &&& after.same_rows(before)
            },
            Err(DBErrorView::Other(_)) => after.same_rows(before),
        },
    }
}

/// A store of questions.
///
/// The view of a store is the content of the engine's tables. Each method
/// runs one statement; which rows the engine then holds, and what the method
/// returns, is stated by the function named after it with `_spec`. A store
/// may fail with [`DBError::Other`] whenever its engine fails.
pub trait QuestionsDao: View<V = Tables> {
    /// Stores a question. The engine assigns its key and its creation time.
    fn create_question(&mut self, question: Question) -> (r: Result<QuestionDetail, DBError>)
        requires
            old(self)@.wf(),
        ensures
            final(self)@.wf(),
            create_question_spec(old(self)@, question@, final(self)@, outcome_view(r)),
    ;

    /// Deletes the question that `question_uuid` names, and its answers.
    fn delete_question(&mut self, question_uuid: String) -> (r: Result<(), DBError>)
        requires
            old(self)@.wf(),
        ensures
            final(self)@.wf(),
            delete_question_spec(old(self)@, question_uuid@, final(self)@, outcome_view(r)),
    ;

    /// Lists every stored question.
    fn get_questions(&self) -> (r: Result<Vec<QuestionDetail>, DBError>)
        requires
            self@.wf(),
        ensures
            get_questions_spec(self@, outcome_view(r)),
    ;
}

/// Builds the record of a row.
pub fn question_detail(row: &QuestionRow) -> (record: QuestionDetail)
    ensures
        is_question_record(record@, row@),
{
    QuestionDetail {
        question_uuid: format_uuid(row.question_uuid),
        title: row.title.clone(),
        description: row.description.clone(),
        created_at: row.created_at.clone(),
    }
}

/// Outcome of creating a question, from what the engine answered to the
/// insert: the record of the row it stored, or its failure as
/// [`DBError::Other`].
pub fn create_question_outcome(outcome: Result<QuestionRow, StorageFailure>) -> (r: Result<
    QuestionDetail,
    DBError,
>)
    ensures
        match outcome {
            Ok(row) => r matches Ok(record) && is_question_record(record@, row@),
            Err(cause) => r matches Err(e) && e@ == DBErrorView::Other(cause@),
        },
{
    match outcome {
        Ok(row) => Ok(question_detail(&row)),
        Err(cause) => Err(DBError::Other(cause)),
    }
}

/// Outcome of listing the questions, from what the engine answered to the
/// select: the records of the rows, in the engine's order, or its failure as
/// [`DBError::Other`].
pub fn get_questions_outcome(outcome: Result<Vec<QuestionRow>, StorageFailure>) -> (r: Result<
    Vec<QuestionDetail>,
    DBError,
>)
    ensures
        match outcome {
            Ok(rows) => r matches Ok(records) && are_question_records(
                records.deep_view(),
                rows.deep_view(),
            ),
            Err(cause) => r matches Err(e) && e@ == DBErrorView::Other(cause@),
        },
{
    match outcome {
        Ok(rows) => {
            let mut records: Vec<QuestionDetail> = Vec::new();
            let mut i: usize = 0;
            while i < rows.len()
                invariant
                    i <= rows.len(),
                    records.len() == i,
                    forall|j: int|
                        0 <= j < i ==> is_question_record(#[trigger] records[j]@, rows[j]@),
                decreases rows.len() - i,
            {
                let record = question_detail(&rows[i]);
                records.push(record);
                i += 1;
            }
            Ok(records)
        },
        Err(cause) => Err(DBError::Other(cause)),
    }
}

/// Outcome of deleting a question, from the identifier as the caller gave
/// it and what the engine answered to the delete: success where it removed
/// a row, [`DBError::InvalidUUID`] with the identifier where it removed
/// none, or its failure as [`DBError::Other`].
pub fn delete_question_outcome(question_uuid: String, outcome: Result<u64, StorageFailure>) -> (r:
    Result<(), DBError>)
    ensures
        match outcome {
            Ok(rows_affected) => if rows_affected > 0 {
                r is Ok
            } else {
                r matches Err(e) && e@ == DBErrorView::InvalidUUID(question_uuid@)
            },
            Err(cause) => r matches Err(e) && e@ == DBErrorView::Other(cause@),
        },
{
    match outcome {
        Ok(rows_affected) => if rows_affected > 0 {
            Ok(())
        } else {
            Err(DBError::InvalidUUID(question_uuid))
        },
        Err(cause) => Err(DBError::Other(cause)),
    }
}

} // verus!
