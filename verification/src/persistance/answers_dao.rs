//! The answer store.
//!
//! The steps are those of the question store. One rule is added: an answer
//! names its question, and the engine refuses an answer whose question is
//! not stored. That refusal is told from every other failure by the
//! engine's code, and comes back as [`DBError::InvalidUUID`].

use vstd::prelude::*;
use crate::identifier::{format_uuid, uuid_parse, uuid_text};
use crate::models::{
    outcome_view, Answer, AnswerDetail, AnswerDetailView, AnswerView, DBError, DBErrorView,
};
use crate::storage::{AnswerRow, AnswerRowView, StorageFailure, StorageFailureView, Tables};

verus! {

/// The record that stands for a row: the same fields, the keys as text.
pub open spec fn answer_record(row: AnswerRowView) -> AnswerDetailView {
    AnswerDetailView {
        answer_uuid: uuid_text(row.answer_uuid),
        question_uuid: uuid_text(row.question_uuid),
        content: row.content,
        created_at: row.created_at,
    }
}

/// `record` is the record of `row`, and its two identifiers read back as the
/// row's keys.
pub open spec fn is_answer_record(record: AnswerDetailView, row: AnswerRowView) -> bool {
    &&& record == answer_record(row)
    &&& uuid_parse(record.answer_uuid) == Some(row.answer_uuid)
    &&& uuid_parse(record.question_uuid) == Some(row.question_uuid)
}

/// The row that a record stands for: the same fields, the keys read from
/// their text.
pub open spec fn answer_row(record: AnswerDetailView) -> AnswerRowView {
    AnswerRowView {
        answer_uuid: uuid_parse(record.answer_uuid)->0,
        question_uuid: uuid_parse(record.question_uuid)->0,
        content: record.content,
        created_at: record.created_at,
    }
}

/// `records` are the records of `rows`, in the same order.
pub open spec fn are_answer_records(
    records: Seq<AnswerDetailView>,
    rows: Seq<AnswerRowView>,
) -> bool {
    &&& records.len() == rows.len()
    &&& forall|i: int| 0 <= i < rows.len() ==> is_answer_record(#[trigger] records[i], rows[i])
}

/// What creating an answer does to the tables and what it returns.
///
/// Where the question's identifier is not the text of a UUID, it is refused
/// with [`DBErrorView::InvalidUUID`]. Otherwise success means that the
/// question is stored, that the record carries the client's content and the
/// question's key, that its `answer_uuid` is the text of a key that no
/// stored answer and no stored question had, that its `created_at` is not
/// empty, and that the tables hold one row more: the row of that record.
/// [`DBErrorView::InvalidUUID`] means that the question is not stored. Every
/// error leaves the rows as they were, `InvalidUUID` carries the identifier
/// as the client gave it, and `Other` never carries a foreign-key violation.
pub open spec fn create_answer_spec(
    before: Tables,
    answer: AnswerView,
    after: Tables,
    result: Result<AnswerDetailView, DBErrorView>,
) -> bool {
    match uuid_parse(answer.question_uuid) {
        None => {
            &&& result == Err::<AnswerDetailView, DBErrorView>(
                DBErrorView::InvalidUUID(answer.question_uuid),
            )
            &&& after.same_rows(before)
        },
        Some(question_key) => match result {
            Ok(record) => {
                let row = answer_row(record);
                &&& is_answer_record(record, row)
                &&& row.question_uuid == question_key
                &&& record.content == answer.content
                &&& record.created_at.len() > 0
                &&& before.has_question(question_key)
                &&& !before.has_key(row.answer_uuid)
                &&& after.same_rows(before.with_answer(row))
            },
            Err(DBErrorView::InvalidUUID(carried)) => {
                &&& carried == answer.question_uuid
                &&& !before.has_question(question_key)
                &&& after.same_rows(before)
            },
            Err(DBErrorView::Other(cause)) => {
                &&& !cause.is_foreign_key_violation()
                &&& after.same_rows(before)
            },
        },
    }
}

/// What listing the answers to a question returns.
///
/// Text that is not the text of a UUID is refused with
/// [`DBErrorView::InvalidUUID`]. Otherwise success gives the records of the
/// stored answers that refer to the question, in the engine's order: none
/// where it has no answer or is not stored. The remaining failures are
/// [`DBErrorView::Other`].
pub open spec fn get_answers_spec(
    tables: Tables,
    question_uuid: Seq<char>,
    result: Result<Seq<AnswerDetailView>, DBErrorView>,
) -> bool {
    match uuid_parse(question_uuid) {
        None => result == Err::<Seq<AnswerDetailView>, DBErrorView>(
            DBErrorView::InvalidUUID(question_uuid),
        ),
        Some(key) => match result {
            Ok(records) => are_answer_records(records, tables.answers_to(key)),
            Err(e) => e is Other,
        },
    }
}

/// What deleting an answer does to the tables and what it returns.
///
/// Text that is not the text of a UUID is refused with
/// [`DBErrorView::InvalidUUID`]. Otherwise success means that the answer was
/// stored and is deleted; [`DBErrorView::InvalidUUID`] means that no answer
/// had the key. Every error leaves the rows as they were, and `InvalidUUID`
/// carries the identifier as the caller gave it.
pub open spec fn delete_answer_spec(
    before: Tables,
    answer_uuid: Seq<char>,
    after: Tables,
    result: Result<(), DBErrorView>,
) -> bool {
    match uuid_parse(answer_uuid) {
        None => {
            &&& result == Err::<(), DBErrorView>(DBErrorView::InvalidUUID(answer_uuid))
            &&& after.same_rows(before)
        },
        Some(key) => match result {
            Ok(_) => before.has_answer(key) && after.same_rows(before.without_answer(key)),
            Err(DBErrorView::InvalidUUID(carried)) => {
                &&& carried == answer_uuid
                &&& !before.has_answer(key)
                &&& after.same_rows(before)
            },
            Err(DBErrorView::Other(_)) => after.same_rows(before),
        },
    }
}

/// A store of answers.
///
/// The view of a store is the content of the engine's tables. Each method
/// runs one statement; which rows the engine then holds, and what the method
/// returns, is stated by the function named after it with `_spec`. A store
/// may fail with [`DBError::Other`] whenever its engine fails.
pub trait AnswersDao: View<V = Tables> {
    /// Stores an answer to the question that `answer.question_uuid` names.
    /// The engine assigns its key and its creation time.
    fn create_answer(&mut self, answer: Answer) -> (r: Result<AnswerDetail, DBError>)
        requires
            old(self)@.wf(),
        ensures
            final(self)@.wf(),
            create_answer_spec(old(self)@, answer@, final(self)@, outcome_view(r)),
    ;

    /// Deletes the answer that `answer_uuid` names.
    fn delete_answer(&mut self, answer_uuid: String) -> (r: Result<(), DBError>)
        requires
            old(self)@.wf(),
        ensures
            final(self)@.wf(),
            delete_answer_spec(old(self)@, answer_uuid@, final(self)@, outcome_view(r)),
    ;

    /// Lists the answers to the question that `question_uuid` names.
    fn get_answers(&self, question_uuid: String) -> (r: Result<Vec<AnswerDetail>, DBError>)
        requires
            self@.wf(),
        ensures
            get_answers_spec(self@, question_uuid@, outcome_view(r)),
    ;
}

/// Builds the record of a row.
pub fn answer_detail(row: &AnswerRow) -> (record: AnswerDetail)
    ensures
        is_answer_record(record@, row@),
{
    AnswerDetail {
        answer_uuid: format_uuid(row.answer_uuid),
        question_uuid: format_uuid(row.question_uuid),
        content: row.content.clone(),
        created_at: row.created_at.clone(),
    }
}

/// What creating an answer comes to when the engine failed with `cause`:
/// [`DBErrorView::InvalidUUID`] with the question's identifier as the client
/// gave it where the engine reports a foreign-key violation,
/// [`DBErrorView::Other`] with the cause in every other case.
pub open spec fn create_answer_failure(
    question_uuid: Seq<char>,
    cause: StorageFailureView,
) -> DBErrorView {
    if cause.is_foreign_key_violation() {
        DBErrorView::InvalidUUID(question_uuid)
    } else {
        DBErrorView::Other(cause)
    }
}

/// Outcome of creating an answer, from the question's identifier as the
/// client gave it and what the engine answered to the insert: the record of
/// the row it stored, or the error that [`create_answer_failure`] names.
pub fn create_answer_outcome(
    question_uuid: String,
    outcome: Result<AnswerRow, StorageFailure>,
) -> (r: Result<AnswerDetail, DBError>)
    ensures
        match outcome {
            Ok(row) => r matches Ok(record) && is_answer_record(record@, row@),
            Err(cause) => r matches Err(e) && e@ == create_answer_failure(question_uuid@, cause@),
        },
{
    match outcome {
        Ok(row) => Ok(answer_detail(&row)),
        Err(cause) => if cause.is_foreign_key_violation() {
            Err(DBError::InvalidUUID(question_uuid))
        } else {
            Err(DBError::Other(cause))
        },
    }
}

/// Outcome of listing the answers to a question, from what the engine
/// answered to the select: the records of the rows, in the engine's order
/// (none where it found no row), or its failure as [`DBError::Other`].
pub fn get_answers_outcome(outcome: Result<Vec<AnswerRow>, StorageFailure>) -> (r: Result<
    Vec<AnswerDetail>,
    DBError,
>)
    ensures
        match outcome {
            Ok(rows) => r matches Ok(records) && are_answer_records(
                records.deep_view(),
                rows.deep_view(),
            ),
            Err(cause) => r matches Err(e) && e@ == DBErrorView::Other(cause@),
        },
{
    match outcome {
        Ok(rows) => {
            let mut records: Vec<AnswerDetail> = Vec::new();
            let mut i: usize = 0;
            while i < rows.len()
                invariant
                    i <= rows.len(),
                    records.len() == i,
                    forall|j: int|
                        0 <= j < i ==> is_answer_record(#[trigger] records[j]@, rows[j]@),
                decreases rows.len() - i,
            {
                let record = answer_detail(&rows[i]);
                records.push(record);
                i += 1;
            }
            Ok(records)
        },
        Err(cause) => Err(DBError::Other(cause)),
    }
}

/// Outcome of deleting an answer, from the identifier as the caller gave it
/// and what the engine answered to the delete: success where it removed a
/// row, [`DBError::InvalidUUID`] with the identifier where it removed none,
/// or its failure as [`DBError::Other`].
pub fn delete_answer_outcome(answer_uuid: String, outcome: Result<u64, StorageFailure>) -> (r:
    Result<(), DBError>)
    ensures
        match outcome {
            Ok(rows_affected) => if rows_affected > 0 {
                r is Ok
            } else {
                r matches Err(e) && e@ == DBErrorView::InvalidUUID(answer_uuid@)
            },
            Err(cause) => r matches Err(e) && e@ == DBErrorView::Other(cause@),
        },
{
    match outcome {
        Ok(rows_affected) => if rows_affected > 0 {
            Ok(())
        } else {
            Err(DBError::InvalidUUID(answer_uuid))
        },
        Err(cause) => Err(DBError::Other(cause)),
    }
}

} // verus!
