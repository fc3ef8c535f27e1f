//! What holds of every store, whatever engine it runs on.
//!
//! Each statement is about a run of operations: the tables before and
//! after, and what the operations returned, are tied together by the
//! `_spec` functions that the methods of the stores ensure. A store may
//! fail with [`DBErrorView::Other`] whenever its engine fails; the
//! statements say what holds where it did not.

use vstd::prelude::*;
use crate::identifier::{is_canonical_uuid_text, is_uuid_text, uuid_parse, uuid_text};
use crate::models::{AnswerDetailView, AnswerView, DBErrorView, QuestionDetailView, QuestionView};
use crate::persistance::answers_dao::{
    answer_row, create_answer_spec, delete_answer_spec, get_answers_spec,
};
use crate::persistance::questions_dao::{
    create_question_spec, delete_question_spec, get_questions_spec, question_row,
};
use crate::rows::{lemma_filter_contains, lemma_filter_distinct};
use crate::storage::{
    answer_key, answer_other_than, answer_to, answer_to_other_than, question_key,
    question_other_than, AnswerRowView, QuestionRowView, Tables,
};

verus! {

/// `wanted` stands at exactly one position of `records`.
pub open spec fn occurs_once<A>(records: Seq<A>, wanted: A) -> bool {
    exists|i: int|
        0 <= i < records.len() && #[trigger] records[i] == wanted && forall|j: int|
            0 <= j < records.len() && #[trigger] records[j] == wanted ==> j == i
}

/// A question that was created carries the client's title and description,
/// under an identifier that is the text of a UUID and that no question and
/// no answer stored until then carried.
pub proof fn created_question_is_new(
    before: Tables,
    question: QuestionView,
    after: Tables,
    record: QuestionDetailView,
    listed_before: Seq<QuestionDetailView>,
    asked: Seq<char>,
    answers_before: Seq<AnswerDetailView>,
)
    requires
        create_question_spec(before, question, after, Ok(record)),
        get_questions_spec(before, Ok(listed_before)),
        get_answers_spec(before, asked, Ok(answers_before)),
    ensures
        record.title == question.title,
        record.description == question.description,
        is_uuid_text(record.question_uuid),
        forall|i: int|
            0 <= i < listed_before.len() ==> (#[trigger] listed_before[i]).question_uuid
                != record.question_uuid,
        forall|i: int|
            0 <= i < answers_before.len() ==> (#[trigger] answers_before[i]).answer_uuid
                != record.question_uuid,
{
    let row = question_row(record);
    assert forall|i: int| 0 <= i < listed_before.len() implies (
    #[trigger] listed_before[i]).question_uuid != record.question_uuid by {
        if listed_before[i].question_uuid == record.question_uuid {
            assert(question_key()(before.questions[i]) == row.question_uuid);
        }
    }
    let key = uuid_parse(asked)->0;
    let rows = before.answers_to(key);
    lemma_filter_contains(before.answers, answer_to(key));
    assert forall|i: int| 0 <= i < answers_before.len() implies (
    #[trigger] answers_before[i]).answer_uuid != record.question_uuid by {
        if answers_before[i].answer_uuid == record.question_uuid {
            assert(rows.contains(rows[i]));
            let k = choose|k: int| 0 <= k < before.answers.len() && before.answers[k] == rows[i];
            assert(answer_key()(before.answers[k]) == row.question_uuid);
        }
    }
}

/// A question that was created is listed afterwards, exactly once.
pub proof fn created_question_is_listed_once(
    before: Tables,
    question: QuestionView,
    after: Tables,
    record: QuestionDetailView,
    listed: Seq<QuestionDetailView>,
)
    requires
        after.wf(),
        create_question_spec(before, question, after, Ok(record)),
        get_questions_spec(after, Ok(listed)),
    ensures
        occurs_once(listed, record),
{
    let row = question_row(record);
    let stored = before.with_question(row);
    assert(stored.questions[before.questions.len() as int] == row);
    assert(stored.questions.to_set().contains(row));
    assert(after.questions.contains(row));
    let i = choose|i: int| 0 <= i < after.questions.len() && after.questions[i] == row;
    assert(listed[i] == record);
    assert forall|j: int| 0 <= j < listed.len() && #[trigger] listed[j] == record implies j
        == i by {
        assert(question_key()(after.questions[j]) == question_key()(after.questions[i]));
    }
}

/// Deleting by text that is not the text of a UUID fails with `InvalidUUID`,
/// which carries that text.
pub proof fn malformed_identifier_is_refused(
    before: Tables,
    identifier: Seq<char>,
    after: Tables,
    result: Result<(), DBErrorView>,
)
    requires
        !is_uuid_text(identifier),
        delete_question_spec(before, identifier, after, result) || delete_answer_spec(
            before,
            identifier,
            after,
            result,
        ),
    ensures
        result == Err::<(), DBErrorView>(DBErrorView::InvalidUUID(identifier)),
{
}

/// Deleting a question that is not stored fails; where the engine did not
/// fail, the error is `InvalidUUID` with the identifier as it was given.
pub proof fn unknown_question_is_not_deleted(
    before: Tables,
    identifier: Seq<char>,
    after: Tables,
    result: Result<(), DBErrorView>,
)
    requires
        uuid_parse(identifier) matches Some(key) && !before.has_question(key),
        delete_question_spec(before, identifier, after, result),
    ensures
        result is Err,
        !(result->Err_0 is Other) ==> result == Err::<(), DBErrorView>(
            DBErrorView::InvalidUUID(identifier),
        ),
{
}

/// Deleting a question that is listed succeeds, unless the engine fails.
pub proof fn listed_question_is_deleted(
    before: Tables,
    listed: Seq<QuestionDetailView>,
    i: int,
    after: Tables,
    result: Result<(), DBErrorView>,
)
    requires
        get_questions_spec(before, Ok(listed)),
        0 <= i < listed.len(),
        delete_question_spec(before, listed[i].question_uuid, after, result),
    ensures
        result is Ok || (result matches Err(e) && e is Other),
{
    assert(question_key()(before.questions[i]) == before.questions[i].question_uuid);
}

/// A question that was deleted is no longer listed, and neither is any
/// answer to it.
pub proof fn deleted_question_is_gone(
    before: Tables,
    identifier: Seq<char>,
    after: Tables,
    listed: Seq<QuestionDetailView>,
    answers: Result<Seq<AnswerDetailView>, DBErrorView>,
)
    requires
        delete_question_spec(before, identifier, after, Ok(())),
        get_questions_spec(after, Ok(listed)),
        get_answers_spec(after, identifier, answers),
    ensures
        forall|i: int|
            0 <= i < listed.len() ==> uuid_parse((#[trigger] listed[i]).question_uuid)
                != uuid_parse(identifier),
        answers matches Ok(records) ==> records.len() == 0,
{
    let key = uuid_parse(identifier)->0;
    let left = before.without_question(key);
    lemma_filter_contains(before.questions, question_other_than(key));
    lemma_filter_contains(before.answers, answer_to_other_than(key));
    assert forall|i: int| 0 <= i < listed.len() implies uuid_parse(
        (#[trigger] listed[i]).question_uuid,
    ) != uuid_parse(identifier) by {
        let row = after.questions[i];
        assert(after.questions.to_set().contains(row));
        assert(left.questions.contains(row));
    }
    if answers is Ok {
        let rows = after.answers_to(key);
        lemma_filter_contains(after.answers, answer_to(key));
        if rows.len() > 0 {
            assert(rows.contains(rows[0]));
            assert(after.answers.to_set().contains(rows[0]));
            assert(left.answers.contains(rows[0]));
        }
    }
}

/// An answer to a question that is not stored is refused, and no row is
/// stored for it; where the engine did not fail otherwise, the error is
/// `InvalidUUID` with the question's identifier as the client gave it.
pub proof fn answer_to_unknown_question_is_refused(
    before: Tables,
    answer: AnswerView,
    after: Tables,
    result: Result<AnswerDetailView, DBErrorView>,
)
    requires
        uuid_parse(answer.question_uuid) matches Some(key) && !before.has_question(key),
        create_answer_spec(before, answer, after, result),
    ensures
        result is Err,
        after.same_rows(before),
        !(result->Err_0 is Other) ==> result == Err::<AnswerDetailView, DBErrorView>(
            DBErrorView::InvalidUUID(answer.question_uuid),
        ),
{
}

/// Listing the answers to a question that has none, or that is not stored,
/// gives the empty sequence where it succeeds.
pub proof fn no_answers_are_listed_as_none(
    tables: Tables,
    identifier: Seq<char>,
    records: Seq<AnswerDetailView>,
)
    requires
        tables.wf(),
        uuid_parse(identifier) matches Some(key) && (!tables.has_question(key) || forall|i: int|
            0 <= i < tables.answers.len() ==> (#[trigger] tables.answers[i]).question_uuid != key),
        get_answers_spec(tables, identifier, Ok(records)),
    ensures
        records =~= Seq::empty(),
{
    let key = uuid_parse(identifier)->0;
    let rows = tables.answers_to(key);
    lemma_filter_contains(tables.answers, answer_to(key));
    if rows.len() > 0 {
        assert(rows.contains(rows[0]));
        let k = choose|k: int| 0 <= k < tables.answers.len() && tables.answers[k] == rows[0];
        assert(tables.has_question(tables.answers[k].question_uuid));
    }
}

/// Deleting a question a second time fails; where the engine did not fail,
/// the error is `InvalidUUID` with the identifier as it was given.
pub proof fn question_is_deleted_once(
    before: Tables,
    identifier: Seq<char>,
    between: Tables,
    after: Tables,
    second: Result<(), DBErrorView>,
)
    requires
        delete_question_spec(before, identifier, between, Ok(())),
        delete_question_spec(between, identifier, after, second),
    ensures
        second is Err,
        !(second->Err_0 is Other) ==> second == Err::<(), DBErrorView>(
            DBErrorView::InvalidUUID(identifier),
        ),
{
    let key = uuid_parse(identifier)->0;
    let left = before.without_question(key);
    lemma_filter_contains(before.questions, question_other_than(key));
    if between.has_question(key) {
        let i = choose|i: int|
            0 <= i < between.questions.len() && question_key()(#[trigger] between.questions[i])
                == key;
        assert(between.questions.to_set().contains(between.questions[i]));
        assert(left.questions.contains(between.questions[i]));
    }
}

/// Deleting an answer a second time fails; where the engine did not fail,
/// the error is `InvalidUUID` with the identifier as it was given.
pub proof fn answer_is_deleted_once(
    before: Tables,
    identifier: Seq<char>,
    between: Tables,
    after: Tables,
    second: Result<(), DBErrorView>,
)
    requires
        delete_answer_spec(before, identifier, between, Ok(())),
        delete_answer_spec(between, identifier, after, second),
    ensures
        second is Err,
        !(second->Err_0 is Other) ==> second == Err::<(), DBErrorView>(
            DBErrorView::InvalidUUID(identifier),
        ),
{
    let key = uuid_parse(identifier)->0;
    let left = before.without_answer(key);
    lemma_filter_contains(before.answers, answer_other_than(key));
    if between.has_answer(key) {
        let i = choose|i: int|
            0 <= i < between.answers.len() && answer_key()(#[trigger] between.answers[i]) == key;
        assert(between.answers.to_set().contains(between.answers[i]));
        assert(left.answers.contains(between.answers[i]));
    }
}

/// What a client gave on creating a question comes back when the questions
/// are listed: the record that was created is listed, with the title and the
/// description; its identifier is the text of a UUID, and its creation time
/// is not empty.
pub proof fn question_fields_come_back(
    before: Tables,
    question: QuestionView,
    after: Tables,
    record: QuestionDetailView,
    listed: Seq<QuestionDetailView>,
)
    requires
        after.wf(),
        create_question_spec(before, question, after, Ok(record)),
        get_questions_spec(after, Ok(listed)),
    ensures
        exists|i: int|
            0 <= i < listed.len() && #[trigger] listed[i] == record && listed[i].title
                == question.title && listed[i].description == question.description
                && is_uuid_text(listed[i].question_uuid) && listed[i].created_at.len() > 0,
{
    created_question_is_listed_once(before, question, after, record, listed);
}

/// What a client gave on creating an answer comes back when the answers to
/// its question are listed: exactly one record is the one that was created;
/// it carries the content and a creation time that is not empty, its two
/// identifiers are texts of UUIDs and differ, and the question's identifier
/// names the question that the client named. The text of that identifier is
/// the client's where the client wrote it in canonical notation.
pub proof fn answer_fields_come_back(
    before: Tables,
    answer: AnswerView,
    after: Tables,
    record: AnswerDetailView,
    listed: Seq<AnswerDetailView>,
)
    requires
        after.wf(),
        create_answer_spec(before, answer, after, Ok(record)),
        get_answers_spec(after, answer.question_uuid, Ok(listed)),
    ensures
        occurs_once(listed, record),
        record.content == answer.content,
        record.created_at.len() > 0,
        is_uuid_text(record.answer_uuid),
        record.answer_uuid != record.question_uuid,
        uuid_parse(record.question_uuid) == uuid_parse(answer.question_uuid),
        answer.question_uuid == uuid_text(uuid_parse(answer.question_uuid)->0)
            ==> record.question_uuid == answer.question_uuid,
{
    let key = uuid_parse(answer.question_uuid)->0;
    let row = answer_row(record);
    let stored = before.with_answer(row);
    assert(stored.answers[before.answers.len() as int] == row);
    assert(stored.answers.to_set().contains(row));
    assert(after.answers.contains(row));
    let rows = after.answers_to(key);
    lemma_filter_contains(after.answers, answer_to(key));
    lemma_filter_distinct(after.answers, answer_to(key), answer_key());
    assert(rows.contains(row));
    let i = choose|i: int| 0 <= i < rows.len() && rows[i] == row;
    assert(listed[i] == record);
    assert forall|j: int| 0 <= j < listed.len() && #[trigger] listed[j] == record implies j
        == i by {
        assert(answer_key()(rows[j]) == answer_key()(rows[i]));
    }
}

/// Every identifier in a record that a store hands out is the canonical
/// text of a UUID.
pub proof fn records_carry_canonical_identifiers(
    tables: Tables,
    questions: Seq<QuestionDetailView>,
    asked: Seq<char>,
    answers: Seq<AnswerDetailView>,
)
    requires
        get_questions_spec(tables, Ok(questions)),
        get_answers_spec(tables, asked, Ok(answers)),
    ensures
        forall|i: int|
            0 <= i < questions.len() ==> is_canonical_uuid_text(
                (#[trigger] questions[i]).question_uuid,
            ),
        forall|i: int|
            0 <= i < answers.len() ==> is_canonical_uuid_text((#[trigger] answers[i]).answer_uuid)
                && is_canonical_uuid_text(answers[i].question_uuid),
{
}

/// A question that was created carries a canonical identifier.
pub proof fn created_question_carries_canonical_identifier(
    before: Tables,
    question: QuestionView,
    after: Tables,
    record: QuestionDetailView,
)
    requires
        create_question_spec(before, question, after, Ok(record)),
    ensures
        is_canonical_uuid_text(record.question_uuid),
{
}

/// An answer that was created carries canonical identifiers.
pub proof fn created_answer_carries_canonical_identifiers(
    before: Tables,
    answer: AnswerView,
    after: Tables,
    record: AnswerDetailView,
)
    requires
        create_answer_spec(before, answer, after, Ok(record)),
    ensures
        is_canonical_uuid_text(record.answer_uuid),
        is_canonical_uuid_text(record.question_uuid),
{
}

/// An answer is stored only to a question that is stored: the question that
/// the answer names was listed when the answer was created.
pub proof fn answered_question_is_stored(
    before: Tables,
    answer: AnswerView,
    after: Tables,
    record: AnswerDetailView,
    questions: Seq<QuestionDetailView>,
)
    requires
        create_answer_spec(before, answer, after, Ok(record)),
        get_questions_spec(before, Ok(questions)),
    ensures
        exists|i: int|
            0 <= i < questions.len() && (#[trigger] questions[i]).question_uuid
                == record.question_uuid,
{
    let key = uuid_parse(answer.question_uuid)->0;
    let i = choose|i: int|
        0 <= i < before.questions.len() && question_key()(#[trigger] before.questions[i]) == key;
    assert(questions[i].question_uuid == record.question_uuid);
}

/// Deleting an answer that is not stored fails; where the engine did not
/// fail, the error is `InvalidUUID` with the identifier as it was given.
pub proof fn unknown_answer_is_not_deleted(
    before: Tables,
    identifier: Seq<char>,
    after: Tables,
    result: Result<(), DBErrorView>,
)
    requires
        uuid_parse(identifier) matches Some(key) && !before.has_answer(key),
        delete_answer_spec(before, identifier, after, result),
    ensures
        result is Err,
        !(result->Err_0 is Other) ==> result == Err::<(), DBErrorView>(
            DBErrorView::InvalidUUID(identifier),
        ),
{
}

/// Deleting an answer that is listed succeeds, unless the engine fails.
pub proof fn listed_answer_is_deleted(
    before: Tables,
    question: Seq<char>,
    listed: Seq<AnswerDetailView>,
    i: int,
    after: Tables,
    result: Result<(), DBErrorView>,
)
    requires
        get_answers_spec(before, question, Ok(listed)),
        0 <= i < listed.len(),
        delete_answer_spec(before, listed[i].answer_uuid, after, result),
    ensures
        result is Ok || (result matches Err(e) && e is Other),
{
    let asked = uuid_parse(question)->0;
    let rows = before.answers_to(asked);
    lemma_filter_contains(before.answers, answer_to(asked));
    assert(rows.contains(rows[i]));
    let k = choose|k: int| 0 <= k < before.answers.len() && before.answers[k] == rows[i];
    assert(answer_key()(before.answers[k]) == rows[i].answer_uuid);
}

/// An answer that was deleted is no longer listed.
pub proof fn deleted_answer_is_gone(
    before: Tables,
    identifier: Seq<char>,
    after: Tables,
    question: Seq<char>,
    listed: Seq<AnswerDetailView>,
)
    requires
        delete_answer_spec(before, identifier, after, Ok(())),
        get_answers_spec(after, question, Ok(listed)),
    ensures
        forall|i: int|
            0 <= i < listed.len() ==> uuid_parse((#[trigger] listed[i]).answer_uuid) != uuid_parse(
                identifier,
            ),
{
    let key = uuid_parse(identifier)->0;
    let asked = uuid_parse(question)->0;
    let left = before.without_answer(key);
    let rows = after.answers_to(asked);
    lemma_filter_contains(before.answers, answer_other_than(key));
    lemma_filter_contains(after.answers, answer_to(asked));
    assert forall|i: int| 0 <= i < listed.len() implies uuid_parse(
        (#[trigger] listed[i]).answer_uuid,
    ) != uuid_parse(identifier) by {
        assert(rows.contains(rows[i]));
        assert(after.answers.to_set().contains(rows[i]));
        assert(left.answers.contains(rows[i]));
    }
}

/// Tables that hold every question row of other tables list every question
/// that those list.
proof fn lemma_questions_stay_listed(
    before: Tables,
    after: Tables,
    listed_before: Seq<QuestionDetailView>,
    listed_after: Seq<QuestionDetailView>,
    i: int,
)
    requires
        get_questions_spec(before, Ok(listed_before)),
        get_questions_spec(after, Ok(listed_after)),
        0 <= i < listed_before.len(),
        after.questions.contains(before.questions[i]),
    ensures
        listed_after.contains(listed_before[i]),
{
    let row = before.questions[i];
    let k = choose|k: int| 0 <= k < after.questions.len() && after.questions[k] == row;
    assert(listed_after[k] == listed_before[i]);
}

/// Tables that hold every answer row of other tables list, for each
/// question, every answer that those list.
proof fn lemma_answers_stay_listed(
    before: Tables,
    after: Tables,
    question: Seq<char>,
    listed_before: Seq<AnswerDetailView>,
    listed_after: Seq<AnswerDetailView>,
    i: int,
)
    requires
        get_answers_spec(before, question, Ok(listed_before)),
        get_answers_spec(after, question, Ok(listed_after)),
        0 <= i < listed_before.len(),
        after.answers.contains(before.answers_to(uuid_parse(question)->0)[i]),
    ensures
        listed_after.contains(listed_before[i]),
{
    let asked = uuid_parse(question)->0;
    let row = before.answers_to(asked)[i];
    lemma_filter_contains(before.answers, answer_to(asked));
    lemma_filter_contains(after.answers, answer_to(asked));
    assert(before.answers_to(asked).contains(row));
    assert(after.answers_to(asked).contains(row));
    let k = choose|k: int|
        0 <= k < after.answers_to(asked).len() && after.answers_to(asked)[k] == row;
    assert(listed_after[k] == listed_before[i]);
}

/// Creating a question, whether it succeeds or fails, leaves every question
/// and every answer that was stored as it was.
pub proof fn creating_a_question_keeps_the_rest(
    before: Tables,
    question: QuestionView,
    after: Tables,
    result: Result<QuestionDetailView, DBErrorView>,
    questions_before: Seq<QuestionDetailView>,
    questions_after: Seq<QuestionDetailView>,
    asked: Seq<char>,
    answers_before: Seq<AnswerDetailView>,
    answers_after: Seq<AnswerDetailView>,
)
    requires
        create_question_spec(before, question, after, result),
        get_questions_spec(before, Ok(questions_before)),
        get_questions_spec(after, Ok(questions_after)),
        get_answers_spec(before, asked, Ok(answers_before)),
        get_answers_spec(after, asked, Ok(answers_after)),
    ensures
        forall|i: int|
            0 <= i < questions_before.len() ==> questions_after.contains(
                #[trigger] questions_before[i],
            ),
        forall|i: int|
            0 <= i < answers_before.len() ==> answers_after.contains(#[trigger] answers_before[i]),
{
    let key = uuid_parse(asked)->0;
    assert forall|i: int| 0 <= i < questions_before.len() implies questions_after.contains(
        #[trigger] questions_before[i],
    ) by {
        let row = before.questions[i];
        assert(before.questions.to_set().contains(row));
        if result is Ok {
            let stored = before.with_question(question_row(result->Ok_0));
            assert(stored.questions[i] == row);
            assert(stored.questions.to_set().contains(row));
        }
        assert(after.questions.to_set().contains(row));
        lemma_questions_stay_listed(before, after, questions_before, questions_after, i);
    }
    assert forall|i: int| 0 <= i < answers_before.len() implies answers_after.contains(
        #[trigger] answers_before[i],
    ) by {
        let row = before.answers_to(key)[i];
        lemma_filter_contains(before.answers, answer_to(key));
        assert(before.answers_to(key).contains(row));
        assert(before.answers.to_set().contains(row));
        assert(after.answers.to_set().contains(row));
        lemma_answers_stay_listed(before, after, asked, answers_before, answers_after, i);
    }
}

/// Deleting a question, whether it succeeds or fails, leaves every other
/// question and the answers to every other question as they were.
pub proof fn deleting_a_question_keeps_the_rest(
    before: Tables,
    identifier: Seq<char>,
    after: Tables,
    result: Result<(), DBErrorView>,
    questions_before: Seq<QuestionDetailView>,
    questions_after: Seq<QuestionDetailView>,
    asked: Seq<char>,
    answers_before: Seq<AnswerDetailView>,
    answers_after: Seq<AnswerDetailView>,
)
    requires
        delete_question_spec(before, identifier, after, result),
        get_questions_spec(before, Ok(questions_before)),
        get_questions_spec(after, Ok(questions_after)),
        get_answers_spec(before, asked, Ok(answers_before)),
        get_answers_spec(after, asked, Ok(answers_after)),
    ensures
        forall|i: int|
            0 <= i < questions_before.len() && uuid_parse(
                (#[trigger] questions_before[i]).question_uuid,
            ) != uuid_parse(identifier) ==> questions_after.contains(questions_before[i]),
        uuid_parse(asked) != uuid_parse(identifier) ==> forall|i: int|
            0 <= i < answers_before.len() ==> answers_after.contains(#[trigger] answers_before[i]),
{
    let asked_key = uuid_parse(asked)->0;
    assert forall|i: int|
        0 <= i < questions_before.len() && uuid_parse(
            (#[trigger] questions_before[i]).question_uuid,
        ) != uuid_parse(identifier) implies questions_after.contains(questions_before[i]) by {
        let row = before.questions[i];
        assert(before.questions.to_set().contains(row));
        if result is Ok {
            let key = uuid_parse(identifier)->0;
            lemma_filter_contains(before.questions, question_other_than(key));
            assert(before.without_question(key).questions.to_set().contains(row));
        }
        assert(after.questions.to_set().contains(row));
        lemma_questions_stay_listed(before, after, questions_before, questions_after, i);
    }
    if uuid_parse(asked) != uuid_parse(identifier) {
        assert forall|i: int| 0 <= i < answers_before.len() implies answers_after.contains(
            #[trigger] answers_before[i],
        ) by {
            let row = before.answers_to(asked_key)[i];
            lemma_filter_contains(before.answers, answer_to(asked_key));
            assert(before.answers_to(asked_key).contains(row));
            assert(before.answers.to_set().contains(row));
            if result is Ok {
                let key = uuid_parse(identifier)->0;
                lemma_filter_contains(before.answers, answer_to_other_than(key));
                assert(before.without_question(key).answers.to_set().contains(row));
            }
            assert(after.answers.to_set().contains(row));
            lemma_answers_stay_listed(before, after, asked, answers_before, answers_after, i);
        }
    }
}

/// Creating an answer, whether it succeeds or fails, leaves every question
/// and every answer that was stored as it was.
pub proof fn creating_an_answer_keeps_the_rest(
    before: Tables,
    answer: AnswerView,
    after: Tables,
    result: Result<AnswerDetailView, DBErrorView>,
    questions_before: Seq<QuestionDetailView>,
    questions_after: Seq<QuestionDetailView>,
    asked: Seq<char>,
    answers_before: Seq<AnswerDetailView>,
    answers_after: Seq<AnswerDetailView>,
)
    requires
        create_answer_spec(before, answer, after, result),
        get_questions_spec(before, Ok(questions_before)),
        get_questions_spec(after, Ok(questions_after)),
        get_answers_spec(before, asked, Ok(answers_before)),
        get_answers_spec(after, asked, Ok(answers_after)),
    ensures
        forall|i: int|
            0 <= i < questions_before.len() ==> questions_after.contains(
                #[trigger] questions_before[i],
            ),
        forall|i: int|
            0 <= i < answers_before.len() ==> answers_after.contains(#[trigger] answers_before[i]),
{
    let key = uuid_parse(asked)->0;
    assert forall|i: int| 0 <= i < questions_before.len() implies questions_after.contains(
        #[trigger] questions_before[i],
    ) by {
        let row = before.questions[i];
        assert(before.questions.to_set().contains(row));
        assert(after.questions.to_set().contains(row));
        lemma_questions_stay_listed(before, after, questions_before, questions_after, i);
    }
    assert forall|i: int| 0 <= i < answers_before.len() implies answers_after.contains(
        #[trigger] answers_before[i],
    ) by {
        let row = before.answers_to(key)[i];
        lemma_filter_contains(before.answers, answer_to(key));
        assert(before.answers_to(key).contains(row));
        let k = choose|k: int| 0 <= k < before.answers.len() && before.answers[k] == row;
        assert(before.answers.to_set().contains(row));
        if result is Ok {
            let stored = before.with_answer(answer_row(result->Ok_0));
            assert(stored.answers[k] == row);
            assert(stored.answers.to_set().contains(row));
        }
        assert(after.answers.to_set().contains(row));
        lemma_answers_stay_listed(before, after, asked, answers_before, answers_after, i);
    }
}

/// Deleting an answer, whether it succeeds or fails, leaves every question
/// and every other answer as it was.
pub proof fn deleting_an_answer_keeps_the_rest(
    before: Tables,
    identifier: Seq<char>,
    after: Tables,
    result: Result<(), DBErrorView>,
    questions_before: Seq<QuestionDetailView>,
    questions_after: Seq<QuestionDetailView>,
    asked: Seq<char>,
    answers_before: Seq<AnswerDetailView>,
    answers_after: Seq<AnswerDetailView>,
)
    requires
        delete_answer_spec(before, identifier, after, result),
        get_questions_spec(before, Ok(questions_before)),
        get_questions_spec(after, Ok(questions_after)),
        get_answers_spec(before, asked, Ok(answers_before)),
        get_answers_spec(after, asked, Ok(answers_after)),
    ensures
        forall|i: int|
            0 <= i < questions_before.len() ==> questions_after.contains(
                #[trigger] questions_before[i],
            ),
        forall|i: int|
            0 <= i < answers_before.len() && uuid_parse((#[trigger] answers_before[i]).answer_uuid)
                != uuid_parse(identifier) ==> answers_after.contains(answers_before[i]),
{
    let key = uuid_parse(asked)->0;
    assert forall|i: int| 0 <= i < questions_before.len() implies questions_after.contains(
        #[trigger] questions_before[i],
    ) by {
        let row = before.questions[i];
        assert(before.questions.to_set().contains(row));
        assert(after.questions.to_set().contains(row));
        lemma_questions_stay_listed(before, after, questions_before, questions_after, i);
    }
    assert forall|i: int|
        0 <= i < answers_before.len() && uuid_parse((#[trigger] answers_before[i]).answer_uuid)
            != uuid_parse(identifier) implies answers_after.contains(answers_before[i]) by {
        let row = before.answers_to(key)[i];
        lemma_filter_contains(before.answers, answer_to(key));
        assert(before.answers_to(key).contains(row));
        assert(before.answers.to_set().contains(row));
        if result is Ok {
            let gone = uuid_parse(identifier)->0;
            lemma_filter_contains(before.answers, answer_other_than(gone));
            assert(before.without_answer(gone).answers.to_set().contains(row));
        }
        assert(after.answers.to_set().contains(row));
        lemma_answers_stay_listed(before, after, asked, answers_before, answers_after, i);
    }
}

/// No identifier names both a question and an answer: the identifier of a
/// listed question is the identifier of no listed answer.
pub proof fn identifiers_name_one_record(
    tables: Tables,
    questions: Seq<QuestionDetailView>,
    asked: Seq<char>,
    answers: Seq<AnswerDetailView>,
)
    requires
        tables.wf(),
        get_questions_spec(tables, Ok(questions)),
        get_answers_spec(tables, asked, Ok(answers)),
    ensures
        forall|i: int, j: int|
            0 <= i < questions.len() && 0 <= j < answers.len() ==> (
            #[trigger] questions[i]).question_uuid != (#[trigger] answers[j]).answer_uuid,
{
    let key = uuid_parse(asked)->0;
    let rows = tables.answers_to(key);
    lemma_filter_contains(tables.answers, answer_to(key));
    assert forall|i: int, j: int|
        0 <= i < questions.len() && 0 <= j < answers.len() implies (
    #[trigger] questions[i]).question_uuid != (#[trigger] answers[j]).answer_uuid by {
        if questions[i].question_uuid == answers[j].answer_uuid {
            assert(rows.contains(rows[j]));
            let k = choose|k: int| 0 <= k < tables.answers.len() && tables.answers[k] == rows[j];
            assert(question_key()(tables.questions[i]) == tables.answers[k].answer_uuid);
        }
    }
}

/// One operation that changes what a store holds, with what it returned.
pub enum Step {
    CreateQuestion { question: QuestionView, result: Result<QuestionDetailView, DBErrorView> },
    DeleteQuestion { identifier: Seq<char>, result: Result<(), DBErrorView> },
    CreateAnswer { answer: AnswerView, result: Result<AnswerDetailView, DBErrorView> },
    DeleteAnswer { identifier: Seq<char>, result: Result<(), DBErrorView> },
}

/// `step` took the tables from `before` to `after`, as the method of the
/// store that it stands for ensures.
pub open spec fn step_spec(before: Tables, step: Step, after: Tables) -> bool {
    &&& after.wf()
    &&& match step {
        Step::CreateQuestion { question, result } => create_question_spec(
            before,
            question,
            after,
            result,
        ),
        Step::DeleteQuestion { identifier, result } => delete_question_spec(
            before,
            identifier,
            after,
            result,
        ),
        Step::CreateAnswer { answer, result } => create_answer_spec(before, answer, after, result),
        Step::DeleteAnswer { identifier, result } => delete_answer_spec(
            before,
            identifier,
            after,
            result,
        ),
    }
}

/// `states` are the tables along a run of `steps`: the first before the
/// first step, each next one after the next step.
pub open spec fn run_spec(states: Seq<Tables>, steps: Seq<Step>) -> bool {
    &&& states.len() == steps.len() + 1
    &&& forall|n: int|
        0 <= n < steps.len() ==> step_spec(states[n], #[trigger] steps[n], states[n + 1])
}

/// `step` deleted the question with this key.
pub open spec fn deletes_question(step: Step, key: u128) -> bool {
    step matches Step::DeleteQuestion { identifier, result } && result is Ok && uuid_parse(
        identifier,
    ) == Some(key)
}

/// `step` deleted the answer with this key.
pub open spec fn deletes_answer(step: Step, key: u128) -> bool {
    step matches Step::DeleteAnswer { identifier, result } && result is Ok && uuid_parse(
        identifier,
    ) == Some(key)
}

/// A question row stays stored along a run that does not delete it.
proof fn lemma_question_row_stays(
    states: Seq<Tables>,
    steps: Seq<Step>,
    row: QuestionRowView,
    n: int,
)
    requires
        run_spec(states, steps),
        states[0].questions.contains(row),
        forall|m: int|
            0 <= m < steps.len() ==> !deletes_question(#[trigger] steps[m], row.question_uuid),
        0 <= n <= steps.len(),
    ensures
        states[n].questions.contains(row),
    decreases n,
{
    if n > 0 {
        lemma_question_row_stays(states, steps, row, n - 1);
        let before = states[n - 1];
        let after = states[n];
        let step = steps[n - 1];
        assert(step_spec(before, step, after));
        assert(!deletes_question(step, row.question_uuid));
        assert(before.questions.to_set().contains(row));
        let k = choose|k: int| 0 <= k < before.questions.len() && before.questions[k] == row;
        match step {
            Step::CreateQuestion { question, result } => {
                if result is Ok {
                    let stored = before.with_question(question_row(result->Ok_0));
                    assert(stored.questions[k] == row);
                    assert(stored.questions.to_set().contains(row));
                }
            },
            Step::DeleteQuestion { identifier, result } => {
                if result is Ok {
                    let gone = uuid_parse(identifier)->0;
                    lemma_filter_contains(before.questions, question_other_than(gone));
                    assert(before.without_question(gone).questions.to_set().contains(row));
                }
            },
            Step::CreateAnswer { answer, result } => {},
            Step::DeleteAnswer { identifier, result } => {},
        }
        assert(after.questions.to_set().contains(row));
    }
}

/// An answer row stays stored along a run that deletes neither the answer
/// nor its question.
proof fn lemma_answer_row_stays(states: Seq<Tables>, steps: Seq<Step>, row: AnswerRowView, n: int)
    requires
        run_spec(states, steps),
        states[0].answers.contains(row),
        forall|m: int|
            0 <= m < steps.len() ==> !deletes_answer(#[trigger] steps[m], row.answer_uuid)
                && !deletes_question(steps[m], row.question_uuid),
        0 <= n <= steps.len(),
    ensures
        states[n].answers.contains(row),
    decreases n,
{
    if n > 0 {
        lemma_answer_row_stays(states, steps, row, n - 1);
        let before = states[n - 1];
        let after = states[n];
        let step = steps[n - 1];
        assert(step_spec(before, step, after));
        assert(!deletes_answer(step, row.answer_uuid) && !deletes_question(
            step,
            row.question_uuid,
        ));
        assert(before.answers.to_set().contains(row));
        let k = choose|k: int| 0 <= k < before.answers.len() && before.answers[k] == row;
        match step {
            Step::CreateQuestion { question, result } => {},
            Step::DeleteQuestion { identifier, result } => {
                if result is Ok {
                    let gone = uuid_parse(identifier)->0;
                    lemma_filter_contains(before.answers, answer_to_other_than(gone));
                    assert(before.without_question(gone).answers.to_set().contains(row));
                }
            },
            Step::CreateAnswer { answer, result } => {
                if result is Ok {
                    let stored = before.with_answer(answer_row(result->Ok_0));
                    assert(stored.answers[k] == row);
                    assert(stored.answers.to_set().contains(row));
                }
            },
            Step::DeleteAnswer { identifier, result } => {
                if result is Ok {
                    let gone = uuid_parse(identifier)->0;
                    lemma_filter_contains(before.answers, answer_other_than(gone));
                    assert(before.without_answer(gone).answers.to_set().contains(row));
                }
            },
        }
        assert(after.answers.to_set().contains(row));
    }
}

/// A question that was created stays as it was, whatever is created and
/// deleted afterwards, until it is deleted itself: after a run of any
/// number of operations, none of which deleted it, the questions that are
/// listed hold the record that was created, once, with the client's title
/// and description and the creation time it was given; and no other listed
/// record carries its identifier.
pub proof fn question_stays_as_created(
    before: Tables,
    question: QuestionView,
    record: QuestionDetailView,
    states: Seq<Tables>,
    steps: Seq<Step>,
    listed: Seq<QuestionDetailView>,
)
    requires
        run_spec(states, steps),
        states[0].wf(),
        create_question_spec(before, question, states[0], Ok(record)),
        forall|m: int|
            0 <= m < steps.len() ==> !deletes_question(
                #[trigger] steps[m],
                uuid_parse(record.question_uuid)->0,
            ),
        get_questions_spec(states.last(), Ok(listed)),
    ensures
        occurs_once(listed, record),
        record.title == question.title,
        record.description == question.description,
        forall|j: int|
            0 <= j < listed.len() && (#[trigger] listed[j]).question_uuid == record.question_uuid
                ==> listed[j] == record,
{
    let row = question_row(record);
    let stored = before.with_question(row);
    assert(stored.questions[before.questions.len() as int] == row);
    assert(stored.questions.to_set().contains(row));
    assert(states[0].questions.contains(row));
    lemma_question_row_stays(states, steps, row, steps.len() as int);
    let last = states.last();
    assert(last.wf()) by {
        if steps.len() > 0 {
            assert(step_spec(states[steps.len() - 1], steps[steps.len() - 1], last));
        }
    }
    let i = choose|i: int| 0 <= i < last.questions.len() && last.questions[i] == row;
    assert(listed[i] == record);
    assert forall|j: int|
        0 <= j < listed.len() && (#[trigger] listed[j]).question_uuid
            == record.question_uuid implies j == i by {
        assert(question_key()(last.questions[j]) == question_key()(last.questions[i]));
    }
}

/// An answer that was created stays as it was, whatever is created and
/// deleted afterwards, until it or its question is deleted: after a run of
/// any number of operations, none of which deleted either, the answers that
/// are listed for its question hold the record that was created, once, with
/// the client's content and the creation time it was given; and no other
/// listed record carries its identifier.
pub proof fn answer_stays_as_created(
    before: Tables,
    answer: AnswerView,
    record: AnswerDetailView,
    states: Seq<Tables>,
    steps: Seq<Step>,
    listed: Seq<AnswerDetailView>,
)
    requires
        run_spec(states, steps),
        states[0].wf(),
        create_answer_spec(before, answer, states[0], Ok(record)),
        forall|m: int|
            0 <= m < steps.len() ==> !deletes_answer(
                #[trigger] steps[m],
                uuid_parse(record.answer_uuid)->0,
            ) && !deletes_question(steps[m], uuid_parse(record.question_uuid)->0),
        get_answers_spec(states.last(), answer.question_uuid, Ok(listed)),
    ensures
        occurs_once(listed, record),
        record.content == answer.content,
        forall|j: int|
            0 <= j < listed.len() && (#[trigger] listed[j]).answer_uuid == record.answer_uuid
                ==> listed[j] == record,
{
    let key = uuid_parse(answer.question_uuid)->0;
    let row = answer_row(record);
    let stored = before.with_answer(row);
    assert(stored.answers[before.answers.len() as int] == row);
    assert(stored.answers.to_set().contains(row));
    assert(states[0].answers.contains(row));
    lemma_answer_row_stays(states, steps, row, steps.len() as int);
    let last = states.last();
    assert(last.wf()) by {
        if steps.len() > 0 {
            assert(step_spec(states[steps.len() - 1], steps[steps.len() - 1], last));
        }
    }
    let rows = last.answers_to(key);
    lemma_filter_contains(last.answers, answer_to(key));
    lemma_filter_distinct(last.answers, answer_to(key), answer_key());
    assert(rows.contains(row));
    let i = choose|i: int| 0 <= i < rows.len() && rows[i] == row;
    assert(listed[i] == record);
    assert forall|j: int|
        0 <= j < listed.len() && (#[trigger] listed[j]).answer_uuid
            == record.answer_uuid implies j == i by {
        assert(answer_key()(rows[j]) == answer_key()(rows[i]));
    }
}

} // verus!
