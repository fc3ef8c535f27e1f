use qa_store::models::postgres_error_codes::{FOREIGN_KEY_VIOLATION, UNIQUE_VIOLATION};
use qa_store::models::{AnswerDetail, DBError, QuestionDetail};
use qa_store::persistance::answers_dao::{
    answer_detail, create_answer_outcome, delete_answer_outcome, get_answers_outcome,
};
use qa_store::persistance::questions_dao::{
    create_question_outcome, delete_question_outcome, get_questions_outcome, question_detail,
};
use qa_store::storage::{AnswerRow, QuestionRow, StorageFailure};

const QUESTION_KEY: u128 = 0xa1a2a3a4b1b2c1c2d1d2d3d4d5d6d7d8;
const QUESTION_TEXT: &str = "a1a2a3a4-b1b2-c1c2-d1d2-d3d4d5d6d7d8";
const ANSWER_KEY: u128 = 0x0123456789abcdef0123456789abcdef;
const ANSWER_TEXT: &str = "01234567-89ab-cdef-0123-456789abcdef";

fn question_row(key: u128, title: &str) -> QuestionRow {
    QuestionRow {
        question_uuid: key,
        title: title.to_string(),
        description: "How does it work?".to_string(),
        created_at: "2024-05-01 10:00:00".to_string(),
    }
}

fn answer_row(key: u128, content: &str) -> AnswerRow {
    AnswerRow {
        answer_uuid: key,
        question_uuid: QUESTION_KEY,
        content: content.to_string(),
        created_at: "2024-05-01 11:30:00".to_string(),
    }
}

fn failure(code: Option<&str>) -> StorageFailure {
    StorageFailure { code: code.map(|c| c.to_string()), message: "the engine failed".to_string() }
}

#[test]
fn the_codes_are_those_of_the_engine() {
    assert_eq!(FOREIGN_KEY_VIOLATION, "23503");
    assert_eq!(UNIQUE_VIOLATION, "23505");
}

#[test]
fn a_foreign_key_violation_is_told_by_its_code() {
    assert!(failure(Some("23503")).is_foreign_key_violation());
    assert!(!failure(Some("23505")).is_foreign_key_violation());
    assert!(!failure(Some("2350")).is_foreign_key_violation());
    assert!(!failure(Some("235030")).is_foreign_key_violation());
    assert!(!failure(Some("")).is_foreign_key_violation());
    assert!(!failure(None).is_foreign_key_violation());
}

#[test]
fn a_question_row_becomes_its_record() {
    let record = question_detail(&question_row(QUESTION_KEY, "Ownership"));
    assert_eq!(
        record,
        QuestionDetail {
            question_uuid: QUESTION_TEXT.to_string(),
            title: "Ownership".to_string(),
            description: "How does it work?".to_string(),
            created_at: "2024-05-01 10:00:00".to_string(),
        }
    );
}

#[test]
fn the_key_is_written_in_full_and_in_lower_case() {
    assert_eq!(
        question_detail(&question_row(0, "")).question_uuid,
        "00000000-0000-0000-0000-000000000000"
    );
    assert_eq!(
        question_detail(&question_row(0xABCDEF, "")).question_uuid,
        "00000000-0000-0000-0000-000000abcdef"
    );
    assert_eq!(
        question_detail(&question_row(u128::MAX, "")).question_uuid,
        "ffffffff-ffff-ffff-ffff-ffffffffffff"
    );
}

#[test]
fn an_answer_row_becomes_its_record() {
    let record = answer_detail(&answer_row(ANSWER_KEY, "By moving values."));
    assert_eq!(
        record,
        AnswerDetail {
            answer_uuid: ANSWER_TEXT.to_string(),
            question_uuid: QUESTION_TEXT.to_string(),
            content: "By moving values.".to_string(),
            created_at: "2024-05-01 11:30:00".to_string(),
        }
    );
}

#[test]
fn a_stored_question_is_returned_as_its_record() {
    let row = question_row(QUESTION_KEY, "Ownership");
    assert_eq!(create_question_outcome(Ok(row.clone())), Ok(question_detail(&row)));
}

#[test]
fn a_failed_insert_of_a_question_is_another_error() {
    for code in [None, Some("23503"), Some("23505"), Some("08006")] {
        assert_eq!(
            create_question_outcome(Err(failure(code))),
            Err(DBError::Other(failure(code)))
        );
    }
}

#[test]
fn listed_questions_keep_the_order_of_the_engine() {
    let rows = vec![
        question_row(3, "third"),
        question_row(1, "first"),
        question_row(2, "second"),
    ];
    let records = get_questions_outcome(Ok(rows.clone())).unwrap();
    assert_eq!(records.len(), 3);
    for (record, row) in records.iter().zip(rows.iter()) {
        assert_eq!(*record, question_detail(row));
    }
    assert_eq!(records[0].title, "third");
    assert_eq!(records[2].question_uuid, "00000000-0000-0000-0000-000000000002");
}

#[test]
fn no_question_rows_are_no_records() {
    assert_eq!(get_questions_outcome(Ok(Vec::new())), Ok(Vec::new()));
}

#[test]
fn a_failed_select_of_questions_is_another_error() {
    assert_eq!(get_questions_outcome(Err(failure(None))), Err(DBError::Other(failure(None))));
}

#[test]
fn a_delete_that_removed_a_question_succeeds() {
    assert_eq!(delete_question_outcome(QUESTION_TEXT.to_string(), Ok(1)), Ok(()));
    assert_eq!(delete_question_outcome(QUESTION_TEXT.to_string(), Ok(2)), Ok(()));
    assert_eq!(delete_question_outcome(QUESTION_TEXT.to_string(), Ok(u64::MAX)), Ok(()));
}

#[test]
fn a_delete_that_removed_no_question_names_the_identifier() {
    assert_eq!(
        delete_question_outcome(QUESTION_TEXT.to_string(), Ok(0)),
        Err(DBError::InvalidUUID(QUESTION_TEXT.to_string()))
    );
    // the identifier is carried as it was given, not rewritten
    assert_eq!(
        delete_question_outcome(QUESTION_TEXT.to_uppercase(), Ok(0)),
        Err(DBError::InvalidUUID(QUESTION_TEXT.to_uppercase()))
    );
}

#[test]
fn a_failed_delete_of_a_question_is_another_error() {
    assert_eq!(
        delete_question_outcome(QUESTION_TEXT.to_string(), Err(failure(Some("23503")))),
        Err(DBError::Other(failure(Some("23503"))))
    );
}

#[test]
fn a_stored_answer_is_returned_as_its_record() {
    let row = answer_row(ANSWER_KEY, "By moving values.");
    assert_eq!(
        create_answer_outcome(QUESTION_TEXT.to_string(), Ok(row.clone())),
        Ok(answer_detail(&row))
    );
}

#[test]
fn an_answer_to_a_missing_question_names_the_question() {
    assert_eq!(
        create_answer_outcome(QUESTION_TEXT.to_string(), Err(failure(Some("23503")))),
        Err(DBError::InvalidUUID(QUESTION_TEXT.to_string()))
    );
    assert_eq!(
        create_answer_outcome(QUESTION_TEXT.to_uppercase(), Err(failure(Some("23503")))),
        Err(DBError::InvalidUUID(QUESTION_TEXT.to_uppercase()))
    );
}

#[test]
fn every_other_failed_insert_of_an_answer_is_another_error() {
    for code in [None, Some("23505"), Some("23502"), Some("08006"), Some("")] {
        assert_eq!(
            create_answer_outcome(QUESTION_TEXT.to_string(), Err(failure(code))),
            Err(DBError::Other(failure(code)))
        );
    }
}

#[test]
fn listed_answers_keep_the_order_of_the_engine() {
    let rows = vec![answer_row(9, "nine"), answer_row(4, "four")];
    let records = get_answers_outcome(Ok(rows.clone())).unwrap();
    assert_eq!(records, vec![answer_detail(&rows[0]), answer_detail(&rows[1])]);
    assert_eq!(records[1].answer_uuid, "00000000-0000-0000-0000-000000000004");
    assert_eq!(records[1].question_uuid, QUESTION_TEXT);
}

#[test]
fn no_answer_rows_are_no_records_and_no_error() {
    assert_eq!(get_answers_outcome(Ok(Vec::new())), Ok(Vec::new()));
}

#[test]
fn a_failed_select_of_answers_is_another_error() {
    assert_eq!(
        get_answers_outcome(Err(failure(Some("57014")))),
        Err(DBError::Other(failure(Some("57014"))))
    );
}

#[test]
fn a_delete_that_removed_an_answer_succeeds() {
    assert_eq!(delete_answer_outcome(ANSWER_TEXT.to_string(), Ok(1)), Ok(()));
    assert_eq!(delete_answer_outcome(ANSWER_TEXT.to_string(), Ok(2)), Ok(()));
}

#[test]
fn a_delete_that_removed_no_answer_names_the_identifier() {
    assert_eq!(
        delete_answer_outcome(ANSWER_TEXT.to_string(), Ok(0)),
        Err(DBError::InvalidUUID(ANSWER_TEXT.to_string()))
    );
}

#[test]
fn a_failed_delete_of_an_answer_is_another_error() {
    assert_eq!(
        delete_answer_outcome(ANSWER_TEXT.to_string(), Err(failure(None))),
        Err(DBError::Other(failure(None)))
    );
}
