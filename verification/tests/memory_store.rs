use qa_store::identifier::parse_identifier;
use qa_store::memory::MemoryStore;
use qa_store::models::{Answer, AnswerDetail, DBError, Question, QuestionDetail};
use qa_store::persistance::answers_dao::AnswersDao;
use qa_store::persistance::questions_dao::QuestionsDao;
use qa_store::storage::{AnswerRow, QuestionRow, StorageFailure};

const UNKNOWN: &str = "123e4567-e89b-42d3-a456-426614174000";

fn question(title: &str, description: &str) -> Question {
    Question { title: title.to_string(), description: description.to_string() }
}

fn answer(question_uuid: &str, content: &str) -> Answer {
    Answer { question_uuid: question_uuid.to_string(), content: content.to_string() }
}

fn invalid(text: &str) -> DBError {
    DBError::InvalidUUID(text.to_string())
}

fn occurrences<T: PartialEq>(all: &[T], wanted: &T) -> usize {
    all.iter().filter(|one| *one == wanted).count()
}

#[test]
fn a_new_store_is_empty() {
    let store = MemoryStore::new();
    assert_eq!(store.get_questions(), Ok(Vec::new()));
    assert_eq!(store.select_questions(), Vec::new());
    assert_eq!(store.select_answers(1), Vec::new());
    assert!(!store.holds_question(0));
    assert!(!store.holds_answer(0));
}

#[test]
fn a_created_question_carries_what_the_client_gave() {
    let mut store = MemoryStore::new();
    let record = store.create_question(question("Ownership", "How does it work?")).unwrap();
    assert_eq!(record.title, "Ownership");
    assert_eq!(record.description, "How does it work?");
    assert!(parse_identifier(&record.question_uuid).is_ok());
    assert_eq!(record.question_uuid.len(), 36);
    assert_eq!(record.question_uuid, record.question_uuid.to_lowercase());
    assert_eq!(uuid::Uuid::parse_str(&record.question_uuid).unwrap().get_version_num(), 4);
    assert!(chrono::DateTime::parse_from_rfc3339(&record.created_at).is_ok());
}

#[test]
fn created_questions_get_identifiers_of_their_own() {
    let mut store = MemoryStore::new();
    let mut seen: Vec<String> = Vec::new();
    for i in 0..50 {
        let record = store.create_question(question(&format!("question {}", i), "")).unwrap();
        assert!(!seen.contains(&record.question_uuid));
        seen.push(record.question_uuid);
    }
}

#[test]
fn a_created_question_is_listed_exactly_once() {
    let mut store = MemoryStore::new();
    let first = store.create_question(question("first", "one")).unwrap();
    let second = store.create_question(question("second", "two")).unwrap();
    let same_text = store.create_question(question("first", "one")).unwrap();
    let listed = store.get_questions().unwrap();
    assert_eq!(listed.len(), 3);
    assert_eq!(occurrences(&listed, &first), 1);
    assert_eq!(occurrences(&listed, &second), 1);
    assert_eq!(occurrences(&listed, &same_text), 1);
}

#[test]
fn deleting_by_malformed_text_names_the_text() {
    let mut store = MemoryStore::new();
    store.create_question(question("kept", "")).unwrap();
    assert_eq!(store.delete_question("not-a-uuid".to_string()), Err(invalid("not-a-uuid")));
    assert_eq!(store.delete_answer("not-a-uuid".to_string()), Err(invalid("not-a-uuid")));
    assert_eq!(store.delete_question(String::new()), Err(invalid("")));
    assert_eq!(store.get_questions().unwrap().len(), 1);
}

#[test]
fn deleting_an_unknown_question_names_the_identifier() {
    let mut store = MemoryStore::new();
    store.create_question(question("kept", "")).unwrap();
    assert_eq!(store.delete_question(UNKNOWN.to_string()), Err(invalid(UNKNOWN)));
    assert_eq!(store.get_questions().unwrap().len(), 1);
}

#[test]
fn a_deleted_question_is_no_longer_listed() {
    let mut store = MemoryStore::new();
    let first = store.create_question(question("first", "")).unwrap();
    let second = store.create_question(question("second", "")).unwrap();
    assert_eq!(store.delete_question(first.question_uuid.clone()), Ok(()));
    assert_eq!(store.get_questions(), Ok(vec![second]));
}

#[test]
fn a_question_is_deleted_by_any_notation_of_its_identifier() {
    let mut store = MemoryStore::new();
    let record = store.create_question(question("first", "")).unwrap();
    assert_eq!(store.delete_question(record.question_uuid.to_uppercase()), Ok(()));
    assert_eq!(store.get_questions(), Ok(Vec::new()));
}

#[test]
fn deleting_a_question_twice_fails_the_second_time() {
    let mut store = MemoryStore::new();
    let record = store.create_question(question("once", "")).unwrap();
    assert_eq!(store.delete_question(record.question_uuid.clone()), Ok(()));
    assert_eq!(
        store.delete_question(record.question_uuid.clone()),
        Err(invalid(&record.question_uuid))
    );
}

#[test]
fn an_answer_carries_what_the_client_gave() {
    let mut store = MemoryStore::new();
    let asked = store.create_question(question("Ownership", "")).unwrap();
    let record = store.create_answer(answer(&asked.question_uuid, "By moving values.")).unwrap();
    assert_eq!(record.question_uuid, asked.question_uuid);
    assert_eq!(record.content, "By moving values.");
    assert!(parse_identifier(&record.answer_uuid).is_ok());
    assert_ne!(record.answer_uuid, record.question_uuid);
    assert!(chrono::DateTime::parse_from_rfc3339(&record.created_at).is_ok());
    assert_eq!(store.get_answers(asked.question_uuid.clone()), Ok(vec![record]));
}

#[test]
fn an_answer_names_its_question_in_canonical_notation() {
    let mut store = MemoryStore::new();
    let asked = store.create_question(question("Ownership", "")).unwrap();
    let shouted = asked.question_uuid.to_uppercase();
    let record = store.create_answer(answer(&shouted, "By moving values.")).unwrap();
    assert_eq!(record.question_uuid, asked.question_uuid);
    assert_eq!(store.get_answers(shouted), Ok(vec![record]));
}

#[test]
fn an_answer_with_a_malformed_question_is_refused() {
    let mut store = MemoryStore::new();
    assert_eq!(store.create_answer(answer("not-a-uuid", "lost")), Err(invalid("not-a-uuid")));
}

#[test]
fn an_answer_to_an_unknown_question_is_refused_and_not_stored() {
    let mut store = MemoryStore::new();
    store.create_question(question("another", "")).unwrap();
    assert_eq!(store.create_answer(answer(UNKNOWN, "lost")), Err(invalid(UNKNOWN)));
    assert_eq!(store.get_answers(UNKNOWN.to_string()), Ok(Vec::new()));
    assert_eq!(store.select_answers(parse_identifier(UNKNOWN).unwrap()), Vec::new());
    // the question that comes to be stored under that key later has no answer
    let key = parse_identifier(UNKNOWN).unwrap();
    store
        .insert_question("late".to_string(), String::new(), key, "2024-05-01".to_string())
        .unwrap();
    assert_eq!(store.get_answers(UNKNOWN.to_string()), Ok(Vec::new()));
}

#[test]
fn a_question_without_answers_lists_none() {
    let mut store = MemoryStore::new();
    let asked = store.create_question(question("silence", "")).unwrap();
    assert_eq!(store.get_answers(asked.question_uuid), Ok(Vec::new()));
}

#[test]
fn listing_answers_by_malformed_text_names_the_text() {
    let store = MemoryStore::new();
    assert_eq!(store.get_answers("not-a-uuid".to_string()), Err(invalid("not-a-uuid")));
}

#[test]
fn answers_are_listed_for_their_question_only() {
    let mut store = MemoryStore::new();
    let first = store.create_question(question("first", "")).unwrap();
    let second = store.create_question(question("second", "")).unwrap();
    let a = store.create_answer(answer(&first.question_uuid, "a")).unwrap();
    let b = store.create_answer(answer(&second.question_uuid, "b")).unwrap();
    let c = store.create_answer(answer(&first.question_uuid, "c")).unwrap();
    let to_first = store.get_answers(first.question_uuid.clone()).unwrap();
    assert_eq!(to_first.len(), 2);
    assert_eq!(occurrences(&to_first, &a), 1);
    assert_eq!(occurrences(&to_first, &c), 1);
    assert_eq!(store.get_answers(second.question_uuid.clone()), Ok(vec![b]));
}

#[test]
fn a_deleted_answer_is_no_longer_listed() {
    let mut store = MemoryStore::new();
    let asked = store.create_question(question("first", "")).unwrap();
    let a = store.create_answer(answer(&asked.question_uuid, "a")).unwrap();
    let b = store.create_answer(answer(&asked.question_uuid, "b")).unwrap();
    assert_eq!(store.delete_answer(a.answer_uuid.clone()), Ok(()));
    assert_eq!(store.get_answers(asked.question_uuid.clone()), Ok(vec![b]));
    assert_eq!(store.delete_answer(a.answer_uuid.clone()), Err(invalid(&a.answer_uuid)));
}

#[test]
fn deleting_an_unknown_answer_names_the_identifier() {
    let mut store = MemoryStore::new();
    assert_eq!(store.delete_answer(UNKNOWN.to_string()), Err(invalid(UNKNOWN)));
}

#[test]
fn the_key_of_a_question_deletes_no_answer() {
    let mut store = MemoryStore::new();
    let asked = store.create_question(question("first", "")).unwrap();
    let given = store.create_answer(answer(&asked.question_uuid, "a")).unwrap();
    assert_eq!(
        store.delete_answer(asked.question_uuid.clone()),
        Err(invalid(&asked.question_uuid))
    );
    assert_eq!(store.get_answers(asked.question_uuid), Ok(vec![given]));
}

#[test]
fn deleting_a_question_deletes_its_answers() {
    let mut store = MemoryStore::new();
    let first = store.create_question(question("first", "")).unwrap();
    let second = store.create_question(question("second", "")).unwrap();
    let lost = store.create_answer(answer(&first.question_uuid, "lost")).unwrap();
    let kept = store.create_answer(answer(&second.question_uuid, "kept")).unwrap();
    assert_eq!(store.delete_question(first.question_uuid.clone()), Ok(()));
    assert_eq!(store.get_answers(first.question_uuid.clone()), Ok(Vec::new()));
    assert_eq!(store.get_answers(second.question_uuid.clone()), Ok(vec![kept]));
    assert_eq!(store.delete_answer(lost.answer_uuid.clone()), Err(invalid(&lost.answer_uuid)));
    assert_eq!(
        store.create_answer(answer(&first.question_uuid, "late")),
        Err(invalid(&first.question_uuid))
    );
}

#[test]
fn rows_are_stored_under_the_key_given() {
    let mut store = MemoryStore::new();
    let row = store
        .insert_question("t".to_string(), "d".to_string(), 7, "then".to_string())
        .unwrap();
    assert_eq!(
        row,
        QuestionRow {
            question_uuid: 7,
            title: "t".to_string(),
            description: "d".to_string(),
            created_at: "then".to_string(),
        }
    );
    assert!(store.holds_question(7));
    assert!(!store.holds_question(8));
    assert_eq!(store.select_questions(), vec![row]);
    assert_eq!(
        store.get_questions(),
        Ok(vec![QuestionDetail {
            question_uuid: "00000000-0000-0000-0000-000000000007".to_string(),
            title: "t".to_string(),
            description: "d".to_string(),
            created_at: "then".to_string(),
        }])
    );
    let given = store.insert_answer(7, "c".to_string(), 9, "later".to_string()).unwrap();
    assert_eq!(
        given,
        AnswerRow {
            answer_uuid: 9,
            question_uuid: 7,
            content: "c".to_string(),
            created_at: "later".to_string(),
        }
    );
    assert!(store.holds_answer(9));
    assert!(!store.holds_answer(7));
    assert_eq!(
        store.get_answers("00000000-0000-0000-0000-000000000007".to_string()),
        Ok(vec![AnswerDetail {
            answer_uuid: "00000000-0000-0000-0000-000000000009".to_string(),
            question_uuid: "00000000-0000-0000-0000-000000000007".to_string(),
            content: "c".to_string(),
            created_at: "later".to_string(),
        }])
    );
}

#[test]
fn a_key_in_use_is_refused_as_a_unique_violation() {
    let mut store = MemoryStore::new();
    store.insert_question("t".to_string(), String::new(), 7, String::new()).unwrap();
    let refused = StorageFailure {
        code: Some("23505".to_string()),
        message: "duplicate key value violates unique constraint".to_string(),
    };
    assert_eq!(
        store.insert_question("again".to_string(), String::new(), 7, String::new()),
        Err(refused.clone())
    );
    assert_eq!(store.select_questions().len(), 1);
    store.insert_answer(7, "c".to_string(), 9, String::new()).unwrap();
    assert_eq!(store.insert_answer(7, "again".to_string(), 9, String::new()), Err(refused));
    assert_eq!(store.select_answers(7).len(), 1);
}

#[test]
fn an_answer_row_without_its_question_is_refused_as_a_foreign_key_violation() {
    let mut store = MemoryStore::new();
    let outcome = store.insert_answer(7, "c".to_string(), 9, String::new());
    assert_eq!(
        outcome,
        Err(StorageFailure {
            code: Some("23503".to_string()),
            message: "insert on table \"answers\" violates foreign key constraint".to_string(),
        })
    );
    assert!(outcome.unwrap_err().is_foreign_key_violation());
    assert!(!store.holds_answer(9));
}

#[test]
fn removing_rows_counts_them() {
    let mut store = MemoryStore::new();
    store.insert_question("a".to_string(), String::new(), 1, String::new()).unwrap();
    store.insert_question("b".to_string(), String::new(), 2, String::new()).unwrap();
    store.insert_question("c".to_string(), String::new(), 3, String::new()).unwrap();
    store.insert_answer(2, "x".to_string(), 10, String::new()).unwrap();
    store.insert_answer(3, "y".to_string(), 11, String::new()).unwrap();
    store.insert_answer(2, "z".to_string(), 12, String::new()).unwrap();
    assert_eq!(store.remove_answer(13), 0);
    assert_eq!(store.remove_answer(10), 1);
    assert_eq!(store.remove_answer(10), 0);
    assert_eq!(store.remove_question(4), 0);
    assert_eq!(store.remove_question(2), 1);
    assert_eq!(store.remove_question(2), 0);
    let titles: Vec<String> = store.select_questions().into_iter().map(|row| row.title).collect();
    assert_eq!(titles, vec!["a".to_string(), "c".to_string()]);
    assert_eq!(store.select_answers(2), Vec::new());
    assert_eq!(store.select_answers(3).len(), 1);
    assert!(!store.holds_answer(12));
    assert!(store.holds_answer(11));
}

fn key_in_use() -> StorageFailure {
    StorageFailure {
        code: Some("23505".to_string()),
        message: "duplicate key value violates unique constraint".to_string(),
    }
}

#[test]
fn a_key_names_one_row_only() {
    let mut store = MemoryStore::new();
    store.insert_question("q".to_string(), String::new(), 7, String::new()).unwrap();
    // an answer does not take the key of a question
    assert_eq!(store.insert_answer(7, "c".to_string(), 7, String::new()), Err(key_in_use()));
    assert!(!store.holds_answer(7));
    store.insert_answer(7, "c".to_string(), 9, String::new()).unwrap();
    // nor a question the key of an answer
    assert_eq!(
        store.insert_question("again".to_string(), String::new(), 9, String::new()),
        Err(key_in_use())
    );
    assert!(!store.holds_question(9));
    assert!(store.holds_key(7));
    assert!(store.holds_key(9));
    assert!(!store.holds_key(8));
    assert_eq!(store.select_questions().len(), 1);
    assert_eq!(store.select_answers(7).len(), 1);
}

#[test]
fn a_free_key_is_taken_as_drawn() {
    let mut store = MemoryStore::new();
    assert_eq!(store.assign_key(5), 5);
    assert_eq!(store.assign_key(0), 0);
    assert_eq!(store.assign_key(u128::MAX), u128::MAX);
    store.insert_question("q".to_string(), String::new(), 7, String::new()).unwrap();
    assert_eq!(store.assign_key(5), 5);
    assert_eq!(store.assign_key(8), 8);
}

#[test]
fn a_key_in_use_gives_way_to_the_key_after_the_largest() {
    let mut store = MemoryStore::new();
    store.insert_question("a".to_string(), String::new(), 3, String::new()).unwrap();
    store.insert_question("b".to_string(), String::new(), 7, String::new()).unwrap();
    assert_eq!(store.assign_key(3), 8);
    assert_eq!(store.assign_key(7), 8);
    store.insert_answer(3, "c".to_string(), 12, String::new()).unwrap();
    assert_eq!(store.assign_key(3), 13);
    assert_eq!(store.assign_key(7), 13);
    assert_eq!(store.assign_key(12), 13);
    assert_eq!(store.remove_answer(12), 1);
    assert_eq!(store.assign_key(7), 8);
    let key = store.assign_key(7);
    let row = store.insert_question("c".to_string(), String::new(), key, String::new()).unwrap();
    assert_eq!(row.question_uuid, 8);
}

#[test]
fn no_key_is_looked_for_past_the_last_one() {
    let mut store = MemoryStore::new();
    store.insert_question("last".to_string(), String::new(), u128::MAX, String::new()).unwrap();
    store.insert_question("first".to_string(), String::new(), 0, String::new()).unwrap();
    assert_eq!(store.assign_key(u128::MAX), u128::MAX);
    assert_eq!(store.assign_key(0), 0);
    assert_eq!(
        store.insert_question("again".to_string(), String::new(), 0, String::new()),
        Err(key_in_use())
    );
    assert_eq!(store.assign_key(5), 5);
    // a new question still finds the key that is drawn for it
    assert!(store.create_question(question("more", "")).is_ok());
}

#[test]
fn an_answer_gets_an_identifier_that_names_no_question() {
    let mut store = MemoryStore::new();
    let mut questions: Vec<String> = Vec::new();
    let mut answers: Vec<String> = Vec::new();
    for i in 0..20 {
        let asked = store.create_question(question(&format!("q{}", i), "")).unwrap();
        let given = store.create_answer(answer(&asked.question_uuid, "a")).unwrap();
        assert_ne!(given.answer_uuid, given.question_uuid);
        questions.push(asked.question_uuid);
        answers.push(given.answer_uuid);
    }
    for given in &answers {
        assert!(!questions.contains(given));
        assert_eq!(occurrences(&answers, given), 1);
    }
}

#[test]
fn a_record_stays_as_created_while_others_come_and_go() {
    let mut store = MemoryStore::new();
    let kept = store.create_question(question("kept", "all along")).unwrap();
    let reply = store.create_answer(answer(&kept.question_uuid, "so it is")).unwrap();
    for i in 0..10 {
        let other = store.create_question(question(&format!("other {}", i), "")).unwrap();
        let said = store.create_answer(answer(&other.question_uuid, "x")).unwrap();
        store.create_answer(answer(&kept.question_uuid, "y")).unwrap();
        if i % 2 == 0 {
            assert_eq!(store.delete_question(other.question_uuid.clone()), Ok(()));
        } else {
            assert_eq!(store.delete_answer(said.answer_uuid.clone()), Ok(()));
        }
        assert_eq!(store.delete_question("not-a-uuid".to_string()), Err(invalid("not-a-uuid")));
    }
    let listed = store.get_questions().unwrap();
    assert_eq!(occurrences(&listed, &kept), 1);
    let same_key: Vec<&QuestionDetail> =
        listed.iter().filter(|one| one.question_uuid == kept.question_uuid).collect();
    assert_eq!(same_key, vec![&kept]);
    let replies = store.get_answers(kept.question_uuid.clone()).unwrap();
    assert_eq!(replies.len(), 11);
    assert_eq!(occurrences(&replies, &reply), 1);
}
