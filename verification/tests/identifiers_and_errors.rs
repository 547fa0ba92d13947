use qa_board::answers_dao::AnswersDao;
use qa_board::handlers::{map_db_error, read_answers, HttpResponse};
use qa_board::models::{classify_store_error, Answer, DBError, HandlerError, Question, QuestionId};
use qa_board::questions_dao::QuestionsDao;
use qa_board::store::Store;
use qa_board::uuid_text::{make_timestamp, make_uuid, parse_uuid};

#[test]
fn p3_non_uuid_strings_are_rejected_without_touching_the_store() {
    let mut store = Store::new();
    store
        .create_question(Question { title: "t".to_string(), description: "d".to_string() })
        .unwrap();

    for bad in ["", "not-a-uuid", "123", "00000000-0000-0000-0000-00000000000g"] {
        let r = store.delete_question(bad.to_string());
        assert!(matches!(r, Err(DBError::InvalidUUID(_))), "delete_question({bad:?})");
        let r = store.create_answer(Answer {
            question_uuid: bad.to_string(),
            content: "c".to_string(),
        });
        assert!(matches!(r, Err(DBError::InvalidUUID(_))), "create_answer({bad:?})");
        let r = store.get_answers(bad.to_string());
        assert!(matches!(r, Err(DBError::InvalidUUID(_))), "get_answers({bad:?})");
        let r = store.delete_answer(bad.to_string());
        assert!(matches!(r, Err(DBError::InvalidUUID(_))), "delete_answer({bad:?})");
    }
    assert_eq!(store.get_questions().unwrap().len(), 1);
}

#[test]
fn p2_answer_under_unknown_uuid_is_an_invalid_uuid_failure() {
    let mut store = Store::new();
    store
        .create_question(Question { title: "t".to_string(), description: "d".to_string() })
        .unwrap();
    let r = store.create_answer(Answer {
        question_uuid: "123e4567-e89b-12d3-a456-426614174000".to_string(),
        content: "c".to_string(),
    });
    assert!(matches!(r, Err(DBError::InvalidUUID(_))));
    assert_eq!(store.get_answers("123e4567-e89b-12d3-a456-426614174000".to_string()).unwrap().len(), 0);
}

#[test]
fn p6_error_mapping_and_statuses() {
    let bad = map_db_error(DBError::InvalidUUID("who?".to_string()));
    assert!(matches!(&bad, HandlerError::BadRequest(m) if m == "who?"));
    let resp: HttpResponse = bad.into_response();
    assert_eq!(resp.status, 400);
    assert_eq!(resp.body, "who?");

    let internal = map_db_error(DBError::Other("boom".to_string()));
    assert!(matches!(&internal, HandlerError::InternalError(m) if m == "boom"));
    let resp = internal.into_response();
    assert_eq!(resp.status, 500);
    assert_eq!(resp.body, "boom");
}

#[test]
fn foreign_key_code_is_classified_as_invalid_uuid() {
    let r = classify_store_error(Some("23503".to_string()), "fk violation".to_string());
    assert!(matches!(r, DBError::InvalidUUID(m) if m == "fk violation"));
    let r = classify_store_error(Some("23505".to_string()), "duplicate".to_string());
    assert!(matches!(r, DBError::Other(m) if m == "duplicate"));
    let r = classify_store_error(None, "connection lost".to_string());
    assert!(matches!(r, DBError::Other(m) if m == "connection lost"));
}

#[test]
fn read_answers_with_bad_uuid_is_a_bad_request() {
    let store = Store::new();
    let r = read_answers(QuestionId { question_uuid: "nope".to_string() }, &store);
    let e = r.expect_err("a string that is no UUID must be rejected");
    let resp = e.into_response();
    assert_eq!(resp.status, 400);
}

#[test]
fn parse_uuid_normalizes_to_canonical_lowercase() {
    // a canonical string comes back unchanged
    let canonical = "123e4567-e89b-12d3-a456-426614174000".to_string();
    assert_eq!(parse_uuid(&canonical).unwrap(), canonical);
    // other accepted spellings are normalized, not echoed
    let upper = "123E4567-E89B-12D3-A456-426614174000".to_string();
    assert_eq!(parse_uuid(&upper).unwrap(), canonical);
    let simple = "123e4567e89b12d3a456426614174000".to_string();
    assert_eq!(parse_uuid(&simple).unwrap(), canonical);
    assert!(parse_uuid(&"nope".to_string()).is_err());
}

#[test]
fn uppercase_parent_identifier_reaches_the_same_question() {
    let mut store = Store::new();
    // advance the clock far enough that the identifier carries hex letters,
    // so that its uppercase spelling really differs
    let mut created = store
        .create_question(Question { title: "t".to_string(), description: "d".to_string() })
        .unwrap();
    for _ in 0..10 {
        created = store
            .create_question(Question { title: "t".to_string(), description: "d".to_string() })
            .unwrap();
    }
    let upper = created.question_uuid.to_uppercase();
    assert_ne!(upper, created.question_uuid);
    let answer = store
        .create_answer(Answer { question_uuid: upper, content: "c".to_string() })
        .expect("an uppercase spelling of an existing identifier must be accepted");
    assert_eq!(answer.question_uuid, created.question_uuid);
    let listed = store.get_answers(created.question_uuid).unwrap();
    assert_eq!(listed.len(), 1);
}

#[test]
fn generated_identifiers_render_the_clock_in_hex() {
    assert_eq!(make_uuid(0x2a), "00000000-0000-0000-0000-00000000002a");
    assert_eq!(make_uuid(1), "00000000-0000-0000-0000-000000000001");
    assert_eq!(make_uuid(0xdeadbeef), "00000000-0000-0000-0000-0000deadbeef");
    assert_eq!(make_timestamp(0x2a), "000000000000002a");
    // what the store hands out parses as a UUID
    assert!(parse_uuid(&make_uuid(7)).is_ok());
}
