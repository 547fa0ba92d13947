use qa_board::handlers::{
    create_answer, create_question, delete_answer, delete_question, delete_response, read_answers,
    read_questions,
};
use qa_board::models::{Answer, AnswerId, HandlerError, Question, QuestionId};
use qa_board::store::Store;
use qa_board::AppState;

fn q(title: &str, description: &str) -> Question {
    Question { title: title.to_string(), description: description.to_string() }
}

#[test]
fn s1_create_question_and_list() {
    let mut store = Store::new();
    let created = create_question(q("t1", "d1"), &mut store).expect("create must succeed");
    assert!(!created.question_uuid.is_empty());
    assert_eq!(created.title, "t1");
    assert_eq!(created.description, "d1");
    assert!(!created.created_at.is_empty());

    let listed = read_questions(&store).expect("list must succeed");
    assert_eq!(listed.len(), 1);
    assert_eq!(listed[0].question_uuid, created.question_uuid);
    assert_eq!(listed[0].title, "t1");
    assert_eq!(listed[0].description, "d1");
    assert_eq!(listed[0].created_at, created.created_at);
}

#[test]
fn s2_delete_question_with_bad_uuid_gives_500_empty_body() {
    let mut store = Store::new();
    let r = delete_question(
        QuestionId { question_uuid: "not-a-uuid".to_string() },
        &mut store,
    );
    assert!(matches!(r, Err(HandlerError::BadRequest(_))));
    let resp = delete_response(&r);
    assert_eq!(resp.status, 500);
    assert!(resp.body.is_empty());
}

#[test]
fn s2_delete_collapse_on_dao_invalid_uuid() {
    let r: Result<(), HandlerError> = Err(HandlerError::BadRequest("oh no!".to_string()));
    let resp = delete_response(&r);
    assert_eq!(resp.status, 500);
    assert!(resp.body.is_empty());
}

#[test]
fn s3_create_answer_under_absent_question_gives_400() {
    let mut store = Store::new();
    let r = create_answer(
        Answer {
            question_uuid: "00000000-0000-0000-0000-000000000000".to_string(),
            content: "c".to_string(),
        },
        &mut store,
    );
    let e = r.expect_err("an absent parent must be rejected");
    match e {
        HandlerError::BadRequest(msg) => {
            let resp = HandlerError::BadRequest(msg).into_response();
            assert_eq!(resp.status, 400);
            assert!(!resp.body.is_empty());
        }
        HandlerError::InternalError(_) => panic!("a foreign-key violation is the client's fault"),
    }
}

#[test]
fn s4_created_answer_is_listed_under_its_question() {
    let mut store = Store::new();
    let question = create_question(q("t", "d"), &mut store).unwrap();
    let answer = create_answer(
        Answer { question_uuid: question.question_uuid.clone(), content: "c".to_string() },
        &mut store,
    )
    .expect("the parent exists, so the create must succeed");
    assert_eq!(answer.question_uuid, question.question_uuid);
    assert_eq!(answer.content, "c");
    assert!(!answer.answer_uuid.is_empty());

    let listed = read_answers(
        QuestionId { question_uuid: question.question_uuid.clone() },
        &store,
    )
    .unwrap();
    assert_eq!(listed.len(), 1);
    assert_eq!(listed[0].answer_uuid, answer.answer_uuid);
    assert_eq!(listed[0].question_uuid, question.question_uuid);
    assert_eq!(listed[0].content, "c");
}

#[test]
fn s5_deleting_a_question_cascades_to_its_answers() {
    let mut store = Store::new();
    let question = create_question(q("t", "d"), &mut store).unwrap();
    let answer = create_answer(
        Answer { question_uuid: question.question_uuid.clone(), content: "c".to_string() },
        &mut store,
    )
    .unwrap();

    delete_question(
        QuestionId { question_uuid: question.question_uuid.clone() },
        &mut store,
    )
    .expect("deleting an existing question must succeed");

    let listed = read_answers(
        QuestionId { question_uuid: question.question_uuid.clone() },
        &store,
    )
    .unwrap();
    assert!(listed.is_empty());

    // the cascaded answer is gone, but deleting it is still a success
    delete_answer(AnswerId { answer_uuid: answer.answer_uuid }, &mut store)
        .expect("deleting an absent answer is not an error");
}

#[test]
fn p4_deletes_are_idempotent() {
    let mut store = Store::new();
    let absent = "123e4567-e89b-12d3-a456-426614174000".to_string();
    for _ in 0..3 {
        delete_question(QuestionId { question_uuid: absent.clone() }, &mut store).unwrap();
        delete_answer(AnswerId { answer_uuid: absent.clone() }, &mut store).unwrap();
    }
    let question = create_question(q("t", "d"), &mut store).unwrap();
    for _ in 0..2 {
        delete_question(
            QuestionId { question_uuid: question.question_uuid.clone() },
            &mut store,
        )
        .unwrap();
    }
    assert!(read_questions(&store).unwrap().is_empty());
}

#[test]
fn uuids_are_assigned_fresh_per_record() {
    let mut store = Store::new();
    let a = create_question(q("a", "da"), &mut store).unwrap();
    let b = create_question(q("b", "db"), &mut store).unwrap();
    assert_ne!(a.question_uuid, b.question_uuid);
    let ans = create_answer(
        Answer { question_uuid: a.question_uuid.clone(), content: "c".to_string() },
        &mut store,
    )
    .unwrap();
    assert_ne!(ans.answer_uuid, a.question_uuid);
    assert_ne!(ans.answer_uuid, b.question_uuid);
}

#[test]
fn app_state_carries_both_daos() {
    let mut state = AppState { questions_dao: Store::new(), answers_dao: Store::new() };
    let created = create_question(q("t", "d"), &mut state.questions_dao).unwrap();
    assert_eq!(read_questions(&state.questions_dao).unwrap()[0].title, created.title);
    assert!(read_questions(&state.answers_dao).unwrap().is_empty());
}
