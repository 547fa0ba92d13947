use vstd::prelude::*;
use crate::answers_dao::AnswersDao;
use crate::models::{Answer, AnswerDetail, AnswerId, DBError, HandlerError, Question, QuestionDetail, QuestionId};
use crate::questions_dao::QuestionsDao;
use crate::store::{a_keep_own, a_keep_parent, a_match, q_detail_views, a_detail_views, q_keep, questions_contain};
use crate::uuid_text::{is_canonical_uuid, parsed_uuid};

verus! {

/// The HTTP-facing form of an outcome: a status code and a plain body.
pub struct HttpResponse {
    pub status: u16,
    pub body: String,
}

/// The status a handler failure maps to: 400 for a bad request, 500 for a
/// server-side failure.
pub open spec fn spec_status(e: HandlerError) -> u16 {
    match e {
        HandlerError::BadRequest(_) => 400u16,
        HandlerError::InternalError(_) => 500u16,
    }
}

/// The message a handler failure carries.
pub open spec fn spec_message(e: HandlerError) -> Seq<char> {
    match e {
        HandlerError::BadRequest(m) => m@,
        HandlerError::InternalError(m) => m@,
    }
}

/// The uniform mapping from DAO failures to handler failures: an invalid
/// identifier is the client's fault, anything else the server's; the
/// message is carried through unchanged.
pub open spec fn spec_map_db_error(e: DBError) -> HandlerError {
    match e {
        DBError::InvalidUUID(m) => HandlerError::BadRequest(m),
        DBError::Other(m) => HandlerError::InternalError(m),
    }
}

/// Maps a DAO failure to its handler-level kind.
pub fn map_db_error(e: DBError) -> (r: HandlerError)
    ensures
        r == spec_map_db_error(e),
{
    match e {
        DBError::InvalidUUID(m) => HandlerError::BadRequest(m),
        DBError::Other(m) => HandlerError::InternalError(m),
    }
}

impl HandlerError {
    /// The HTTP rendering of a handler failure: its status, and the
    /// message as a plain-text body.
    pub fn into_response(self) -> (r: HttpResponse)
        ensures
            r.status == spec_status(self),
            r.body@ == spec_message(self),
    {
        match self {
            HandlerError::BadRequest(m) => HttpResponse { status: 400, body: m },
            HandlerError::InternalError(m) => HttpResponse { status: 500, body: m },
        }
    }
}

/// The delete endpoints collapse their outcome: 200 with an empty body on
/// success, 500 with an empty body on any failure.
pub fn delete_response(r: &Result<(), HandlerError>) -> (resp: HttpResponse)
    ensures
        resp.status == (if r is Ok {
            200u16
        } else {
            500u16
        }),
        resp.body@ == Seq::<char>::empty(),
{
    match r {
        Ok(_) => HttpResponse { status: 200, body: String::new() },
        Err(_) => HttpResponse { status: 500, body: String::new() },
    }
}

/// Status mapping: through the uniform error mapping, an invalid
/// identifier surfaces as 400 and any other store failure as 500, each
/// with its message; a collapsed delete failure surfaces as 500.
pub proof fn lemma_status_mapping(e: DBError)
    ensures
        e is InvalidUUID ==> spec_status(spec_map_db_error(e)) == 400,
        e is Other ==> spec_status(spec_map_db_error(e)) == 500,
        spec_message(spec_map_db_error(e)) == match e {
            DBError::InvalidUUID(m) => m@,
            DBError::Other(m) => m@,
        },
{
}

/// Creates a question: passes a success through untransformed and maps a
/// DAO failure by the uniform rule (a create never reports an invalid
/// identifier, so a failure here is always server-side).
pub fn create_question<D: QuestionsDao>(question: Question, questions_dao: &mut D) -> (r: Result<
    QuestionDetail,
    HandlerError,
>)
    requires
        old(questions_dao).inv(),
    ensures
        final(questions_dao).inv(),
        final(questions_dao).answers() == old(questions_dao).answers(),
        match r {
            Ok(d) => final(questions_dao).questions() == old(questions_dao).questions().push(d@)
                && d@.title == question.title@ && d@.description == question.description@
                && is_canonical_uuid(d@.question_uuid) && d@.created_at.len() > 0,
            Err(e) => e is InternalError && final(questions_dao).questions() == old(
                questions_dao,
            ).questions(),
        },
{
    match questions_dao.create_question(question) {
        Ok(d) => Ok(d),
        Err(e) => Err(map_db_error(e)),
    }
}

/// Lists all questions: passes a success through untransformed.
pub fn read_questions<D: QuestionsDao>(questions_dao: &D) -> (r: Result<
    Vec<QuestionDetail>,
    HandlerError,
>)
    requires
        questions_dao.inv(),
    ensures
        match r {
            Ok(v) => q_detail_views(v@) == questions_dao.questions(),
            Err(e) => e is InternalError,
        },
{
    match questions_dao.get_questions() {
        Ok(v) => Ok(v),
        Err(e) => Err(map_db_error(e)),
    }
}

/// Deletes a question: a string that is no UUID comes back as a bad
/// request, and a successful delete removes the question (the store
/// cascades to its answers).
pub fn delete_question<D: QuestionsDao>(question_uuid: QuestionId, questions_dao: &mut D) -> (r:
    Result<(), HandlerError>)
    requires
        old(questions_dao).inv(),
    ensures
        final(questions_dao).inv(),
        (r is Err && r->Err_0 is BadRequest) <==> parsed_uuid(question_uuid.question_uuid@) is None,
        r is Ok ==> final(questions_dao).questions() == old(questions_dao).questions().filter(
            q_keep(parsed_uuid(question_uuid.question_uuid@)->0),
        ) && final(questions_dao).answers() == old(questions_dao).answers().filter(
            a_keep_parent(parsed_uuid(question_uuid.question_uuid@)->0),
        ),
        r is Err ==> final(questions_dao).questions() == old(questions_dao).questions()
            && final(questions_dao).answers() == old(questions_dao).answers(),
{
    match questions_dao.delete_question(question_uuid.question_uuid) {
        Ok(_) => Ok(()),
        Err(e) => Err(map_db_error(e)),
    }
}

/// Creates an answer: a parent identifier that is no UUID, or that names
/// no existing question, comes back as a bad request; a success appends
/// the stored record.
pub fn create_answer<D: AnswersDao>(answer: Answer, answers_dao: &mut D) -> (r: Result<
    AnswerDetail,
    HandlerError,
>)
    requires
        old(answers_dao).inv(),
    ensures
        final(answers_dao).inv(),
        (r is Err && r->Err_0 is BadRequest) <==> (parsed_uuid(answer.question_uuid@) is None
            || !questions_contain(
            old(answers_dao).questions(),
            parsed_uuid(answer.question_uuid@)->0,
        )),
        parsed_uuid(answer.question_uuid@) is Some && !questions_contain(
            old(answers_dao).questions(),
            parsed_uuid(answer.question_uuid@)->0,
        ) ==> r is Err && r->Err_0 is BadRequest && spec_message(r->Err_0).len() > 0,
        final(answers_dao).questions() == old(answers_dao).questions(),
        match r {
            Ok(d) => final(answers_dao).answers() == old(answers_dao).answers().push(d@)
                && d@.question_uuid == parsed_uuid(answer.question_uuid@)->0 && d@.content
                == answer.content@ && is_canonical_uuid(d@.answer_uuid) && d@.created_at.len() > 0,
            Err(e) => final(answers_dao).answers() == old(answers_dao).answers(),
        },
{
    match answers_dao.create_answer(answer) {
        Ok(d) => Ok(d),
        Err(e) => Err(map_db_error(e)),
    }
}

/// Lists the answers under a question: a parent identifier that is no
/// UUID comes back as a bad request; a success returns exactly the
/// answers under that parent.
pub fn read_answers<D: AnswersDao>(question_uuid: QuestionId, answers_dao: &D) -> (r: Result<
    Vec<AnswerDetail>,
    HandlerError,
>)
    requires
        answers_dao.inv(),
    ensures
        (r is Err && r->Err_0 is BadRequest) <==> parsed_uuid(question_uuid.question_uuid@) is None,
        r is Ok ==> a_detail_views(r->Ok_0@) == answers_dao.answers().filter(
            a_match(parsed_uuid(question_uuid.question_uuid@)->0),
        ),
{
    match answers_dao.get_answers(question_uuid.question_uuid) {
        Ok(v) => Ok(v),
        Err(e) => Err(map_db_error(e)),
    }
}

/// Deletes an answer: a string that is no UUID comes back as a bad
/// request; a successful delete removes the answer.
pub fn delete_answer<D: AnswersDao>(answer_uuid: AnswerId, answers_dao: &mut D) -> (r: Result<
    (),
    HandlerError,
>)
    requires
        old(answers_dao).inv(),
    ensures
        final(answers_dao).inv(),
        (r is Err && r->Err_0 is BadRequest) <==> parsed_uuid(answer_uuid.answer_uuid@) is None,
        final(answers_dao).questions() == old(answers_dao).questions(),
        r is Ok ==> final(answers_dao).answers() == old(answers_dao).answers().filter(
            a_keep_own(parsed_uuid(answer_uuid.answer_uuid@)->0),
        ),
        r is Err ==> final(answers_dao).answers() == old(answers_dao).answers(),
{
    match answers_dao.delete_answer(answer_uuid.answer_uuid) {
        Ok(_) => Ok(()),
        Err(e) => Err(map_db_error(e)),
    }
}

} // verus!
