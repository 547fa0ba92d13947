use vstd::prelude::*;
use vstd::string::StringExecFns;

verus! {

/// A question as a client submits it.
#[derive(Debug)]
pub struct Question {
    pub title: String,
    pub description: String,
}

/// A stored question as it is returned to clients.
#[derive(Debug)]
pub struct QuestionDetail {
    pub question_uuid: String,
    pub title: String,
    pub description: String,
    pub created_at: String,
}

/// The body of a question deletion request.
#[derive(Debug)]
pub struct QuestionId {
    pub question_uuid: String,
}

/// An answer as a client submits it.
#[derive(Debug)]
pub struct Answer {
    pub question_uuid: String,
    pub content: String,
}

/// A stored answer as it is returned to clients.
#[derive(Debug)]
pub struct AnswerDetail {
    pub answer_uuid: String,
    pub question_uuid: String,
    pub content: String,
    pub created_at: String,
}

/// The body of an answer deletion request.
#[derive(Debug)]
pub struct AnswerId {
    pub answer_uuid: String,
}

/// Mathematical record of a stored question.
#[verifier::ext_equal]
pub ghost struct QuestionV {
    pub question_uuid: Seq<char>,
    pub title: Seq<char>,
    pub description: Seq<char>,
    pub created_at: Seq<char>,
}

/// Mathematical record of a stored answer.
#[verifier::ext_equal]
pub ghost struct AnswerV {
    pub answer_uuid: Seq<char>,
    pub question_uuid: Seq<char>,
    pub content: Seq<char>,
    pub created_at: Seq<char>,
}

impl View for QuestionDetail {
    type V = QuestionV;

    open spec fn view(&self) -> QuestionV {
        QuestionV {
            question_uuid: self.question_uuid@,
            title: self.title@,
            description: self.description@,
            created_at: self.created_at@,
        }
    }
}

impl View for AnswerDetail {
    type V = AnswerV;

    open spec fn view(&self) -> AnswerV {
        AnswerV {
            answer_uuid: self.answer_uuid@,
            question_uuid: self.question_uuid@,
            content: self.content@,
            created_at: self.created_at@,
        }
    }
}

/// A failure reported by a data-access object.  `InvalidUUID` covers both a
/// string that does not denote a UUID and a reference to an entity that does
/// not exist; `Other` carries the text of any other store-level failure.
#[derive(Debug)]
pub enum DBError {
    InvalidUUID(String),
    Other(String),
}

/// A failure as the handler layer reports it to the HTTP adapter:
/// `BadRequest` is client-fixable, `InternalError` is server-side.
#[derive(Debug)]
pub enum HandlerError {
    BadRequest(String),
    InternalError(String),
}

/// The SQLSTATE code with which the relational store reports a
/// foreign-key violation.
pub const FOREIGN_KEY_VIOLATION: &'static str = "23503";

/// Classifies a failure reported by the relational store, given its
/// SQLSTATE code (where the store supplied one) and its message: a
/// foreign-key violation means the caller named an entity that does not
/// exist and is reported as `InvalidUUID`; anything else is `Other`.  The
/// decision rests on the code alone; the message is carried through.
pub fn classify_store_error(code: Option<String>, message: String) -> (r: DBError)
    ensures
        match code {
            Some(c) => r == if c@ == FOREIGN_KEY_VIOLATION@ {
                DBError::InvalidUUID(message)
            } else {
                DBError::Other(message)
            },
            None => r == DBError::Other(message),
        },
{
    let fk = String::from_str(FOREIGN_KEY_VIOLATION);
    match &code {
        Some(c) => {
            if *c == fk {
                DBError::InvalidUUID(message)
            } else {
                DBError::Other(message)
            }
        },
        None => DBError::Other(message),
    }
}

} // verus!
