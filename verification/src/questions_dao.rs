use vstd::prelude::*;
use crate::hex::lemma_hex_seq_len;
use crate::models::{AnswerV, DBError, Question, QuestionDetail, QuestionV};
use crate::store::{a_keep_parent, new_question_record, q_detail_views, q_keep, spec_create_question, spec_delete_question, Store};
use crate::uuid_text::{is_canonical_uuid, lemma_uuid_seq_canonical, parse_uuid, parsed_uuid};

verus! {

/// The data-access capability for questions.  A store failure may surface
/// as `Other` from any operation; beyond that the contract pins each
/// outcome down.
pub trait QuestionsDao: Sized {
    /// The stored question records, in store order.
    spec fn questions(&self) -> Seq<QuestionV>;

    /// The stored answer records: the questions capability observes them
    /// only to state its frames and the delete cascade.
    spec fn answers(&self) -> Seq<AnswerV>;

    /// The implementation's internal invariant.
    spec fn inv(&self) -> bool;

    /// Inserts a question with a server-assigned identifier and timestamp
    /// and returns the complete stored record.
    fn create_question(&mut self, question: Question) -> (r: Result<QuestionDetail, DBError>)
        requires
            old(self).inv(),
        ensures
            final(self).inv(),
            final(self).answers() == old(self).answers(),
            match r {
                Ok(d) => final(self).questions() == old(self).questions().push(d@)
                    && d@.title == question.title@ && d@.description == question.description@
                    && is_canonical_uuid(d@.question_uuid) && d@.created_at.len() > 0,
                Err(e) => e is Other && final(self).questions() == old(self).questions(),
            },
    ;

    /// Deletes the question the string identifies, and with it, by the
    /// store's cascade, every answer under it.  A string that does not
    /// parse as a UUID is rejected as `InvalidUUID` without touching the
    /// store; deleting an absent identifier is not an error.
    fn delete_question(&mut self, question_uuid: String) -> (r: Result<(), DBError>)
        requires
            old(self).inv(),
        ensures
            final(self).inv(),
            (r is Err && r->Err_0 is InvalidUUID) <==> parsed_uuid(question_uuid@) is None,
            r is Ok ==> final(self).questions() == old(self).questions().filter(
                q_keep(parsed_uuid(question_uuid@)->0),
            ) && final(self).answers() == old(self).answers().filter(
                a_keep_parent(parsed_uuid(question_uuid@)->0),
            ),
            r is Err ==> final(self).questions() == old(self).questions() && final(self).answers()
                == old(self).answers(),
    ;

    /// Returns all stored questions, in store order.
    fn get_questions(&self) -> (r: Result<Vec<QuestionDetail>, DBError>)
        requires
            self.inv(),
        ensures
            match r {
                Ok(v) => q_detail_views(v@) == self.questions(),
                Err(e) => e is Other,
            },
    ;
}

impl QuestionsDao for Store {
    open spec fn questions(&self) -> Seq<QuestionV> {
        self@.questions
    }

    open spec fn answers(&self) -> Seq<AnswerV> {
        self@.answers
    }

    open spec fn inv(&self) -> bool {
        self.wf()
    }

    fn create_question(&mut self, question: Question) -> (r: Result<QuestionDetail, DBError>)
        ensures
            !old(self)@.exhausted() ==> r is Ok && final(self)@ == spec_create_question(
                old(self)@,
                question.title@,
                question.description@,
            ) && r->Ok_0@ == new_question_record(old(self)@, question.title@, question.description@),
            old(self)@.exhausted() ==> r is Err && final(self)@ == old(self)@,
    {
        let Question { title, description } = question;
        let r = self.insert_question(title, description);
        proof {
            if !old(self)@.exhausted() {
                lemma_uuid_seq_canonical(old(self)@.next);
                lemma_hex_seq_len(old(self)@.next, 16);
            }
        }
        r
    }

    fn delete_question(&mut self, question_uuid: String) -> (r: Result<(), DBError>)
        ensures
            parsed_uuid(question_uuid@) is Some ==> r is Ok && final(self)@
                == spec_delete_question(old(self)@, parsed_uuid(question_uuid@)->0),
            parsed_uuid(question_uuid@) is None ==> final(self)@ == old(self)@,
    {
        match parse_uuid(&question_uuid) {
            Err(msg) => Err(DBError::InvalidUUID(msg)),
            Ok(canonical) => {
                self.remove_question(&canonical);
                Ok(())
            },
        }
    }

    fn get_questions(&self) -> (r: Result<Vec<QuestionDetail>, DBError>)
        ensures
            r is Ok,
    {
        Ok(self.all_questions())
    }
}

} // verus!
