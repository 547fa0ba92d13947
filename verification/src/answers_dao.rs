use vstd::prelude::*;
use crate::models::{Answer, AnswerDetail, AnswerV, DBError, QuestionV};
use crate::hex::lemma_hex_seq_len;
use crate::store::{
    a_detail_views, a_keep_own, a_match, new_answer_record, question_has, questions_contain,
    spec_create_answer, spec_delete_answer, Store,
};
use crate::uuid_text::{is_canonical_uuid, lemma_uuid_seq_canonical, parse_uuid, parsed_uuid};

verus! {

/// The data-access capability for answers.  A store failure may surface as
/// `Other` from any operation; beyond that the contract pins each outcome
/// down.  A malformed parent identifier and a parent that does not exist
/// are deliberately reported alike, as `InvalidUUID`.
pub trait AnswersDao: Sized {
    /// The stored answer records, in store order.
    spec fn answers(&self) -> Seq<AnswerV>;

    /// The stored question records: the answers capability observes them
    /// only to state the foreign-key condition and its frames.
    spec fn questions(&self) -> Seq<QuestionV>;

    /// The implementation's internal invariant.
    spec fn inv(&self) -> bool;

    /// Inserts an answer under the question its `question_uuid` names.
    /// The string is rejected as `InvalidUUID`, without touching the
    /// store, where it does not parse as a UUID or where no such question
    /// exists (the foreign-key violation, reported under the same kind).
    fn create_answer(&mut self, answer: Answer) -> (r: Result<AnswerDetail, DBError>)
        requires
            old(self).inv(),
        ensures
            final(self).inv(),
            (r is Err && r->Err_0 is InvalidUUID) <==> (parsed_uuid(answer.question_uuid@) is None
                || !questions_contain(
                old(self).questions(),
                parsed_uuid(answer.question_uuid@)->0,
            )),
            parsed_uuid(answer.question_uuid@) is Some && !questions_contain(
                old(self).questions(),
                parsed_uuid(answer.question_uuid@)->0,
            ) ==> r->Err_0->InvalidUUID_0@.len() > 0,
            final(self).questions() == old(self).questions(),
            match r {
                Ok(d) => final(self).answers() == old(self).answers().push(d@)
                    && d@.question_uuid == parsed_uuid(answer.question_uuid@)->0
                    && d@.content == answer.content@ && is_canonical_uuid(d@.answer_uuid)
                    && d@.created_at.len() > 0,
                Err(e) => final(self).answers() == old(self).answers(),
            },
    ;

    /// Deletes the answer the string identifies.  A string that does not
    /// parse as a UUID is rejected as `InvalidUUID` without touching the
    /// store; deleting an absent identifier is not an error.
    fn delete_answer(&mut self, answer_uuid: String) -> (r: Result<(), DBError>)
        requires
            old(self).inv(),
        ensures
            final(self).inv(),
            (r is Err && r->Err_0 is InvalidUUID) <==> parsed_uuid(answer_uuid@) is None,
            final(self).questions() == old(self).questions(),
            r is Ok ==> final(self).answers() == old(self).answers().filter(
                a_keep_own(parsed_uuid(answer_uuid@)->0),
            ),
            r is Err ==> final(self).answers() == old(self).answers(),
    ;

    /// Returns the answers under the question the string identifies, in
    /// store order; empty where none exist.
    fn get_answers(&self, question_uuid: String) -> (r: Result<Vec<AnswerDetail>, DBError>)
        requires
            self.inv(),
        ensures
            (r is Err && r->Err_0 is InvalidUUID) <==> parsed_uuid(question_uuid@) is None,
            r is Ok ==> a_detail_views(r->Ok_0@) == self.answers().filter(
                a_match(parsed_uuid(question_uuid@)->0),
            ),
    ;
}

impl AnswersDao for Store {
    open spec fn answers(&self) -> Seq<AnswerV> {
        self@.answers
    }

    open spec fn questions(&self) -> Seq<QuestionV> {
        self@.questions
    }

    open spec fn inv(&self) -> bool {
        self.wf()
    }

    fn create_answer(&mut self, answer: Answer) -> (r: Result<AnswerDetail, DBError>)
        ensures
            parsed_uuid(answer.question_uuid@) is Some && questions_contain(
                old(self)@.questions,
                parsed_uuid(answer.question_uuid@)->0,
            ) && !old(self)@.exhausted() ==> r is Ok && final(self)@ == spec_create_answer(
                old(self)@,
                parsed_uuid(answer.question_uuid@)->0,
                answer.content@,
            ) && r->Ok_0@ == new_answer_record(
                old(self)@,
                parsed_uuid(answer.question_uuid@)->0,
                answer.content@,
            ),
            r is Err ==> final(self)@ == old(self)@,
            final(self)@.questions == old(self)@.questions,
    {
        let Answer { question_uuid, content } = answer;
        match parse_uuid(&question_uuid) {
            Err(msg) => Err(DBError::InvalidUUID(msg)),
            Ok(canonical) => {
                let r = self.insert_answer(&canonical, content);
                proof {
                    if question_has(old(self)@, canonical@) && !old(self)@.exhausted() {
                        lemma_uuid_seq_canonical(old(self)@.next);
                        lemma_hex_seq_len(old(self)@.next, 16);
                    }
                }
                r
            },
        }
    }

    fn delete_answer(&mut self, answer_uuid: String) -> (r: Result<(), DBError>)
        ensures
            parsed_uuid(answer_uuid@) is Some ==> r is Ok && final(self)@ == spec_delete_answer(
                old(self)@,
                parsed_uuid(answer_uuid@)->0,
            ),
            parsed_uuid(answer_uuid@) is None ==> final(self)@ == old(self)@,
    {
        match parse_uuid(&answer_uuid) {
            Err(msg) => Err(DBError::InvalidUUID(msg)),
            Ok(canonical) => {
                self.remove_answer(&canonical);
                Ok(())
            },
        }
    }

    fn get_answers(&self, question_uuid: String) -> (r: Result<Vec<AnswerDetail>, DBError>)
        ensures
            parsed_uuid(question_uuid@) is Some ==> r is Ok,
    {
        match parse_uuid(&question_uuid) {
            Err(msg) => Err(DBError::InvalidUUID(msg)),
            Ok(canonical) => Ok(self.answers_for(&canonical)),
        }
    }
}

} // verus!
