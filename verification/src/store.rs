use vstd::prelude::*;
use vstd::string::StringExecFns;
use crate::models::{AnswerDetail, AnswerV, DBError, QuestionDetail, QuestionV};
use crate::uuid_text::{make_timestamp, make_uuid, ts_seq, uuid_seq};

verus! {

/// One persisted question row.  `key` is the logical clock value at
/// insertion; `question_uuid` is its rendering as a canonical UUID string.
pub struct QuestionRow {
    pub key: u64,
    pub question_uuid: String,
    pub title: String,
    pub description: String,
    pub created_at: String,
}

/// One persisted answer row.
pub struct AnswerRow {
    pub key: u64,
    pub answer_uuid: String,
    pub question_uuid: String,
    pub content: String,
    pub created_at: String,
}

impl View for QuestionRow {
    type V = QuestionV;

    open spec fn view(&self) -> QuestionV {
        QuestionV {
            question_uuid: self.question_uuid@,
            title: self.title@,
            description: self.description@,
            created_at: self.created_at@,
        }
    }
}

impl View for AnswerRow {
    type V = AnswerV;

    open spec fn view(&self) -> AnswerV {
        AnswerV {
            answer_uuid: self.answer_uuid@,
            question_uuid: self.question_uuid@,
            content: self.content@,
            created_at: self.created_at@,
        }
    }
}

/// The records of a sequence of question rows.
pub open spec fn q_row_views(s: Seq<QuestionRow>) -> Seq<QuestionV> {
    s.map_values(|r: QuestionRow| r@)
}

/// The records of a sequence of answer rows.
pub open spec fn a_row_views(s: Seq<AnswerRow>) -> Seq<AnswerV> {
    s.map_values(|r: AnswerRow| r@)
}

/// The records of a sequence of question results.
pub open spec fn q_detail_views(s: Seq<QuestionDetail>) -> Seq<QuestionV> {
    s.map_values(|d: QuestionDetail| d@)
}

/// The records of a sequence of answer results.
pub open spec fn a_detail_views(s: Seq<AnswerDetail>) -> Seq<AnswerV> {
    s.map_values(|d: AnswerDetail| d@)
}

/// The mathematical state of the store: the two tables as sequences of
/// records, and the logical clock from which identifiers and timestamps
/// are assigned.
#[verifier::ext_equal]
pub ghost struct StoreView {
    pub questions: Seq<QuestionV>,
    pub answers: Seq<AnswerV>,
    pub next: nat,
}

impl StoreView {
    /// The identifier space is spent: no further record can be assigned a
    /// fresh identifier.
    pub open spec fn exhausted(self) -> bool {
        self.next >= 0xFFFFFFFFFFFF
    }
}

/// Keeps the question records whose identifier is not `u`.
pub open spec fn q_keep(u: Seq<char>) -> spec_fn(QuestionV) -> bool {
    |q: QuestionV| q.question_uuid != u
}

/// Keeps the answer records whose parent identifier is not `u`.
pub open spec fn a_keep_parent(u: Seq<char>) -> spec_fn(AnswerV) -> bool {
    |a: AnswerV| a.question_uuid != u
}

/// Keeps the answer records whose own identifier is not `u`.
pub open spec fn a_keep_own(u: Seq<char>) -> spec_fn(AnswerV) -> bool {
    |a: AnswerV| a.answer_uuid != u
}

/// Selects the answer records under parent `u`.
pub open spec fn a_match(u: Seq<char>) -> spec_fn(AnswerV) -> bool {
    |a: AnswerV| a.question_uuid == u
}

/// Row-level counterpart of `q_keep`.
pub open spec fn q_keep_row(u: Seq<char>) -> spec_fn(QuestionRow) -> bool {
    |r: QuestionRow| r.question_uuid@ != u
}

/// Row-level counterpart of `a_keep_parent`.
pub open spec fn a_keep_row_parent(u: Seq<char>) -> spec_fn(AnswerRow) -> bool {
    |r: AnswerRow| r.question_uuid@ != u
}

/// Row-level counterpart of `a_keep_own`.
pub open spec fn a_keep_row_own(u: Seq<char>) -> spec_fn(AnswerRow) -> bool {
    |r: AnswerRow| r.answer_uuid@ != u
}

/// The table of question records contains one whose identifier reads `u`.
pub open spec fn questions_contain(qs: Seq<QuestionV>, u: Seq<char>) -> bool {
    exists|i: int| 0 <= i < qs.len() && (#[trigger] qs[i]).question_uuid == u
}

/// There is a question whose identifier reads `u`.
pub open spec fn question_has(s: StoreView, u: Seq<char>) -> bool {
    questions_contain(s.questions, u)
}

/// The record a create-question at state `s` appends.
pub open spec fn new_question_record(s: StoreView, title: Seq<char>, description: Seq<char>) -> QuestionV {
    QuestionV {
        question_uuid: uuid_seq(s.next),
        title: title,
        description: description,
        created_at: ts_seq(s.next),
    }
}

/// State after a successful create-question.
pub open spec fn spec_create_question(s: StoreView, title: Seq<char>, description: Seq<char>) -> StoreView {
    StoreView {
        questions: s.questions.push(new_question_record(s, title, description)),
        answers: s.answers,
        next: s.next + 1,
    }
}

/// The record a create-answer at state `s` appends under parent `question_uuid`.
pub open spec fn new_answer_record(s: StoreView, question_uuid: Seq<char>, content: Seq<char>) -> AnswerV {
    AnswerV {
        answer_uuid: uuid_seq(s.next),
        question_uuid: question_uuid,
        content: content,
        created_at: ts_seq(s.next),
    }
}

/// State after a successful create-answer.
pub open spec fn spec_create_answer(s: StoreView, question_uuid: Seq<char>, content: Seq<char>) -> StoreView {
    StoreView {
        questions: s.questions,
        answers: s.answers.push(new_answer_record(s, question_uuid, content)),
        next: s.next + 1,
    }
}

/// State after deleting the question identified by `u`: the question goes,
/// and every answer under it goes with it.
pub open spec fn spec_delete_question(s: StoreView, u: Seq<char>) -> StoreView {
    StoreView {
        questions: s.questions.filter(q_keep(u)),
        answers: s.answers.filter(a_keep_parent(u)),
        next: s.next,
    }
}

/// State after deleting the answer identified by `u`.
pub open spec fn spec_delete_answer(s: StoreView, u: Seq<char>) -> StoreView {
    StoreView { questions: s.questions, answers: s.answers.filter(a_keep_own(u)), next: s.next }
}

/// The answers under parent `u`, in store order.
pub open spec fn spec_get_answers(s: StoreView, u: Seq<char>) -> Seq<AnswerV> {
    s.answers.filter(a_match(u))
}

proof fn lemma_q_row_views_push(s: Seq<QuestionRow>, r: QuestionRow)
    ensures
        q_row_views(s.push(r)) == q_row_views(s).push(r@),
{
    assert(q_row_views(s.push(r)) =~= q_row_views(s).push(r@));
}

proof fn lemma_a_row_views_push(s: Seq<AnswerRow>, r: AnswerRow)
    ensures
        a_row_views(s.push(r)) == a_row_views(s).push(r@),
{
    assert(a_row_views(s.push(r)) =~= a_row_views(s).push(r@));
}

proof fn lemma_q_detail_views_push(s: Seq<QuestionDetail>, d: QuestionDetail)
    ensures
        q_detail_views(s.push(d)) == q_detail_views(s).push(d@),
{
    assert(q_detail_views(s.push(d)) =~= q_detail_views(s).push(d@));
}

proof fn lemma_a_detail_views_push(s: Seq<AnswerDetail>, d: AnswerDetail)
    ensures
        a_detail_views(s.push(d)) == a_detail_views(s).push(d@),
{
    assert(a_detail_views(s.push(d)) =~= a_detail_views(s).push(d@));
}

/// The in-memory relational store: the verified implementation of the two
/// data-access capabilities, with foreign-key integrity and cascade on
/// delete.
pub struct Store {
    pub questions: Vec<QuestionRow>,
    pub answers: Vec<AnswerRow>,
    pub next: u64,
}

impl View for Store {
    type V = StoreView;

    open spec fn view(&self) -> StoreView {
        StoreView {
            questions: q_row_views(self.questions@),
            answers: a_row_views(self.answers@),
            next: self.next as nat,
        }
    }
}

impl Store {
    /// Every row's identifier is the rendering of its key, and every key
    /// was assigned before the clock's current value.
    pub open spec fn wf_rows(&self) -> bool {
        &&& forall|i: int|
            0 <= i < self.questions@.len() ==> (#[trigger] self.questions@[i]).key < self.next
                && self.questions@[i].question_uuid@ == uuid_seq(self.questions@[i].key as nat)
        &&& forall|i: int|
            0 <= i < self.answers@.len() ==> (#[trigger] self.answers@[i]).key < self.next
                && self.answers@[i].answer_uuid@ == uuid_seq(self.answers@[i].key as nat)
    }

    /// Keys are assigned once: distinct within each table and across the
    /// two tables, so identifiers are globally unique.
    pub open spec fn wf_distinct(&self) -> bool {
        &&& forall|i: int, j: int|
            0 <= i < j < self.questions@.len() ==> (#[trigger] self.questions@[i]).key != (
            #[trigger] self.questions@[j]).key
        &&& forall|i: int, j: int|
            0 <= i < j < self.answers@.len() ==> (#[trigger] self.answers@[i]).key != (
            #[trigger] self.answers@[j]).key
        &&& forall|i: int, j: int|
            0 <= i < self.questions@.len() && 0 <= j < self.answers@.len() ==> (
            #[trigger] self.questions@[i]).key != (#[trigger] self.answers@[j]).key
    }

    /// Every answer's parent identifier names a question that is present.
    pub open spec fn wf_fk(&self) -> bool {
        forall|j: int|
            0 <= j < self@.answers.len() ==> question_has(
                self@,
                (#[trigger] self@.answers[j]).question_uuid,
            )
    }

    pub open spec fn wf(&self) -> bool {
        &&& self.next < 0x1000000000000
        &&& self.wf_rows()
        &&& self.wf_distinct()
        &&& self.wf_fk()
    }

    /// An empty store.  The clock starts past zero so that the all-zero
    /// (nil) UUID is never handed out.
    pub fn new() -> (s: Store)
        ensures
            s.wf(),
            s@.questions == Seq::<QuestionV>::empty(),
            s@.answers == Seq::<AnswerV>::empty(),
            !s@.exhausted(),
    {
        let s = Store { questions: Vec::new(), answers: Vec::new(), next: 1 };
        proof {
            assert(s@.questions =~= Seq::<QuestionV>::empty());
            assert(s@.answers =~= Seq::<AnswerV>::empty());
        }
        s
    }

    /// Inserts a question, assigning it a fresh identifier and a timestamp,
    /// and returns the complete stored record.
    pub fn insert_question(&mut self, title: String, description: String) -> (r: Result<
        QuestionDetail,
        DBError,
    >)
        requires
            old(self).wf(),
        ensures
            final(self).wf(),
            !old(self)@.exhausted() ==> r is Ok && final(self)@ == spec_create_question(
                old(self)@,
                title@,
                description@,
            ) && r->Ok_0@ == new_question_record(old(self)@, title@, description@),
            old(self)@.exhausted() ==> r is Err && r->Err_0 is Other && final(self)@ == old(self)@,
    {
        if self.next >= 0xFFFFFFFFFFFFu64 {
            return Err(DBError::Other(String::from_str("identifier space exhausted")));
        }
        let ghost oldrows = self.questions@;
        let k = self.next;
        let uuid = make_uuid(k);
        let created_at = make_timestamp(k);
        let row = QuestionRow {
            key: k,
            question_uuid: uuid.clone(),
            title: title.clone(),
            description: description.clone(),
            created_at: created_at.clone(),
        };
        self.questions.push(row);
        self.next = k + 1;
        let detail = QuestionDetail { question_uuid: uuid, title, description, created_at };
        proof {
            lemma_q_row_views_push(oldrows, row);
            assert(row@ =~= new_question_record(old(self)@, title@, description@));
            assert(self@ =~= spec_create_question(old(self)@, title@, description@));
            assert(detail@ =~= new_question_record(old(self)@, title@, description@));
            assert forall|j: int| 0 <= j < self@.answers.len() implies question_has(
                self@,
                (#[trigger] self@.answers[j]).question_uuid,
            ) by {
                let w = choose|i: int|
                    0 <= i < old(self)@.questions.len() && (#[trigger] old(
                        self,
                    )@.questions[i]).question_uuid == old(self)@.answers[j].question_uuid;
                assert(self@.questions[w].question_uuid == self@.answers[j].question_uuid);
            }
        }
        Ok(detail)
    }

    /// Returns every stored question, in store order.
    pub fn all_questions(&self) -> (r: Vec<QuestionDetail>)
        ensures
            q_detail_views(r@) == self@.questions,
    {
        let mut r: Vec<QuestionDetail> = Vec::new();
        let n = self.questions.len();
        for i in 0..n
            invariant
                n == self.questions.len(),
                q_detail_views(r@) == self@.questions.subrange(0, i as int),
        {
            let row = &self.questions[i];
            let d = QuestionDetail {
                question_uuid: row.question_uuid.clone(),
                title: row.title.clone(),
                description: row.description.clone(),
                created_at: row.created_at.clone(),
            };
            let ghost rv = r@;
            r.push(d);
            proof {
                lemma_q_detail_views_push(rv, d);
                assert(d@ == self@.questions[i as int]);
                assert(self@.questions.subrange(0, i + 1) =~= self@.questions.subrange(
                    0,
                    i as int,
                ).push(self@.questions[i as int]));
            }
        }
        proof {
            assert(self@.questions.subrange(0, n as int) =~= self@.questions);
        }
        r
    }

    /// Is a question with this (canonical) identifier present?
    pub fn contains_question(&self, uuid: &String) -> (b: bool)
        ensures
            b == question_has(self@, uuid@),
    {
        let n = self.questions.len();
        for i in 0..n
            invariant
                n == self.questions.len(),
                forall|j: int| 0 <= j < i ==> (#[trigger] self@.questions[j]).question_uuid != uuid@,
        {
            proof {
                assert(self@.questions[i as int] == self.questions@[i as int]@);
            }
            if self.questions[i].question_uuid == *uuid {
                return true;
            }
        }
        false
    }

    /// Inserts an answer under the question named by the (canonical)
    /// identifier, or reports the foreign-key violation where no such
    /// question exists.
    pub fn insert_answer(&mut self, question_uuid: &String, content: String) -> (r: Result<
        AnswerDetail,
        DBError,
    >)
        requires
            old(self).wf(),
        ensures
            final(self).wf(),
            !question_has(old(self)@, question_uuid@) ==> r is Err && r->Err_0 is InvalidUUID
                && r->Err_0->InvalidUUID_0@.len() > 0 && final(self)@ == old(self)@,
            question_has(old(self)@, question_uuid@) && !old(self)@.exhausted() ==> r is Ok
                && final(self)@ == spec_create_answer(old(self)@, question_uuid@, content@)
                && r->Ok_0@ == new_answer_record(old(self)@, question_uuid@, content@),
            question_has(old(self)@, question_uuid@) && old(self)@.exhausted() ==> r is Err
                && r->Err_0 is Other && final(self)@ == old(self)@,
    {
        if !self.contains_question(question_uuid) {
            proof {
                reveal_strlit("referenced question does not exist");
            }
            return Err(
                DBError::InvalidUUID(String::from_str("referenced question does not exist")),
            );
        }
        if self.next >= 0xFFFFFFFFFFFFu64 {
            return Err(DBError::Other(String::from_str("identifier space exhausted")));
        }
        let ghost oldrows = self.answers@;
        let k = self.next;
        let uuid = make_uuid(k);
        let created_at = make_timestamp(k);
        let row = AnswerRow {
            key: k,
            answer_uuid: uuid.clone(),
            question_uuid: question_uuid.clone(),
            content: content.clone(),
            created_at: created_at.clone(),
        };
        self.answers.push(row);
        self.next = k + 1;
        let detail = AnswerDetail {
            answer_uuid: uuid,
            question_uuid: question_uuid.clone(),
            content,
            created_at,
        };
        proof {
            lemma_a_row_views_push(oldrows, row);
            assert(row@ =~= new_answer_record(old(self)@, question_uuid@, content@));
            assert(self@ =~= spec_create_answer(old(self)@, question_uuid@, content@));
            assert(detail@ =~= new_answer_record(old(self)@, question_uuid@, content@));
            assert forall|j: int| 0 <= j < self@.answers.len() implies question_has(
                self@,
                (#[trigger] self@.answers[j]).question_uuid,
            ) by {
                if j < old(self)@.answers.len() {
                    assert(self@.answers[j] == old(self)@.answers[j]);
                    let w = choose|i: int|
                        0 <= i < old(self)@.questions.len() && (#[trigger] old(
                            self,
                        )@.questions[i]).question_uuid == old(self)@.answers[j].question_uuid;
                    assert(self@.questions[w].question_uuid == self@.answers[j].question_uuid);
                } else {
                    let w = choose|i: int|
                        0 <= i < old(self)@.questions.len() && (#[trigger] old(
                            self,
                        )@.questions[i]).question_uuid == question_uuid@;
                    assert(self@.questions[w].question_uuid == self@.answers[j].question_uuid);
                }
            }
        }
        Ok(detail)
    }

    /// Returns the answers under the question named by the (canonical)
    /// identifier, in store order; empty where none exist.
    pub fn answers_for(&self, question_uuid: &String) -> (r: Vec<AnswerDetail>)
        ensures
            a_detail_views(r@) == spec_get_answers(self@, question_uuid@),
    {
        let ghost u = question_uuid@;
        let mut r: Vec<AnswerDetail> = Vec::new();
        let n = self.answers.len();
        for i in 0..n
            invariant
                n == self.answers.len(),
                u == question_uuid@,
                a_detail_views(r@) == self@.answers.subrange(0, i as int).filter(a_match(u)),
        {
            let row = &self.answers[i];
            proof {
                assert(self@.answers[i as int] == self.answers@[i as int]@);
                assert(self@.answers.subrange(0, i + 1) =~= self@.answers.subrange(
                    0,
                    i as int,
                ).push(self@.answers[i as int]));
                lemma_filter_push(
                    self@.answers.subrange(0, i as int),
                    self@.answers[i as int],
                    a_match(u),
                );
            }
            if row.question_uuid == *question_uuid {
                let d = AnswerDetail {
                    answer_uuid: row.answer_uuid.clone(),
                    question_uuid: row.question_uuid.clone(),
                    content: row.content.clone(),
                    created_at: row.created_at.clone(),
                };
                let ghost rv = r@;
                r.push(d);
                proof {
                    lemma_a_detail_views_push(rv, d);
                    assert(d@ == self@.answers[i as int]);
                }
            }
        }
        proof {
            assert(self@.answers.subrange(0, n as int) =~= self@.answers);
        }
        r
    }

    /// Deletes the question named by the (canonical) identifier, cascading
    /// to its answers.  Deleting an absent identifier changes nothing.
    pub fn remove_question(&mut self, uuid: &String)
        requires
            old(self).wf(),
        ensures
            final(self).wf(),
            final(self)@ == spec_delete_question(old(self)@, uuid@),
    {
        let ghost u = uuid@;
        let ghost origq = self.questions@;
        let ghost origa = self.answers@;
        let mut kept_q: Vec<QuestionRow> = Vec::new();
        let n = self.questions.len();
        for i in 0..n
            invariant
                n == self.questions.len(),
                self.questions@ == origq,
                u == uuid@,
                kept_q@ == origq.subrange(0, i as int).filter(q_keep_row(u)),
        {
            proof {
                assert(origq.subrange(0, i + 1) =~= origq.subrange(0, i as int).push(
                    origq[i as int],
                ));
                lemma_filter_push(origq.subrange(0, i as int), origq[i as int], q_keep_row(u));
            }
            if !(self.questions[i].question_uuid == *uuid) {
                kept_q.push(clone_question_row(&self.questions[i]));
            }
        }
        proof {
            assert(origq.subrange(0, n as int) =~= origq);
        }
        let mut kept_a: Vec<AnswerRow> = Vec::new();
        let m = self.answers.len();
        for i in 0..m
            invariant
                m == self.answers.len(),
                self.answers@ == origa,
                u == uuid@,
                kept_a@ == origa.subrange(0, i as int).filter(a_keep_row_parent(u)),
        {
            proof {
                assert(origa.subrange(0, i + 1) =~= origa.subrange(0, i as int).push(
                    origa[i as int],
                ));
                lemma_filter_push(
                    origa.subrange(0, i as int),
                    origa[i as int],
                    a_keep_row_parent(u),
                );
            }
            if !(self.answers[i].question_uuid == *uuid) {
                kept_a.push(clone_answer_row(&self.answers[i]));
            }
        }
        proof {
            assert(origa.subrange(0, m as int) =~= origa);
        }
        self.questions = kept_q;
        self.answers = kept_a;
        proof {
            lemma_q_filter_views(origq, u);
            lemma_a_filter_views_parent(origa, u);
            assert(self@ =~= spec_delete_question(old(self)@, u));
            lemma_wf_after_question_filter(*old(self), *self, u);
        }
    }

    /// Deletes the answer named by the (canonical) identifier.  Deleting an
    /// absent identifier changes nothing.
    pub fn remove_answer(&mut self, uuid: &String)
        requires
            old(self).wf(),
        ensures
            final(self).wf(),
            final(self)@ == spec_delete_answer(old(self)@, uuid@),
    {
        let ghost u = uuid@;
        let ghost origa = self.answers@;
        let mut kept_a: Vec<AnswerRow> = Vec::new();
        let m = self.answers.len();
        for i in 0..m
            invariant
                m == self.answers.len(),
                self.answers@ == origa,
                u == uuid@,
                kept_a@ == origa.subrange(0, i as int).filter(a_keep_row_own(u)),
        {
            proof {
                assert(origa.subrange(0, i + 1) =~= origa.subrange(0, i as int).push(
                    origa[i as int],
                ));
                lemma_filter_push(origa.subrange(0, i as int), origa[i as int], a_keep_row_own(u));
            }
            if !(self.answers[i].answer_uuid == *uuid) {
                kept_a.push(clone_answer_row(&self.answers[i]));
            }
        }
        proof {
            assert(origa.subrange(0, m as int) =~= origa);
        }
        self.answers = kept_a;
        proof {
            lemma_a_filter_views_own(origa, u);
            assert(self@ =~= spec_delete_answer(old(self)@, u));
            lemma_wf_after_answer_filter(*old(self), *self, u);
        }
    }
}

fn clone_question_row(r: &QuestionRow) -> (c: QuestionRow)
    ensures
        c == *r,
{
    QuestionRow {
        key: r.key,
        question_uuid: r.question_uuid.clone(),
        title: r.title.clone(),
        description: r.description.clone(),
        created_at: r.created_at.clone(),
    }
}

fn clone_answer_row(r: &AnswerRow) -> (c: AnswerRow)
    ensures
        c == *r,
{
    AnswerRow {
        key: r.key,
        answer_uuid: r.answer_uuid.clone(),
        question_uuid: r.question_uuid.clone(),
        content: r.content.clone(),
        created_at: r.created_at.clone(),
    }
}

/// Filtering commutes with appending one element.
pub proof fn lemma_filter_push<A>(s: Seq<A>, x: A, pred: spec_fn(A) -> bool)
    ensures
        s.push(x).filter(pred) == if pred(x) {
            s.filter(pred).push(x)
        } else {
            s.filter(pred)
        },
{
    reveal(Seq::filter);
    assert(s.push(x).drop_last() =~= s);
    assert(s.push(x).last() == x);
    assert(s.push(x).len() == s.len() + 1);
}

/// Every element of a filtered sequence stands somewhere in the original.
pub proof fn lemma_filter_membership<A>(s: Seq<A>, pred: spec_fn(A) -> bool)
    ensures
        forall|k: int|
            0 <= k < s.filter(pred).len() ==> exists|j: int|
                0 <= j < s.len() && s[j] == #[trigger] s.filter(pred)[k],
    decreases s.len(),
{
    reveal(Seq::filter);
    if s.len() > 0 {
        lemma_filter_membership(s.drop_last(), pred);
        let f = s.filter(pred);
        let fd = s.drop_last().filter(pred);
        assert forall|k: int| 0 <= k < f.len() implies exists|j: int|
            0 <= j < s.len() && s[j] == #[trigger] f[k] by {
            if pred(s.last()) && k == f.len() - 1 {
                assert(s[s.len() - 1] == f[k]);
            } else {
                assert(f[k] == fd[k]);
                let j = choose|j: int| 0 <= j < s.drop_last().len() && s.drop_last()[j] == fd[k];
                assert(s[j] == f[k]);
            }
        }
    }
}

/// Filtering question rows and then taking records is taking records and
/// then filtering by the record's identifier.
proof fn lemma_q_filter_views(rows: Seq<QuestionRow>, u: Seq<char>)
    ensures
        q_row_views(rows.filter(q_keep_row(u))) == q_row_views(rows).filter(q_keep(u)),
    decreases rows.len(),
{
    reveal(Seq::filter);
    if rows.len() == 0 {
        assert(q_row_views(rows.filter(q_keep_row(u))) =~= q_row_views(rows).filter(q_keep(u)));
    } else {
        lemma_q_filter_views(rows.drop_last(), u);
        assert(q_row_views(rows).drop_last() =~= q_row_views(rows.drop_last()));
        assert(q_row_views(rows).last() == rows.last()@);
        if q_keep_row(u)(rows.last()) {
            lemma_q_row_views_push(rows.drop_last().filter(q_keep_row(u)), rows.last());
        }
        assert(q_row_views(rows.filter(q_keep_row(u))) =~= q_row_views(rows).filter(q_keep(u)));
    }
}

/// The same commutation for answer rows filtered by parent identifier.
proof fn lemma_a_filter_views_parent(rows: Seq<AnswerRow>, u: Seq<char>)
    ensures
        a_row_views(rows.filter(a_keep_row_parent(u))) == a_row_views(rows).filter(
            a_keep_parent(u),
        ),
    decreases rows.len(),
{
    reveal(Seq::filter);
    if rows.len() == 0 {
        assert(a_row_views(rows.filter(a_keep_row_parent(u))) =~= a_row_views(rows).filter(
            a_keep_parent(u),
        ));
    } else {
        lemma_a_filter_views_parent(rows.drop_last(), u);
        assert(a_row_views(rows).drop_last() =~= a_row_views(rows.drop_last()));
        assert(a_row_views(rows).last() == rows.last()@);
        if a_keep_row_parent(u)(rows.last()) {
            lemma_a_row_views_push(rows.drop_last().filter(a_keep_row_parent(u)), rows.last());
        }
        assert(a_row_views(rows.filter(a_keep_row_parent(u))) =~= a_row_views(rows).filter(
            a_keep_parent(u),
        ));
    }
}

/// The same commutation for answer rows filtered by their own identifier.
proof fn lemma_a_filter_views_own(rows: Seq<AnswerRow>, u: Seq<char>)
    ensures
        a_row_views(rows.filter(a_keep_row_own(u))) == a_row_views(rows).filter(a_keep_own(u)),
    decreases rows.len(),
{
    reveal(Seq::filter);
    if rows.len() == 0 {
        assert(a_row_views(rows.filter(a_keep_row_own(u))) =~= a_row_views(rows).filter(
            a_keep_own(u),
        ));
    } else {
        lemma_a_filter_views_own(rows.drop_last(), u);
        assert(a_row_views(rows).drop_last() =~= a_row_views(rows.drop_last()));
        assert(a_row_views(rows).last() == rows.last()@);
        if a_keep_row_own(u)(rows.last()) {
            lemma_a_row_views_push(rows.drop_last().filter(a_keep_row_own(u)), rows.last());
        }
        assert(a_row_views(rows.filter(a_keep_row_own(u))) =~= a_row_views(rows).filter(
            a_keep_own(u),
        ));
    }
}

/// Well-formedness survives deleting a question with its cascade.
proof fn lemma_wf_after_question_filter(pre: Store, post: Store, u: Seq<char>)
    requires
        pre.wf(),
        post.next == pre.next,
        post.questions@ == pre.questions@.filter(q_keep_row(u)),
        post.answers@ == pre.answers@.filter(a_keep_row_parent(u)),
    ensures
        post.wf(),
{
    lemma_filter_membership(pre.questions@, q_keep_row(u));
    lemma_filter_membership(pre.answers@, a_keep_row_parent(u));
    lemma_filter_distinct_keys_q(pre.questions@, q_keep_row(u));
    lemma_filter_distinct_keys_a(pre.answers@, a_keep_row_parent(u));
    assert forall|i: int, j: int|
        0 <= i < post.questions@.len() && 0 <= j < post.answers@.len() implies (
    #[trigger] post.questions@[i]).key != (#[trigger] post.answers@[j]).key by {
        assert(post.questions@[i] == pre.questions@.filter(q_keep_row(u))[i]);
        assert(post.answers@[j] == pre.answers@.filter(a_keep_row_parent(u))[j]);
        let qi = choose|x: int|
            0 <= x < pre.questions@.len() && pre.questions@[x] == post.questions@[i];
        let aj = choose|x: int| 0 <= x < pre.answers@.len() && pre.answers@[x] == post.answers@[j];
        assert(pre.questions@[qi].key != pre.answers@[aj].key);
    }
    assert forall|i: int|
        0 <= i < post.questions@.len() implies (#[trigger] post.questions@[i]).key < post.next
            && post.questions@[i].question_uuid@ == uuid_seq(post.questions@[i].key as nat) by {
        assert(post.questions@[i] == pre.questions@.filter(q_keep_row(u))[i]);
        let x = choose|x: int|
            0 <= x < pre.questions@.len() && pre.questions@[x] == post.questions@[i];
        assert(pre.questions@[x].key < pre.next);
    }
    assert forall|i: int|
        0 <= i < post.answers@.len() implies (#[trigger] post.answers@[i]).key < post.next
            && post.answers@[i].answer_uuid@ == uuid_seq(post.answers@[i].key as nat) by {
        assert(post.answers@[i] == pre.answers@.filter(a_keep_row_parent(u))[i]);
        let x = choose|x: int| 0 <= x < pre.answers@.len() && pre.answers@[x] == post.answers@[i];
        assert(pre.answers@[x].key < pre.next);
    }
    // the foreign key: a surviving answer's parent differs from the deleted
    // identifier, so the parent question survives the filter as well
    lemma_q_filter_views(pre.questions@, u);
    assert forall|j: int|
        0 <= j < post@.answers.len() implies question_has(
        post@,
        (#[trigger] post@.answers[j]).question_uuid,
    ) by {
        assert(post@.answers[j] == post.answers@[j]@);
        assert(post.answers@[j] == pre.answers@.filter(a_keep_row_parent(u))[j]);
        let x = choose|x: int| 0 <= x < pre.answers@.len() && pre.answers@[x] == post.answers@[j];
        assert(a_keep_row_parent(u)(pre.answers@[x]));
        let p = pre.answers@[x].question_uuid@;
        assert(p != u);
        assert(pre@.answers[x] == pre.answers@[x]@);
        assert(question_has(pre@, p));
        let w = choose|i: int|
            0 <= i < pre@.questions.len() && (#[trigger] pre@.questions[i]).question_uuid == p;
        pre@.questions.lemma_filter_contains(q_keep(u), w);
        assert(post@.questions == pre@.questions.filter(q_keep(u)));
        assert(post@.questions.contains(pre@.questions[w]));
        let wi = choose|i: int|
            0 <= i < post@.questions.len() && post@.questions[i] == pre@.questions[w];
        assert(post@.questions[wi].question_uuid == p);
    }
}

/// Well-formedness survives deleting an answer.
proof fn lemma_wf_after_answer_filter(pre: Store, post: Store, u: Seq<char>)
    requires
        pre.wf(),
        post.next == pre.next,
        post.questions@ == pre.questions@,
        post.answers@ == pre.answers@.filter(a_keep_row_own(u)),
    ensures
        post.wf(),
{
    lemma_filter_membership(pre.answers@, a_keep_row_own(u));
    lemma_filter_distinct_keys_a(pre.answers@, a_keep_row_own(u));
    assert forall|i: int, j: int|
        0 <= i < post.questions@.len() && 0 <= j < post.answers@.len() implies (
    #[trigger] post.questions@[i]).key != (#[trigger] post.answers@[j]).key by {
        assert(post.answers@[j] == pre.answers@.filter(a_keep_row_own(u))[j]);
        let aj = choose|x: int| 0 <= x < pre.answers@.len() && pre.answers@[x] == post.answers@[j];
        assert(pre.questions@[i].key != pre.answers@[aj].key);
    }
    assert forall|i: int|
        0 <= i < post.answers@.len() implies (#[trigger] post.answers@[i]).key < post.next
            && post.answers@[i].answer_uuid@ == uuid_seq(post.answers@[i].key as nat) by {
        assert(post.answers@[i] == pre.answers@.filter(a_keep_row_own(u))[i]);
        let x = choose|x: int| 0 <= x < pre.answers@.len() && pre.answers@[x] == post.answers@[i];
        assert(pre.answers@[x].key < pre.next);
    }
    assert forall|j: int|
        0 <= j < post@.answers.len() implies question_has(
        post@,
        (#[trigger] post@.answers[j]).question_uuid,
    ) by {
        assert(post@.answers[j] == post.answers@[j]@);
        assert(post.answers@[j] == pre.answers@.filter(a_keep_row_own(u))[j]);
        let x = choose|x: int| 0 <= x < pre.answers@.len() && pre.answers@[x] == post.answers@[j];
        assert(pre@.answers[x] == pre.answers@[x]@);
        assert(question_has(pre@, pre.answers@[x].question_uuid@));
        let w = choose|i: int|
            0 <= i < pre@.questions.len() && (#[trigger] pre@.questions[i]).question_uuid
                == pre.answers@[x].question_uuid@;
        assert(post@.questions[w] == pre@.questions[w]);
        assert(post@.questions[w].question_uuid == post@.answers[j].question_uuid);
    }
}

/// A filter of rows with pairwise-distinct keys keeps them pairwise
/// distinct.
proof fn lemma_filter_distinct_keys_q(s: Seq<QuestionRow>, pred: spec_fn(QuestionRow) -> bool)
    requires
        forall|i: int, j: int|
            0 <= i < j < s.len() ==> (#[trigger] s[i]).key != (#[trigger] s[j]).key,
    ensures
        forall|i: int, j: int|
            0 <= i < j < s.filter(pred).len() ==> (#[trigger] s.filter(pred)[i]).key != (
            #[trigger] s.filter(pred)[j]).key,
    decreases s.len(),
{
    reveal(Seq::filter);
    if s.len() > 0 {
        lemma_filter_distinct_keys_q(s.drop_last(), pred);
        lemma_filter_membership(s.drop_last(), pred);
        let f = s.filter(pred);
        let fd = s.drop_last().filter(pred);
        assert forall|i: int, j: int|
            0 <= i < j < f.len() implies (#[trigger] f[i]).key != (#[trigger] f[j]).key by {
            if pred(s.last()) && j == f.len() - 1 {
                assert(f[j] == s.last());
                assert(f[i] == fd[i]);
                let x = choose|x: int| 0 <= x < s.drop_last().len() && s.drop_last()[x] == fd[i];
                assert(s[x].key != s[s.len() - 1].key);
            } else {
                assert(f[i] == fd[i] && f[j] == fd[j]);
            }
        }
    }
}

/// The same for answer rows.
proof fn lemma_filter_distinct_keys_a(s: Seq<AnswerRow>, pred: spec_fn(AnswerRow) -> bool)
    requires
        forall|i: int, j: int|
            0 <= i < j < s.len() ==> (#[trigger] s[i]).key != (#[trigger] s[j]).key,
    ensures
        forall|i: int, j: int|
            0 <= i < j < s.filter(pred).len() ==> (#[trigger] s.filter(pred)[i]).key != (
            #[trigger] s.filter(pred)[j]).key,
    decreases s.len(),
{
    reveal(Seq::filter);
    if s.len() > 0 {
        lemma_filter_distinct_keys_a(s.drop_last(), pred);
        lemma_filter_membership(s.drop_last(), pred);
        let f = s.filter(pred);
        let fd = s.drop_last().filter(pred);
        assert forall|i: int, j: int|
            0 <= i < j < f.len() implies (#[trigger] f[i]).key != (#[trigger] f[j]).key by {
            if pred(s.last()) && j == f.len() - 1 {
                assert(f[j] == s.last());
                assert(f[i] == fd[i]);
                let x = choose|x: int| 0 <= x < s.drop_last().len() && s.drop_last()[x] == fd[i];
                assert(s[x].key != s[s.len() - 1].key);
            } else {
                assert(f[i] == fd[i] && f[j] == fd[j]);
            }
        }
    }
}

} // verus!
