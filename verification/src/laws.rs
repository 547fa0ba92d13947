use vstd::prelude::*;
use crate::models::AnswerV;
use crate::store::{
    a_keep_own, a_keep_parent, a_match, new_question_record, q_keep,
    spec_create_answer, spec_create_question, spec_delete_answer, spec_delete_question,
    spec_get_answers, Store, StoreView,
};
use crate::uuid_text::{is_canonical_uuid, lemma_pow16_12, lemma_uuid_seq_canonical, lemma_uuid_seq_injective, ts_seq};

verus! {

/// A filter keeps a sequence whose every element it accepts.
proof fn lemma_filter_all_kept<A>(s: Seq<A>, pred: spec_fn(A) -> bool)
    requires
        forall|i: int| 0 <= i < s.len() ==> pred(#[trigger] s[i]),
    ensures
        s.filter(pred) == s,
    decreases s.len(),
{
    reveal(Seq::filter);
    if s.len() > 0 {
        assert(forall|i: int| 0 <= i < s.drop_last().len() ==> pred(#[trigger] s.drop_last()[i]));
        lemma_filter_all_kept(s.drop_last(), pred);
        assert(s.drop_last().push(s.last()) =~= s);
    }
}

/// A filter empties a sequence whose every element it rejects.
proof fn lemma_filter_none_kept<A>(s: Seq<A>, pred: spec_fn(A) -> bool)
    requires
        forall|i: int| 0 <= i < s.len() ==> !pred(#[trigger] s[i]),
    ensures
        s.filter(pred) == Seq::<A>::empty(),
    decreases s.len(),
{
    reveal(Seq::filter);
    if s.len() > 0 {
        assert(forall|i: int| 0 <= i < s.drop_last().len() ==> !pred(#[trigger] s.drop_last()[i]));
        lemma_filter_none_kept(s.drop_last(), pred);
    }
}

/// Filtering twice by one predicate is filtering once.
proof fn lemma_filter_idempotent<A>(s: Seq<A>, pred: spec_fn(A) -> bool)
    ensures
        s.filter(pred).filter(pred) == s.filter(pred),
{
    broadcast use vstd::seq_lib::group_filter_ensures;

    lemma_filter_all_kept(s.filter(pred), pred);
}

/// Create–read round trip: after a create-question, the table that a
/// subsequent get-questions returns contains a record carrying the given
/// title and description, an identifier in canonical UUID form, and the
/// assigned timestamp; the rest of the table is untouched.
pub proof fn lemma_create_read_round_trip(s: StoreView, title: Seq<char>, description: Seq<char>)
    ensures
        ({
            let after = spec_create_question(s, title, description);
            exists|i: int|
                0 <= i < after.questions.len() && (#[trigger] after.questions[i]).title == title
                    && after.questions[i].description == description && is_canonical_uuid(
                    after.questions[i].question_uuid,
                ) && after.questions[i].created_at == ts_seq(s.next)
        }),
        spec_create_question(s, title, description).questions.len() == s.questions.len() + 1,
        forall|i: int|
            0 <= i < s.questions.len() ==> spec_create_question(
                s,
                title,
                description,
            ).questions[i] == #[trigger] s.questions[i],
{
    let after = spec_create_question(s, title, description);
    lemma_uuid_seq_canonical(s.next);
    let last = after.questions.len() - 1;
    assert(after.questions[last] == new_question_record(s, title, description));
    assert(after.questions[last].title == title);
}

/// Delete idempotence: deleting one identifier twice leaves the state a
/// single deletion leaves, for questions (with their cascade) and for
/// answers alike.  That a repeated deletion also succeeds is part of the
/// delete contracts, which reject only a string that is no UUID.
pub proof fn lemma_delete_idempotent(s: StoreView, u: Seq<char>)
    ensures
        spec_delete_question(spec_delete_question(s, u), u) == spec_delete_question(s, u),
        spec_delete_answer(spec_delete_answer(s, u), u) == spec_delete_answer(s, u),
{
    lemma_filter_idempotent(s.questions, q_keep(u));
    lemma_filter_idempotent(s.answers, a_keep_parent(u));
    lemma_filter_idempotent(s.answers, a_keep_own(u));
    assert(spec_delete_question(spec_delete_question(s, u), u) =~= spec_delete_question(s, u));
    assert(spec_delete_answer(spec_delete_answer(s, u), u) =~= spec_delete_answer(s, u));
}

/// Cascade: create a question, create an answer under it, then delete the
/// question; afterwards no answer under that question remains, so a
/// subsequent get-answers under it returns the empty sequence, and a
/// subsequent delete of the answer (which still succeeds, its identifier
/// being a UUID) is a no-op on the answers under that question.
pub proof fn lemma_cascade(s: StoreView, title: Seq<char>, description: Seq<char>, content: Seq<char>)
    ensures
        ({
            let q = new_question_record(s, title, description);
            let s1 = spec_create_question(s, title, description);
            let s2 = spec_create_answer(s1, q.question_uuid, content);
            let s3 = spec_delete_question(s2, q.question_uuid);
            spec_get_answers(s3, q.question_uuid) == Seq::<AnswerV>::empty()
        }),
{
    broadcast use vstd::seq_lib::group_filter_ensures;

    let q = new_question_record(s, title, description);
    let s1 = spec_create_question(s, title, description);
    let s2 = spec_create_answer(s1, q.question_uuid, content);
    let s3 = spec_delete_question(s2, q.question_uuid);
    let kept = s2.answers.filter(a_keep_parent(q.question_uuid));
    assert(forall|i: int|
        0 <= i < kept.len() ==> (#[trigger] kept[i]).question_uuid != q.question_uuid);
    assert(forall|i: int| 0 <= i < kept.len() ==> !a_match(q.question_uuid)(#[trigger] kept[i]));
    lemma_filter_none_kept(kept, a_match(q.question_uuid));
}

/// Identifiers are globally unique: in a well-formed store no two records
/// carry the same identifier, within a table or across the two.
pub proof fn lemma_identifiers_unique(s: Store)
    requires
        s.wf(),
    ensures
        forall|i: int, j: int|
            0 <= i < j < s@.questions.len() ==> (#[trigger] s@.questions[i]).question_uuid != (
            #[trigger] s@.questions[j]).question_uuid,
        forall|i: int, j: int|
            0 <= i < j < s@.answers.len() ==> (#[trigger] s@.answers[i]).answer_uuid != (
            #[trigger] s@.answers[j]).answer_uuid,
        forall|i: int, j: int|
            0 <= i < s@.questions.len() && 0 <= j < s@.answers.len() ==> (
            #[trigger] s@.questions[i]).question_uuid != (#[trigger] s@.answers[j]).answer_uuid,
{
    lemma_pow16_12();
    assert forall|i: int, j: int|
        0 <= i < j < s@.questions.len() implies (#[trigger] s@.questions[i]).question_uuid != (
    #[trigger] s@.questions[j]).question_uuid by {
        assert(s@.questions[i] == s.questions@[i]@);
        assert(s@.questions[j] == s.questions@[j]@);
        if s.questions@[i].question_uuid@ == s.questions@[j].question_uuid@ {
            lemma_uuid_seq_injective(
                s.questions@[i].key as nat,
                s.questions@[j].key as nat,
            );
        }
    }
    assert forall|i: int, j: int|
        0 <= i < j < s@.answers.len() implies (#[trigger] s@.answers[i]).answer_uuid != (
    #[trigger] s@.answers[j]).answer_uuid by {
        assert(s@.answers[i] == s.answers@[i]@);
        assert(s@.answers[j] == s.answers@[j]@);
        if s.answers@[i].answer_uuid@ == s.answers@[j].answer_uuid@ {
            lemma_uuid_seq_injective(s.answers@[i].key as nat, s.answers@[j].key as nat);
        }
    }
    assert forall|i: int, j: int|
        0 <= i < s@.questions.len() && 0 <= j < s@.answers.len() implies (
    #[trigger] s@.questions[i]).question_uuid != (#[trigger] s@.answers[j]).answer_uuid by {
        assert(s@.questions[i] == s.questions@[i]@);
        assert(s@.answers[j] == s.answers@[j]@);
        if s.questions@[i].question_uuid@ == s.answers@[j].answer_uuid@ {
            lemma_uuid_seq_injective(s.questions@[i].key as nat, s.answers@[j].key as nat);
        }
    }
}

} // verus!
