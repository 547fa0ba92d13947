use vstd::prelude::*;

pub mod answers_dao;
pub mod handlers;
pub mod hex;
pub mod laws;
pub mod models;
pub mod questions_dao;
pub mod store;
pub mod uuid_text;

use crate::answers_dao::AnswersDao;
use crate::questions_dao::QuestionsDao;

verus! {

/// The per-process state behind the HTTP adapter: one data-access object
/// per entity kind, each outliving every request that borrows it.
pub struct AppState<Q: QuestionsDao, A: AnswersDao> {
    pub questions_dao: Q,
    pub answers_dao: A,
}

} // verus!
