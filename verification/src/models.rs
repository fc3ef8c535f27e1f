//! Domain values exchanged with the transport layer, and the error taxonomy.

use vstd::prelude::*;
use crate::storage::{StorageFailure, StorageFailureView};

pub mod postgres_error_codes;

verus! {

/// A question as a client submits it: no identity yet.
pub struct Question {
    pub title: String,
    pub description: String,
}

/// Mathematical content of a [`Question`].
pub struct QuestionView {
    pub title: Seq<char>,
    pub description: Seq<char>,
}

impl View for Question {
    type V = QuestionView;

    open spec fn view(&self) -> QuestionView {
        QuestionView { title: self.title@, description: self.description@ }
    }
}

/// A stored question: the client's fields plus the identity and the creation
/// time that the storage engine assigned.
#[derive(Debug, PartialEq)]
pub struct QuestionDetail {
    pub question_uuid: String,
    pub title: String,
    pub description: String,
    pub created_at: String,
}

impl Clone for QuestionDetail {
    fn clone(&self) -> (copy: Self)
        ensures
            copy == *self,
    {
        QuestionDetail {
            question_uuid: self.question_uuid.clone(),
            title: self.title.clone(),
            description: self.description.clone(),
            created_at: self.created_at.clone(),
        }
    }
}

/// Mathematical content of a [`QuestionDetail`].
pub struct QuestionDetailView {
    pub question_uuid: Seq<char>,
    pub title: Seq<char>,
    pub description: Seq<char>,
    pub created_at: Seq<char>,
}

impl View for QuestionDetail {
    type V = QuestionDetailView;

    open spec fn view(&self) -> QuestionDetailView {
        QuestionDetailView {
            question_uuid: self.question_uuid@,
            title: self.title@,
            description: self.description@,
            created_at: self.created_at@,
        }
    }
}

impl DeepView for QuestionDetail {
    type V = QuestionDetailView;

    open spec fn deep_view(&self) -> QuestionDetailView {
        self@
    }
}

/// Key of a question, used to delete it or to look up its answers.
#[derive(Debug)]
pub struct QuestionId {
    pub question_uuid: String,
}

/// An answer as a client submits it; `question_uuid` names the question it
/// belongs to.
pub struct Answer {
    pub question_uuid: String,
    pub content: String,
}

/// Mathematical content of an [`Answer`].
pub struct AnswerView {
    pub question_uuid: Seq<char>,
    pub content: Seq<char>,
}

impl View for Answer {
    type V = AnswerView;

    open spec fn view(&self) -> AnswerView {
        AnswerView { question_uuid: self.question_uuid@, content: self.content@ }
    }
}

/// A stored answer.
#[derive(Debug, PartialEq)]
pub struct AnswerDetail {
    pub answer_uuid: String,
    pub question_uuid: String,
    pub content: String,
    pub created_at: String,
}

impl Clone for AnswerDetail {
    fn clone(&self) -> (copy: Self)
        ensures
            copy == *self,
    {
        AnswerDetail {
            answer_uuid: self.answer_uuid.clone(),
            question_uuid: self.question_uuid.clone(),
            content: self.content.clone(),
            created_at: self.created_at.clone(),
        }
    }
}

/// Mathematical content of an [`AnswerDetail`].
pub struct AnswerDetailView {
    pub answer_uuid: Seq<char>,
    pub question_uuid: Seq<char>,
    pub content: Seq<char>,
    pub created_at: Seq<char>,
}

impl View for AnswerDetail {
    type V = AnswerDetailView;

    open spec fn view(&self) -> AnswerDetailView {
        AnswerDetailView {
            answer_uuid: self.answer_uuid@,
            question_uuid: self.question_uuid@,
            content: self.content@,
            created_at: self.created_at@,
        }
    }
}

impl DeepView for AnswerDetail {
    type V = AnswerDetailView;

    open spec fn deep_view(&self) -> AnswerDetailView {
        self@
    }
}

/// Key of an answer, used to delete it.
#[derive(Debug)]
pub struct AnswerId {
    pub answer_uuid: String,
}

/// Why a store operation failed.
#[derive(Debug, PartialEq)]
pub enum DBError {
    /// The identifier carried here is not the text of a UUID, or it names no
    /// stored row, or (on creating an answer) it names no stored question.
    InvalidUUID(String),
    /// Any other failure of the storage engine, carried along unread.
    Other(StorageFailure),
}

impl Clone for DBError {
    fn clone(&self) -> (copy: Self)
        ensures
            copy == *self,
    {
        match self {
            DBError::InvalidUUID(text) => DBError::InvalidUUID(text.clone()),
            DBError::Other(cause) => DBError::Other(cause.clone()),
        }
    }
}

/// Mathematical content of a [`DBError`].
pub enum DBErrorView {
    InvalidUUID(Seq<char>),
    Other(StorageFailureView),
}

impl View for DBError {
    type V = DBErrorView;

    open spec fn view(&self) -> DBErrorView {
        match self {
            DBError::InvalidUUID(text) => DBErrorView::InvalidUUID(text@),
            DBError::Other(cause) => DBErrorView::Other(cause@),
        }
    }
}

impl DeepView for DBError {
    type V = DBErrorView;

    open spec fn deep_view(&self) -> DBErrorView {
        self@
    }
}

/// What a store operation returned, as a mathematical value.
pub open spec fn outcome_view<T: DeepView>(outcome: Result<T, DBError>) -> Result<
    T::V,
    DBErrorView,
> {
    match outcome {
        Ok(value) => Ok(value.deep_view()),
        Err(e) => Err(e@),
    }
}

} // verus!
