//! The error of the plan runtime and of the skill bundle: a message, and what
//! caused it.
use crate::text::concat2;
use vstd::prelude::*;

verus! {

/// A message, and what caused it.
#[derive(Debug, PartialEq, Eq)]
pub struct PlanError {
    pub message: String,
    pub cause: Option<String>,
}

/// The meaning of a [`PlanError`].
pub struct PlanErrorModel {
    pub message: Seq<char>,
    pub cause: Option<Seq<char>>,
}

impl DeepView for PlanError {
    type V = PlanErrorModel;

    open spec fn deep_view(&self) -> PlanErrorModel {
        PlanErrorModel { message: self.message@, cause: self.cause.deep_view() }
    }
}

impl Clone for PlanError {
    fn clone(&self) -> (r: Self)
        ensures
            r.deep_view() == self.deep_view(),
    {
        PlanError { message: self.message.clone(), cause: self.cause.clone() }
    }
}

/// The meaning of a result.
pub open spec fn outcome<T: DeepView, E: DeepView>(r: Result<T, E>) -> Result<T::V, E::V> {
    match r {
        Ok(value) => Ok(value.deep_view()),
        Err(error) => Err(error.deep_view()),
    }
}

/// The error with this message and no cause.
pub open spec fn failure(message: Seq<char>) -> PlanErrorModel {
    PlanErrorModel { message, cause: None }
}

impl PlanErrorModel {
    /// The message, then its cause.
    pub open spec fn chain(self) -> Seq<char> {
        match self.cause {
            Some(cause) => self.message + ": "@ + cause,
            None => self.message,
        }
    }

    /// The error with this message, caused by the given one.
    pub open spec fn under(self, message: Seq<char>) -> PlanErrorModel {
        PlanErrorModel { message, cause: Some(self.chain()) }
    }
}

impl PlanError {
    /// The error with this message and no cause.
    pub fn new(message: String) -> (r: PlanError)
        ensures
            r.deep_view() == failure(message@),
    {
        PlanError { message, cause: None }
    }

    /// The error with this message and this cause.
    pub fn caused(message: String, cause: String) -> (r: PlanError)
        ensures
            r.deep_view() == failure(cause@).under(message@),
    {
        PlanError { message, cause: Some(cause) }
    }

    /// The message, then its cause.
    pub fn chain(&self) -> (r: String)
        ensures
            r@ == self.deep_view().chain(),
    {
        match &self.cause {
            Some(cause) => {
                let start: String = concat2(self.message.as_str(), ": ");
                concat2(start.as_str(), cause.as_str())
            },
            None => self.message.clone(),
        }
    }

    /// The error with this message, caused by this one.
    pub fn context(self, message: String) -> (r: PlanError)
        ensures
            r.deep_view() == self.deep_view().under(message@),
    {
        let cause: String = self.chain();
        PlanError { message, cause: Some(cause) }
    }
}

} // verus!
