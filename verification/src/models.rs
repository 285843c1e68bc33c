//! Making sure the server has a model before it is asked to generate.
//!
//! The server lists the models it holds; one that is missing has to be
//! pulled first, and the pull has to report success.

use vstd::prelude::*;
use vstd::string::StringExecFns;
use crate::error::Error;
use crate::text::same_text;

verus! {

/// Where the server's model list is fetched.
pub const TAGS_URL: &'static str = "http://localhost:11434/api/tags";

/// Where pull requests are posted.
pub const PULL_URL: &'static str = "http://localhost:11434/api/pull";

/// One entry of the server's model list.
#[derive(Debug)]
pub struct ModelTag {
    pub name: String,
}

/// The server's answer to a request for its model list.
#[derive(Debug)]
pub struct TagsResponse {
    pub models: Vec<ModelTag>,
}

/// The body of a request to pull a model.
#[derive(Debug)]
pub struct PullRequest {
    pub name: String,
}

/// The server's answer to a pull request.
#[derive(Debug)]
pub struct PullResponse {
    pub status: String,
}

/// The status with which the server reports a pull as done.
pub open spec fn success_status() -> Seq<char> {
    "success"@
}

impl TagsResponse {
    /// Some entry of the list bears the name `model`.
    pub open spec fn lists(self, model: Seq<char>) -> bool {
        exists|i: int| 0 <= i < self.models@.len() && (#[trigger] self.models@[i]).name@ == model
    }

    /// The name to pull before `model` can be used: `model` itself where the
    /// list lacks it, nothing where the list has it.
    pub open spec fn missing(self, model: Seq<char>) -> Option<Seq<char>> {
        if self.lists(model) {
            None
        } else {
            Some(model)
        }
    }

    /// Whether the server holds `model`.
    pub fn has_model(&self, model: &str) -> (r: bool)
        ensures
            r == self.lists(model@),
    {
        let mut i: usize = 0;
        while i < self.models.len()
            invariant
                i <= self.models.len(),
                forall|j: int| 0 <= j < i ==> self.models@[j].name@ != model@,
            decreases self.models.len() - i,
        {
            if same_text(self.models[i].name.as_str(), model) {
                return true;
            }
            i += 1;
        }
        false
    }

    /// The pull to make before `model` can be used, if one is needed.
    pub fn pull_request_for(&self, model: &str) -> (r: Option<PullRequest>)
        ensures
            match r {
                Some(request) => self.missing(model@) == Some(request.name@),
                None => self.missing(model@) is None,
            },
    {
        if self.has_model(model) {
            None
        } else {
            Some(PullRequest { name: String::from_str(model) })
        }
    }
}

impl PullResponse {
    /// What the answer means for the caller: nothing to report where the
    /// status is the success status, a pull failure carrying the status for
    /// every other.
    pub open spec fn verdict(self) -> Result<(), Error> {
        if self.status@ == success_status() {
            Ok(())
        } else {
            Err(Error::ModelPull(self.status))
        }
    }

    /// Judges the answer to a pull request.
    pub fn check(&self) -> (r: Result<(), Error>)
        ensures
            r == self.verdict(),
    {
        if same_text(self.status.as_str(), "success") {
            Ok(())
        } else {
            Err(Error::ModelPull(self.status.clone()))
        }
    }
}

/// A model that the server lacks is pulled under its own name, and the pull
/// counts as done exactly when the server answers with the success status;
/// any other answer is a pull failure that carries the status.
pub proof fn lemma_missing_model_is_pulled(tags: TagsResponse, model: Seq<char>, answer: PullResponse)
    requires
        !tags.lists(model),
    ensures
        tags.missing(model) == Some(model),
        answer.status@ == success_status() ==> answer.verdict() is Ok,
        answer.status@ != success_status() ==> answer.verdict() == Err::<(), Error>(
            Error::ModelPull(answer.status),
        ),
{
}

} // verus!
