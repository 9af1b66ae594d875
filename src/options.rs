//! The options of one invocation, and the decisions taken from them.
use vstd::prelude::*;
use crate::error::CacheError;

verus! {

/// The options of one invocation.
pub struct Opt {
    /// The interpreter that creates environments.
    pub python: String,
    /// The directory that holds the environments.
    pub root: String,
    /// The journal's database file.
    pub journal: String,
    /// How many environments the pool keeps before evicting.
    pub maximum_venvs: usize,
    /// The requirements text, given inline.
    pub requirements: Option<String>,
    /// A file to read the requirements from.
    pub requirements_path: Option<String>,
    /// The arguments handed to the interpreter.
    pub args: Vec<String>,
}

/// Where the requirements text comes from.
#[derive(Debug)]
pub enum RequirementsSource {
    Stdin,
    Provided(String),
    File(String),
}

impl Opt {
    /// The requirements source: the inline text, else the file, else
    /// standard input; both at once is a usage error.
    pub fn requirements_source(&self) -> (r: Result<RequirementsSource, CacheError>)
        ensures
            (self.requirements is Some && self.requirements_path is Some) <==> r == Err::<
                RequirementsSource,
                CacheError,
            >(CacheError::Usage),
            (self.requirements is Some && self.requirements_path is None) ==> (r matches Ok(
                RequirementsSource::Provided(t),
            ) && t@ == self.requirements->Some_0@),
            (self.requirements is None && self.requirements_path is Some) ==> (r matches Ok(
                RequirementsSource::File(p),
            ) && p@ == self.requirements_path->Some_0@),
            (self.requirements is None && self.requirements_path is None) ==> r matches Ok(
                RequirementsSource::Stdin,
            ),
    {
        match (&self.requirements, &self.requirements_path) {
            (Some(_), Some(_)) => Err(CacheError::Usage),
            (Some(text), None) => Ok(RequirementsSource::Provided(text.clone())),
            (None, Some(path)) => Ok(RequirementsSource::File(path.clone())),
            (None, None) => Ok(RequirementsSource::Stdin),
        }
    }

    /// The pool's capacity; it must be positive.
    pub fn capacity(&self) -> (r: Result<usize, CacheError>)
        ensures
            self.maximum_venvs > 0 ==> r == Ok::<usize, CacheError>(self.maximum_venvs),
            self.maximum_venvs == 0 ==> r == Err::<usize, CacheError>(CacheError::Usage),
    {
        if self.maximum_venvs > 0 {
            Ok(self.maximum_venvs)
        } else {
            Err(CacheError::Usage)
        }
    }
}

/// The code this process exits with once the interpreter ended: its exit
/// code, or 127 when a signal ended it.
pub fn exit_code(status: Option<i32>) -> (r: i32)
    ensures
        r == match status {
            Some(c) => c,
            None => 127,
        },
{
    match status {
        Some(c) => c,
        None => 127,
    }
}

} // verus!
