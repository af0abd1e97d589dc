//! Subprocess invocations, described as values for the caller to run.
use vstd::prelude::*;
use crate::errors::DinghyError;

verus! {

/// One subprocess to run: a program and its arguments.
#[derive(Clone, Debug)]
pub struct CommandLine {
    pub program: String,
    pub args: Vec<String>,
    /// A non-zero exit status is a transport failure that stops what follows.
    pub must_succeed: bool,
    /// The subprocess's output is discarded.
    pub quiet: bool,
}

impl CommandLine {
    pub open spec fn args_view(&self) -> Seq<Seq<char>> {
        self.args@.map_values(|s: String| s@)
    }

    /// What a finished step means for the steps after it: a transport failure, which
    /// stops them, where the step had to succeed and did not.
    pub fn outcome(&self, succeeded: bool) -> (r: Result<(), DinghyError>)
        ensures
            r is Err <==> (self.must_succeed && !succeeded),
            r matches Err(e) ==> e is TransportFailure,
    {
        if self.must_succeed && !succeeded {
            Err(DinghyError::TransportFailure(self.program.clone()))
        } else {
            Ok(())
        }
    }
}

} // verus!
