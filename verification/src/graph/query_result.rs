//! The results of queries.

use std::sync::Arc;

use vstd::prelude::*;

verus! {

/// An error of any type, from the `anyhow` crate.
#[verifier::external_type_specification]
#[verifier::external_body]
pub struct ExAnyhowError(anyhow::Error);

/// An error that many can hold.
pub struct QueryError {
    shared: Arc<anyhow::Error>,
}

impl QueryError {
    pub closed spec fn cause(self) -> anyhow::Error {
        *self.shared
    }

    pub fn new(cause: anyhow::Error) -> (r: QueryError)
        ensures
            r.cause() == cause,
    {
        QueryError { shared: Arc::new(cause) }
    }

    pub fn inner(&self) -> (r: &anyhow::Error)
        ensures
            *r == self.cause(),
    {
        &self.shared
    }

    /// The same error for another holder.
    pub fn share(&self) -> (r: QueryError)
        ensures
            r == *self,
    {
        QueryError { shared: self.shared.clone() }
    }
}

/// What a run of a query gave.
pub struct RunOutput<T> {
    pub output: Result<T, QueryError>,
    /// The numbers of the events that were emitted.
    pub events: Vec<u64>,
    pub run_id: usize,
}

/// The result of a query, which many can hold.
pub struct QueryResult<T> {
    shared: Arc<RunOutput<T>>,
}

impl<T> QueryResult<T> {
    pub closed spec fn run(self) -> RunOutput<T> {
        *self.shared
    }

    pub fn new(output: Result<T, anyhow::Error>, events: Vec<u64>, run_id: usize) -> (r: QueryResult<T>)
        ensures
            r.run().run_id == run_id,
            r.run().events == events,
            match (output, r.run().output) {
                (Ok(x), Ok(y)) => x == y,
                (Err(e), Err(f)) => f.cause() == e,
                _ => false,
            },
    {
        let output = match output {
            Ok(x) => Ok(x),
            Err(e) => Err(QueryError::new(e)),
        };
        QueryResult { shared: Arc::new(RunOutput { output, events, run_id }) }
    }

    pub fn output(&self) -> (r: &Result<T, QueryError>)
        ensures
            *r == self.run().output,
    {
        &self.shared.output
    }

    pub fn run_id(&self) -> (r: usize)
        ensures
            r == self.run().run_id,
    {
        self.shared.run_id
    }

    /// What the run gave, or its error for another holder.
    pub fn output_ref(&self) -> (r: Result<&T, QueryError>)
        ensures
            match (r, self.run().output) {
                (Ok(x), Ok(y)) => *x == y,
                (Err(e), Err(f)) => e == f,
                _ => false,
            },
    {
        match &self.shared.output {
            Ok(x) => Ok(x),
            Err(e) => Err(e.share()),
        }
    }

    /// The same result for another holder.
    pub fn share(&self) -> (r: QueryResult<T>)
        ensures
            r == *self,
    {
        QueryResult { shared: self.shared.clone() }
    }
}

} // verus!
