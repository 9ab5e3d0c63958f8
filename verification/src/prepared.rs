//! Prepared statements: a plan kept with the schema version it was planned
//! against, and replanned when the schema has moved on.
use vstd::prelude::*;
use crate::errors::UniError;

verus! {

/// A prepared plan and the schema version it is valid for.
pub struct PreparedPlan<P> {
    plan: P,
    schema_version: u32,
}

impl<P> PreparedPlan<P> {
    pub closed spec fn spec_plan(&self) -> P {
        self.plan
    }

    pub closed spec fn spec_version(&self) -> u32 {
        self.schema_version
    }

    /// `plan`, planned against schema version `schema_version`.
    pub fn new(plan: P, schema_version: u32) -> (r: Self)
        ensures
            r.spec_plan() == plan,
            r.spec_version() == schema_version,
    {
        PreparedPlan { plan, schema_version }
    }

    /// The plan.
    pub fn plan(&self) -> (r: &P)
        ensures
            *r == self.spec_plan(),
    {
        &self.plan
    }

    /// Whether the plan must be rebuilt before running at schema version
    /// `current`.
    pub fn needs_replan(&self, current: u32) -> (r: bool)
        ensures
            r == (self.spec_version() != current),
    {
        self.schema_version != current
    }

    /// Installs the outcome of replanning `query_text` at schema version
    /// `current`: a new plan is kept with that version; a planning failure
    /// leaves the prepared plan as it was and is reported as a query error.
    pub fn replanned(&mut self, outcome: Result<P, String>, current: u32, query_text: &str) -> (r: Result<(), UniError>)
        ensures
            match outcome {
                Ok(p) => r is Ok && final(self).spec_plan() == p && final(self).spec_version() == current,
                Err(e) => (r matches Err(UniError::Query { message, query: Some(q) }) && message@ == e@
                    && q@ == query_text@) && final(self).spec_plan() == old(self).spec_plan()
                    && final(self).spec_version() == old(self).spec_version(),
            },
    {
        match outcome {
            Ok(p) => {
                self.plan = p;
                self.schema_version = current;
                Ok(())
            },
            Err(e) => Err(UniError::Query { message: e, query: Some(crate::text::owned(query_text)) }),
        }
    }
}

} // verus!
