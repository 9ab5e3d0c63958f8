//! A fluent builder for property maps whose values are JSON values.
use vstd::prelude::*;
use crate::params::{bind_entry, distinct_names, entry_map};
use serde_json::Value as JsonValue;

verus! {

/// `serde_json::Value`, carried as an opaque value.
#[verifier::external_type_specification]
#[verifier::external_body]
pub struct ExJsonValue(JsonValue);

/// Collects properties by name; a later value for a name replaces the
/// earlier one.
pub struct PropertiesBuilder {
    properties: Vec<(String, JsonValue)>,
}

impl PropertiesBuilder {
    /// The properties collected so far.
    pub closed spec fn view_map(&self) -> Map<Seq<char>, JsonValue> {
        entry_map(self.properties@)
    }

    /// Each name is held once.
    pub closed spec fn wf(&self) -> bool {
        distinct_names(self.properties@)
    }

    /// An empty builder.
    pub fn new() -> (r: Self)
        ensures
            r.wf(),
            r.view_map() == Map::<Seq<char>, JsonValue>::empty(),
    {
        let r = PropertiesBuilder { properties: Vec::new() };
        proof {
            assert(entry_map(r.properties@) =~= Map::<Seq<char>, JsonValue>::empty());
        }
        r
    }

    /// Adds property `key` with `value`, replacing an earlier value of `key`.
    pub fn add(self, key: String, value: JsonValue) -> (r: Self)
        requires
            self.wf(),
        ensures
            r.wf(),
            r.view_map() == self.view_map().insert(key@, value),
    {
        let mut properties = self.properties;
        bind_entry(&mut properties, key, value);
        PropertiesBuilder { properties }
    }

    /// The collected properties, each name once.
    pub fn build(self) -> (r: Vec<(String, JsonValue)>)
        requires
            self.wf(),
        ensures
            distinct_names(r@),
            entry_map(r@) == self.view_map(),
    {
        self.properties
    }
}

impl Default for PropertiesBuilder {
    fn default() -> (r: Self)
        ensures
            r.wf(),
            r.view_map() == Map::<Seq<char>, JsonValue>::empty(),
    {
        PropertiesBuilder::new()
    }
}

} // verus!
