use vstd::prelude::*;

pub mod text;
pub mod verb;
pub mod builder;
pub mod errors;
pub mod value;
pub mod plan_cache;
pub mod schema;
pub mod catalog;
pub mod bulk;
pub mod bulk_commit;
pub mod transaction;
pub mod params;
pub mod session;
pub mod locy;
pub mod open;
pub mod fork;
pub mod prepared;
pub mod results;
pub mod authz;
pub mod time_travel;
