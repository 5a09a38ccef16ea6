pub mod builder;
pub mod columns;
pub mod exclusions;
pub mod laws;
pub mod metric;
pub mod parallel;
pub mod search;
pub mod sequential;
