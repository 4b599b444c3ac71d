//! Course (subject) labels: free-text names that scope groups and tasks.

use vstd::prelude::*;

verus! {

/// One course label.
pub struct AllCourseResponse {
    pub course: String,
}

/// A request to register a course label.
pub struct CreateCourseRequest {
    pub course: String,
}

} // verus!
