//! The static description the server gives of this snake.

use vstd::prelude::*;
use vstd::string::StringExecFns;

verus! {

/// How the snake presents itself: author, colour, head and tail, and the
/// versions of the interface and of the snake.
#[derive(Debug, Clone)]
pub struct Customization {
    pub apiversion: String,
    pub author: String,
    pub color: String,
    pub head: String,
    pub tail: String,
    pub version: String,
}

impl Customization {
    /// The description of this snake, built at `revision` of its source.
    pub fn new(revision: &str) -> (description: Customization)
        ensures
            description.apiversion@ == "1"@,
            description.author@ == "silverevo"@,
            description.color@ == "#888888"@,
            description.head@ == "default"@,
            description.tail@ == "default"@,
            description.version@ == "0.0.1-"@ + revision@,
    {
        Customization {
            apiversion: "1".to_owned(),
            author: "silverevo".to_owned(),
            color: "#888888".to_owned(),
            head: "default".to_owned(),
            tail: "default".to_owned(),
            version: "0.0.1-".to_owned().concat(revision),
        }
    }
}

} // verus!
