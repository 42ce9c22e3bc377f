//! The greeting that the pages may show.

use vstd::prelude::*;
use vstd::string::*;

verus! {

/// The key under which the greeting is kept.
pub open spec fn message_key() -> Seq<char> {
    "message"@
}

/// The greeting.
pub open spec fn message_text() -> Seq<char> {
    "Hello, World!"@
}

/// The page data: one entry, the greeting under its key.
pub fn make_data() -> (data: Vec<(String, String)>)
    ensures
        data@.len() == 1,
        data@[0].0@ == message_key(),
        data@[0].1@ == message_text(),
{
    let mut data: Vec<(String, String)> = Vec::new();
    data.push((String::from_str("message"), String::from_str("Hello, World!")));
    data
}

} // verus!
