//! The route surface of the server: which requests are answered, and by what.

use vstd::prelude::*;

verus! {

/// The path of the liveness route, answered on `GET`.
pub const INDEX_PATH: &'static str = "/";

/// The path of the upload route, answered on `POST`.
pub const UPLOAD_PATH: &'static str = "/upload";

/// The text that the liveness route answers with.
pub open spec fn index_text() -> Seq<char> {
    seq!['H', 'e', 'l', 'l', 'o', ',', ' ', 'W', 'o', 'r', 'l', 'd', '!']
}

/// The body of `GET /`: a fixed text, the same on every call.
pub fn index() -> (body: &'static str)
    ensures
        body@ == index_text(),
{
    let body = "Hello, World!";
    proof {
        reveal_strlit("Hello, World!");
        assert(body@ =~= index_text());
    }
    body
}

} // verus!
