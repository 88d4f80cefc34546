//! Types shared with the server bootstrap around this library.

use vstd::prelude::*;

verus! {

/// The application's own base URL. Bootstrap code stores shared state by
/// type, so a raw string would clash with other strings; the wrapper gives
/// the URL a type of its own.
#[derive(Debug)]
pub struct ApplicationBaseUrl(pub String);

} // verus!
