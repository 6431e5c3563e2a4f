use vstd::prelude::*;

verus! {

/// The states of the SMTP session machine.
///
/// A session starts in `Invalid` (no greeting sent yet), moves to
/// `Establish` when the greeting goes out, and then walks
/// `Mail -> Rcpt -> Data -> Mail` for each mail transaction.  `Done`
/// is terminal: it is entered by `QUIT` and tells the connection
/// handler to close the socket.
#[derive(Clone, Copy, Debug, PartialEq, Eq, Structural)]
pub enum State {
    Invalid,
    Establish,
    Mail,
    Rcpt,
    Data,
    Done,
}

} // verus!
