use crate::parsing::document::{lines_of, str_to_vec, texts};
use vstd::prelude::*;

verus! {

/// A small document that shows each kind of line.
pub const EXAMPLE: &'static str = ":theme Default\n     :title Example Sequence Diagram\n     :author Mr. Sequence Diagram\n     :date\n    \n     # diagram\n     Client -> Server: Request\n     Server -> Server: Parses request\n     Server ->> Service: Query\n     Service -->> Server: Data\n     Server --> Client: Response\n     Left -> Right\n     # {AMPS} -> Client: ";

/// The lines of the example document.
pub fn get_text() -> (lines: Vec<String>)
    ensures
        texts(lines@) == lines_of(EXAMPLE@),
{
    str_to_vec(EXAMPLE)
}

} // verus!
