//! A protocol-buffer `Any`: a type url naming a message type and the encoded
//! bytes of one of its values. Carried through untouched.

use vstd::prelude::*;

verus! {

#[derive(Debug, Clone, PartialEq, Eq)]
pub struct Any {
    pub type_url: String,
    pub value: Vec<u8>,
}

} // verus!
