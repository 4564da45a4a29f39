use vstd::prelude::*;

verus! {

/// The unit of data handed from the browser to the engine.
///
/// `field1` holds four single-precision numbers as their IEEE-754 bit
/// patterns, so that the value is carried exactly and compared bit for bit.
#[derive(Clone, Copy, Debug, PartialEq, Eq)]
pub struct Payload {
    pub field1: [u32; 4],
}

impl Payload {
    /// A payload made of the four given bit patterns.
    pub fn new(field1: [u32; 4]) -> (r: Payload)
        ensures
            r.field1@ == field1@,
    {
        Payload { field1 }
    }
}

impl Default for Payload {
    /// The zero payload: every component is `+0.0`, whose bit pattern is 0.
    fn default() -> (r: Payload)
        ensures
            r.field1@ == seq![0u32, 0u32, 0u32, 0u32],
    {
        let r = Payload { field1: [0u32, 0u32, 0u32, 0u32] };
        assert(r.field1@ =~= seq![0u32, 0u32, 0u32, 0u32]);
        r
    }
}

} // verus!
