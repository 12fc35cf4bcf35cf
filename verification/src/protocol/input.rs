//! Input stream framing shared by the player and host.

use vstd::prelude::*;

verus! {

/// Keeps every input message well below the reliable control-frame limit.
pub const MAX_EVENTS_PER_PACK: usize = 256;

/// The bytes that open the dedicated reliable input stream: "RCIN", zero, revision 2.
pub open spec fn spec_stream_preamble() -> Seq<u8> {
    seq![82, 67, 73, 78, 0, 2]
}

/// Identifies the bounded-pack revision of the dedicated reliable input stream.
pub fn stream_preamble() -> (preamble: Vec<u8>)
    ensures
        preamble@ == spec_stream_preamble(),
{
    let preamble: Vec<u8> = vec![82, 67, 73, 78, 0, 2];
    assert(preamble@ =~= spec_stream_preamble());
    preamble
}

/// The preamble is six bytes: the letters RCIN, a zero and the revision.
pub proof fn law_the_preamble()
    ensures
        spec_stream_preamble().len() == 6,
        spec_stream_preamble()[0] == 'R' as u8,
        spec_stream_preamble()[1] == 'C' as u8,
        spec_stream_preamble()[2] == 'I' as u8,
        spec_stream_preamble()[3] == 'N' as u8,
        spec_stream_preamble()[4] == 0,
        spec_stream_preamble()[5] == 2,
{
}

} // verus!
