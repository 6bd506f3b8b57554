//! The transform of the reading end of the pipe: ASCII lower case to upper
//! case, byte by byte, whatever the chunks in which the bytes arrive.

use vstd::prelude::*;

verus! {

/// The byte in upper case: `a` to `z` become `A` to `Z`, every other byte
/// stays.
pub open spec fn upper(byte: u8) -> u8 {
    if 0x61 <= byte <= 0x7a {
        (byte - 0x20) as u8
    } else {
        byte
    }
}

/// The bytes in upper case, each in its place.
pub open spec fn upper_all(bytes: Seq<u8>) -> Seq<u8> {
    Seq::new(bytes.len(), |i: int| upper(bytes[i]))
}

/// Puts one byte in upper case.
pub fn to_upper(byte: u8) -> (out: u8)
    ensures
        out == upper(byte),
{
    if 0x61 <= byte && byte <= 0x7a {
        byte - 0x20
    } else {
        byte
    }
}

/// Appends the bytes of `chunk` to `output`, in upper case.
pub fn absorb(output: &mut Vec<u8>, chunk: &[u8])
    ensures
        final(output)@ == old(output)@ + upper_all(chunk@),
{
    let mut i: usize = 0;
    while i < chunk.len()
        invariant
            i <= chunk.len(),
            output@ == old(output)@ + upper_all(chunk@.take(i as int)),
        decreases chunk.len() - i,
    {
        output.push(to_upper(chunk[i]));
        i = i + 1;
    }
}

/// The bytes of `text` in upper case.
pub fn shout(text: &[u8]) -> (out: Vec<u8>)
    ensures
        out@ == upper_all(text@),
{
    let mut out: Vec<u8> = Vec::new();
    absorb(&mut out, text);
    out
}

/// Text that arrives in two chunks comes out as it would in one.
pub proof fn chunks_do_not_matter(head: Seq<u8>, tail: Seq<u8>)
    ensures
        upper_all(head + tail) == upper_all(head) + upper_all(tail),
{
}

/// Upper case keeps the length, leaves bytes without a lower-case letter
/// alone, and changes nothing when applied again.
pub proof fn upper_is_settled(bytes: Seq<u8>)
    ensures
        upper_all(bytes).len() == bytes.len(),
        upper_all(upper_all(bytes)) == upper_all(bytes),
        forall|i: int|
            0 <= i < bytes.len() && !(0x61 <= bytes[i] <= 0x7a) ==> #[trigger] upper_all(bytes)[i]
                == bytes[i],
        forall|i: int| 0 <= i < bytes.len() ==> !(0x61 <= #[trigger] upper_all(bytes)[i] <= 0x7a),
{
}

} // verus!
