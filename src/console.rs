use vstd::prelude::*;
use vstd::string::StringSliceAdditionalSpecFns;

verus! {

/// The bytes of `s` that the console can show: its ASCII bytes, in order.
pub fn console_bytes(s: &str) -> (r: Vec<u8>)
    ensures
        r@ == s.spec_bytes().filter(|b: u8| b < 0x80),
{
    let bytes = s.as_bytes();
    let mut out: Vec<u8> = Vec::new();
    let mut i: usize = 0;
    while i < bytes.len()
        invariant
            bytes@ == s.spec_bytes(),
            i <= bytes@.len(),
            out@ == bytes@.subrange(0, i as int).filter(|b: u8| b < 0x80),
        decreases bytes@.len() - i,
    {
        proof {
            reveal(Seq::filter);
            assert(bytes@.subrange(0, i + 1).drop_last() =~= bytes@.subrange(0, i as int));
        }
        if bytes[i] < 0x80 {
            out.push(bytes[i]);
        }
        i = i + 1;
    }
    proof {
        assert(bytes@.subrange(0, bytes@.len() as int) =~= bytes@);
    }
    out
}

} // verus!
