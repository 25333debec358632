//! Fixed-width slots: a string's bytes, left-justified, space-padded or cut.

use vstd::prelude::*;
use vstd::string::StringSliceAdditionalSpecFns;

verus! {

/// The padding byte of every slot (ASCII space).
pub const PAD_BYTE: u8 = 0x20;

/// `bytes` fitted to exactly `width` bytes: cut from the right when longer,
/// padded on the right with spaces when shorter.
pub open spec fn fit(bytes: Seq<u8>, width: nat) -> Seq<u8> {
    if bytes.len() >= width {
        bytes.subrange(0, width as int)
    } else {
        bytes + Seq::new((width - bytes.len()) as nat, |i: int| PAD_BYTE)
    }
}

/// The slot of `width` bytes that holds `input`.
pub fn pad_or_truncate(input: &str, size: usize) -> (r: Vec<u8>)
    ensures
        r@ == fit(input.spec_bytes(), size as nat),
        r@.len() == size,
        input.spec_bytes().len() <= size ==> {
            &&& r@.subrange(0, input.spec_bytes().len() as int) == input.spec_bytes()
            &&& forall|i: int| input.spec_bytes().len() <= i < size ==> r@[i] == PAD_BYTE
        },
        input.spec_bytes().len() > size ==> r@ == input.spec_bytes().subrange(0, size as int),
{
    let bytes = input.as_bytes();
    let mut out: Vec<u8> = Vec::new();
    let mut i: usize = 0;
    while i < size
        invariant
            bytes@ == input.spec_bytes(),
            i <= size,
            out@.len() == i,
            forall|k: int| 0 <= k < i ==> out@[k] == fit(bytes@, size as nat)[k],
        decreases size - i,
    {
        if i < bytes.len() {
            out.push(bytes[i]);
        } else {
            out.push(PAD_BYTE);
        }
        i = i + 1;
    }
    assert(out@ =~= fit(bytes@, size as nat));
    proof {
        if bytes@.len() <= size {
            assert(out@.subrange(0, bytes@.len() as int) =~= bytes@);
        }
    }
    out
}

} // verus!
