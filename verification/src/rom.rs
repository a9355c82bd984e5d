//! A program image: an immutable byte sequence consumed once at start-up to
//! populate memory at the load address.  Reading the image from durable
//! storage is the embedding program's business; the core only holds the
//! bytes.

use vstd::prelude::*;

verus! {

pub struct ROM {
    pub path: &'static str,
    pub size: usize,
    data: Vec<u8>,
}

/// Mathematical image of a program image: where it came from, how many
/// bytes it holds, and the bytes themselves.
pub ghost struct RomState {
    pub path: &'static str,
    pub size: usize,
    pub data: Seq<u8>,
}

impl View for ROM {
    type V = RomState;

    closed spec fn view(&self) -> RomState {
        RomState { path: self.path, size: self.size, data: self.data@ }
    }
}

impl ROM {
    /// Wraps the bytes of a program image together with its origin.
    pub fn new(path: &'static str, data: Vec<u8>) -> (rom: ROM)
        ensures
            rom@.data == data@,
            rom@.path == path,
            rom@.size == data@.len(),
    {
        let size = data.len();
        ROM { path, size, data }
    }

    /// A copy of the image bytes.
    pub fn get_data(&self) -> (r: Vec<u8>)
        ensures
            r@ == self@.data,
    {
        let r = self.data.clone();
        proof {
            assert forall|k: int| 0 <= k < r@.len() implies r@[k] == self.data@[k] by {
                assert(cloned(self.data@[k], r@[k]));
            }
            assert(r@ =~= self.data@);
        }
        r
    }
}

} // verus!
