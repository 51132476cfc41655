use vstd::prelude::*;

verus! {

/// Writing at an offset.
pub trait WriteAt {
    fn write_at(&self, data: &[u8], offset: u64) -> Result<(), std::io::Error>;
}

} // verus!
