//! Handle to a linked shader program. Compiling, linking and using a
//! program are graphics-API work outside this crate; the library only
//! carries the program id the renderer was handed.

use vstd::prelude::*;

verus! {

/// An opaque handle to a compiled and linked shader program.
pub struct Shader(pub u32);

impl Shader {
    /// The raw program id the handle carries.
    pub fn id(&self) -> (r: u32)
        ensures
            r == self.0,
    {
        let Shader(id) = *self;
        id
    }
}

} // verus!
