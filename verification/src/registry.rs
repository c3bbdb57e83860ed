//! The game registry: the loader handle game code asks for minigames.

use vstd::prelude::*;

verus! {

/// The hardware background video modes a screen can be built for.
#[derive(Clone, Copy, PartialEq, Eq, Structural, Debug)]
pub enum TileMode {
    Mode0,
    Mode1,
}

/// The stateless loader through which the title instantiates minigames.
#[derive(Clone, Copy, PartialEq, Eq, Structural, Debug)]
pub struct Registry {

}

impl Registry {
    /// A fresh loader handle.
    pub fn new() -> (r: Registry)
        ensures
            r == (Registry {  }),
    {
        Registry {  }
    }
}

impl Default for Registry {
    /// The default loader handle.
    fn default() -> (r: Registry)
        ensures
            r == (Registry {  }),
    {
        Registry::new()
    }
}

} // verus!
