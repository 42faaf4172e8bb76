use vstd::prelude::*;

verus! {

/// Settings that outlive the process.
pub struct Preferences {
    /// Brightness on a scale from 0 to 8.
    pub brightness: u8,
}

impl Default for Preferences {
    fn default() -> (r: Self)
        ensures
            r.brightness == 8,
    {
        Preferences { brightness: 8 }
    }
}

} // verus!
