//! The settings that commands may change.
use vstd::prelude::*;

verus! {

/// The name of the compiler that builds the program.
pub struct Config {
    pub cc: String,
}

impl Default for Config {
    /// The compiler is `gcc`.
    fn default() -> (r: Config)
        ensures
            r.cc@ == "gcc"@,
    {
        Config { cc: "gcc".to_owned() }
    }
}

} // verus!
