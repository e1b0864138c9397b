use vstd::prelude::*;
use vstd::string::StringExecFns;

pub mod text;
pub mod predicate;
pub mod matcher;
pub mod report;
pub mod commands;

verus! {

/// A configured notes directory and the editor used to open its files.
pub struct Cfg {
    pub path: String,
    pub editor: String,
}

impl Cfg {
    /// The configuration that applies where none is given: the home directory,
    /// opened with vim.
    pub fn with_home(home: String) -> (r: Cfg)
        ensures
            r.path@ == home@,
            r.editor@ == "vim"@,
    {
        Cfg { path: home, editor: String::from_str("vim") }
    }
}

} // verus!
