use vstd::prelude::*;

verus! {

/// How the items under a path are materialised in the target tree.
#[derive(Debug, Clone, Copy, PartialEq, Eq, Structural)]
pub enum Strategy {
    /// Symlink individual files, descending into directories.
    File,
    /// Symlink a directory as one unit.
    Directory,
    /// Treat a directory's contents individually.
    Contents,
    /// Copy bytes and permissions instead of linking.
    Copy,
}

impl Strategy {
    pub open spec fn spec_is_copy(self) -> bool {
        self == Strategy::Copy
    }

    /// A directory under this strategy becomes a single item.
    pub open spec fn spec_is_directory_unit(self) -> bool {
        self == Strategy::Directory || self == Strategy::Copy
    }

    pub fn is_copy(&self) -> (r: bool)
        ensures
            r == self.spec_is_copy(),
    {
        match self {
            Strategy::File => false,
            Strategy::Directory => false,
            Strategy::Contents => false,
            Strategy::Copy => true,
        }
    }

    pub fn is_directory_unit(&self) -> (r: bool)
        ensures
            r == self.spec_is_directory_unit(),
    {
        match self {
            Strategy::File => false,
            Strategy::Directory => true,
            Strategy::Contents => false,
            Strategy::Copy => true,
        }
    }

    pub open spec fn spec_name(self) -> Seq<char> {
        match self {
            Strategy::File => "file"@,
            Strategy::Directory => "directory"@,
            Strategy::Contents => "contents"@,
            Strategy::Copy => "copy"@,
        }
    }

    /// The lower-case name used in configuration files.
    pub fn name(&self) -> (r: &'static str)
        ensures
            r@ == self.spec_name(),
    {
        match self {
            Strategy::File => "file",
            Strategy::Directory => "directory",
            Strategy::Contents => "contents",
            Strategy::Copy => "copy",
        }
    }

    /// Parses the lower-case name of a strategy.
    pub fn from_name(s: &str) -> (r: Option<Strategy>)
        ensures
            r matches Some(st) ==> st.spec_name() == s@,
            r is None ==> forall|st: Strategy| st.spec_name() != s@,
    {
        let strategies = [Strategy::File, Strategy::Directory, Strategy::Contents, Strategy::Copy];
        let mut i: usize = 0;
        while i < 4
            invariant
                0 <= i <= 4,
                strategies@ == seq![Strategy::File, Strategy::Directory, Strategy::Contents, Strategy::Copy],
                forall|j: int| 0 <= j < i ==> strategies@[j].spec_name() != s@,
            decreases 4 - i,
        {
            let st = strategies[i];
            if crate::text::str_eq(st.name(), s) {
                return Some(st);
            }
            i = i + 1;
        }
        proof {
            assert forall|st: Strategy| st.spec_name() != s@ by {
                match st {
                    Strategy::File => assert(strategies@[0] == st),
                    Strategy::Directory => assert(strategies@[1] == st),
                    Strategy::Contents => assert(strategies@[2] == st),
                    Strategy::Copy => assert(strategies@[3] == st),
                }
            }
        }
        None
    }
}

impl Default for Strategy {
    fn default() -> (r: Strategy)
        ensures
            r == Strategy::File,
    {
        Strategy::File
    }
}

} // verus!
