//! The root context: where the compatibility environment's root directory
//! sits on the native filesystem, and whether the process runs inside that
//! environment at all.

use vstd::prelude::*;

verus! {

/// An immutable value holding the native path to the compatibility root
/// and a flag stating whether the process is running inside that
/// environment. When the flag is false, path resolution is a passthrough:
/// no root is defined and no translation is attempted.
pub struct CygRoot {
    pub native_path_to_root: String,
    pub running_under_cygwin: bool,
}

impl CygRoot {
    /// The native root path, as character text.
    pub open spec fn spec_root(&self) -> Seq<char> {
        self.native_path_to_root@
    }

    /// Whether the compatibility environment is active.
    pub open spec fn spec_active(&self) -> bool {
        self.running_under_cygwin
    }

    /// The context for a host without the compatibility environment:
    /// inactive, with an empty root, so that every resolution call is a
    /// passthrough. A caller that has located a real root constructs the
    /// context with [`CygRoot::from`] instead.
    pub fn new() -> (r: CygRoot)
        ensures
            !r.spec_active(),
            r.spec_root() == Seq::<char>::empty(),
    {
        CygRoot { native_path_to_root: String::new(), running_under_cygwin: false }
    }

    /// Constructs an arbitrary root context.
    pub fn from(native_path_to_root: String, under_cygwin: bool) -> (r: CygRoot)
        ensures
            r.spec_root() == native_path_to_root@,
            r.spec_active() == under_cygwin,
    {
        CygRoot { native_path_to_root, running_under_cygwin: under_cygwin }
    }

    /// Returns the native path to the compatibility root.
    pub fn root_path(&self) -> (r: &str)
        ensures
            r@ == self.spec_root(),
    {
        self.native_path_to_root.as_str()
    }

    /// Whether running inside the compatibility environment.
    pub fn running_under_cygwin(&self) -> (r: bool)
        ensures
            r == self.spec_active(),
    {
        self.running_under_cygwin
    }
}

} // verus!
