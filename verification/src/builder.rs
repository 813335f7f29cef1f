use vstd::prelude::*;

verus! {

/// How `forge build` compiles a target: release or debug, which
/// intermediate files to keep, and where to put the executable (a path;
/// `None` for the default place).
#[derive(Debug, Clone)]
pub struct BuildOptions {
    pub release: bool,
    pub emit_llvm: bool,
    pub emit_asm: bool,
    pub custom_out: Option<String>,
}

impl Default for BuildOptions {
    /// A debug build that keeps no intermediate files and writes to the
    /// default place.
    fn default() -> (r: Self)
        ensures
            !r.release,
            !r.emit_llvm,
            !r.emit_asm,
            r.custom_out is None,
    {
        BuildOptions { release: false, emit_llvm: false, emit_asm: false, custom_out: None }
    }
}

} // verus!
