//! Options of the compiler that the verifier and its users read.
use vstd::prelude::*;

verus! {

/// Options of the compiler.
#[derive(Clone, Debug)]
pub struct CompilerOptions {
    pub warnings: CompilerWarningOptions,
    /// Used for identifying the AS3 package in a MXML source tree.
    pub source_path: Vec<String>,
}

/// Which warnings the compiler reports.
#[derive(Clone, Debug)]
#[non_exhaustive]
pub struct CompilerWarningOptions {
    pub unused: bool,
}

impl CompilerOptions {
    /// The options assigned to a compilation unit, which every unit has.
    pub fn of(assigned: &Option<CompilerOptions>) -> (r: CompilerOptions)
        requires
            assigned is Some,
        ensures
            r.warnings == assigned.unwrap().warnings,
            r.source_path@ == assigned.unwrap().source_path@,
    {
        let o = assigned.as_ref().unwrap();
        let mut source_path: Vec<String> = Vec::new();
        let mut i: usize = 0;
        while i < o.source_path.len()
            invariant
                i <= o.source_path@.len(),
                source_path@ == o.source_path@.take(i as int),
            decreases o.source_path@.len() - i,
        {
            source_path.push(o.source_path[i].clone());
            proof { assert(o.source_path@.take(i + 1) =~= o.source_path@.take(i as int).push(o.source_path@[i as int])); }
            i = i + 1;
        }
        proof { assert(o.source_path@.take(o.source_path@.len() as int) =~= o.source_path@); }
        CompilerOptions { warnings: CompilerWarningOptions { unused: o.warnings.unused }, source_path }
    }
}

impl Default for CompilerOptions {
    fn default() -> (r: Self)
        ensures
            r.warnings.unused,
            r.source_path@.len() == 0,
    {
        CompilerOptions { warnings: CompilerWarningOptions::default(), source_path: Vec::new() }
    }
}

impl Default for CompilerWarningOptions {
    fn default() -> (r: Self)
        ensures
            r.unused,
    {
        CompilerWarningOptions { unused: true }
    }
}

} // verus!
