//! Pairing the selected files with their new names.

use vstd::prelude::*;

verus! {

/// Pairs `sources[i]` with `targets[i]` for every index that both lists
/// have; what the longer list holds beyond the shorter one is left out.
pub fn rename_plan(sources: Vec<String>, targets: Vec<String>) -> (r: Vec<(String, String)>)
    ensures
        r.len() == if sources.len() <= targets.len() {
            sources.len()
        } else {
            targets.len()
        },
        forall|i: int|
            0 <= i < r.len() ==> (#[trigger] r[i]).0 == sources[i] && r[i].1 == targets[i],
{
    let n = if sources.len() <= targets.len() {
        sources.len()
    } else {
        targets.len()
    };
    let mut out: Vec<(String, String)> = Vec::new();
    let mut i: usize = 0;
    while i < n
        invariant
            n <= sources.len(),
            n <= targets.len(),
            i <= n,
            out.len() == i,
            forall|j: int| 0 <= j < i ==> (#[trigger] out[j]).0 == sources[j] && out[j].1 == targets[j],
        decreases n - i,
    {
        out.push((sources[i].clone(), targets[i].clone()));
        i = i + 1;
    }
    out
}

} // verus!
