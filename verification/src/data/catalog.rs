//! Categories of the curated dataset catalogue.

use vstd::prelude::*;

verus! {

/// Category tag used to group datasets in the interface.
#[derive(Debug, Clone, Copy, PartialEq, Eq, Structural)]
pub enum HfDatasetCategory {
    Code,
    Knowledge,
    Instructions,
}

impl HfDatasetCategory {
    /// The heading shown for the category.
    pub fn label(&self) -> (s: &'static str)
        ensures
            s@ == (match *self {
                HfDatasetCategory::Code => "🖥  Code"@,
                HfDatasetCategory::Knowledge => "📚  Knowledge"@,
                HfDatasetCategory::Instructions => "💬  Instructions"@,
            }),
    {
        match self {
            HfDatasetCategory::Code => "🖥  Code",
            HfDatasetCategory::Knowledge => "📚  Knowledge",
            HfDatasetCategory::Instructions => "💬  Instructions",
        }
    }
}

/// The Python executables tried, in order, when looking for one on the PATH.
pub fn python_candidates() -> (v: Vec<&'static str>)
    ensures
        v@.len() == 5,
        v@[0]@ == "python3"@,
        v@[1]@ == "python"@,
        v@[2]@ == "python3.12"@,
        v@[3]@ == "python3.11"@,
        v@[4]@ == "python3.10"@,
{
    let mut v: Vec<&'static str> = Vec::new();
    v.push("python3");
    v.push("python");
    v.push("python3.12");
    v.push("python3.11");
    v.push("python3.10");
    v
}

/// The Python to use: the first candidate found on the PATH (`found[i]`
/// says whether candidate `i` was), `python3` when none was.
pub fn pick_python(found: &Vec<bool>) -> (s: String)
    requires
        found@.len() == 5,
    ensures
        (exists|i: int| 0 <= i < 5 && found@[i]) ==> ({
            let i = choose|i: int| 0 <= i < 5 && found@[i] && forall|j: int| 0 <= j < i ==> !found@[j];
            s@ == python_candidates_spec()[i]
        }),
        (forall|i: int| 0 <= i < 5 ==> !found@[i]) ==> s@ == "python3"@,
{
    let names = python_candidates();
    let mut i: usize = 0;
    while i < 5
        invariant
            i <= 5,
            found@.len() == 5,
            names@.len() == 5,
            forall|t: int| 0 <= t < 5 ==> (#[trigger] names@[t])@ == python_candidates_spec()[t],
            forall|j: int| 0 <= j < i ==> !found@[j],
        decreases 5 - i,
    {
        if found[i] {
            proof {
                let k = choose|k: int| 0 <= k < 5 && found@[k] && forall|j: int| 0 <= j < k ==> !found@[j];
                if k < i {
                    assert(!found@[k]);
                } else if k > i {
                    assert(!found@[i as int]);
                }
            }
            return names[i].to_owned();
        }
        i = i + 1;
    }
    "python3".to_owned()
}

/// The Python executables tried, in order.
pub open spec fn python_candidates_spec() -> Seq<Seq<char>> {
    seq!["python3"@, "python"@, "python3.12"@, "python3.11"@, "python3.10"@]
}

} // verus!
