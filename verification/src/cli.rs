use vstd::prelude::*;
use vstd::string::StringExecFns;

use crate::error::AppError;

verus! {

/// No input path is given twice.
pub open spec fn no_duplicate_inputs(inputs: Seq<String>) -> bool {
    forall|i: int, j: int| 0 <= i < j < inputs.len() ==> inputs[i]@ != inputs[j]@
}

/// The run configuration: what to hash, with how many workers, and whether
/// to walk into directories.
pub struct Cli {
    pub inputs: Vec<String>,
    pub threads: usize,
    pub recursive: bool,
}

impl Cli {
    /// Reject a misconfigured run before anything starts: a worker count of
    /// zero, or an input path given twice. Checks that need the file system
    /// (existence, file kinds) are the caller's, outside this step.
    pub fn validate(&self) -> (r: Result<(), AppError>)
        ensures
            r is Ok <==> (self.threads >= 1 && no_duplicate_inputs(self.inputs@)),
            r is Err ==> r->Err_0 is InvalidArgument,
    {
        if self.threads == 0 {
            return Err(
                AppError::InvalidArgument(
                    String::from_str("worker thread count must be greater than zero"),
                ),
            );
        }
        let n = self.inputs.len();
        let mut i: usize = 0;
        while i < n
            invariant
                n == self.inputs@.len(),
                i <= n,
                forall|a: int, b: int|
                    0 <= a < b < n && a < i ==> self.inputs@[a]@ != self.inputs@[b]@,
            decreases n - i,
        {
            let mut j: usize = i + 1;
            while j < n
                invariant
                    n == self.inputs@.len(),
                    i < n,
                    i + 1 <= j <= n,
                    forall|a: int, b: int|
                        0 <= a < b < n && a < i ==> self.inputs@[a]@ != self.inputs@[b]@,
                    forall|b: int| i < b < j ==> self.inputs@[i as int]@ != self.inputs@[b]@,
                decreases n - j,
            {
                if self.inputs[i] == self.inputs[j] {
                    return Err(
                        AppError::InvalidArgument(
                            String::from_str("duplicate input path: ").concat(
                                self.inputs[i].as_str(),
                            ),
                        ),
                    );
                }
                j = j + 1;
            }
            i = i + 1;
        }
        Ok(())
    }
}

} // verus!
