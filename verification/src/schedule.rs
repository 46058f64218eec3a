//! Fan-out: one worker for each target of the list.

use vstd::prelude::*;

verus! {

/// A target list that cannot be worked on.
#[derive(Clone, Copy, Debug, PartialEq, Eq, Structural)]
pub enum UsageError {
    /// The list names no target.
    NoTargets,
}

impl UsageError {
    /// The error in words.
    pub fn describe(&self) -> (text: String)
        ensures
            text@ == "no target given: name at least one path to wipe"@,
    {
        "no target given: name at least one path to wipe".to_owned()
    }
}

/// The work of one worker: the target at place `id` of the list.
pub struct Assignment {
    pub id: usize,
    pub target: String,
}

/// Whether `list` gives each target of `targets` to one worker, in the order of the
/// list.
pub open spec fn one_each(list: Seq<Assignment>, targets: Seq<String>) -> bool {
    &&& list.len() == targets.len()
    &&& forall|i: int|
        0 <= i < list.len() ==> (#[trigger] list[i]).id == i && list[i].target@ == targets[i]@
}

/// Shares the targets out, one worker each. An empty list is a usage error, and
/// nothing is shared out.
pub fn fan_out(targets: &Vec<String>) -> (plan: Result<Vec<Assignment>, UsageError>)
    ensures
        targets@.len() == 0 <==> plan == Err::<Vec<Assignment>, UsageError>(UsageError::NoTargets),
        targets@.len() > 0 <==> plan is Ok,
        plan matches Ok(list) ==> one_each(list@, targets@),
{
    if targets.len() == 0 {
        return Err(UsageError::NoTargets);
    }
    let mut list: Vec<Assignment> = Vec::new();
    let mut i: usize = 0;
    while i < targets.len()
        invariant
            i <= targets.len(),
            list@.len() == i,
            forall|j: int|
                0 <= j < i ==> (#[trigger] list@[j]).id == j && list@[j].target@ == targets@[j]@,
        decreases targets.len() - i,
    {
        list.push(Assignment { id: i, target: targets[i].clone() });
        i = i + 1;
    }
    Ok(list)
}

} // verus!
