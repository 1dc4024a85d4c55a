//! Chain parameters that change value at configured fork heights.

use vstd::prelude::*;

verus! {

/// One scheduled change: from `height` on, the parameter takes
/// `new_value`.
pub struct FluxChangeValue<T> {
    pub height: u32,
    pub new_value: T,
}

impl<T> FluxChangeValue<T> {
    pub fn new(height: u32, new_value: T) -> (r: Self)
        ensures
            r.height == height,
            r.new_value == new_value,
    {
        FluxChangeValue { height, new_value }
    }
}

/// A parameter with a genesis value and a schedule of changes at strictly
/// increasing heights.
pub struct Flux<T> {
    pub genesis_value: T,
    pub changes: Vec<FluxChangeValue<T>>,
}

impl<T> Flux<T> {
    /// The change schedule is strictly increasing in height.
    pub open spec fn wf(&self) -> bool {
        forall|i: int, j: int|
            0 <= i < j < self.changes@.len() ==> (#[trigger] self.changes@[i]).height < (
            #[trigger] self.changes@[j]).height
    }

    pub fn new(genesis_value: T, changes: Vec<FluxChangeValue<T>>) -> (r: Self)
        requires
            forall|i: int, j: int|
                0 <= i < j < changes@.len() ==> (#[trigger] changes@[i]).height < (
                #[trigger] changes@[j]).height,
        ensures
            r.wf(),
            r.genesis_value == genesis_value,
            r.changes@ == changes@,
    {
        Flux { genesis_value, changes }
    }

    /// The value in force at `height`: the last scheduled change at or
    /// below it, or the genesis value when none has taken effect yet.
    pub fn get_flux_value(&self, height: u32) -> (r: &T)
        requires
            self.wf(),
        ensures
            (exists|i: int|
                0 <= i < self.changes@.len() && (#[trigger] self.changes@[i]).height
                    <= height) ==> exists|i: int|
                {
                    &&& 0 <= i < self.changes@.len()
                    &&& (#[trigger] self.changes@[i]).height <= height
                    &&& forall|j: int|
                        0 <= j < self.changes@.len() && (#[trigger] self.changes@[j]).height
                            <= height ==> j <= i
                    &&& *r == self.changes@[i].new_value
                },
            (forall|i: int|
                0 <= i < self.changes@.len() ==> (#[trigger] self.changes@[i]).height > height)
                ==> *r == self.genesis_value,
    {
        let n: usize = self.changes.len();
        let mut best: Option<usize> = None;
        let mut i: usize = 0;
        while i < n
            invariant
                n == self.changes@.len(),
                i <= n,
                match best {
                    Some(b) => b < i && self.changes@[b as int].height <= height && forall|j: int|
                        0 <= j < i && (#[trigger] self.changes@[j]).height <= height ==> j
                            <= b as int,
                    None => forall|j: int|
                        0 <= j < i ==> (#[trigger] self.changes@[j]).height > height,
                },
            decreases n - i,
        {
            if self.changes[i].height <= height {
                best = Some(i);
            }
            i = i + 1;
        }
        match best {
            Some(b) => &self.changes[b].new_value,
            None => &self.genesis_value,
        }
    }
}

} // verus!
