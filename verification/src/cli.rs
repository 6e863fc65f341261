//! The run configuration: grid dimensions, initial populations, step count.

use vstd::prelude::*;

verus! {

/// The five scalar configuration values of a run. Argument parsing lives with
/// the caller; the grid itself only depends on these plain numbers.
#[derive(Copy, Clone, Debug)]
pub struct Cli {
    pub width: usize,
    pub height: usize,
    pub num_predators: usize,
    pub num_prey: usize,
    pub num_steps: usize,
}

impl Cli {
    /// The configuration a grid can be built from: positive dimensions, a
    /// grid area that fits the machine word, and initial populations that fit
    /// on the grid. `Board::new` requires exactly this.
    pub open spec fn spec_valid(&self) -> bool {
        &&& self.width > 0
        &&& self.height > 0
        &&& (self.width as int) * (self.height as int) <= usize::MAX
        &&& (self.num_predators as int) + (self.num_prey as int) <= (self.width as int) * (
        self.height as int)
    }

    /// Decides `spec_valid`, so that an unverified caller can test it before
    /// constructing a grid.
    pub fn valid(&self) -> (b: bool)
        ensures
            b == self.spec_valid(),
    {
        if self.width == 0 || self.height == 0 {
            return false;
        }
        match self.width.checked_mul(self.height) {
            Some(total) => match self.num_predators.checked_add(self.num_prey) {
                Some(pop) => pop <= total,
                None => false,
            },
            None => false,
        }
    }
}

} // verus!
