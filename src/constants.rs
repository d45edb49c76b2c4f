use vstd::prelude::*;

verus! {

/// Number of columns of the default universe.
pub const UNIVERSE_WIDTH: usize = 50;

/// Number of rows of the default universe.
pub const UNIVERSE_HEIGHT: usize = 50;

/// Number of columns of the neighbour-counting kernel.
pub const RULE_KERNEL_WIDTH: usize = 3;

/// Number of rows of the neighbour-counting kernel.
pub const RULE_KERNEL_HEIGHT: usize = 3;

/// Width of the halo on the left and on the right of the wrapped plane.
pub const RULE_KERNEL_WIDTH_HALF: usize = RULE_KERNEL_WIDTH / 2;

/// Height of the halo above and below the wrapped plane.
pub const RULE_KERNEL_HEIGHT_HALF: usize = RULE_KERNEL_HEIGHT / 2;

} // verus!
