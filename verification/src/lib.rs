//! The diffusion (internal) linear layer of the Poseidon2 permutation,
//! specialized to the field of the Mersenne prime `p = 2^31 - 1`, together
//! with the parameter assembly that turns round-constant tables into
//! complete fixed-width permutation instances for widths 16 and 24.

pub mod field;
pub mod diffusion;
pub mod external;
pub mod permutation;
pub mod constants;
