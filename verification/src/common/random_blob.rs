//! A blob of arbitrary bytes, for exercising storage units with
//! non-specific payloads.

use vstd::prelude::*;

verus! {

/// Represents a random collection of bytes.
///
/// This can be used during testing when non-specific data is needed.
pub struct RandomBlob {
    data: Vec<u8>,
}

/// The length a blob gets when none is asked for.
pub const DEFAULT_LENGTH: usize = 128;

impl View for RandomBlob {
    type V = Seq<u8>;

    closed spec fn view(&self) -> Seq<u8> {
        self.data@
    }
}

/// Relies on `rand::random`: draws one byte from the thread-local
/// generator. Nothing can be promised of the value.
#[verifier::external_body]
fn random_byte() -> u8 {
    rand::random()
}

impl RandomBlob {
    /// Create a new random blob with a specified size.
    pub fn new(length: usize) -> (r: Self)
        ensures
            r@.len() == length,
    {
        let mut data: Vec<u8> = Vec::new();
        let mut i: usize = 0;
        while i < length
            invariant
                i <= length,
                data@.len() == i,
            decreases length - i,
        {
            data.push(random_byte());
            i = i + 1;
        }
        RandomBlob { data }
    }

    /// Returns a reference to the internal data.
    pub fn data(&self) -> (r: &Vec<u8>)
        ensures
            r@ == self@,
    {
        &self.data
    }

    /// Returns the size of the [RandomBlob].
    pub fn len(&self) -> (r: usize)
        ensures
            r == self@.len(),
    {
        self.data.len()
    }
}

impl Default for RandomBlob {
    /// Create a [RandomBlob] with the default, non-zero, size.
    fn default() -> (r: Self)
        ensures
            r@.len() == DEFAULT_LENGTH,
    {
        RandomBlob::new(DEFAULT_LENGTH)
    }
}

} // verus!
