use vstd::prelude::*;
use crate::uint::U256;

verus! {

/// What a call of a built-in contract costs, by the size of its input.
pub trait Pricer {
    /// The cost that the pricer gives for an input of `input_size` bytes.
    spec fn cost_of(&self, input_size: usize) -> U256;

    /// The cost of a call with an input of `input_size` bytes.
    fn cost(&self, input_size: usize) -> (r: U256)
        ensures
            r == self.cost_of(input_size),
    ;
}

/// What a built-in contract computes.
pub trait BuiltinImpl {
    /// The output that the contract gives for `input` where `before` stood:
    /// as long as `before`.
    spec fn output_of(&self, input: Seq<u8>, before: Seq<u8>) -> Seq<u8>;

    /// Runs the contract on `input` and writes the result into `output`,
    /// cut to the length of `output`.
    fn execute(&self, input: &[u8], output: &mut [u8])
        ensures
            final(output)@ == self.output_of(input@, old(output)@),
    ;
}

/// A pricer that asks the same cost whatever the input.
#[derive(Clone, Copy, Debug)]
pub struct Flat(pub U256);

impl Pricer for Flat {
    open spec fn cost_of(&self, input_size: usize) -> U256 {
        self.0
    }

    fn cost(&self, _input_size: usize) -> (r: U256) {
        self.0
    }
}

/// The byte at place `i` of the output of `LenXor`: the input byte combined
/// by exclusive or with the low byte of its place, as far as the input goes.
pub open spec fn len_xor_byte(input: Seq<u8>, before: Seq<u8>, i: int) -> u8 {
    if i < input.len() {
        input[i] ^ ((i % 256) as u8)
    } else {
        before[i]
    }
}

/// A contract that combines every byte of its input with the low byte of its place.
#[derive(Clone, Copy, Debug)]
pub struct LenXor;

impl BuiltinImpl for LenXor {
    open spec fn output_of(&self, input: Seq<u8>, before: Seq<u8>) -> Seq<u8> {
        Seq::new(before.len(), |i: int| len_xor_byte(input, before, i))
    }

    fn execute(&self, input: &[u8], output: &mut [u8]) {
        let mut idx: usize = 0;
        while idx < input.len() && idx < output.len()
            invariant
                output@.len() == old(output)@.len(),
                idx <= input@.len(),
                idx <= output@.len(),
                forall|i: int|
                    0 <= i < idx ==> #[trigger] output@[i] == len_xor_byte(
                        input@,
                        old(output)@,
                        i,
                    ),
                forall|i: int| idx <= i < output@.len() ==> #[trigger] output@[i] == old(output)@[i],
            decreases input@.len() - idx,
        {
            let place: u8 = (idx % 256) as u8;
            let value = input[idx] ^ place;
            output[idx] = value;
            idx = idx + 1;
        }
        assert(output@ =~= self.output_of(input@, old(output)@));
    }
}

/// A built-in contract: how it is priced and what it computes.
#[derive(Clone, Copy, Debug)]
pub struct Builtin {
    pub pricer: Flat,
    pub native: LenXor,
}

/// An address: the last 20 bytes of a hash.
#[derive(Clone, Copy, Debug, PartialEq, Eq, Structural)]
pub struct Address {
    pub w0: u32,
    pub w1: u64,
    pub w2: u64,
}

/// The built-in contracts to register at start, each with its address: none.
pub fn produce_builtins() -> (r: Vec<(Address, Builtin)>)
    ensures
        r@.len() == 0,
{
    Vec::new()
}

} // verus!
