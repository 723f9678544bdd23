use vstd::prelude::*;
use crate::block::{Header, HeaderSpec};

verus! {

/// A consensus engine, as far as restoration needs it: it judges blocks.
pub trait Engine {
    /// Checks the structure of a block: cheap, and independent of other blocks.
    fn verify_block_basic(&self, header: &Header, block: &[u8]) -> Result<(), String>;

    /// Checks the seal of a header: the proof of work, where the chain has one.
    fn verify_block_seal(&self, header: &Header) -> Result<(), String>;
}

/// What an engine was asked about the structure of a block, and its answer.
pub struct BasicVerdict {
    pub header: HeaderSpec,
    pub block: Seq<u8>,
    pub accepted: bool,
}

/// What an engine was asked about the seal of a header, and its answer.
pub struct SealVerdict {
    pub header: HeaderSpec,
    pub accepted: bool,
}

/// An engine together with the record of what it was asked and what it
/// answered, and of the reasons that it gave where it refused.
pub struct Judged<E> {
    inner: E,
    basic: Ghost<Seq<BasicVerdict>>,
    seal: Ghost<Seq<SealVerdict>>,
    refused: Ghost<Seq<Seq<char>>>,
}

/// The reasons of refusals once an engine has answered with `r`: one more
/// where it refused.
pub open spec fn refused_after(before: Seq<Seq<char>>, r: Result<(), String>) -> Seq<Seq<char>> {
    match r {
        Ok(_) => before,
        Err(reason) => before.push(reason@),
    }
}

impl<E: Engine> Judged<E> {
    /// The answers about the structure of blocks, in the order of the questions.
    pub closed spec fn basic_verdicts(&self) -> Seq<BasicVerdict> {
        self.basic@
    }

    /// The answers about seals, in the order of the questions.
    pub closed spec fn seal_verdicts(&self) -> Seq<SealVerdict> {
        self.seal@
    }

    /// The reasons that the engine gave for its refusals, in their order.
    pub closed spec fn refusals(&self) -> Seq<Seq<char>> {
        self.refused@
    }

    /// The engine itself.
    pub closed spec fn engine(&self) -> E {
        self.inner
    }

    /// Starts the record of an engine: nothing asked yet.
    pub fn new(inner: E) -> (r: Judged<E>)
        ensures
            r.basic_verdicts() == Seq::<BasicVerdict>::empty(),
            r.seal_verdicts() == Seq::<SealVerdict>::empty(),
            r.refusals() == Seq::<Seq<char>>::empty(),
            r.engine() == inner,
    {
        Judged {
            inner: inner,
            basic: Ghost(Seq::empty()),
            seal: Ghost(Seq::empty()),
            refused: Ghost(Seq::empty()),
        }
    }

    /// Ends the record and hands the engine back.
    pub fn into_inner(self) -> (r: E)
        ensures
            r == self.engine(),
    {
        self.inner
    }

    /// The engine, for reading.
    pub fn get_ref(&self) -> (r: &E)
        ensures
            *r == self.engine(),
    {
        &self.inner
    }

    /// Asks the engine about the structure of a block and records the answer.
    pub fn verify_block_basic(&mut self, header: &Header, block: &[u8]) -> (r: Result<(), String>)
        ensures
            final(self).seal_verdicts() == old(self).seal_verdicts(),
            final(self).basic_verdicts() == old(self).basic_verdicts().push(
                BasicVerdict { header: header@, block: block@, accepted: r.is_ok() },
            ),
            final(self).refusals() == refused_after(old(self).refusals(), r),
    {
        let r = self.inner.verify_block_basic(header, block);
        self.refused = Ghost(refused_after(self.refused@, r));
        self.basic = Ghost(
            self.basic@.push(BasicVerdict { header: header@, block: block@, accepted: r.is_ok() }),
        );
        r
    }

    /// Asks the engine about the seal of a header and records the answer.
    pub fn verify_block_seal(&mut self, header: &Header) -> (r: Result<(), String>)
        ensures
            final(self).basic_verdicts() == old(self).basic_verdicts(),
            final(self).seal_verdicts() == old(self).seal_verdicts().push(
                SealVerdict { header: header@, accepted: r.is_ok() },
            ),
            final(self).refusals() == refused_after(old(self).refusals(), r),
    {
        let r = self.inner.verify_block_seal(header);
        self.refused = Ghost(refused_after(self.refused@, r));
        self.seal = Ghost(self.seal@.push(SealVerdict { header: header@, accepted: r.is_ok() }));
        r
    }
}

/// An engine that accepts every block.
#[derive(Clone, Copy, Debug)]
pub struct NullEngine;

impl Engine for NullEngine {
    fn verify_block_basic(&self, header: &Header, block: &[u8]) -> (r: Result<(), String>)
        ensures
            r.is_ok(),
    {
        Ok(())
    }

    fn verify_block_seal(&self, header: &Header) -> (r: Result<(), String>)
        ensures
            r.is_ok(),
    {
        Ok(())
    }
}

} // verus!
