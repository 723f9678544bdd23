use vstd::prelude::*;

verus! {

/// The sum of two counters, starting again from zero where it overflows.
pub open spec fn wrapped(a: usize, b: usize) -> usize {
    if a + b > usize::MAX {
        (a + b - usize::MAX - 1) as usize
    } else {
        (a + b) as usize
    }
}

/// Adds two counters, starting again from zero where the sum overflows.
pub fn wrapping_sum(a: usize, b: usize) -> (r: usize)
    ensures
        r == wrapped(a, b),
{
    if b > usize::MAX - a {
        b - (usize::MAX - a) - 1
    } else {
        a + b
    }
}

/// How far the making of a snapshot has come.
#[derive(Debug)]
pub struct Progress {
    accounts: usize,
    blocks: usize,
    size: usize,
    done: bool,
}

/// The four values of a progress indicator.
pub struct ProgressSpec {
    pub accounts: usize,
    pub blocks: usize,
    pub size: usize,
    pub done: bool,
}

impl View for Progress {
    type V = ProgressSpec;

    closed spec fn view(&self) -> ProgressSpec {
        ProgressSpec {
            accounts: self.accounts,
            blocks: self.blocks,
            size: self.size,
            done: self.done,
        }
    }
}

/// The indicator at the start: nothing counted, not done.
pub open spec fn fresh() -> ProgressSpec {
    ProgressSpec { accounts: 0, blocks: 0, size: 0, done: false }
}

/// The indicator after a chunk of `blocks` blocks and `bytes` bytes was written.
pub open spec fn blocks_noted(p: ProgressSpec, blocks: usize, bytes: usize) -> ProgressSpec {
    ProgressSpec { blocks: wrapped(p.blocks, blocks), size: wrapped(p.size, bytes), ..p }
}

/// The indicator after a chunk of `accounts` accounts and `bytes` bytes was written.
pub open spec fn accounts_noted(p: ProgressSpec, accounts: usize, bytes: usize) -> ProgressSpec {
    ProgressSpec { accounts: wrapped(p.accounts, accounts), size: wrapped(p.size, bytes), ..p }
}

impl Default for Progress {
    fn default() -> (r: Progress)
        ensures
            r@ == fresh(),
    {
        Progress { accounts: 0, blocks: 0, size: 0, done: false }
    }
}

impl Progress {
    /// An indicator at the start.
    pub fn new() -> (r: Progress)
        ensures
            r@ == fresh(),
    {
        Progress { accounts: 0, blocks: 0, size: 0, done: false }
    }

    /// Sets the indicator back to the start.
    pub fn reset(&mut self)
        ensures
            final(self)@ == fresh(),
    {
        self.accounts = 0;
        self.blocks = 0;
        self.size = 0;
        self.done = false;
    }

    /// The number of accounts written so far.
    pub fn accounts(&self) -> (r: usize)
        ensures
            r == self@.accounts,
    {
        self.accounts
    }

    /// The number of blocks written so far.
    pub fn blocks(&self) -> (r: usize)
        ensures
            r == self@.blocks,
    {
        self.blocks
    }

    /// The number of bytes written so far.
    pub fn size(&self) -> (r: usize)
        ensures
            r == self@.size,
    {
        self.size
    }

    /// Whether the snapshot is complete.
    pub fn done(&self) -> (r: bool)
        ensures
            r == self@.done,
    {
        self.done
    }

    /// Counts a chunk of blocks that was written.
    pub fn note_blocks(&mut self, blocks: usize, bytes: usize)
        ensures
            final(self)@ == blocks_noted(old(self)@, blocks, bytes),
    {
        self.size = wrapping_sum(self.size, bytes);
        self.blocks = wrapping_sum(self.blocks, blocks);
    }

    /// Counts a chunk of accounts that was written.
    pub fn note_accounts(&mut self, accounts: usize, bytes: usize)
        ensures
            final(self)@ == accounts_noted(old(self)@, accounts, bytes),
    {
        self.accounts = wrapping_sum(self.accounts, accounts);
        self.size = wrapping_sum(self.size, bytes);
    }

    /// Marks the snapshot as complete.
    pub fn finish(&mut self)
        ensures
            final(self)@ == (ProgressSpec { done: true, ..old(self)@ }),
    {
        self.done = true;
    }
}

} // verus!
