use vstd::prelude::*;

verus! {

/// The arguments that a module's binary is started with.
#[derive(Debug)]
pub struct BootArgs {
    cli: Option<Vec<String>>,
    stdin: Option<Vec<u8>>,
}

impl BootArgs {
    /// The command line arguments, if any were set.
    pub closed spec fn cli_args(&self) -> Option<Vec<String>> {
        self.cli
    }

    /// The bytes for the standard input, if any were set.
    pub closed spec fn stdin_bytes(&self) -> Option<Vec<u8>> {
        self.stdin
    }

    /// Boot arguments with nothing set.
    pub fn new() -> (r: BootArgs)
        ensures
            r.cli_args().is_none(),
            r.stdin_bytes().is_none(),
    {
        BootArgs { cli: None, stdin: None }
    }

    /// Sets the command line arguments.
    pub fn cli(self, cli: Vec<String>) -> (r: BootArgs)
        ensures
            r.cli_args() == Some(cli),
            r.stdin_bytes() == self.stdin_bytes(),
    {
        BootArgs { cli: Some(cli), stdin: self.stdin }
    }

    /// Sets the bytes for the standard input.
    pub fn stdin(self, stdin: Vec<u8>) -> (r: BootArgs)
        ensures
            r.stdin_bytes() == Some(stdin),
            r.cli_args() == self.cli_args(),
    {
        BootArgs { cli: self.cli, stdin: Some(stdin) }
    }

    /// The command line arguments, if any were set.
    pub fn args(&self) -> (r: Option<&Vec<String>>)
        ensures
            match r {
                Some(v) => self.cli_args() == Some(*v),
                None => self.cli_args().is_none(),
            },
    {
        self.cli.as_ref()
    }

    /// The bytes for the standard input, if any were set.
    pub fn input(&self) -> (r: Option<&Vec<u8>>)
        ensures
            match r {
                Some(v) => self.stdin_bytes() == Some(*v),
                None => self.stdin_bytes().is_none(),
            },
    {
        self.stdin.as_ref()
    }
}

} // verus!
