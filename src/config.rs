//! The command-line settings of the assembler.
use vstd::prelude::*;

verus! {

/// The settings taken from the command line: the source file's name.
pub struct Config {
    filename: String,
}

impl View for Config {
    type V = Seq<char>;

    closed spec fn view(&self) -> Seq<char> {
        self.filename@
    }
}

impl Config {
    /// Takes the settings from the program's arguments, the first of which
    /// names the program itself; the second is the source file's name.
    pub fn new(args: Vec<String>) -> (r: Result<Config, &'static str>)
        ensures
            match r {
                Ok(c) => args@.len() >= 2 && c@ == args@[1]@,
                Err(_) => args@.len() < 2,
            },
    {
        if args.len() < 2 {
            return Err("Usage is sic_assembler <filename>");
        }
        Ok(Config { filename: args[1].clone() })
    }

    pub fn filename(&self) -> (r: &str)
        ensures
            r@ == self@,
    {
        self.filename.as_str()
    }
}

} // verus!
