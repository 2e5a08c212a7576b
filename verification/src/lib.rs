//! Integer core of a fractal-flame renderer.
//!
//! A flame image is made by the chaos game: a point is moved again and again
//! by one of several randomly chosen plane maps, and every place it visits is
//! counted in a histogram of pixel-sized bins. This crate holds the parts of
//! that process that are decided on integers: which point and which map come
//! next, which bin a landing belongs to, when a configuration is refused, how
//! the finished pixels are laid out, and how the head of a flame file is read.
//! The real-number arithmetic (the maps themselves, colour conversion, tone
//! mapping) is the caller's.

use vstd::prelude::*;

pub mod color;
pub mod flame_2d;
pub mod flame_file;
pub mod pixels;
pub mod render;
pub mod seeds;
pub mod test_pattern;

verus! {

/// What the command line asks for: the flame file to read.
pub struct Config {
    filename: String,
}

impl Config {
    /// The file name as a sequence of characters.
    pub closed spec fn filename_view(&self) -> Seq<char> {
        self.filename@
    }

    /// Reads the arguments of the process: the program's own name, then the
    /// flame file's name. Anything after the second argument is ignored.
    pub fn new(args: &[String]) -> (result: Result<Config, &'static str>)
        ensures
            args@.len() < 2 <==> result.is_err(),
            result matches Err(message) ==> message@ == "Too few arguments"@,
            result matches Ok(config) ==> config.filename_view() == args@[1]@,
    {
        if args.len() < 2 {
            return Err("Too few arguments");
        }
        let filename = args[1].clone();
        Ok(Config { filename })
    }

    /// The name of the flame file.
    pub fn filename(&self) -> (name: &String)
        ensures
            name@ == self.filename_view(),
    {
        &self.filename
    }
}

} // verus!
