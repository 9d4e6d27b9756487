//! The command line: the commands the tool accepts and what running them does.

use vstd::prelude::*;

verus! {

/// What can go wrong when running a command. No command fails yet: the library never makes
/// a value of this type, and nothing outside it can.
#[derive(Debug)]
pub struct Error {
    unused: (),
}

/// The parsed command line.
#[derive(Debug)]
pub struct Cli {
    pub subcommand: Commands,
}

impl Cli {
    /// Runs the command given on the command line. No command does anything yet, and none
    /// fails.
    pub fn run(&self) -> (r: Result<(), Error>)
        ensures
            r is Ok,
    {
        Ok(())
    }
}

/// The commands of the tool.
#[derive(Debug)]
pub enum Commands {
    /// Templating operations
    Template(TemplateArgs),
}

/// The arguments of the templating command.
#[derive(Debug)]
pub struct TemplateArgs {
    pub subcommand: TemplateCommands,
}

/// The templating operations.
#[derive(Debug)]
pub enum TemplateCommands {
    /// Render the specified template
    Render(TemplateRenderArgs),
}

/// The arguments of the render operation.
#[derive(Debug)]
pub struct TemplateRenderArgs {
    source: String,
    destination: String,
}

impl View for TemplateRenderArgs {
    /// The template source and the render destination.
    type V = (Seq<char>, Seq<char>);

    closed spec fn view(&self) -> (Seq<char>, Seq<char>) {
        (self.source@, self.destination@)
    }
}

impl TemplateRenderArgs {
    /// The arguments that render the template at `source` (e.g.
    /// `https://github.com/example/template`) into `destination` (e.g. `./`).
    pub fn new(source: String, destination: String) -> (r: TemplateRenderArgs)
        ensures
            r@ == (source@, destination@),
    {
        TemplateRenderArgs { source, destination }
    }

    /// The template source.
    pub fn source(&self) -> (r: &str)
        ensures
            r@ == self@.0,
    {
        self.source.as_str()
    }

    /// The template render destination.
    pub fn destination(&self) -> (r: &str)
        ensures
            r@ == self@.1,
    {
        self.destination.as_str()
    }
}

} // verus!
