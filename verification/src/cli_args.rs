//! The arguments of the command line and what follows from them.

use vstd::prelude::*;
use crate::sprite::Layout;

verus! {

/// How much the program reports.
#[derive(Debug, Clone, Copy, PartialEq, Eq, Structural)]
pub enum LogLevel {
    Warn,
    Info,
    Debug,
    Trace,
}

/// The arguments of the command line.
#[derive(Debug, Clone)]
pub struct CliArgs {
    /// Input directory containing images
    pub input: String,
    /// Output sprite image file (e.g., sprite.png)
    pub output: String,
    /// Output CSS file (e.g., sprite.css)
    pub css: String,
    /// Layout direction: horizontal or vertical
    pub layout: Layout,
    /// Minify the generated CSS output
    pub minify_css: bool,
    /// Verbosity (-v, -vv, -vvv)
    pub verbose: u8,
}

/// The level for a count of `-v` flags: warnings without any, then one step
/// more for each, up to everything.
pub open spec fn level_for(verbose: u8) -> LogLevel {
    if verbose == 0 {
        LogLevel::Warn
    } else if verbose == 1 {
        LogLevel::Info
    } else if verbose == 2 {
        LogLevel::Debug
    } else {
        LogLevel::Trace
    }
}

impl CliArgs {
    /// The arguments for an input directory, with every option at its
    /// default: `sprite.png`, `sprite.css`, vertical layout, minified
    /// stylesheet, no `-v`.
    pub fn new(input: String) -> (r: CliArgs)
        ensures
            r.input == input,
            r.output@ == "sprite.png"@,
            r.css@ == "sprite.css"@,
            r.layout == Layout::Vertical,
            r.minify_css,
            r.verbose == 0,
    {
        CliArgs {
            input,
            output: "sprite.png".to_owned(),
            css: "sprite.css".to_owned(),
            layout: Layout::Vertical,
            minify_css: true,
            verbose: 0,
        }
    }

    /// How much the program reports with these arguments.
    pub fn log_level(&self) -> (r: LogLevel)
        ensures
            r == level_for(self.verbose),
    {
        match self.verbose {
            0 => LogLevel::Warn,
            1 => LogLevel::Info,
            2 => LogLevel::Debug,
            _ => LogLevel::Trace,
        }
    }
}

} // verus!
