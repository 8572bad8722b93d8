//! Display options: the flags as the user gave them, and their canonical form.

use vstd::prelude::*;

verus! {

/// The flags as given on the command line, before aliases are resolved.
#[derive(Clone, Copy, Debug, PartialEq, Eq, Structural)]
pub struct Flags {
    /// `-A`: show ends, non-printing bytes and tabs.
    pub show_all: bool,
    /// `-b`: number the non-blank lines; wins over `number`.
    pub number_nonblank: bool,
    /// `-e`: show ends and non-printing bytes.
    pub e: bool,
    /// `-E`: mark the end of each line with `$`.
    pub show_ends: bool,
    /// `-n`: number every line.
    pub number: bool,
    /// `-s`: keep only the first of a run of blank lines.
    pub squeeze_blank: bool,
    /// `-t`: show non-printing bytes and tabs.
    pub t: bool,
    /// `-T`: show tabs as `^I`.
    pub show_tabs: bool,
    /// `-u`: accepted and ignored.
    pub u: bool,
    /// `-v`: show non-printing bytes in caret and meta notation.
    pub show_non_printing: bool,
}

/// The transformations in force for a run, after alias resolution.
#[derive(Clone, Copy, Debug, PartialEq, Eq, Structural)]
pub struct Options {
    pub number_nonblank: bool,
    pub number: bool,
    pub show_ends: bool,
    pub squeeze_blank: bool,
    pub show_tabs: bool,
    pub show_non_printing: bool,
}

impl Flags {
    /// The canonical options that these flags stand for.
    pub open spec fn resolved(self) -> Options {
        Options {
            number_nonblank: self.number_nonblank,
            number: self.number && !self.number_nonblank,
            show_ends: self.show_ends || self.e || self.show_all,
            squeeze_blank: self.squeeze_blank,
            show_tabs: self.show_tabs || self.t || self.show_all,
            show_non_printing: self.show_non_printing || self.e || self.t || self.show_all,
        }
    }
}

impl Options {
    /// The two numbering modes exclude each other.
    pub open spec fn wf(self) -> bool {
        !(self.number_nonblank && self.number)
    }

    /// Whether any transformation is in force.
    pub open spec fn is_active(self) -> bool {
        self.number || self.number_nonblank || self.show_ends || self.squeeze_blank
            || self.show_tabs || self.show_non_printing
    }

    /// Resolves aliases and precedence: `-e`, `-t` and `-A` switch on the
    /// transformations they stand for, and numbering of non-blank lines
    /// switches plain numbering off.
    pub fn resolve(flags: &Flags) -> (options: Options)
        ensures
            options == flags.resolved(),
            options.wf(),
    {
        let mut options = Options {
            number_nonblank: flags.number_nonblank,
            number: flags.number,
            show_ends: flags.show_ends,
            squeeze_blank: flags.squeeze_blank,
            show_tabs: flags.show_tabs,
            show_non_printing: flags.show_non_printing,
        };
        if flags.e {
            options.show_ends = true;
            options.show_non_printing = true;
        }
        if flags.t {
            options.show_non_printing = true;
            options.show_tabs = true;
        }
        if flags.show_all {
            options.show_ends = true;
            options.show_non_printing = true;
            options.show_tabs = true;
        }
        if options.number_nonblank {
            options.number = false;
        }
        options
    }

    /// Whether lines have to go through the formatter at all.
    pub fn needs_formatting(&self) -> (active: bool)
        ensures
            active == self.is_active(),
    {
        self.number || self.number_nonblank || self.show_ends || self.squeeze_blank
            || self.show_tabs || self.show_non_printing
    }
}

} // verus!
