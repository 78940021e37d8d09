//! The configuration of one run: which inputs to read and how to number.

use vstd::prelude::*;
use vstd::string::*;

verus! {

/// The texts of a sequence of strings.
pub open spec fn texts(strings: Seq<String>) -> Seq<Seq<char>> {
    Seq::new(strings.len(), |i: int| strings[i]@)
}

/// The name that stands for standard input.
pub open spec fn stdin_name() -> Seq<char> {
    seq!['-']
}

/// Whether `name` stands for standard input and not for a file.
pub fn is_stdin(name: &str) -> (r: bool)
    ensures
        r == (name@ == stdin_name()),
{
    let r = name.unicode_len() == 1 && name.get_char(0) == '-';
    assert(r ==> name@ =~= stdin_name());
    r
}

/// What a `Config` holds, as mathematical values.
pub struct ConfigView {
    /// The names of the inputs, in the order in which they are read.
    pub files: Seq<Seq<char>>,
    /// Whether every line is numbered.
    pub number_lines: bool,
    /// Whether the lines that are not empty are numbered.
    pub number_nonblank_lines: bool,
}

impl ConfigView {
    /// There is at least one input, and at most one way of numbering.
    pub open spec fn wf(self) -> bool {
        &&& self.files.len() >= 1
        &&& !(self.number_lines && self.number_nonblank_lines)
    }
}

/// The inputs to read, in order, and the numbering to apply.
pub struct Config {
    files: Vec<String>,
    number_lines: bool,
    number_nonblank_lines: bool,
}

/// Why no configuration was made.
#[derive(Debug)]
pub enum ConfigError {
    /// Both ways of numbering were asked for at once.
    ConflictingNumbering,
}

/// The names that a configuration holds when `files` were given: the names
/// themselves, or standard input alone where none was given.
pub open spec fn names_or_stdin(files: Seq<Seq<char>>) -> Seq<Seq<char>> {
    if files.len() == 0 {
        seq![stdin_name()]
    } else {
        files
    }
}

impl View for Config {
    type V = ConfigView;

    closed spec fn view(&self) -> ConfigView {
        ConfigView {
            files: texts(self.files@),
            number_lines: self.number_lines,
            number_nonblank_lines: self.number_nonblank_lines,
        }
    }
}

impl Config {
    /// The invariant of a configuration.
    pub open spec fn wf(&self) -> bool {
        self@.wf()
    }

    #[verifier::type_invariant]
    spec fn holds_invariant(&self) -> bool {
        &&& self.files@.len() >= 1
        &&& !(self.number_lines && self.number_nonblank_lines)
    }

    /// Makes a configuration. An empty list of names stands for standard
    /// input alone; asking for both ways of numbering is an error.
    pub fn new(files: Vec<String>, number_lines: bool, number_nonblank_lines: bool) -> (r: Result<
        Config,
        ConfigError,
    >)
        ensures
            r is Err <==> number_lines && number_nonblank_lines,
            r is Ok ==> r->Ok_0.wf() && r->Ok_0@ == (ConfigView {
                files: names_or_stdin(texts(files@)),
                number_lines,
                number_nonblank_lines,
            }),
    {
        if number_lines && number_nonblank_lines {
            return Err(ConfigError::ConflictingNumbering);
        }
        let mut files = files;
        let ghost given = texts(files@);
        if files.len() == 0 {
            proof {
                reveal_strlit("-");
            }
            let dash = String::from_str("-");
            assert(dash@ =~= stdin_name());
            files.push(dash);
            assert(texts(files@) =~= seq![stdin_name()]);
        }
        assert(texts(files@) == names_or_stdin(given));
        Ok(Config { files, number_lines, number_nonblank_lines })
    }

    /// The names of the inputs, in the order in which they are read: there
    /// is at least one.
    pub fn files(&self) -> (r: &Vec<String>)
        ensures
            texts(r@) == self@.files,
            r@.len() >= 1,
            self.wf(),
    {
        proof {
            use_type_invariant(self);
        }
        &self.files
    }

    /// Whether every line is numbered. If so, `number_nonblank_lines` is
    /// false.
    pub fn number_lines(&self) -> (r: bool)
        ensures
            r == self@.number_lines,
            self.wf(),
    {
        proof {
            use_type_invariant(self);
        }
        self.number_lines
    }

    /// Whether the lines that are not empty are numbered. If so,
    /// `number_lines` is false.
    pub fn number_nonblank_lines(&self) -> (r: bool)
        ensures
            r == self@.number_nonblank_lines,
            self.wf(),
    {
        proof {
            use_type_invariant(self);
        }
        self.number_nonblank_lines
    }
}

} // verus!
