//! The process invocation for a new session: program, arguments, working
//! directory and the environment overlay every session receives.

use vstd::prelude::*;
use vstd::string::StringExecFns;

verus! {

/// What to run in a new pseudo-terminal. The host hands these values, one for
/// one, to the operating system's process launcher. The overlay is laid over
/// the environment the host itself runs in.
#[derive(Debug, PartialEq, Eq)]
pub struct Invocation {
    /// The program to run.
    pub program: String,
    /// Its arguments, without the program's own name.
    pub args: Vec<String>,
    /// The directory the process starts in.
    pub cwd: String,
    /// Environment variables set for the process, as name and value.
    pub env: Vec<(String, String)>,
}

/// The mathematical content of an [`Invocation`].
pub struct InvocationView {
    pub program: Seq<char>,
    pub args: Seq<Seq<char>>,
    pub cwd: Seq<char>,
    pub env: Seq<(Seq<char>, Seq<char>)>,
}

impl View for Invocation {
    type V = InvocationView;

    open spec fn view(&self) -> InvocationView {
        InvocationView {
            program: self.program@,
            args: self.args.deep_view(),
            cwd: self.cwd@,
            env: self.env.deep_view(),
        }
    }
}

/// The environment overlay of every session: a terminal type with 256
/// colors, true-color support, and a UTF-8 locale.
pub open spec fn terminal_environment() -> Seq<(Seq<char>, Seq<char>)> {
    seq![
        ("TERM"@, "xterm-256color"@),
        ("COLORTERM"@, "truecolor"@),
        ("LANG"@, "en_US.UTF-8"@),
    ]
}

/// The invocation of `command` with `args` in `working_directory`, under the
/// terminal environment.
pub open spec fn spec_invocation(
    working_directory: Seq<char>,
    command: Seq<char>,
    args: Seq<Seq<char>>,
) -> InvocationView {
    InvocationView {
        program: command,
        args,
        cwd: working_directory,
        env: terminal_environment(),
    }
}

/// One variable of the overlay.
fn variable(name: &str, value: &str) -> (pair: (String, String))
    ensures
        pair.0@ == name@,
        pair.1@ == value@,
{
    (String::from_str(name), String::from_str(value))
}

/// Copies a list of strings.
fn copy_texts(texts: &[String]) -> (copy: Vec<String>)
    ensures
        copy.deep_view() == texts.deep_view(),
{
    let mut copy: Vec<String> = Vec::new();
    let mut i: usize = 0;
    while i < texts.len()
        invariant
            i <= texts@.len(),
            copy@.len() == i,
            forall|j: int| 0 <= j < i ==> copy@[j]@ == texts@[j]@,
        decreases texts@.len() - i,
    {
        copy.push(texts[i].clone());
        i += 1;
    }
    assert(copy.deep_view() =~= texts.deep_view());
    copy
}

impl Invocation {
    /// Builds the invocation of `command` with `args` in
    /// `working_directory`. The terminal environment is applied whatever the
    /// arguments are.
    pub fn new(working_directory: &str, command: &str, args: &[String]) -> (invocation: Invocation)
        ensures
            invocation@ == spec_invocation(working_directory@, command@, args.deep_view()),
    {
        let mut env: Vec<(String, String)> = Vec::new();
        env.push(variable("TERM", "xterm-256color"));
        env.push(variable("COLORTERM", "truecolor"));
        env.push(variable("LANG", "en_US.UTF-8"));
        assert(env.deep_view() =~= terminal_environment());
        Invocation {
            program: String::from_str(command),
            args: copy_texts(args),
            cwd: String::from_str(working_directory),
            env,
        }
    }
}

} // verus!
