//! Shell-style expansion of `~` and `$VAR` in a string.
//!
//! The expansion itself is the work of the `shellexpand` crate. This module
//! names its result, so that contracts can speak of it, and gathers what an
//! expansion draws on from outside the description: the home directory and
//! the variables of the running process.

use vstd::prelude::*;
use crate::envs::EnvMap;
use crate::text::opt_text;

verus! {

/// What `shellexpand::full_with_context` returns for `input` when the home
/// directory is `home` and a variable's value is what `vars` binds its name
/// to, an unbound name being reported as unknown: the expanded text, or
/// `None` where the crate reports a failed lookup.
///
/// The crate treats a backslash after the leading tilde as a separator when
/// built for Windows only, so the name stands for the result on the
/// platform that the library is built for.
pub uninterp spec fn full_expansion(
    input: Seq<char>,
    home: Option<Seq<char>>,
    vars: Map<Seq<char>, Seq<char>>,
) -> Option<Seq<char>>;

/// Whether `text` holds nothing to expand: no `$` anywhere and no `~` at
/// its start.
pub open spec fn is_literal(text: Seq<char>) -> bool {
    &&& !text.contains('$')
    &&& text.len() > 0 ==> text[0] != '~'
}

/// Calls `shellexpand::full_with_context` on `input`. The crate is handed
/// `home` as the home directory and `vars.get` as the lookup of variables,
/// which never fails. Trusted: the text that comes back is the one named by
/// `full_expansion`, with a lookup error of the crate shown as `None`; and,
/// as the crate documents, an input with neither a `$` nor a leading `~`
/// comes back as it is.
#[verifier::external_body]
pub(crate) fn full_with_context(input: &str, home: &Option<String>, vars: &EnvMap) -> (out: Option<
    String,
>)
    ensures
        opt_text(out) == full_expansion(input@, opt_text(*home), vars@),
        is_literal(input@) ==> opt_text(out) == Some(input@),
{
    let found = shellexpand::full_with_context(
        input,
        || home.as_ref(),
        |name: &str| Ok::<Option<&String>, ()>(vars.get(name)),
    );
    match found {
        Ok(text) => Some(text.into_owned()),
        Err(_) => None,
    }
}

/// Calls `dirs::home_dir` and turns the path into a string, replacing what
/// is not valid Unicode. Trusted, and nothing is claimed of the result: it
/// depends on the user and the environment of the running process.
#[verifier::external_body]
pub(crate) fn home_dir() -> (home: Option<String>) {
    dirs::home_dir().map(|path| path.to_string_lossy().to_string())
}

/// What an expansion takes from the surroundings of the running process.
#[derive(Debug)]
pub struct Ambient {
    /// The home directory that a leading `~` stands for, if one is known.
    pub home: Option<String>,
    /// The variables of the process environment.
    pub vars: EnvMap,
}

/// The surroundings of an expansion as plain mathematical values.
pub struct AmbientView {
    pub home: Option<Seq<char>>,
    pub vars: Map<Seq<char>, Seq<char>>,
}

impl View for Ambient {
    type V = AmbientView;

    open spec fn view(&self) -> AmbientView {
        AmbientView { home: opt_text(self.home), vars: self.vars@ }
    }
}

impl Ambient {
    /// The surroundings with the given home directory and variables.
    pub fn new(home: Option<String>, vars: EnvMap) -> (ambient: Self)
        ensures
            ambient.home == home,
            ambient.vars == vars,
    {
        Ambient { home, vars }
    }

    /// The surroundings with no home directory and no variables.
    pub fn empty() -> (ambient: Self)
        ensures
            ambient@ == (AmbientView { home: None, vars: Map::empty() }),
    {
        Ambient::new(None, EnvMap::new())
    }

    /// The surroundings with the current user's home directory, as the
    /// operating system reports it at the time of the call, and the given
    /// process variables.
    pub fn with_vars(vars: EnvMap) -> (ambient: Self)
        ensures
            ambient.vars == vars,
    {
        Ambient::new(home_dir(), vars)
    }
}

/// The text that `input` expands to. Text with nothing to expand stays as
/// it is. Other text becomes what `full_expansion` names, or stays as it is
/// where the expansion failed.
pub open spec fn expansion(
    input: Seq<char>,
    home: Option<Seq<char>>,
    vars: Map<Seq<char>, Seq<char>>,
) -> Seq<char> {
    if is_literal(input) {
        input
    } else {
        match full_expansion(input, home, vars) {
            Some(text) => text,
            None => input,
        }
    }
}

/// The expanded text where the expansion came to one, else `input` as it
/// is written.
pub fn expanded_or_input(input: &str, found: Option<String>) -> (out: String)
    ensures
        out@ == match found {
            Some(text) => text@,
            None => input@,
        },
{
    match found {
        Some(text) => text,
        None => input.to_owned(),
    }
}

/// Expands `~` and `$VAR` in `input`, with `home` for the tilde and `vars`
/// for the variables. A variable that `vars` does not bind stays as it is
/// written.
pub fn expand_text(input: &str, home: &Option<String>, vars: &EnvMap) -> (out: String)
    ensures
        out@ == expansion(input@, opt_text(*home), vars@),
{
    expanded_or_input(input, full_with_context(input, home, vars))
}

} // verus!
