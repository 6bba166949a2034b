//! The description of a process to spawn.

use vstd::prelude::*;
use vstd::std_specs::cmp::PartialEqSpecImpl;
use crate::envs::{entries_map, EnvMap};
use crate::expand::{expand_text, expansion, Ambient, AmbientView};
use crate::stdio::Stdio;
use crate::text::{
    clone_texts, opt_text, opt_texts, same_opt_text, same_opt_texts, slice_texts, texts,
};

verus! {

/// A description as plain mathematical values.
pub struct CommandView {
    pub program: Seq<char>,
    pub args: Option<Seq<Seq<char>>>,
    pub envs: Option<Map<Seq<char>, Seq<char>>>,
    pub current_dir: Option<Seq<char>>,
    pub stdin: Option<Stdio>,
    pub stdout: Option<Stdio>,
    pub stderr: Option<Stdio>,
    pub expand: bool,
}

/// The bindings of an optional map.
pub open spec fn opt_bindings(envs: Option<EnvMap>) -> Option<Map<Seq<char>, Seq<char>>> {
    match envs {
        Some(map) => Some(map@),
        None => None,
    }
}

/// The names and values of a list of pairs of string slices.
pub open spec fn slice_pairs(vars: Seq<(&str, &str)>) -> Seq<(Seq<char>, Seq<char>)> {
    Seq::new(vars.len(), |i: int| (vars[i].0@, vars[i].1@))
}

/// What to spawn: a program, its arguments, and how its environment,
/// working directory and standard streams differ from those of the parent.
///
/// A field that is absent means that the child inherits the parent's, not
/// that something is missing. Building a description starts no process.
#[derive(Debug)]
pub struct Command {
    /// The program to run: a name looked up in the search path, or a path.
    pub program: String,
    /// The arguments handed to the program.
    pub args: Option<Vec<String>>,
    /// Environment variables set for the child.
    pub envs: Option<EnvMap>,
    /// Working directory of the child.
    pub current_dir: Option<String>,
    /// Where the child's standard input comes from.
    pub stdin: Option<Stdio>,
    /// Where the child's standard output goes.
    pub stdout: Option<Stdio>,
    /// Where the child's standard error goes.
    pub stderr: Option<Stdio>,
    /// Whether `~` and `$VAR` are expanded in the program and the arguments
    /// when they are read.
    pub expand: bool,
}

impl View for Command {
    type V = CommandView;

    open spec fn view(&self) -> CommandView {
        CommandView {
            program: self.program@,
            args: opt_texts(self.args),
            envs: opt_bindings(self.envs),
            current_dir: opt_text(self.current_dir),
            stdin: self.stdin,
            stdout: self.stdout,
            stderr: self.stderr,
            expand: self.expand,
        }
    }
}

impl CommandView {
    /// A description is valid when it names a program.
    pub open spec fn wf(self) -> bool {
        self.program.len() > 0
    }

    /// The description of `program` alone: no arguments, nothing set for
    /// the environment, the working directory or the streams, no expansion.
    pub open spec fn bare(program: Seq<char>) -> CommandView {
        CommandView {
            program,
            args: None,
            envs: None,
            current_dir: None,
            stdin: None,
            stdout: None,
            stderr: None,
            expand: false,
        }
    }

    /// The description with `arg` as a further, last argument.
    pub open spec fn with_arg(self, arg: Seq<char>) -> CommandView {
        CommandView {
            args: Some(
                match self.args {
                    Some(args) => args.push(arg),
                    None => seq![arg],
                },
            ),
            ..self
        }
    }

    /// The description with `more` after the arguments it has. Adding no
    /// argument changes nothing: absent arguments stay absent.
    pub open spec fn with_args(self, more: Seq<Seq<char>>) -> CommandView {
        if more.len() == 0 {
            self
        } else {
            CommandView {
                args: Some(
                    match self.args {
                        Some(args) => args + more,
                        None => more,
                    },
                ),
                ..self
            }
        }
    }

    /// The description with the variable `key` set to `value`.
    pub open spec fn with_env(self, key: Seq<char>, value: Seq<char>) -> CommandView {
        CommandView {
            envs: Some(
                match self.envs {
                    Some(envs) => envs.insert(key, value),
                    None => map![key => value],
                },
            ),
            ..self
        }
    }

    /// The description with each variable of `vars` set in turn, so that of
    /// two pairs with one name the later decides.
    pub open spec fn with_envs(self, vars: Seq<(Seq<char>, Seq<char>)>) -> CommandView
        decreases vars.len(),
    {
        if vars.len() == 0 {
            self
        } else {
            self.with_envs(vars.drop_last()).with_env(vars.last().0, vars.last().1)
        }
    }

    /// The description without the variable `key`. Where no variable was
    /// ever set, none is.
    pub open spec fn without_env(self, key: Seq<char>) -> CommandView {
        CommandView {
            envs: match self.envs {
                Some(envs) => Some(envs.remove(key)),
                None => None,
            },
            ..self
        }
    }

    /// What the description binds variables to: nothing where none was
    /// ever set.
    pub open spec fn bindings(self) -> Map<Seq<char>, Seq<char>> {
        match self.envs {
            Some(envs) => envs,
            None => Map::empty(),
        }
    }

    /// What a copy of the description holds: the same program, arguments,
    /// working directory and expansion flag, and the same bindings of
    /// variables, which are absent where nothing is bound. Streams are held
    /// once, so the copy has none.
    pub open spec fn copied(self) -> CommandView {
        CommandView {
            envs: if self.bindings() == Map::<Seq<char>, Seq<char>>::empty() {
                None
            } else {
                self.envs
            },
            stdin: None,
            stdout: None,
            stderr: None,
            ..self
        }
    }

    /// The variables that an expansion consults: those of the process, with
    /// the description's own bindings taking precedence.
    pub open spec fn vars(self, ambient: AmbientView) -> Map<Seq<char>, Seq<char>> {
        match self.envs {
            Some(envs) => ambient.vars.union_prefer_right(envs),
            None => ambient.vars,
        }
    }

    /// What `input` expands to for this description.
    pub open spec fn expanded(self, input: Seq<char>, ambient: AmbientView) -> Seq<char> {
        expansion(input, ambient.home, self.vars(ambient))
    }

    /// What `text` is read as: expanded if the description asks for
    /// expansion, else as written.
    pub open spec fn resolved(self, text: Seq<char>, ambient: AmbientView) -> Seq<char> {
        if self.expand {
            self.expanded(text, ambient)
        } else {
            text
        }
    }

    /// The program as a runtime reads it.
    pub open spec fn resolved_program(self, ambient: AmbientView) -> Seq<char> {
        self.resolved(self.program, ambient)
    }

    /// The arguments as a runtime reads them.
    pub open spec fn resolved_args(self, ambient: AmbientView) -> Option<Seq<Seq<char>>> {
        match self.args {
            Some(args) => Some(Seq::new(args.len(), |i: int| self.resolved(args[i], ambient))),
            None => None,
        }
    }

    /// Whether two descriptions count as equal: same program, arguments,
    /// working directory and expansion flag. The environment and the
    /// streams do not count.
    pub open spec fn same_as(self, other: CommandView) -> bool {
        &&& self.program == other.program
        &&& self.args == other.args
        &&& self.current_dir == other.current_dir
        &&& self.expand == other.expand
    }

    /// A copy is valid where the description is, binds the same variables,
    /// counts as equal to it, and is read by a runtime as the description
    /// itself is: every text expands alike for the two.
    pub proof fn lemma_copied_alike(self)
        ensures
            self.copied().wf() == self.wf(),
            self.copied().bindings() == self.bindings(),
            self.copied().same_as(self),
            forall|ambient: AmbientView| #[trigger]
                self.copied().vars(ambient) == self.vars(ambient),
            forall|input: Seq<char>, ambient: AmbientView| #[trigger]
                self.copied().expanded(input, ambient) == self.expanded(input, ambient),
            forall|ambient: AmbientView| #[trigger]
                self.copied().resolved_program(ambient) == self.resolved_program(ambient),
            forall|ambient: AmbientView| #[trigger]
                self.copied().resolved_args(ambient) == self.resolved_args(ambient),
    {
        assert forall|ambient: AmbientView| #[trigger]
            self.copied().vars(ambient) == self.vars(ambient) by {
            assert(ambient.vars.union_prefer_right(Map::empty()) =~= ambient.vars);
        }
        assert forall|ambient: AmbientView| #[trigger]
            self.copied().resolved_args(ambient) == self.resolved_args(ambient) by {
            if self.args is Some {
                assert(self.copied().resolved_args(ambient)->0 =~= self.resolved_args(
                    ambient,
                )->0);
            }
        }
    }
}

/// One change to a description: what a builder does with its arguments, or
/// the setting of the expansion flag.
pub enum Edit {
    Arg(Seq<char>),
    Args(Seq<Seq<char>>),
    Env(Seq<char>, Seq<char>),
    Envs(Seq<(Seq<char>, Seq<char>)>),
    EnvRemove(Seq<char>),
    EnvClear,
    CurrentDir(Seq<char>),
    Stdin(Stdio),
    Stdout(Stdio),
    Stderr(Stdio),
    Expand(bool),
}

impl CommandView {
    /// The description after one change, as the builder of that name
    /// leaves it.
    pub open spec fn edited(self, edit: Edit) -> CommandView {
        match edit {
            Edit::Arg(arg) => self.with_arg(arg),
            Edit::Args(more) => self.with_args(more),
            Edit::Env(key, value) => self.with_env(key, value),
            Edit::Envs(vars) => self.with_envs(vars),
            Edit::EnvRemove(key) => self.without_env(key),
            Edit::EnvClear => CommandView { envs: None, ..self },
            Edit::CurrentDir(dir) => CommandView { current_dir: Some(dir), ..self },
            Edit::Stdin(cfg) => CommandView { stdin: Some(cfg), ..self },
            Edit::Stdout(cfg) => CommandView { stdout: Some(cfg), ..self },
            Edit::Stderr(cfg) => CommandView { stderr: Some(cfg), ..self },
            Edit::Expand(expand) => CommandView { expand, ..self },
        }
    }

    /// The description after each of `edits` in turn.
    pub open spec fn edited_all(self, edits: Seq<Edit>) -> CommandView
        decreases edits.len(),
    {
        if edits.len() == 0 {
            self
        } else {
            self.edited_all(edits.drop_last()).edited(edits.last())
        }
    }
}

/// Two descriptions after each of `edits` in turn, an edit being a change
/// and whether it is made to the second description.
pub open spec fn both_edited(
    first: CommandView,
    second: CommandView,
    edits: Seq<(bool, Edit)>,
) -> (CommandView, CommandView)
    decreases edits.len(),
{
    if edits.len() == 0 {
        (first, second)
    } else {
        let before = both_edited(first, second, edits.drop_last());
        if edits.last().0 {
            (before.0, before.1.edited(edits.last().1))
        } else {
            (before.0.edited(edits.last().1), before.1)
        }
    }
}

/// Those of `edits` that are made to one of two descriptions: to the second
/// if `to_second`, else to the first.
pub open spec fn edits_to(edits: Seq<(bool, Edit)>, to_second: bool) -> Seq<Edit>
    decreases edits.len(),
{
    if edits.len() == 0 {
        Seq::empty()
    } else if edits.last().0 == to_second {
        edits_to(edits.drop_last(), to_second).push(edits.last().1)
    } else {
        edits_to(edits.drop_last(), to_second)
    }
}

/// A description and its copy share nothing. However changes to the two
/// are interleaved, each ends as its own changes alone would leave it; so
/// where every change is made to the copy, the description is what it was
/// before the copy was made.
pub proof fn lemma_copy_is_edited_alone(source: CommandView, edits: Seq<(bool, Edit)>)
    ensures
        both_edited(source, source.copied(), edits) == (
            source.edited_all(edits_to(edits, false)),
            source.copied().edited_all(edits_to(edits, true)),
        ),
        (forall|i: int| 0 <= i < edits.len() ==> (#[trigger] edits[i]).0) ==> both_edited(
            source,
            source.copied(),
            edits,
        ).0 == source,
    decreases edits.len(),
{
    if edits.len() > 0 {
        let init = edits.drop_last();
        lemma_copy_is_edited_alone(source, init);
        let to_second = edits.last().0;
        let mine = edits_to(edits, to_second);
        assert(mine.drop_last() == edits_to(init, to_second));
        assert(mine.last() == edits.last().1);
        if forall|i: int| 0 <= i < edits.len() ==> (#[trigger] edits[i]).0 {
            assert forall|i: int| 0 <= i < init.len() implies (#[trigger] init[i]).0 by {
                assert(edits[i].0);
            }
            assert(edits[edits.len() - 1].0);
        }
    }
}

impl Command {
    /// A description is valid when it names a program.
    pub open spec fn wf(&self) -> bool {
        self@.wf()
    }

    /// A description of `program` run with no arguments, in the parent's
    /// environment and working directory, on the parent's streams.
    pub fn new(program: &str) -> (command: Self)
        requires
            program@.len() > 0,
        ensures
            command.wf(),
            command@ == CommandView::bare(program@),
    {
        Command {
            program: program.to_owned(),
            args: None,
            envs: None,
            current_dir: None,
            stdin: None,
            stdout: None,
            stderr: None,
            expand: false,
        }
    }

    /// The variables that an expansion for this description consults.
    pub fn variables(&self, ambient: &Ambient) -> (vars: EnvMap)
        ensures
            vars@ == self@.vars(ambient@),
    {
        let mut vars = ambient.vars.clone();
        if let Some(own) = &self.envs {
            let list = own.entries();
            let mut i: usize = 0;
            proof {
                let none = entries_map(list@.take(0));
                assert(ambient@.vars.union_prefer_right(none) =~= ambient@.vars);
            }
            while i < list.len()
                invariant
                    i <= list@.len(),
                    vars@ == ambient@.vars.union_prefer_right(entries_map(list@.take(i as int))),
                decreases list@.len() - i,
            {
                let key = list[i].0.clone();
                let value = list[i].1.clone();
                proof {
                    let done = list@.take(i as int);
                    let next = list@.take(i + 1);
                    assert(next.drop_last() =~= done);
                    assert(next.last() == list@[i as int]);
                    assert(ambient@.vars.union_prefer_right(entries_map(done)).insert(key@, value@)
                        =~= ambient@.vars.union_prefer_right(entries_map(next)));
                }
                vars.insert(key, value);
                i += 1;
            }
            proof {
                assert(list@.take(list@.len() as int) =~= list@);
            }
        }
        vars
    }

    /// Expands `~` and `$VAR` in `input`. A variable is looked up among the
    /// description's own first, then among those of the process; one that
    /// neither binds stays as it is written.
    pub fn expand(&self, input: &str, ambient: &Ambient) -> (out: String)
        ensures
            out@ == self@.expanded(input@, ambient@),
    {
        let vars = self.variables(ambient);
        expand_text(input, &ambient.home, &vars)
    }

    /// The program as a runtime reads it: expanded if the description asks
    /// for expansion, else as written.
    pub fn get_program(&self, ambient: &Ambient) -> (program: String)
        ensures
            program@ == self@.resolved_program(ambient@),
    {
        if self.expand {
            self.expand(self.program.as_str(), ambient)
        } else {
            self.program.clone()
        }
    }

    /// Adds an argument after those already given.
    pub fn arg(&mut self, arg: &str) -> (this: &mut Self)
        ensures
            this@ == old(self)@.with_arg(arg@),
            *final(self) == *final(this),
    {
        match &mut self.args {
            Some(args) => {
                args.push(arg.to_owned());
            },
            None => {
                let mut args: Vec<String> = Vec::new();
                args.push(arg.to_owned());
                self.args = Some(args);
            },
        }
        proof {
            assert(self@.args->0 =~= old(self)@.with_arg(arg@).args->0);
        }
        self
    }

    /// Adds each of `args`, in order, after the arguments already given.
    pub fn args(&mut self, args: &[&str]) -> (this: &mut Self)
        ensures
            this@ == old(self)@.with_args(slice_texts(args@)),
            *final(self) == *final(this),
    {
        let mut i: usize = 0;
        proof {
            assert(slice_texts(args@).take(0).len() == 0);
        }
        while i < args.len()
            invariant
                i <= args@.len(),
                self@ == old(self)@.with_args(slice_texts(args@).take(i as int)),
            decreases args@.len() - i,
        {
            let ghost before = self@;
            self.arg(args[i]);
            proof {
                let done = slice_texts(args@).take(i as int);
                let next = slice_texts(args@).take(i + 1);
                assert(next =~= done.push(args@[i as int]@));
                assert(self@.args->0 =~= old(self)@.with_args(next).args->0);
            }
            i += 1;
        }
        proof {
            assert(slice_texts(args@).take(args@.len() as int) =~= slice_texts(args@));
        }
        self
    }

    /// The arguments as a runtime reads them: each expanded if the
    /// description asks for expansion, else as written.
    pub fn get_args(&self, ambient: &Ambient) -> (args: Option<Vec<String>>)
        ensures
            opt_texts(args) == self@.resolved_args(ambient@),
    {
        match &self.args {
            None => None,
            Some(list) => {
                if !self.expand {
                    let copy = clone_texts(list);
                    proof {
                        assert(texts(copy@) =~= self@.resolved_args(ambient@)->0);
                    }
                    Some(copy)
                } else {
                    let vars = self.variables(ambient);
                    let mut out: Vec<String> = Vec::new();
                    let mut i: usize = 0;
                    while i < list.len()
                        invariant
                            i <= list@.len(),
                            out@.len() == i,
                            vars@ == self@.vars(ambient@),
                            forall|j: int|
                                0 <= j < i ==> (#[trigger] out@[j])@ == self@.expanded(
                                    list@[j]@,
                                    ambient@,
                                ),
                        decreases list@.len() - i,
                    {
                        out.push(expand_text(list[i].as_str(), &ambient.home, &vars));
                        i += 1;
                    }
                    proof {
                        assert(texts(out@) =~= self@.resolved_args(ambient@)->0);
                    }
                    Some(out)
                }
            },
        }
    }

    /// Sets the variable `key` to `value` for the child, whether or not it
    /// was set before.
    pub fn env(&mut self, key: &str, value: &str) -> (this: &mut Self)
        ensures
            this@ == old(self)@.with_env(key@, value@),
            *final(self) == *final(this),
    {
        match &mut self.envs {
            Some(envs) => {
                envs.insert(key.to_owned(), value.to_owned());
            },
            None => {
                let mut envs = EnvMap::new();
                envs.insert(key.to_owned(), value.to_owned());
                self.envs = Some(envs);
            },
        }
        proof {
            assert(self@.envs->0 =~= old(self)@.with_env(key@, value@).envs->0);
        }
        self
    }

    /// Sets each variable of `vars` in turn.
    pub fn envs(&mut self, vars: &[(&str, &str)]) -> (this: &mut Self)
        ensures
            this@ == old(self)@.with_envs(slice_pairs(vars@)),
            *final(self) == *final(this),
    {
        let mut i: usize = 0;
        while i < vars.len()
            invariant
                i <= vars@.len(),
                self@ == old(self)@.with_envs(slice_pairs(vars@).take(i as int)),
            decreases vars@.len() - i,
        {
            self.env(vars[i].0, vars[i].1);
            proof {
                let done = slice_pairs(vars@).take(i as int);
                let next = slice_pairs(vars@).take(i + 1);
                assert(next.drop_last() =~= done);
                assert(next.last() == (vars@[i as int].0@, vars@[i as int].1@));
            }
            i += 1;
        }
        proof {
            assert(slice_pairs(vars@).take(vars@.len() as int) =~= slice_pairs(vars@));
        }
        self
    }

    /// Takes the variable `key` out of those set for the child.
    pub fn env_remove(&mut self, key: &str) -> (this: &mut Self)
        ensures
            this@ == old(self)@.without_env(key@),
            *final(self) == *final(this),
    {
        match &mut self.envs {
            Some(envs) => {
                envs.remove(key);
            },
            None => {},
        }
        self
    }

    /// Forgets every variable set for the child.
    pub fn env_clear(&mut self) -> (this: &mut Self)
        ensures
            this@ == (CommandView { envs: None, ..old(self)@ }),
            *final(self) == *final(this),
    {
        self.envs = None;
        self
    }

    /// Sets the working directory of the child.
    pub fn current_dir(&mut self, dir: &str) -> (this: &mut Self)
        ensures
            this@ == (CommandView { current_dir: Some(dir@), ..old(self)@ }),
            *final(self) == *final(this),
    {
        self.current_dir = Some(dir.to_owned());
        self
    }

    /// Sets where the child's standard input comes from.
    pub fn stdin(&mut self, cfg: Stdio) -> (this: &mut Self)
        ensures
            this@ == (CommandView { stdin: Some(cfg), ..old(self)@ }),
            *final(self) == *final(this),
    {
        self.stdin = Some(cfg);
        self
    }

    /// Sets where the child's standard output goes.
    pub fn stdout(&mut self, cfg: Stdio) -> (this: &mut Self)
        ensures
            this@ == (CommandView { stdout: Some(cfg), ..old(self)@ }),
            *final(self) == *final(this),
    {
        self.stdout = Some(cfg);
        self
    }

    /// Sets where the child's standard error goes.
    pub fn stderr(&mut self, cfg: Stdio) -> (this: &mut Self)
        ensures
            this@ == (CommandView { stderr: Some(cfg), ..old(self)@ }),
            *final(self) == *final(this),
    {
        self.stderr = Some(cfg);
        self
    }
}

impl Clone for Command {
    /// A description with the same program, arguments, working directory
    /// and expansion flag, and with each variable set anew, so that where
    /// nothing is bound the copy has no variables at all. Streams are held
    /// once and stay where they were set: the copy has none.
    fn clone(&self) -> (copy: Self)
        ensures
            copy@ == self@.copied(),
    {
        Command {
            program: self.program.clone(),
            args: match &self.args {
                Some(list) => Some(clone_texts(list)),
                None => None,
            },
            envs: match &self.envs {
                Some(envs) => if envs.is_empty() {
                    None
                } else {
                    Some(envs.clone())
                },
                None => None,
            },
            current_dir: match &self.current_dir {
                Some(dir) => Some(dir.clone()),
                None => None,
            },
            stdin: None,
            stdout: None,
            stderr: None,
            expand: self.expand,
        }
    }
}

impl PartialEq for Command {
    /// Whether two descriptions have the same program, arguments, working
    /// directory and expansion flag.
    fn eq(&self, other: &Self) -> (same: bool) {
        self.program == other.program && same_opt_texts(&self.args, &other.args) && same_opt_text(
            &self.current_dir,
            &other.current_dir,
        ) && self.expand == other.expand
    }
}

impl PartialEqSpecImpl for Command {
    open spec fn obeys_eq_spec() -> bool {
        true
    }

    open spec fn eq_spec(&self, other: &Self) -> bool {
        self@.same_as(other@)
    }
}

impl Eq for Command {

}

} // verus!
