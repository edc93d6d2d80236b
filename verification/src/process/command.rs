//! Command lines as plain values.

use vstd::prelude::*;
use crate::text::{opt_view, views};

verus! {

/// A program to start, with its arguments, the environment variables that are
/// set on top of the inherited ones, and its working directory.
#[derive(Debug)]
pub struct Cmd {
    pub program: String,
    pub args: Vec<String>,
    pub envs: Vec<(String, String)>,
    pub cwd: Option<String>,
}

/// A command as plain texts.
#[verifier::ext_equal]
pub struct CmdView {
    pub program: Seq<char>,
    pub args: Seq<Seq<char>>,
    pub envs: Seq<(Seq<char>, Seq<char>)>,
    pub cwd: Option<Seq<char>>,
}

/// The contents of a list of pairs of strings.
pub open spec fn pair_views(list: Seq<(String, String)>) -> Seq<(Seq<char>, Seq<char>)> {
    list.map_values(|p: (String, String)| (p.0@, p.1@))
}

impl View for Cmd {
    type V = CmdView;

    open spec fn view(&self) -> CmdView {
        CmdView {
            program: self.program@,
            args: views(self.args@),
            envs: pair_views(self.envs@),
            cwd: opt_view(self.cwd),
        }
    }
}

/// A command with nothing but a program and its arguments.
pub open spec fn plain(program: Seq<char>, args: Seq<Seq<char>>) -> CmdView {
    CmdView { program, args, envs: seq![], cwd: None }
}

impl Cmd {
    /// A command without arguments.
    pub fn new(program: &str) -> (r: Cmd)
        ensures
            r@ == plain(program@, seq![]),
    {
        let r = Cmd {
            program: program.to_owned(),
            args: Vec::new(),
            envs: Vec::new(),
            cwd: None,
        };
        assert(r@ =~= plain(program@, seq![]));
        r
    }

    /// Adds one argument.
    pub fn arg(&mut self, text: &str)
        ensures
            final(self)@ == (CmdView { args: old(self)@.args.push(text@), ..old(self)@ }),
    {
        self.args.push(text.to_owned());
        assert(self@.args =~= old(self)@.args.push(text@));
    }

    /// Adds arguments in their order.
    pub fn args(&mut self, list: &Vec<String>)
        ensures
            final(self)@ == (CmdView { args: old(self)@.args + views(list@), ..old(self)@ }),
    {
        let mut i: usize = 0;
        assert(self@.args =~= old(self)@.args + views(list@).take(0));
        while i < list.len()
            invariant
                0 <= i <= list@.len(),
                self@ == (CmdView {
                    args: old(self)@.args + views(list@).take(i as int),
                    ..old(self)@
                }),
            decreases list@.len() - i,
        {
            self.arg(list[i].as_str());
            i += 1;
            assert(self@.args =~= old(self)@.args + views(list@).take(i as int));
        }
        assert(views(list@).take(i as int) =~= views(list@));
    }

    /// Sets one environment variable.
    pub fn env(&mut self, key: &str, value: &str)
        ensures
            final(self)@ == (CmdView { envs: old(self)@.envs.push((key@, value@)), ..old(self)@ }),
    {
        self.envs.push((key.to_owned(), value.to_owned()));
        assert(self@.envs =~= old(self)@.envs.push((key@, value@)));
    }

    /// Sets the working directory.
    pub fn current_dir(&mut self, dir: &str)
        ensures
            final(self)@ == (CmdView { cwd: Some(dir@), ..old(self)@ }),
    {
        self.cwd = Some(dir.to_owned());
    }
}

/// Sets environment variables on a command, in their order.
pub fn with_env(cmd: &mut Cmd, pairs: &Vec<(String, String)>)
    ensures
        final(cmd)@ == (CmdView { envs: old(cmd)@.envs + pair_views(pairs@), ..old(cmd)@ }),
{
    let mut i: usize = 0;
    assert(cmd@.envs =~= old(cmd)@.envs + pair_views(pairs@).take(0));
    while i < pairs.len()
        invariant
            0 <= i <= pairs@.len(),
            cmd@ == (CmdView {
                envs: old(cmd)@.envs + pair_views(pairs@).take(i as int),
                ..old(cmd)@
            }),
        decreases pairs@.len() - i,
    {
        cmd.env(pairs[i].0.as_str(), pairs[i].1.as_str());
        i += 1;
        assert(cmd@.envs =~= old(cmd)@.envs + pair_views(pairs@).take(i as int));
    }
    assert(pair_views(pairs@).take(i as int) =~= pair_views(pairs@));
}

} // verus!
