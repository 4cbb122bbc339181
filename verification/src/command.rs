//! Command lines for the programs that do the work.

use vstd::prelude::*;
use crate::text::{lemma_texts_push, opt_text, texts};

verus! {

/// A program, its arguments, and the directory that it is started in.
pub struct CommandLine {
    pub program: String,
    pub args: Vec<String>,
    /// The directory; the current one where none is given.
    pub dir: Option<String>,
}

/// The texts of a command line.
#[verifier::ext_equal]
pub struct CommandView {
    pub program: Seq<char>,
    pub args: Seq<Seq<char>>,
    pub dir: Option<Seq<char>>,
}

impl View for CommandLine {
    type V = CommandView;

    open spec fn view(&self) -> CommandView {
        CommandView {
            program: self.program@,
            args: texts(self.args@),
            dir: opt_text(self.dir),
        }
    }
}

impl CommandLine {
    /// A program without arguments, in the current directory.
    pub fn new(program: &str) -> (line: CommandLine)
        ensures
            line@ == (CommandView { program: program@, args: Seq::empty(), dir: None }),
    {
        let line = CommandLine { program: program.to_owned(), args: Vec::new(), dir: None };
        assert(line@.args =~= Seq::empty());
        line
    }

    /// The command line with one argument more.
    pub fn arg(self, arg: &str) -> (line: CommandLine)
        ensures
            line@ == (CommandView { args: self@.args.push(arg@), ..self@ }),
    {
        let mut line = self;
        let s = arg.to_owned();
        proof {
            lemma_texts_push(line.args@, s);
        }
        line.args.push(s);
        line
    }

    /// The command line with more arguments.
    pub fn args(self, args: &Vec<String>) -> (line: CommandLine)
        ensures
            line@ == (CommandView { args: self@.args + texts(args@), ..self@ }),
    {
        let mut line = self;
        let ghost start = line@;
        let mut i: usize = 0;
        assert(start.args + texts(args@).take(0) =~= start.args);
        while i < args.len()
            invariant
                i <= args@.len(),
                line@.program == start.program,
                line@.dir == start.dir,
                line@.args == start.args + texts(args@).take(i as int),
            decreases args@.len() - i,
        {
            line = line.arg(args[i].as_str());
            proof {
                assert(texts(args@)[i as int] == args@[i as int]@);
                assert(start.args + texts(args@).take(i + 1) =~= (start.args + texts(args@).take(
                    i as int,
                )).push(args@[i as int]@));
            }
            i += 1;
        }
        assert(texts(args@).take(args@.len() as int) =~= texts(args@));
        line
    }

    /// The command line, in another directory.
    pub fn in_dir(self, dir: &str) -> (line: CommandLine)
        ensures
            line@ == (CommandView { dir: Some(dir@), ..self@ }),
    {
        let mut line = self;
        line.dir = Some(dir.to_owned());
        line
    }
}

/// What became of a program that was started.
pub enum Outcome {
    /// It could not be started, for the reason given.
    NotStarted(String),
    /// It ended, with success or without.
    Ended { success: bool },
}

/// A command line is seen as it is, with its texts.
pub proof fn law_command_is_seen(line: CommandLine, i: int)
    requires
        0 <= i < line.args@.len(),
    ensures
        line@.program == line.program@,
        line@.args.len() == line.args@.len(),
        line@.args[i] == line.args@[i]@,
        line.dir is None <==> line@.dir is None,
        line.dir matches Some(dir) ==> line@.dir == Some(dir@),
{
}

} // verus!
