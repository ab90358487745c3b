//! Programs to be run, and what became of them.
use vstd::prelude::*;

use crate::text::{opt_text, texts};

verus! {

/// A program to be run: its arguments, what is added to its environment, and
/// what it is given to read.
#[derive(Debug)]
pub struct ProcessSpec {
    pub program: String,
    pub args: Vec<String>,
    pub envs: Vec<(String, String)>,
    pub stdin: Option<String>,
}

/// A program to be run, as mathematics.
pub struct ProcessView {
    pub program: Seq<char>,
    pub args: Seq<Seq<char>>,
    pub envs: Seq<(Seq<char>, Seq<char>)>,
    pub stdin: Option<Seq<char>>,
}

/// The names and values of environment variables.
pub open spec fn env_view(envs: Seq<(String, String)>) -> Seq<(Seq<char>, Seq<char>)> {
    envs.map_values(|e: (String, String)| (e.0@, e.1@))
}

impl View for ProcessSpec {
    type V = ProcessView;

    open spec fn view(&self) -> ProcessView {
        ProcessView {
            program: self.program@,
            args: texts(self.args@),
            envs: env_view(self.envs@),
            stdin: opt_text(self.stdin),
        }
    }
}

/// What a program left behind: whether it reported success, how its end is
/// described, and what it wrote.
#[derive(Debug)]
pub struct ProcessOutput {
    pub success: bool,
    pub status: String,
    pub stdout: Vec<u8>,
    pub stderr: Vec<u8>,
}

/// What a program left behind, as mathematics.
pub struct OutputView {
    pub success: bool,
    pub status: Seq<char>,
    pub stdout: Seq<u8>,
    pub stderr: Seq<u8>,
}

impl View for ProcessOutput {
    type V = OutputView;

    open spec fn view(&self) -> OutputView {
        OutputView {
            success: self.success,
            status: self.status@,
            stdout: self.stdout@,
            stderr: self.stderr@,
        }
    }
}

/// What became of a program: it could not be started, or it ran to its end.
#[derive(Debug)]
pub enum ProcessReply {
    NotStarted(String),
    Finished(ProcessOutput),
}

/// What became of a program, as mathematics.
pub enum ReplyView {
    NotStarted(Seq<char>),
    Finished(OutputView),
}

impl View for ProcessReply {
    type V = ReplyView;

    open spec fn view(&self) -> ReplyView {
        match self {
            ProcessReply::NotStarted(cause) => ReplyView::NotStarted(cause@),
            ProcessReply::Finished(output) => ReplyView::Finished(output@),
        }
    }
}

/// Whether something worked, or why it did not.
pub open spec fn done_view(r: Result<(), String>) -> Result<(), Seq<char>> {
    match r {
        Ok(()) => Ok(()),
        Err(text) => Err(text@),
    }
}

/// Appends a text to a list.
pub(crate) fn push_text(list: &mut Vec<String>, s: &str)
    ensures
        texts(final(list)@) == texts(old(list)@).push(s@),
{
    list.push(s.to_string());
    assert(texts(list@) =~= texts(old(list)@).push(s@));
}

/// Appends a list of texts to another.
pub(crate) fn push_texts(list: &mut Vec<String>, more: &[String])
    ensures
        texts(final(list)@) == texts(old(list)@) + texts(more@),
{
    let ghost before = texts(list@);
    for i in 0..more.len()
        invariant
            texts(list@) == before + texts(more@).take(i as int),
    {
        let ghost at = texts(list@);
        list.push(more[i].clone());
        assert(texts(list@) =~= at.push(more@[i as int]@));
        assert(texts(list@) =~= before + texts(more@).take(i + 1));
    }
    assert(texts(more@).take(more@.len() as int) =~= texts(more@));
}

} // verus!
