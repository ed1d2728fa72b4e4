//! Running whole command lines: pipelines, and output that goes to a file.

use crate::bytes::{str_eq, utf8_text};
use crate::driver::block::BlockDevice;
use crate::fs::nextfs::{got, FsError, FsView};
use crate::fs::vfs::nx::{self, read_s_path, write_path_blind_s, write_path_s};
use crate::fs::vfs::{lemma_frame, FileSystem};
use crate::kernel::Kernel;
use crate::shell::disk::{lemma_frame_fine, nx_made, outcome_text};
use crate::shell::parse::{line_s, parse_line, CommandLine, LineView};
use crate::shell::report::{count_s, count_text, tasks_s, tasks_text};
use crate::shell::run::{execute, executed, filed, shell_ok, After};
use crate::text::{
    contents, decimal, push_decimal, split_words, trim_end, trimmed, trimmed_end, words,
};
use vstd::prelude::*;
use vstd::string::{StrSliceExecFns, StringExecFns};
use vstd::utf8::{decode_utf8, encode_utf8, valid_utf8};

verus! {

/// A pipeline under way: its stages, the one that comes next, what the one
/// before printed, and the file that the output goes to.
pub struct Pipeline {
    stages: Vec<String>,
    at: usize,
    input: Option<String>,
    redirect: Option<String>,
}

/// A pipeline under way.
pub struct PipeView {
    pub stages: Seq<Seq<char>>,
    pub at: int,
    pub input: Option<Seq<char>>,
    pub redirect: Option<Seq<char>>,
}

/// The text, if there is one.
pub open spec fn text_of(s: Option<String>) -> Option<Seq<char>> {
    match s {
        Some(t) => Some(t@),
        None => None,
    }
}

/// What the screen shows of what a stage printed, and the pipeline after it. The
/// output of a stage is held back if another stage or a file wants it.
pub open spec fn finish_s(p: PipeView, out: Seq<char>) -> (Seq<char>, PipeView) {
    if p.at + 1 != p.stages.len() || p.redirect is Some {
        (Seq::empty(), PipeView { at: p.at + 1, input: Some(out), ..p })
    } else {
        (out, PipeView { at: p.at + 1, input: None, ..p })
    }
}

/// How far a command line got: what the screen shows, and, if something is left
/// to do outside, the pipeline, what its stage has printed, and what to do.
pub struct EndView {
    pub shown: Seq<char>,
    pub waiting: Option<(PipeView, Seq<char>, After)>,
}

/// How far a command line got.
pub struct RunEnd {
    pub shown: String,
    pub waiting: Option<(Pipeline, String, After)>,
}

impl RunEnd {
    pub open spec fn view(&self) -> EndView {
        EndView {
            shown: self.shown@,
            waiting: match self.waiting {
                Some((p, t, a)) => Some((p@, t@, a)),
                None => None,
            },
        }
    }
}

/// What writing the output to a file does and prints.
pub open spec fn redirected<D: BlockDevice>(
    f0: FileSystem<D>,
    target: Seq<char>,
    data: Seq<char>,
    now: u32,
    f1: FileSystem<D>,
    text: Seq<char>,
) -> bool {
    nx_made(
        f0,
        f1,
        |v: FsView| write_path_s(v, target, encode_utf8(data), now),
        |v: FsView| write_path_blind_s(v, target, encode_utf8(data), now),
        "["@ + decimal(encode_utf8(data).len()) + " bytes written to "@ + target + "]\n"@,
        "redirect: "@,
        target,
        text,
    )
}

/// What the rest of a pipeline does: each stage runs on what the one before it
/// printed, until one leaves something to do outside; the output then goes to
/// the screen or to a file.
pub open spec fn ran<D: BlockDevice>(
    k0: Kernel<D>,
    me: u64,
    now: u32,
    p: PipeView,
    k1: Kernel<D>,
    end: EndView,
) -> bool
    decreases p.stages.len() - p.at,
{
    if p.at < 0 || p.at >= p.stages.len() {
        end.waiting is None && match p.redirect {
            None => k1 == k0 && end.shown == Seq::<char>::empty(),
            Some(target) => filed(k0, k1, After::Done) && redirected(
                k0.files,
                target,
                match p.input {
                    Some(t) => t,
                    None => Seq::empty(),
                },
                now,
                k1.files,
                end.shown,
            ),
        }
    } else {
        exists|k: Kernel<D>, out: Seq<char>, after: After|
            {
                &&& #[trigger] executed(
                    k0,
                    me,
                    now,
                    trimmed(p.stages[p.at]),
                    p.input,
                    k,
                    out,
                    after,
                )
                &&& if after == After::Done {
                    let (shown, q) = finish_s(p, out);
                    shown.is_prefix_of(end.shown) && ran(
                        k,
                        me,
                        now,
                        q,
                        k1,
                        EndView { shown: end.shown.skip(shown.len() as int), ..end },
                    )
                } else {
                    k1 == k && end == EndView {
                        shown: Seq::empty(),
                        waiting: Some((p, out, after)),
                    }
                }
            }
    }
}

impl Pipeline {
    pub closed spec fn view(&self) -> PipeView {
        PipeView {
            stages: contents(self.stages@),
            at: self.at as int,
            input: text_of(self.input),
            redirect: text_of(self.redirect),
        }
    }

    /// The next stage is within the stages.
    pub closed spec fn wf(&self) -> bool {
        self.at <= self.stages@.len()
    }

    /// Ends a stage that had something to do outside: what it printed in all goes
    /// on to the next stage, or to the screen.
    pub fn finish(&mut self, out: String) -> (shown: String)
        requires
            old(self).wf(),
            old(self)@.at < old(self)@.stages.len(),
        ensures
            final(self).wf(),
            (shown@, final(self)@) == finish_s(old(self)@, out@),
    {
        let n: usize = self.stages.len();
        let held = n - self.at != 1 || self.redirect.is_some();
        self.at = self.at + 1;
        if held {
            self.input = Some(out);
            let s = String::new();
            assert(s@ =~= Seq::<char>::empty());
            s
        } else {
            self.input = None;
            out
        }
    }

    /// Runs the rest of the pipeline.
    pub fn run<D: BlockDevice>(self, k: &mut Kernel<D>, me: u64, now: u32) -> (end: RunEnd)
        requires
            self.wf(),
            shell_ok(*old(k)),
        ensures
            shell_ok(*final(k)),
            ran(*old(k), me, now, self@, *final(k), end@),
            end.waiting matches Some(w) ==> w.0.wf() && w.0@.at < w.0@.stages.len(),
        decreases self@.stages.len() - self@.at,
    {
        let mut p = self;
        if p.at >= p.stages.len() {
            let shown = match &p.redirect {
                None => {
                    let s = String::new();
                    assert(s@ =~= Seq::<char>::empty());
                    s
                },
                Some(target) => {
                    let none = String::new();
                    assert(none@ =~= Seq::<char>::empty());
                    let data = match &p.input {
                        Some(t) => t.as_str(),
                        None => none.as_str(),
                    };
                    write_output(&mut k.files, target.as_str(), data, now)
                },
            };
            return RunEnd { shown, waiting: None };
        }
        let ghost v = p@;
        let ghost k0 = *k;
        let (out, after) = {
            let stage = p.stages[p.at].as_str();
            assert(contents(p.stages@)[p.at as int] == stage@);
            let input = match &p.input {
                Some(t) => Some(t.as_str()),
                None => None,
            };
            execute(k, me, now, stage, input)
        };
        let ghost k1 = *k;
        assert(executed(k0, me, now, trimmed(v.stages[v.at]), v.input, k1, out@, after));
        match after {
            After::Done => {
                let ghost text = out@;
                let mut shown = p.finish(out);
                let ghost first = shown@;
                let rest = p.run(k, me, now);
                shown.append(rest.shown.as_str());
                let end = RunEnd { shown, waiting: rest.waiting };
                proof {
                    assert(end@.shown.skip(first.len() as int) =~= rest.shown@);
                    assert(first.is_prefix_of(end@.shown));
                    assert(EndView { shown: end@.shown.skip(first.len() as int), ..end@ } == rest@);
                }
                end
            },
            _ => {
                let s = String::new();
                assert(s@ =~= Seq::<char>::empty());
                RunEnd { shown: s, waiting: Some((p, out, after)) }
            },
        }
    }
}

/// Writes the output of a pipeline to a file.
fn write_output<D: BlockDevice>(files: &mut FileSystem<D>, target: &str, data: &str, now: u32) -> (r:
    String)
    requires
        old(files).wf(),
        crate::shell::disk::devices_fine(old(files).devices()),
    ensures
        final(files).wf(),
        crate::shell::disk::devices_fine(final(files).devices()),
        redirected(*old(files), target@, data@, now, *final(files), r@),
{
    let bytes = data.as_bytes();
    let r = nx::write_file(files, target, bytes, now);
    proof {
        lemma_frame(*old(files), *files);
        lemma_frame_fine(*old(files), *files);
    }
    let mut done = "[".to_owned();
    push_decimal(&mut done, bytes.len() as u64);
    done.append(" bytes written to ");
    done.append(target);
    done.append("]\n");
    outcome_text(done, "redirect: ", target, r)
}

/// What a command line does.
pub open spec fn line_ran<D: BlockDevice>(
    k0: Kernel<D>,
    me: u64,
    now: u32,
    line: Seq<char>,
    k1: Kernel<D>,
    end: EndView,
) -> bool {
    match line_s(line) {
        LineView::Empty => k1 == k0 && end == EndView { shown: Seq::empty(), waiting: None },
        LineView::NoTarget => k1 == k0 && end == EndView {
            shown: "syntax error: expected filename after '>'\n"@,
            waiting: None,
        },
        LineView::EmptyStage => k1 == k0 && end == EndView {
            shown: "syntax error: empty command in pipeline\n"@,
            waiting: None,
        },
        LineView::Run { stages, redirect } => ran(
            k0,
            me,
            now,
            PipeView { stages, at: 0, input: None, redirect },
            k1,
            end,
        ),
    }
}

/// Parses and runs a command line: the commands between bars feed each other,
/// and what follows `>` is the file that the output goes to.
pub fn run_command_line<D: BlockDevice>(k: &mut Kernel<D>, me: u64, now: u32, line: &str) -> (end:
    RunEnd)
    requires
        shell_ok(*old(k)),
    ensures
        shell_ok(*final(k)),
        line_ran(*old(k), me, now, line@, *final(k), end@),
        end.waiting matches Some(w) ==> w.0.wf() && w.0@.at < w.0@.stages.len(),
{
    match parse_line(line) {
        CommandLine::Empty => {
            let s = String::new();
            assert(s@ =~= Seq::<char>::empty());
            RunEnd { shown: s, waiting: None }
        },
        CommandLine::NoTarget => RunEnd {
            shown: "syntax error: expected filename after '>'\n".to_owned(),
            waiting: None,
        },
        CommandLine::EmptyStage => RunEnd {
            shown: "syntax error: empty command in pipeline\n".to_owned(),
            waiting: None,
        },
        CommandLine::Run { stages, redirect } => {
            let p = Pipeline { stages, at: 0, input: None, redirect };
            p.run(k, me, now)
        },
    }
}

/// How the check of pipes and redirection ended: whether the file held what was
/// sent to it, and whether a listing went through a pipe.
#[derive(Debug)]
pub struct ShellCheck {
    pub redirect: Result<bool, FsError>,
    pub pipe: bool,
}

/// The file that the check writes.
pub const CHECK_FILE: &'static str = "/selftest_echo.txt";

/// The line that the check runs.
pub const CHECK_LINE: &'static str = "echo pipe_hello > /selftest_echo.txt";

/// Whether a file holds the word that the check sent to it, perhaps with white
/// space behind it.
pub open spec fn holds_word(data: Seq<u8>) -> bool {
    valid_utf8(data) && trimmed_end(decode_utf8(data)) == "pipe_hello"@
}

/// Checks redirection and pipes: a line sent to a file is read back, and the
/// task listing is fed to `wc`, which is to answer with three numbers.
pub fn pipe_redirect_selftest<D: BlockDevice>(k: &mut Kernel<D>, me: u64, now: u32) -> (r: ShellCheck)
    requires
        shell_ok(*old(k)),
    ensures
        shell_ok(*final(k)),
        exists|end: EndView| line_ran(*old(k), me, now, CHECK_LINE@, *final(k), end),
        got(
            final(k).files.reliable(),
            r.redirect,
            match read_s_path(final(k).files@.fs, CHECK_FILE@) {
                Ok(data) => Ok::<bool, FsError>(holds_word(data)),
                Err(e) => Err::<bool, FsError>(e),
            },
        ),
        r.pipe == (words(count_s(tasks_s(final(k).tasks@))).len() == 3),
{
    let end = run_command_line(k, me, now, CHECK_LINE);
    assert(line_ran(*old(k), me, now, CHECK_LINE@, *k, end@));
    let redirect = match nx::read_file(&k.files, CHECK_FILE) {
        Ok(data) => match utf8_text(data.as_slice()) {
            Some(t) => Ok(str_eq(trim_end(t), "pipe_hello")),
            None => Ok(false),
        },
        Err(e) => Err(e),
    };
    let listing = tasks_text(&k.tasks);
    let counted = count_text(listing.as_str());
    let pipe = split_words(counted.as_str()).len() == 3;
    ShellCheck { redirect, pipe }
}

} // verus!
