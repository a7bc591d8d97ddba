//! Running the transcoder: its command line, and what its end means.

use crate::text::{push_str, push_string};
use vstd::prelude::*;

verus! {

/// Runs the transcoder found at `ffmpeg_path`.
#[derive(Debug)]
pub struct FfmpegExecutor {
    pub ffmpeg_path: String,
}

/// How a run of the transcoder ended.
#[derive(Clone, Copy, Debug, PartialEq, Eq, Structural)]
pub enum RunOutcome {
    /// The process ended by itself; `success` says whether its status was zero.
    Exited { success: bool },
    /// The job's time ran out, and the process was killed.
    TimedOut,
}

impl RunOutcome {
    /// A run succeeds if the process ended by itself with a zero status.
    pub open spec fn succeeded(self) -> bool {
        self == (RunOutcome::Exited { success: true })
    }

    /// Whether the process is still there to be killed.
    pub open spec fn needs_kill(self) -> bool {
        self == RunOutcome::TimedOut
    }

    pub fn is_success(&self) -> (r: bool)
        ensures
            r == self.succeeded(),
    {
        match self {
            RunOutcome::Exited { success } => *success,
            RunOutcome::TimedOut => false,
        }
    }

    pub fn must_kill(&self) -> (r: bool)
        ensures
            r == self.needs_kill(),
    {
        match self {
            RunOutcome::Exited { .. } => false,
            RunOutcome::TimedOut => true,
        }
    }
}

/// The arguments of a run: the input, the planned arguments, the output.
pub open spec fn command_line(
    input_url: Seq<char>,
    ffmpeg_args: Seq<Seq<char>>,
    output_path: Seq<char>,
) -> Seq<Seq<char>> {
    seq!["-i"@, input_url] + ffmpeg_args + seq![output_path]
}

impl FfmpegExecutor {
    pub fn new(ffmpeg_path: String) -> (r: Self)
        ensures
            r.ffmpeg_path == ffmpeg_path,
    {
        FfmpegExecutor { ffmpeg_path: ffmpeg_path }
    }

    /// The arguments to start the transcoder with.
    pub fn command_args(&self, input_url: &str, ffmpeg_args: &[String], output_path: &str) -> (r:
        Vec<String>)
        ensures
            r.deep_view() == command_line(input_url@, ffmpeg_args.deep_view(), output_path@),
    {
        let mut r: Vec<String> = Vec::new();
        assert(r.deep_view() =~= Seq::<Seq<char>>::empty());
        push_str(&mut r, "-i");
        push_str(&mut r, input_url);
        let ghost head = r.deep_view();
        assert(head =~= seq!["-i"@, input_url@]);
        let mut i: usize = 0;
        assert(ffmpeg_args.deep_view().take(0) =~= Seq::<Seq<char>>::empty());
        assert(head + Seq::<Seq<char>>::empty() =~= head);
        while i < ffmpeg_args.len()
            invariant
                i <= ffmpeg_args.len(),
                r.deep_view() == head + ffmpeg_args.deep_view().take(i as int),
            decreases ffmpeg_args.len() - i,
        {
            let ghost before = r.deep_view();
            push_string(&mut r, ffmpeg_args[i].clone());
            assert(ffmpeg_args.deep_view()[i as int] == ffmpeg_args@[i as int]@);
            assert(before.push(ffmpeg_args@[i as int]@) =~= head + ffmpeg_args.deep_view().take(
                i as int + 1,
            ));
            i += 1;
        }
        assert(ffmpeg_args.deep_view().take(i as int) =~= ffmpeg_args.deep_view());
        let ghost body = r.deep_view();
        push_str(&mut r, output_path);
        assert(body.push(output_path@) =~= command_line(
            input_url@,
            ffmpeg_args.deep_view(),
            output_path@,
        ));
        r
    }
}

} // verus!
