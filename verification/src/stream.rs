//! The data plane: who may fetch a job's input or send its output, and
//! which bytes a range request is answered with.

use crate::state::{AppState, StateView};
use crate::text::{
    chars_of, decimal, find_char, index_of_char, lemma_index_of_char, parse_u64, parsed_u64,
    starts_with, str_eq, u64_to_string,
};
use vstd::prelude::*;
use vstd::string::{StrSliceExecFns, StringExecFns};

verus! {

/// Why a data-plane request is turned away.
#[derive(Clone, Copy, Debug, PartialEq, Eq, Structural)]
pub enum Denied {
    /// No job has this identifier.
    NotFound,
    /// The token is not the job's token for this direction.
    Forbidden,
}

impl Denied {
    pub open spec fn status_code(self) -> u16 {
        match self {
            Denied::NotFound => 404,
            Denied::Forbidden => 403,
        }
    }

    /// The HTTP status that answers the request.
    pub fn status(&self) -> (r: u16)
        ensures
            r == self.status_code(),
    {
        match self {
            Denied::NotFound => 404,
            Denied::Forbidden => 403,
        }
    }

    pub open spec fn text(self) -> Seq<char> {
        match self {
            Denied::NotFound => "not found"@,
            Denied::Forbidden => "forbidden"@,
        }
    }

    /// The body that answers the request.
    pub fn message(&self) -> (r: &'static str)
        ensures
            r@ == self.text(),
    {
        match self {
            Denied::NotFound => "not found",
            Denied::Forbidden => "forbidden",
        }
    }
}

/// Where an upload is written: first to `part_path`, which is then renamed
/// to `final_path`.
#[derive(Debug)]
pub struct UploadTarget {
    pub part_path: String,
    pub final_path: String,
}

impl StateView {
    /// The answer to a request for a job's input: the path of the source
    /// file, for the job's input token and no other.
    pub open spec fn input_access(self, job_id: Seq<char>, token: Seq<char>) -> Result<
        Seq<char>,
        Denied,
    > {
        match self.job(job_id) {
            None => Err(Denied::NotFound),
            Some(j) => if token == j.input_token {
                Ok(j.plan.source_path)
            } else {
                Err(Denied::Forbidden)
            },
        }
    }

    /// The answer to a request to send a job's output: the path of the
    /// output file, for the job's output token and no other.
    pub open spec fn output_access(self, job_id: Seq<char>, token: Seq<char>) -> Result<
        Seq<char>,
        Denied,
    > {
        match self.job(job_id) {
            None => Err(Denied::NotFound),
            Some(j) => if token == j.output_token {
                Ok(j.plan.output_path)
            } else {
                Err(Denied::Forbidden)
            },
        }
    }
}

pub open spec fn result_view(r: Result<String, Denied>) -> Result<Seq<char>, Denied> {
    match r {
        Ok(s) => Ok(s@),
        Err(e) => Err(e),
    }
}

impl AppState {
    /// Decides a request for a job's input. `Ok` holds the path of the
    /// source file.
    pub fn authorize_input(&self, job_id: &str, token: &str) -> (r: Result<String, Denied>)
        ensures
            result_view(r) == self@.input_access(job_id@, token@),
    {
        match self.find_job(job_id) {
            None => Err(Denied::NotFound),
            Some(i) => {
                if str_eq(token, self.jobs[i].input_token.as_str()) {
                    Ok(self.jobs[i].plan.source_path.clone())
                } else {
                    Err(Denied::Forbidden)
                }
            },
        }
    }

    /// Decides a request to send a job's output. `Ok` holds where to write it.
    pub fn authorize_output(&self, job_id: &str, token: &str) -> (r: Result<UploadTarget, Denied>)
        ensures
            match r {
                Ok(t) => self@.output_access(job_id@, token@) == Ok::<Seq<char>, Denied>(
                    t.final_path@,
                ) && t.part_path@ == t.final_path@ + ".part"@,
                Err(e) => self@.output_access(job_id@, token@) == Err::<Seq<char>, Denied>(e),
            },
    {
        match self.find_job(job_id) {
            None => Err(Denied::NotFound),
            Some(i) => {
                if str_eq(token, self.jobs[i].output_token.as_str()) {
                    let final_path = self.jobs[i].plan.output_path.clone();
                    let mut part_path = final_path.clone();
                    part_path.append(".part");
                    Ok(UploadTarget { part_path: part_path, final_path: final_path })
                } else {
                    Err(Denied::Forbidden)
                }
            },
        }
    }
}

/// The status that answers an upload: 200 where every write and the
/// rename succeeded, 500 otherwise.
pub fn upload_status(stored: bool) -> (r: u16)
    ensures
        r == if stored {
            200u16
        } else {
            500u16
        },
{
    if stored {
        200
    } else {
        500
    }
}

/// How a request for a file of `size` bytes is answered.
#[derive(Clone, Copy, Debug, PartialEq, Eq, Structural)]
pub enum RangePlan {
    /// No range was asked for: the whole file.
    Whole { size: u64 },
    /// The `length` bytes from `start` on; `end` is the last byte asked for.
    Part { start: u64, end: u64, length: u64, size: u64 },
    /// The range ends before it starts, or reaches past the end of the file.
    Unsatisfiable,
}

/// The text of a range: what follows `bytes=` in the header, if the header
/// begins so.
pub open spec fn range_text(header: Seq<char>) -> Option<Seq<char>> {
    if "bytes="@.is_prefix_of(header) {
        Some(header.skip("bytes="@.len() as int))
    } else {
        None
    }
}

/// The first byte asked for: the number before the first `-`, else 0.
pub open spec fn range_start(text: Seq<char>) -> u64 {
    match parsed_u64(text.take(index_of_char(text, '-'))) {
        Some(n) => n,
        None => 0,
    }
}

/// The last byte asked for: the number between the first `-` and the
/// next, if there is one.
pub open spec fn range_end(text: Seq<char>) -> Option<u64> {
    let cut = index_of_char(text, '-');
    if cut < text.len() {
        let rest = text.skip(cut + 1);
        parsed_u64(rest.take(index_of_char(rest, '-')))
    } else {
        None
    }
}

/// How a request with the given `Range` header is answered for a file of
/// `size` bytes. Both ends of a range are inclusive; a missing end stands
/// for the last byte of the file. A range is answered where its start is
/// not past its end and its end is within the file.
pub open spec fn range_plan(header: Seq<char>, size: u64) -> RangePlan {
    match range_text(header) {
        None => RangePlan::Whole { size: size },
        Some(text) => {
            let start = range_start(text) as int;
            let end = match range_end(text) {
                Some(e) => e as int,
                None => size - 1,
            };
            if start <= end < size {
                RangePlan::Part {
                    start: start as u64,
                    end: end as u64,
                    length: (end - start + 1) as u64,
                    size: size,
                }
            } else {
                RangePlan::Unsatisfiable
            }
        },
    }
}

/// The value of the `Content-Range` header of a partial answer.
pub open spec fn content_range(start: u64, end: u64, size: u64) -> Seq<char> {
    "bytes "@ + decimal(start as nat) + "-"@ + decimal(end as nat) + "/"@ + decimal(size as nat)
}

impl RangePlan {
    pub open spec fn status_code(self) -> u16 {
        match self {
            RangePlan::Whole { .. } => 200,
            RangePlan::Part { .. } => 206,
            RangePlan::Unsatisfiable => 416,
        }
    }

    /// The number of bytes in the body of the answer.
    pub open spec fn body_length(self) -> u64 {
        match self {
            RangePlan::Whole { size } => size,
            RangePlan::Part { length, .. } => length,
            RangePlan::Unsatisfiable => 0,
        }
    }

    /// The place in the file at which the body begins.
    pub open spec fn body_offset(self) -> u64 {
        match self {
            RangePlan::Part { start, .. } => start,
            _ => 0,
        }
    }

    /// The HTTP status of the answer.
    pub fn status(&self) -> (r: u16)
        ensures
            r == self.status_code(),
    {
        match self {
            RangePlan::Whole { .. } => 200,
            RangePlan::Part { .. } => 206,
            RangePlan::Unsatisfiable => 416,
        }
    }

    /// The value of `Content-Length`.
    pub fn content_length(&self) -> (r: u64)
        ensures
            r == self.body_length(),
    {
        match self {
            RangePlan::Whole { size } => *size,
            RangePlan::Part { length, .. } => *length,
            RangePlan::Unsatisfiable => 0,
        }
    }

    /// The place in the file at which the body begins.
    pub fn offset(&self) -> (r: u64)
        ensures
            r == self.body_offset(),
    {
        match self {
            RangePlan::Part { start, .. } => *start,
            _ => 0,
        }
    }

    /// The value of `Content-Range`, which only a partial answer has.
    pub fn content_range(&self) -> (r: Option<String>)
        ensures
            match *self {
                RangePlan::Part { start, end, size, .. } => r matches Some(s) && s@
                    == content_range(start, end, size),
                _ => r is None,
            },
    {
        match self {
            RangePlan::Part { start, end, size, .. } => {
                let mut s = "bytes ".to_owned();
                s.append(u64_to_string(*start).as_str());
                s.append("-");
                s.append(u64_to_string(*end).as_str());
                s.append("/");
                s.append(u64_to_string(*size).as_str());
                Some(s)
            },
            _ => None,
        }
    }
}

/// Decides how a request with the given `Range` header is answered for a
/// file of `size` bytes. A request without the header passes the empty
/// string.
pub fn plan_range(header: &str, size: u64) -> (r: RangePlan)
    ensures
        r == range_plan(header@, size),
{
    proof {
        reveal_strlit("bytes=");
    }
    if !starts_with(header, "bytes=") {
        return RangePlan::Whole { size: size };
    }
    let cs = chars_of(header);
    let ghost text = header@.skip(6);
    let cut = find_char(&cs, 6, '-');
    proof {
        lemma_index_of_char(text, '-');
    }
    let start_text = header.substring_char(6, cut);
    assert(start_text@ =~= text.take(index_of_char(text, '-')));
    let start: u64 = match parse_u64(start_text) {
        Some(n) => n,
        None => 0,
    };
    let end: Option<u64> = if cut < cs.len() {
        let ghost rest = text.skip(cut - 6 + 1);
        assert(rest =~= cs@.skip(cut as int + 1));
        let stop = find_char(&cs, cut + 1, '-');
        proof {
            lemma_index_of_char(rest, '-');
        }
        let end_text = header.substring_char(cut + 1, stop);
        assert(end_text@ =~= rest.take(index_of_char(rest, '-')));
        parse_u64(end_text)
    } else {
        None
    };
    assert(end == range_end(text));
    assert(start == range_start(text));
    match end {
        Some(e) => {
            if start <= e && e < size {
                RangePlan::Part { start: start, end: e, length: e - start + 1, size: size }
            } else {
                RangePlan::Unsatisfiable
            }
        },
        None => {
            if size == 0 {
                RangePlan::Unsatisfiable
            } else if size - 1 >= start {
                RangePlan::Part { start: start, end: size - 1, length: size - start, size: size }
            } else {
                RangePlan::Unsatisfiable
            }
        },
    }
}

} // verus!
