//! The worker's side of the protocol: where it connects, who it says it
//! is, which encoders it advertises, how it reads a lease and the
//! transcoder's progress, and how a lease ends.

use crate::config::AgentConfig;
use crate::deps::{
    host_name, items_view, json_document, json_list_at, json_lists, json_string_at, json_strings,
    is_absolute_url, lookup, parse_json, parse_url, percent_encoded, url_encode,
};
use crate::dispatch::{Lease, LeaseView};
use crate::executor::RunOutcome;
use crate::session::strings_among;
use crate::state::{lemma_position, lemma_position_none, position};
use crate::text::{
    chars_of, decimal, find_char_in, first_non_space, index_of_char, is_space, last_non_space,
    replace, replace_all, str_eq, trim_end,
    trim_end_matches, trim_start, trimmed, u64_to_string, word_end, word_len,
};
use vstd::prelude::*;
use vstd::string::{StrSliceExecFns, StringExecFns};

verus! {

/// The address of the controller's control channel for a worker that
/// pairs with `token`: the controller's URL with `ws` for `http`, without
/// the slashes at its end, followed by the channel's path and the token.
pub open spec fn control_url(controller_url: Seq<char>, token: Seq<char>) -> Seq<char> {
    trim_end(
        replace_all(replace_all(controller_url, "http://"@, "ws://"@), "https://"@, "wss://"@),
        '/',
    ) + "/agent?token="@ + percent_encoded(token)
}

/// The seconds between two heartbeats of a worker.
pub const HEARTBEAT_SECS: u64 = 10;

/// Why a worker cannot connect.
#[derive(Clone, Copy, Debug, PartialEq, Eq, Structural)]
pub enum EndpointError {
    /// The controller's address is no absolute URL.
    InvalidUrl,
}

/// Who a worker says it is.
#[derive(Debug)]
pub struct Identity {
    pub id: String,
    pub name: String,
}

/// The identifier of the worker with process number `pid` on `host`.
pub open spec fn agent_id(host: Seq<char>, pid: u32) -> Seq<char> {
    host + "-"@ + decimal(pid as nat)
}

impl AgentConfig {
    /// The text of the address of the control channel.
    pub fn control_address(&self) -> (r: String)
        ensures
            r@ == control_url(self.controller_url@, self.token@),
    {
        let ws = replace(self.controller_url.as_str(), "http://", "ws://");
        let wss = replace(ws.as_str(), "https://", "wss://");
        let mut r = trim_end_matches(wss.as_str(), '/').to_owned();
        r.append("/agent?token=");
        r.append(url_encode(self.token.as_str()).as_str());
        r
    }

    /// The address of the control channel, where its text is an absolute URL.
    pub fn control_endpoint(&self) -> (r: Result<url::Url, EndpointError>)
        ensures
            r is Ok <==> is_absolute_url(control_url(self.controller_url@, self.token@)),
    {
        let text = self.control_address();
        match parse_url(text.as_str()) {
            Ok(u) => Ok(u),
            Err(_) => Err(EndpointError::InvalidUrl),
        }
    }
}

impl Identity {
    /// The identity of the worker with process number `pid` on `host`.
    pub fn of(host: &str, pid: u32) -> (r: Identity)
        ensures
            r.id@ == agent_id(host@, pid),
            r.name@ == host@,
    {
        let mut id = host.to_owned();
        id.append("-");
        id.append(u64_to_string(pid as u64).as_str());
        Identity { id: id, name: host.to_owned() }
    }

    /// The identity of the worker with process number `pid` on this
    /// machine; `None` where the machine's name cannot be had.
    pub fn detect(pid: u32) -> (r: Option<Identity>)
        ensures
            r matches Some(i) ==> i.id@ == agent_id(i.name@, pid),
    {
        Identity::from_host(host_name(), pid)
    }

    /// The identity of the worker with process number `pid` on the machine
    /// whose name was read as `host`; `None` where no name could be read.
    pub fn from_host(host: Option<String>, pid: u32) -> (r: Option<Identity>)
        ensures
            match r {
                Some(i) => Some((i.id@, i.name@)),
                None => None,
            } == identified(crate::text::opt_view(host), pid),
    {
        match host {
            Some(h) => Some(Identity::of(h.as_str(), pid)),
            None => None,
        }
    }
}

/// The identifier and the name of the worker with process number `pid` on
/// the machine named `host`; nothing where the machine has no name.
pub open spec fn identified(host: Option<Seq<char>>, pid: u32) -> Option<(Seq<char>, Seq<char>)> {
    match host {
        Some(h) => Some((agent_id(h, pid), h)),
        None => None,
    }
}

/// A character that an encoder's name may hold: an ASCII letter or digit,
/// `_` or `-`.
pub open spec fn is_name_char(c: char) -> bool {
    ('a' <= c <= 'z') || ('A' <= c <= 'Z') || ('0' <= c <= '9') || c == '_' || c == '-'
}

pub open spec fn is_encoder_name(w: Seq<char>) -> bool {
    forall|i: int| 0 <= i < w.len() ==> is_name_char(#[trigger] w[i])
}

/// The second word of a line, where words are runs of characters that are
/// no white space.
pub open spec fn second_word(line: Seq<char>) -> Option<Seq<char>> {
    let first = trim_start(line);
    let second = trim_start(first.skip(word_len(first)));
    if second.len() > 0 {
        Some(second.take(word_len(second)))
    } else {
        None
    }
}

/// The encoder that a line of the transcoder's list names: its second
/// word, if that is an encoder's name.
pub open spec fn encoder_of(line: Seq<char>) -> Option<Seq<char>> {
    match second_word(line) {
        Some(w) => if is_encoder_name(w) {
            Some(w)
        } else {
            None
        },
        None => None,
    }
}

/// The encoders that the transcoder's list names, line by line.
pub open spec fn encoder_names(text: Seq<char>) -> Seq<Seq<char>>
    decreases text.len(),
{
    let cut = index_of_char(text, '\n');
    let here = match encoder_of(text.take(cut)) {
        Some(w) => seq![w],
        None => Seq::empty(),
    };
    if 0 <= cut < text.len() {
        here + encoder_names(text.skip(cut + 1))
    } else {
        here
    }
}

fn is_name(cs: &Vec<char>, from: usize, to: usize) -> (r: bool)
    requires
        from <= to <= cs.len(),
    ensures
        r == is_encoder_name(cs@.subrange(from as int, to as int)),
{
    let mut i: usize = from;
    while i < to
        invariant
            from <= i <= to <= cs.len(),
            forall|k: int| from <= k < i ==> is_name_char(#[trigger] cs@[k]),
        decreases to - i,
    {
        let c = cs[i];
        let ok = ('a' <= c && c <= 'z') || ('A' <= c && c <= 'Z') || ('0' <= c && c <= '9') || c
            == '_' || c == '-';
        if !ok {
            assert(cs@.subrange(from as int, to as int)[i - from] == c);
            return false;
        }
        i += 1;
    }
    assert forall|k: int| 0 <= k < to - from implies is_name_char(
        #[trigger] cs@.subrange(from as int, to as int)[k],
    ) by {
        assert(is_name_char(cs@[from + k]));
    }
    true
}

/// The range of the encoder's name in the line `cs[from..to]`.
fn encoder_in(cs: &Vec<char>, from: usize, to: usize) -> (r: Option<(usize, usize)>)
    requires
        from <= to <= cs.len(),
    ensures
        match r {
            Some((a, b)) => from <= a <= b <= to && encoder_of(cs@.subrange(from as int, to as int))
                == Some(cs@.subrange(a as int, b as int)),
            None => encoder_of(cs@.subrange(from as int, to as int)) is None,
        },
{
    let ghost line = cs@.subrange(from as int, to as int);
    let a = first_non_space(cs, from, to);
    let ghost first = cs@.subrange(a as int, to as int);
    let b = word_end(cs, a, to);
    assert(first.skip(word_len(first)) =~= cs@.subrange(b as int, to as int));
    let c = first_non_space(cs, b, to);
    let ghost second = cs@.subrange(c as int, to as int);
    if c == to {
        return None;
    }
    let d = word_end(cs, c, to);
    assert(second.take(word_len(second)) =~= cs@.subrange(c as int, d as int));
    if is_name(cs, c, d) {
        Some((c, d))
    } else {
        None
    }
}

/// The encoders that the transcoder's list names: of each line the second
/// word, where it is made of ASCII letters, digits, `_` and `-`.
pub fn parse_encoders(text: &str) -> (names: Vec<String>)
    ensures
        names.deep_view() == encoder_names(text@),
{
    let cs = chars_of(text);
    let mut names: Vec<String> = Vec::new();
    let mut from: usize = 0;
    let mut done = false;
    assert(cs@.skip(0) =~= cs@);
    assert(names.deep_view() =~= Seq::<Seq<char>>::empty());
    assert(Seq::<Seq<char>>::empty() + encoder_names(cs@) =~= encoder_names(cs@));
    while !done
        invariant
            from <= cs.len(),
            cs@ == text@,
            !done ==> encoder_names(text@) == names.deep_view() + encoder_names(
                cs@.skip(from as int),
            ),
            done ==> encoder_names(text@) == names.deep_view(),
        decreases cs.len() - from + if done { 0int } else { 1int },
    {
        let ghost rest = cs@.skip(from as int);
        let ghost before = names.deep_view();
        assert(rest =~= cs@.subrange(from as int, cs@.len() as int));
        let cut = find_char_in(&cs, from, cs.len(), '\n');
        assert(rest.take(cut - from) =~= cs@.subrange(from as int, cut as int));
        let ghost here = match encoder_of(rest.take(cut - from)) {
            Some(w) => seq![w],
            None => Seq::<Seq<char>>::empty(),
        };
        match encoder_in(&cs, from, cut) {
            Some((a, b)) => {
                let name = text.substring_char(a, b).to_owned();
                names.push(name);
                assert(names.deep_view() =~= before + here);
            },
            None => {
                assert(names.deep_view() =~= before + here);
            },
        }
        if cut < cs.len() {
            assert(rest.skip(cut - from + 1) =~= cs@.skip(cut as int + 1));
            assert(before + (here + encoder_names(rest.skip(cut - from + 1))) =~= (before + here)
                + encoder_names(rest.skip(cut - from + 1)));
            from = cut + 1;
        } else {
            done = true;
        }
    }
    names
}

/// One `key=value` pair of the transcoder's progress stream.
#[derive(Debug)]
pub struct Field {
    pub key: String,
    pub value: String,
}

pub open spec fn fields_view(v: Seq<Field>) -> Seq<(Seq<char>, Seq<char>)> {
    Seq::new(v.len(), |i: int| (v[i].key@, v[i].value@))
}

pub open spec fn keys_of(fields: Seq<(Seq<char>, Seq<char>)>) -> Seq<Seq<char>> {
    Seq::new(fields.len(), |i: int| fields[i].0)
}

/// The pair that a line of the progress stream holds: what stands before
/// and after its first `=`, each without the white space around it.
pub open spec fn progress_pair(line: Seq<char>) -> Option<(Seq<char>, Seq<char>)> {
    let t = trimmed(line);
    let cut = index_of_char(t, '=');
    if 0 <= cut < t.len() {
        Some((trimmed(t.take(cut)), trimmed(t.skip(cut + 1))))
    } else {
        None
    }
}

/// The fields with `key` set to `value`: in place where the key is there,
/// at the end where it is new.
pub open spec fn with_field(
    fields: Seq<(Seq<char>, Seq<char>)>,
    key: Seq<char>,
    value: Seq<char>,
) -> Seq<(Seq<char>, Seq<char>)> {
    match position(keys_of(fields), key) {
        Some(i) => fields.update(i, (key, value)),
        None => fields.push((key, value)),
    }
}

/// What a line of the progress stream does to the fields gathered so far:
/// a pair joins them; a pair with the key `progress` sends them off, and
/// the gathering starts anew.
pub open spec fn fed(fields: Seq<(Seq<char>, Seq<char>)>, line: Seq<char>) -> (
    Seq<(Seq<char>, Seq<char>)>,
    Option<Seq<(Seq<char>, Seq<char>)>>,
) {
    match progress_pair(line) {
        Some((key, value)) => {
            let all = with_field(fields, key, value);
            if key == "progress"@ {
                (Seq::empty(), Some(all))
            } else {
                (all, None)
            }
        },
        None => (fields, None),
    }
}

/// Gathers the fields of the transcoder's progress stream for one job.
#[derive(Debug)]
pub struct ProgressTracker {
    pub job_id: String,
    pub fields: Vec<Field>,
}

/// A progress report: the fields gathered up to a `progress` key.
#[derive(Debug)]
pub struct ProgressReport {
    pub job_id: String,
    pub data: Vec<Field>,
}

fn read_pair(line: &str) -> (r: Option<Field>)
    ensures
        match r {
            Some(f) => progress_pair(line@) == Some((f.key@, f.value@)),
            None => progress_pair(line@) is None,
        },
{
    let cs = chars_of(line);
    let n = cs.len();
    assert(cs@.subrange(0, n as int) =~= line@);
    let a = first_non_space(&cs, 0, n);
    let b = last_non_space(&cs, a, n);
    let ghost t = cs@.subrange(a as int, b as int);
    assert(t == trimmed(line@));
    let cut = find_char_in(&cs, a, b, '=');
    if cut == b {
        return None;
    }
    assert(t.take(cut - a) =~= cs@.subrange(a as int, cut as int));
    assert(t.skip(cut - a + 1) =~= cs@.subrange(cut as int + 1, b as int));
    let ka = first_non_space(&cs, a, cut);
    let kb = last_non_space(&cs, ka, cut);
    let va = first_non_space(&cs, cut + 1, b);
    let vb = last_non_space(&cs, va, b);
    let key = line.substring_char(ka, kb).to_owned();
    let value = line.substring_char(va, vb).to_owned();
    Some(Field { key: key, value: value })
}

fn find_key(fields: &Vec<Field>, key: &str) -> (r: Option<usize>)
    ensures
        match r {
            Some(i) => i < fields.len() && position(keys_of(fields_view(fields@)), key@) == Some(
                i as int,
            ),
            None => position(keys_of(fields_view(fields@)), key@) is None,
        },
{
    let ghost keys = keys_of(fields_view(fields@));
    let mut i: usize = 0;
    while i < fields.len()
        invariant
            i <= fields.len(),
            keys == keys_of(fields_view(fields@)),
            forall|j: int| 0 <= j < i ==> keys[j] != key@,
        decreases fields.len() - i,
    {
        assert(keys[i as int] == fields@[i as int].key@);
        if str_eq(fields[i].key.as_str(), key) {
            proof {
                lemma_position(keys, key@, i as int);
            }
            return Some(i);
        }
        i += 1;
    }
    proof {
        lemma_position_none(keys, key@);
    }
    None
}

impl ProgressTracker {
    pub fn new(job_id: String) -> (r: ProgressTracker)
        ensures
            r.job_id == job_id,
            fields_view(r.fields@) == Seq::<(Seq<char>, Seq<char>)>::empty(),
    {
        let r = ProgressTracker { job_id: job_id, fields: Vec::new() };
        assert(fields_view(r.fields@) =~= Seq::empty());
        r
    }

    /// Takes one line of the progress stream. Returns the report that the
    /// line completes, if it completes one.
    pub fn feed(&mut self, line: &str) -> (r: Option<ProgressReport>)
        ensures
            final(self).job_id == old(self).job_id,
            fields_view(final(self).fields@) == fed(fields_view(old(self).fields@), line@).0,
            match r {
                Some(report) => report.job_id@ == old(self).job_id@ && fed(
                    fields_view(old(self).fields@),
                    line@,
                ).1 == Some(fields_view(report.data@)),
                None => fed(fields_view(old(self).fields@), line@).1 is None,
            },
    {
        let ghost before = fields_view(self.fields@);
        let pair = match read_pair(line) {
            Some(p) => p,
            None => {
                return None;
            },
        };
        let ghost key = pair.key@;
        let ghost value = pair.value@;
        let flush = str_eq(pair.key.as_str(), "progress");
        match find_key(&self.fields, pair.key.as_str()) {
            Some(i) => {
                self.fields[i] = pair;
                assert(fields_view(self.fields@) =~= before.update(i as int, (key, value)));
            },
            None => {
                self.fields.push(pair);
                assert(fields_view(self.fields@) =~= before.push((key, value)));
            },
        }
        if flush {
            let mut data: Vec<Field> = Vec::new();
            std::mem::swap(&mut data, &mut self.fields);
            assert(fields_view(self.fields@) =~= Seq::empty());
            Some(ProgressReport { job_id: self.job_id.clone(), data: data })
        } else {
            None
        }
    }
}

/// The lease that a text frame from the controller holds, if it holds
/// one. What the frame lacks is empty, but for the output extension,
/// which is then `.out`.
pub open spec fn lease_order(text: Seq<char>) -> Option<LeaseView> {
    match json_document(text) {
        Some(doc) => {
            let strings = json_strings(doc);
            if lookup(strings, "/type"@) == Some("lease"@) {
                Some(
                    LeaseView {
                        job_id: text_or(lookup(strings, "/payload/jobId"@), Seq::empty()),
                        input_url: text_or(lookup(strings, "/payload/inputUrl"@), Seq::empty()),
                        output_url: text_or(lookup(strings, "/payload/outputUrl"@), Seq::empty()),
                        ffmpeg_args: match lookup(json_lists(doc), "/payload/ffmpegArgs"@) {
                            Some(items) => strings_among(items),
                            None => Seq::empty(),
                        },
                        output_ext: text_or(lookup(strings, "/payload/outputExt"@), ".out"@),
                        threads: 0,
                    },
                )
            } else {
                None
            }
        },
        None => None,
    }
}

pub open spec fn text_or(s: Option<Seq<char>>, default: Seq<char>) -> Seq<char> {
    match s {
        Some(x) => x,
        None => default,
    }
}

fn string_or(s: Option<String>, default: &str) -> (r: String)
    ensures
        r@ == text_or(crate::text::opt_view(s), default@),
{
    match s {
        Some(x) => x,
        None => default.to_owned(),
    }
}

/// Reads a text frame from the controller as a lease.
pub fn decode_lease(text: &str) -> (r: Option<Lease>)
    ensures
        match r {
            Some(l) => Some(l@),
            None => None,
        } == lease_order(text@),
{
    let doc = match parse_json(text) {
        Some(d) => d,
        None => {
            return None;
        },
    };
    let kind = match json_string_at(&doc, "/type") {
        Some(k) => k,
        None => {
            return None;
        },
    };
    if !str_eq(kind.as_str(), "lease") {
        return None;
    }
    proof {
        reveal_strlit("");
        assert(""@ =~= Seq::<char>::empty());
    }
    let args = match json_list_at(&doc, "/payload/ffmpegArgs") {
        Some(items) => crate::session::keep_strings(items),
        None => {
            let none: Vec<String> = Vec::new();
            assert(none.deep_view() =~= Seq::<Seq<char>>::empty());
            none
        },
    };
    Some(
        Lease {
            job_id: string_or(json_string_at(&doc, "/payload/jobId"), ""),
            input_url: string_or(json_string_at(&doc, "/payload/inputUrl"), ""),
            output_url: string_or(json_string_at(&doc, "/payload/outputUrl"), ""),
            ffmpeg_args: args,
            output_ext: string_or(json_string_at(&doc, "/payload/outputExt"), ".out"),
            threads: 0,
        },
    )
}

/// The name of the file that holds a job's output until it is uploaded.
pub fn temp_output_name(job_id: &str, output_ext: &str) -> (r: String)
    ensures
        r@ == job_id@ + output_ext@,
{
    let mut r = job_id.to_owned();
    r.append(output_ext);
    r
}

/// What a worker does next with a lease.
#[derive(Clone, Copy, Debug, PartialEq, Eq, Structural)]
pub enum LeaseStep {
    /// Upload the output.
    Upload,
    /// Tell the controller how the job ended, and remove the output file.
    /// This ends the lease: one report is sent for it, and no more.
    Report { success: bool },
}

/// An HTTP status that stands for success: 200 to 299.
pub open spec fn is_success_status(status: u16) -> bool {
    200 <= status <= 299
}

/// What follows the end of the transcoder: the upload if it succeeded,
/// the report of a failure otherwise.
pub open spec fn step_after_run(outcome: RunOutcome) -> LeaseStep {
    if outcome.succeeded() {
        LeaseStep::Upload
    } else {
        LeaseStep::Report { success: false }
    }
}

/// An upload that the controller answered with a success status.
pub open spec fn answered_well(status: Option<u16>) -> bool {
    status matches Some(code) && is_success_status(code)
}

/// What follows the upload: the report, of a success where the controller
/// answered with a success status.
pub open spec fn step_after_upload(status: Option<u16>) -> LeaseStep {
    LeaseStep::Report { success: answered_well(status) }
}

/// The reports that a lease ends with, where the transcoder ended with
/// `outcome` and the upload, if it came to one, was answered with `status`.
pub open spec fn lease_reports(outcome: RunOutcome, status: Option<u16>) -> Seq<bool> {
    match step_after_run(outcome) {
        LeaseStep::Report { success } => seq![success],
        LeaseStep::Upload => match step_after_upload(status) {
            LeaseStep::Report { success } => seq![success],
            LeaseStep::Upload => Seq::empty(),
        },
    }
}

/// However a lease goes, it ends with one report. The report is of a
/// success exactly where the transcoder succeeded and the upload was
/// answered with a success status.
pub proof fn lemma_one_report_per_lease(outcome: RunOutcome, status: Option<u16>)
    ensures
        lease_reports(outcome, status).len() == 1,
        lease_reports(outcome, status)[0] == (outcome.succeeded() && answered_well(status)),
{
}

/// What follows the end of the transcoder.
pub fn after_run(outcome: RunOutcome) -> (r: LeaseStep)
    ensures
        r == step_after_run(outcome),
{
    if outcome.is_success() {
        LeaseStep::Upload
    } else {
        LeaseStep::Report { success: false }
    }
}

/// What follows the upload. `None` stands for an upload that got no answer.
pub fn after_upload(status: Option<u16>) -> (r: LeaseStep)
    ensures
        r == step_after_upload(status),
{
    match status {
        Some(code) => LeaseStep::Report { success: 200 <= code && code <= 299 },
        None => LeaseStep::Report { success: false },
    }
}

} // verus!
