//! The management operations: settings, pairing, scanning and admission.

use crate::deps::{is_uuid_text, lowercased, mint_uuid, now_millis, to_lowercase};
use crate::dispatch::{dispatched_view, Dispatched, DispatchedView};
use crate::jobs::{Job, JobStatus, JobView, MediaType, PlanJob, PlanView};
use crate::state::{insert_name, jobs_view, token_length, AppState, StateView};
use crate::text::{
    is_blank, lemma_trim_end, opt_view, push_name, starts_with, str_eq, str_is_blank, trim_end,
    trim_end_matches,
};
use vstd::prelude::*;

verus! {

/// The body of a request to change the settings.
#[derive(Debug)]
pub struct SettingsPayload {
    pub public_base_url: Option<String>,
}

/// The body of a request to pair a token.
#[derive(Debug)]
pub struct PairPayload {
    pub token: Option<String>,
}

/// The body of a request to scan a tree for files to convert.
#[derive(Debug)]
pub struct ScanRequest {
    pub input_root: String,
    pub output_root: String,
    pub recursive: Option<bool>,
    pub mirror_structure: Option<bool>,
    pub media_type: String,
    pub codec: String,
}

/// The answer to a scan: the plans, their number and the sum of their sizes.
#[derive(Debug)]
pub struct ScanResponse {
    pub count: usize,
    pub total_bytes: u64,
    pub jobs: Vec<PlanJob>,
}

/// The body of a request to admit plans.
#[derive(Debug)]
pub struct StartPayload {
    pub jobs: Vec<PlanJob>,
}

/// Why a request to change the settings is refused.
#[derive(Clone, Copy, Debug, PartialEq, Eq, Structural)]
pub enum SettingsError {
    /// The URL begins with neither `http://` nor `https://`.
    InvalidUrl,
}

/// Why a request to pair a token is refused.
#[derive(Clone, Copy, Debug, PartialEq, Eq, Structural)]
pub enum PairError {
    /// The token is not 25 long.
    InvalidToken,
}

/// Why a batch of plans is not admitted.
#[derive(Clone, Copy, Debug, PartialEq, Eq, Structural)]
pub enum AdmitError {
    /// The batch is empty.
    NoJobs,
    /// A plan lacks its source path, its output path or its codec.
    InvalidJob,
    /// A plan's source file does not exist.
    MissingSource,
    /// The credentials minted for the batch cannot be used: they are too
    /// few, an identifier repeats or names a job already, or the two tokens
    /// of a job are the same.
    UnusableCredentials,
}

impl SettingsError {
    pub fn message(&self) -> (r: &'static str)
        ensures
            r@ == "invalid URL"@,
    {
        "invalid URL"
    }
}

impl PairError {
    pub fn message(&self) -> (r: &'static str)
        ensures
            r@ == "invalid token"@,
    {
        "invalid token"
    }
}

impl AdmitError {
    pub open spec fn text(self) -> Seq<char> {
        match self {
            AdmitError::NoJobs => "no jobs"@,
            AdmitError::InvalidJob => "invalid job"@,
            AdmitError::MissingSource => "missing source"@,
            AdmitError::UnusableCredentials => "unusable credentials"@,
        }
    }

    /// The error as the client reads it.
    pub fn message(&self) -> (r: &'static str)
        ensures
            r@ == self.text(),
    {
        match self {
            AdmitError::NoJobs => "no jobs",
            AdmitError::InvalidJob => "invalid job",
            AdmitError::MissingSource => "missing source",
            AdmitError::UnusableCredentials => "unusable credentials",
        }
    }
}

/// A URL the settings accept: one that begins with `http://` or `https://`.
pub open spec fn is_http_url(url: Seq<char>) -> bool {
    "http://"@.is_prefix_of(url) || "https://"@.is_prefix_of(url)
}

/// The identity of a new job: its identifier and its two capability tokens.
#[derive(Debug)]
pub struct Credentials {
    pub id: String,
    pub input_token: String,
    pub output_token: String,
}

pub struct CredentialsView {
    pub id: Seq<char>,
    pub input_token: Seq<char>,
    pub output_token: Seq<char>,
}

impl View for Credentials {
    type V = CredentialsView;

    open spec fn view(&self) -> CredentialsView {
        CredentialsView {
            id: self.id@,
            input_token: self.input_token@,
            output_token: self.output_token@,
        }
    }
}

impl Credentials {
    /// Mints an identifier and two tokens, each a random UUID.
    pub fn mint() -> (r: Credentials)
        ensures
            r@.minted(),
    {
        Credentials { id: mint_uuid(), input_token: mint_uuid(), output_token: mint_uuid() }
    }
}

impl CredentialsView {
    /// The token for the input is not the token for the output.
    pub open spec fn tokens_apart(self) -> bool {
        self.input_token != self.output_token
    }


    /// The identifier and the two tokens are each the text of a version-4
    /// UUID, as minting writes them.
    pub open spec fn minted(self) -> bool {
        is_uuid_text(self.id) && is_uuid_text(self.input_token) && is_uuid_text(
            self.output_token,
        )
    }
}

/// Each of the credentials is as minting writes it.
pub open spec fn all_minted(minted: Seq<CredentialsView>) -> bool {
    forall|i: int| 0 <= i < minted.len() ==> (#[trigger] minted[i]).minted()
}

pub open spec fn credentials_view(v: Seq<Credentials>) -> Seq<CredentialsView> {
    Seq::new(v.len(), |i: int| v[i]@)
}

pub open spec fn plans_view(v: Seq<PlanJob>) -> Seq<PlanView> {
    Seq::new(v.len(), |i: int| v[i]@)
}

/// A plan that names its source, its output and its codec.
pub open spec fn plan_is_complete(p: PlanView) -> bool {
    !is_blank(p.source_path) && !is_blank(p.output_path) && !is_blank(p.codec)
}

/// Whether the source of the plan at `i` is known to exist.
pub open spec fn source_exists_at(exists: Seq<bool>, i: int) -> bool {
    0 <= i < exists.len() && exists[i]
}

/// The plan at `i` names what it must, and its source exists.
pub open spec fn passes(plans: Seq<PlanView>, exists: Seq<bool>, i: int) -> bool {
    plan_is_complete(plans[i]) && source_exists_at(exists, i)
}

/// The plan at `i` is turned away, and every plan before it passes.
pub open spec fn is_first_rejected(plans: Seq<PlanView>, exists: Seq<bool>, i: int) -> bool {
    &&& 0 <= i < plans.len()
    &&& !passes(plans, exists, i)
    &&& forall|k: int| 0 <= k < i ==> passes(plans, exists, k)
}

/// Every plan names what it must and has its source.
pub open spec fn all_pass(plans: Seq<PlanView>, exists: Seq<bool>) -> bool {
    forall|k: int| 0 <= k < plans.len() ==> passes(plans, exists, k)
}

/// The identifiers of the first `n` credentials.
pub open spec fn minted_ids(minted: Seq<CredentialsView>, n: int) -> Seq<Seq<char>> {
    Seq::new(n as nat, |i: int| minted[i].id)
}

/// The identifiers can name `n` new jobs: there are enough of them, no two
/// are the same, and none names a job already.
pub open spec fn ids_usable(minted: Seq<CredentialsView>, n: int, taken: Seq<Seq<char>>) -> bool {
    &&& n <= minted.len()
    &&& minted_ids(minted, n).no_duplicates()
    &&& forall|i: int| 0 <= i < n ==> !taken.contains(#[trigger] minted[i].id)
}

/// Each of the first `n` credentials has two tokens that differ, one for
/// each direction.
pub open spec fn tokens_differ(minted: Seq<CredentialsView>, n: int) -> bool {
    forall|i: int| 0 <= i < n ==> (#[trigger] minted[i]).tokens_apart()
}

/// The credentials can serve `n` new jobs: their identifiers are usable,
/// and the two tokens of each differ.
pub open spec fn credentials_usable(
    minted: Seq<CredentialsView>,
    n: int,
    taken: Seq<Seq<char>>,
) -> bool {
    ids_usable(minted, n, taken) && tokens_differ(minted, n)
}

/// The job that a plan becomes on admission.
pub open spec fn minted_job(plan: PlanView, c: CredentialsView, now: i64) -> JobView {
    JobView {
        id: c.id,
        status: JobStatus::Pending,
        node_id: None,
        input_token: c.input_token,
        output_token: c.output_token,
        created_at: now,
        updated_at: now,
        plan: plan,
    }
}

impl StateView {
    /// The state after the settings were changed to `url`.
    pub open spec fn with_public_base_url(self, url: Seq<char>) -> StateView {
        StateView { public_base_url: trim_end(url, '/'), ..self }
    }

    /// A request to change the base URL: the state it leaves, and whether
    /// it is granted. No URL changes nothing; a URL that is none of HTTP
    /// is refused.
    pub open spec fn settings_changed(self, url: Option<Seq<char>>) -> (
        StateView,
        Result<(), SettingsError>,
    ) {
        match url {
            None => (self, Ok(())),
            Some(u) => if is_http_url(u) {
                (self.with_public_base_url(u), Ok(()))
            } else {
                (self, Err(SettingsError::InvalidUrl))
            },
        }
    }

    /// The state after a token was paired.
    pub open spec fn with_token(self, token: Seq<char>) -> StateView {
        StateView { tokens: self.tokens.insert(token), ..self }
    }

    /// A request to pair a token: the state it leaves, and whether it is
    /// granted. A token that is missing or not 25 long is refused.
    pub open spec fn paired(self, token: Option<Seq<char>>) -> (StateView, Result<(), PairError>) {
        match token {
            Some(t) => if token_length(t) == 25 {
                (self.with_token(t), Ok(()))
            } else {
                (self, Err(PairError::InvalidToken))
            },
            None => (self, Err(PairError::InvalidToken)),
        }
    }

    /// Why a batch is not admitted, if it is not. The first plan that is
    /// turned away decides between `InvalidJob` and `MissingSource`.
    pub open spec fn admission_error(
        self,
        plans: Seq<PlanView>,
        exists: Seq<bool>,
        minted: Seq<CredentialsView>,
    ) -> Option<AdmitError> {
        if plans.len() == 0 {
            Some(AdmitError::NoJobs)
        } else if !all_pass(plans, exists) {
            let i = choose|i: int| is_first_rejected(plans, exists, i);
            if !plan_is_complete(plans[i]) {
                Some(AdmitError::InvalidJob)
            } else {
                Some(AdmitError::MissingSource)
            }
        } else if !credentials_usable(minted, plans.len() as int, self.job_ids()) {
            Some(AdmitError::UnusableCredentials)
        } else {
            None
        }
    }

    /// The state after a batch was admitted: each plan is a pending job, in
    /// order, at the end of the registry and at the tail of the queue.
    pub open spec fn admitted(
        self,
        plans: Seq<PlanView>,
        minted: Seq<CredentialsView>,
        now: i64,
    ) -> StateView {
        StateView {
            jobs: self.jobs + Seq::new(plans.len(), |i: int| minted_job(plans[i], minted[i], now)),
            pending: self.pending + minted_ids(minted, plans.len() as int),
            ..self
        }
    }
}

impl StateView {
    /// Admission of a batch: the state it leaves, and the identifiers of the
    /// jobs admitted or the reason why none was.
    pub open spec fn admission(
        self,
        plans: Seq<PlanView>,
        exists: Seq<bool>,
        minted: Seq<CredentialsView>,
        now: i64,
    ) -> (StateView, Result<Seq<Seq<char>>, AdmitError>) {
        match self.admission_error(plans, exists, minted) {
            Some(e) => (self, Err(e)),
            None => (self.admitted(plans, minted, now), Ok(minted_ids(minted, plans.len() as int))),
        }
    }

    /// Admission of a batch followed by a sweep: the state they leave, and
    /// the identifiers admitted with the leases granted, or the reason why
    /// nothing was admitted.
    pub open spec fn started(
        self,
        plans: Seq<PlanView>,
        exists: Seq<bool>,
        minted: Seq<CredentialsView>,
        now: i64,
    ) -> (StateView, Result<(Seq<Seq<char>>, Seq<DispatchedView>), AdmitError>) {
        match self.admission_error(plans, exists, minted) {
            Some(e) => (self, Err(e)),
            None => {
                let swept = self.admitted(plans, minted, now).sweep(now);
                (swept.0, Ok((minted_ids(minted, plans.len() as int), swept.1)))
            },
        }
    }
}

impl Started {
    pub open spec fn view_of(r: Result<Started, AdmitError>) -> Result<
        (Seq<Seq<char>>, Seq<DispatchedView>),
        AdmitError,
    > {
        match r {
            Ok(s) => Ok((s.accepted.deep_view(), dispatched_view(s.leases@))),
            Err(e) => Err(e),
        }
    }
}

pub open spec fn accepted_view(r: Result<Vec<String>, AdmitError>) -> Result<
    Seq<Seq<char>>,
    AdmitError,
> {
    match r {
        Ok(ids) => Ok(ids.deep_view()),
        Err(e) => Err(e),
    }
}

/// Where a plan is turned away, one plan is the first to be.
pub proof fn lemma_first_rejected(plans: Seq<PlanView>, exists: Seq<bool>, i: int)
    requires
        is_first_rejected(plans, exists, i),
    ensures
        !all_pass(plans, exists),
        (choose|k: int| is_first_rejected(plans, exists, k)) == i,
{
    let c = choose|k: int| is_first_rejected(plans, exists, k);
    assert(is_first_rejected(plans, exists, c));
    if c < i {
        assert(passes(plans, exists, c));
    }
    if i < c {
        assert(passes(plans, exists, i));
    }
}

/// What admission leaves behind: the identifiers of the jobs admitted, and
/// the leases of the sweep that follows.
#[derive(Debug)]
pub struct Started {
    pub accepted: Vec<String>,
    pub leases: Vec<Dispatched>,
}

impl AppState {
    /// Changes the public base URL. `None` changes nothing. The URL is
    /// stored without the slashes at its end.
    pub fn set_public_base_url(&mut self, url: Option<String>) -> (r: Result<(), SettingsError>)
        ensures
            (final(self)@, r) == old(self)@.settings_changed(opt_view(url)),
            url is Some && r is Ok ==> final(self)@.public_base_url.len() == 0
                || final(self)@.public_base_url.last() != '/',
            old(self)@.wf() ==> final(self)@.wf(),
            old(self)@.valid() ==> final(self)@.valid() && old(self)@.steps_to(final(self)@),
    {
        proof {
            crate::laws::lemma_settings_keep_state(self@, Seq::empty(), None, opt_view(url));
        }
        match url {
            None => Ok(()),
            Some(u) => {
                if !(starts_with(u.as_str(), "http://") || starts_with(u.as_str(), "https://")) {
                    return Err(SettingsError::InvalidUrl);
                }
                self.public_base_url = trim_end_matches(u.as_str(), '/').to_owned();
                proof {
                    lemma_trim_end(u@, '/');
                }
                Ok(())
            },
        }
    }

    /// Pairs a token, so that registration accepts it. A token that is not
    /// 25 long is refused, and so is a missing one.
    pub fn pair(&mut self, token: Option<String>) -> (r: Result<(), PairError>)
        ensures
            (final(self)@, r) == old(self)@.paired(opt_view(token)),
            old(self)@.wf() ==> final(self)@.wf(),
            old(self)@.valid() ==> final(self)@.valid() && old(self)@.steps_to(final(self)@),
    {
        proof {
            crate::laws::lemma_settings_keep_state(self@, Seq::empty(), opt_view(token), None);
        }
        match token {
            Some(t) => {
                if t.as_str().as_bytes().len() != 25 {
                    return Err(PairError::InvalidToken);
                }
                insert_name(&mut self.allowed_tokens, t);
                Ok(())
            },
            None => Err(PairError::InvalidToken),
        }
    }
}

/// The media type that a name stands for: `audio`, `video`, and anything
/// else for images.
pub open spec fn media_type_named(name: Seq<char>) -> MediaType {
    if name == "audio"@ {
        MediaType::Audio
    } else if name == "video"@ {
        MediaType::Video
    } else {
        MediaType::Image
    }
}

/// The file extensions, in lower case, that a scan keeps for a media type.
pub open spec fn scan_extensions(media: MediaType) -> Seq<Seq<char>> {
    match media {
        MediaType::Audio => seq![
            "mp3"@,
            "wav"@,
            "flac"@,
            "aac"@,
            "m4a"@,
            "ogg"@,
            "opus"@,
            "wma"@,
            "aiff"@,
            "alac"@,
        ],
        MediaType::Video => seq!["mp4"@, "mkv"@, "mov"@, "avi"@, "webm"@, "m4v"@],
        MediaType::Image => seq![
            "jpg"@,
            "jpeg"@,
            "png"@,
            "webp"@,
            "tiff"@,
            "bmp"@,
            "heic"@,
            "heif"@,
            "avif"@,
        ],
    }
}

/// Whether a scan for `media` keeps a file with this extension. Case does
/// not matter.
pub open spec fn scan_accepts(media: MediaType, extension: Seq<char>) -> bool {
    scan_extensions(media).contains(lowercased(extension))
}

/// The sum of the sizes of the plans.
pub open spec fn total_size(plans: Seq<PlanView>) -> nat
    decreases plans.len(),
{
    if plans.len() == 0 {
        0
    } else {
        total_size(plans.drop_last()) + plans.last().size_bytes as nat
    }
}

fn is_one_of(names: &Vec<&'static str>, name: &str) -> (r: bool)
    ensures
        r == names.deep_view().contains(name@),
{
    let mut i: usize = 0;
    while i < names.len()
        invariant
            i <= names.len(),
            forall|j: int| 0 <= j < i ==> names.deep_view()[j] != name@,
        decreases names.len() - i,
    {
        assert(names.deep_view()[i as int] == names@[i as int]@);
        if str_eq(names[i], name) {
            return true;
        }
        i += 1;
    }
    false
}

/// Whether a scan for `media` keeps a file with this extension, given
/// without its dot.
pub fn accepts_extension(media: MediaType, extension: &str) -> (r: bool)
    ensures
        r == scan_accepts(media, extension@),
{
    let lower = to_lowercase(extension);
    extension_listed(media, lower.as_str())
}

/// Whether `lower`, an extension in lower case and without its dot, is one
/// of those that a scan for `media` keeps.
pub fn extension_listed(media: MediaType, lower: &str) -> (r: bool)
    ensures
        r == scan_extensions(media).contains(lower@),
{
    let mut list: Vec<&'static str> = Vec::new();
    assert(list.deep_view() =~= Seq::<Seq<char>>::empty());
    match media {
        MediaType::Audio => {
            push_name(&mut list, "mp3");
            push_name(&mut list, "wav");
            push_name(&mut list, "flac");
            push_name(&mut list, "aac");
            push_name(&mut list, "m4a");
            push_name(&mut list, "ogg");
            push_name(&mut list, "opus");
            push_name(&mut list, "wma");
            push_name(&mut list, "aiff");
            push_name(&mut list, "alac");
        },
        MediaType::Video => {
            push_name(&mut list, "mp4");
            push_name(&mut list, "mkv");
            push_name(&mut list, "mov");
            push_name(&mut list, "avi");
            push_name(&mut list, "webm");
            push_name(&mut list, "m4v");
        },
        MediaType::Image => {
            push_name(&mut list, "jpg");
            push_name(&mut list, "jpeg");
            push_name(&mut list, "png");
            push_name(&mut list, "webp");
            push_name(&mut list, "tiff");
            push_name(&mut list, "bmp");
            push_name(&mut list, "heic");
            push_name(&mut list, "heif");
            push_name(&mut list, "avif");
        },
    }
    assert(list.deep_view() =~= scan_extensions(media));
    is_one_of(&list, lower)
}

/// The media type that `lower`, a name in lower case, stands for.
pub fn media_type_of(lower: &str) -> (r: MediaType)
    ensures
        r == media_type_named(lower@),
{
    if str_eq(lower, "audio") {
        MediaType::Audio
    } else if str_eq(lower, "video") {
        MediaType::Video
    } else {
        MediaType::Image
    }
}

/// What a scan does with one entry of the tree it walks.
#[derive(Clone, Copy, Debug, PartialEq, Eq, Structural)]
pub enum ScanStep {
    /// The walk ends here.
    Stop,
    /// The entry is passed over.
    Skip,
    /// The entry is a file: it is kept if its extension is listed.
    Examine,
}

/// What a scan does with an entry, `depth` levels below the root. A
/// directory is passed over, but a scan that does not descend ends at the
/// first directory deeper than one level. Of the rest, files are looked
/// at, and what is no file is passed over.
pub open spec fn scan_step_of(recursive: bool, is_dir: bool, depth: usize, is_file: bool) -> ScanStep {
    if is_dir {
        if !recursive && depth > 1 {
            ScanStep::Stop
        } else {
            ScanStep::Skip
        }
    } else if is_file {
        ScanStep::Examine
    } else {
        ScanStep::Skip
    }
}

/// Decides what a scan does with an entry of the tree.
pub fn scan_step(recursive: bool, is_dir: bool, depth: usize, is_file: bool) -> (r: ScanStep)
    ensures
        r == scan_step_of(recursive, is_dir, depth, is_file),
{
    if is_dir {
        if !recursive && depth > 1 {
            ScanStep::Stop
        } else {
            ScanStep::Skip
        }
    } else if is_file {
        ScanStep::Examine
    } else {
        ScanStep::Skip
    }
}

/// The path of a file below the root of the scan: the one that was worked
/// out, or the file's name where none could be.
pub fn relative_or_name(relative: Option<String>, file_name: &str) -> (r: String)
    ensures
        r@ == match opt_view(relative) {
            Some(p) => p,
            None => file_name@,
        },
{
    match relative {
        Some(p) => p,
        None => file_name.to_owned(),
    }
}

impl ScanRequest {
    /// A request that names both roots, the media type and the codec.
    pub open spec fn well_formed(self) -> bool {
        self.input_root@.len() > 0 && self.output_root@.len() > 0 && self.media_type@.len() > 0
            && self.codec@.len() > 0
    }

    pub fn is_valid(&self) -> (r: bool)
        ensures
            r == self.well_formed(),
    {
        !self.input_root.as_str().is_empty() && !self.output_root.as_str().is_empty()
            && !self.media_type.as_str().is_empty() && !self.codec.as_str().is_empty()
    }

    /// The media type the request asks for.
    pub fn media(&self) -> (r: MediaType)
        ensures
            r == media_type_named(lowercased(self.media_type@)),
    {
        let name = to_lowercase(self.media_type.as_str());
        media_type_of(name.as_str())
    }

    /// What of a file's path the output keeps below the output root: the
    /// path below the input root where outputs mirror the tree, the file's
    /// name alone where they do not.
    pub fn output_part(&self, relative: &str, file_name: &str) -> (r: String)
        ensures
            r@ == if self.mirror_structure != Some(false) {
                relative@
            } else {
                file_name@
            },
    {
        if self.mirrors() {
            relative.to_owned()
        } else {
            file_name.to_owned()
        }
    }

    /// Whether the scan descends into directories; it does unless told not to.
    pub fn is_recursive(&self) -> (r: bool)
        ensures
            r == (self.recursive != Some(false)),
    {
        match self.recursive {
            Some(b) => b,
            None => true,
        }
    }

    /// Whether outputs mirror the tree of the inputs; they do unless told not to.
    pub fn mirrors(&self) -> (r: bool)
        ensures
            r == (self.mirror_structure != Some(false)),
    {
        match self.mirror_structure {
            Some(b) => b,
            None => true,
        }
    }

    /// The plan for one file that the scan keeps.
    pub fn plan_for(
        &self,
        source_path: String,
        relative_path: String,
        size_bytes: u64,
        output_path: String,
    ) -> (p: PlanJob)
        ensures
            p@ == (PlanView {
                source_path: source_path@,
                relative_path: relative_path@,
                media_type: media_type_named(lowercased(self.media_type@)),
                size_bytes: size_bytes,
                output_path: output_path@,
                codec: self.codec@,
                options: None,
            }),
    {
        PlanJob {
            source_path: source_path,
            relative_path: relative_path,
            media_type: self.media(),
            size_bytes: size_bytes,
            output_path: output_path,
            codec: self.codec.clone(),
            options: None,
        }
    }
}

impl ScanResponse {
    /// The answer for the plans of a scan: their number, and the sum of
    /// their sizes as far as 64 bits hold it.
    pub fn of(jobs: Vec<PlanJob>) -> (r: ScanResponse)
        ensures
            r.jobs == jobs,
            r.count == jobs.len(),
            r.total_bytes == total_size(plans_view(jobs@)) % 0x1_0000_0000_0000_0000,
    {
        let ghost all = plans_view(jobs@);
        let mut total: u128 = 0;
        let mut i: usize = 0;
        assert(all.take(0) =~= Seq::empty());
        while i < jobs.len()
            invariant
                i <= jobs.len(),
                all == plans_view(jobs@),
                total == total_size(all.take(i as int)),
                total <= i * 0xffff_ffff_ffff_ffff,
            decreases jobs.len() - i,
        {
            assert(all.take(i as int + 1).drop_last() =~= all.take(i as int));
            assert(all.take(i as int + 1).last().size_bytes == jobs@[i as int].size_bytes);
            assert((i + 1) * 0xffff_ffff_ffff_ffff == i * 0xffff_ffff_ffff_ffff
                + 0xffff_ffff_ffff_ffff) by (nonlinear_arith);
            assert(i * 0xffff_ffff_ffff_ffff <= 0xffff_ffff_ffff_ffff * 0xffff_ffff_ffff_ffff)
                by (nonlinear_arith)
                requires
                    i <= 0xffff_ffff_ffff_ffff,
            ;
            total = total + jobs[i].size_bytes as u128;
            i += 1;
        }
        assert(all.take(i as int) =~= all);
        let total_bytes: u64 = (total % 0x1_0000_0000_0000_0000) as u64;
        ScanResponse { count: jobs.len(), total_bytes: total_bytes, jobs: jobs }
    }
}

impl AppState {
    /// Admits a batch of plans at the time `now`, with the credentials
    /// minted for it: `minted[i]` names the job of `plans[i]`.
    /// `source_exists[i]` says whether the source of `plans[i]` exists; a
    /// plan without a flag counts as one without a source.
    ///
    /// On success each plan is a pending job at the tail of the queue, and
    /// the identifiers of the jobs are returned in order. On an error the
    /// state is as it was. Credentials whose identifier is in use or
    /// repeats, or whose two tokens are the same, are refused.
    pub fn admit_with(
        &mut self,
        plans: Vec<PlanJob>,
        source_exists: &Vec<bool>,
        minted: Vec<Credentials>,
        now: i64,
    ) -> (r: Result<Vec<String>, AdmitError>)
        ensures
            (final(self)@, accepted_view(r)) == old(self)@.admission(
                plans_view(plans@),
                source_exists@,
                credentials_view(minted@),
                now,
            ),
            old(self)@.wf() ==> final(self)@.wf(),
            old(self)@.valid() ==> final(self)@.valid() && old(self)@.steps_to(final(self)@),
    {
        let ghost start = self@;
        proof {
            if start.wf() {
                crate::laws::lemma_admission_keeps_state(
                    start,
                    plans_view(plans@),
                    source_exists@,
                    credentials_view(minted@),
                    now,
                );
            }
        }
        let ghost pv = plans_view(plans@);
        let ghost cv = credentials_view(minted@);
        let n = plans.len();
        if n == 0 {
            return Err(AdmitError::NoJobs);
        }
        let mut i: usize = 0;
        while i < n
            invariant
                i <= n,
                n == plans.len(),
                pv == plans_view(plans@),
                forall|k: int| 0 <= k < i ==> passes(pv, source_exists@, k),
            decreases n - i,
        {
            let p = &plans[i];
            assert(pv[i as int] == p@);
            let no_source = str_is_blank(p.source_path.as_str());
            let no_output = str_is_blank(p.output_path.as_str());
            let no_codec = str_is_blank(p.codec.as_str());
            if no_source || no_output || no_codec {
                proof {
                    lemma_first_rejected(pv, source_exists@, i as int);
                }
                return Err(AdmitError::InvalidJob);
            }
            if !(i < source_exists.len() && source_exists[i]) {
                proof {
                    lemma_first_rejected(pv, source_exists@, i as int);
                }
                return Err(AdmitError::MissingSource);
            }
            assert(passes(pv, source_exists@, i as int));
            i += 1;
        }
        assert(all_pass(pv, source_exists@));
        if minted.len() < n {
            return Err(AdmitError::UnusableCredentials);
        }
        let ghost ids = minted_ids(cv, n as int);
        let mut i: usize = 0;
        while i < n
            invariant
                i <= n,
                n == plans.len(),
                n <= minted.len(),
                start == self@,
                pv == plans_view(plans@),
                all_pass(pv, source_exists@),
                cv == credentials_view(minted@),
                ids == minted_ids(cv, n as int),
                forall|a: int, b: int| 0 <= a < b < i ==> ids[a] != ids[b],
                forall|k: int| 0 <= k < i ==> !start.job_ids().contains(#[trigger] cv[k].id),
                tokens_differ(cv, i as int),
            decreases n - i,
        {
            let id = minted[i].id.as_str();
            assert(cv[i as int].id == id@);
            if str_eq(minted[i].input_token.as_str(), minted[i].output_token.as_str()) {
                assert(!cv[i as int].tokens_apart());
                return Err(AdmitError::UnusableCredentials);
            }
            assert(cv[i as int].tokens_apart());
            proof {
                crate::state::lemma_position_found(start.job_ids(), id@);
            }
            if self.find_job(id).is_some() {
                assert(start.job_ids().contains(cv[i as int].id));
                return Err(AdmitError::UnusableCredentials);
            }
            let mut k: usize = 0;
            while k < i
                invariant
                    k <= i < n,
                    n == plans.len(),
                    n <= minted.len(),
                    start == self@,
                    pv == plans_view(plans@),
                    all_pass(pv, source_exists@),
                    cv == credentials_view(minted@),
                    ids == minted_ids(cv, n as int),
                    id@ == cv[i as int].id,
                    forall|a: int| 0 <= a < k ==> ids[a] != ids[i as int],
                    tokens_differ(cv, i as int + 1),
                decreases i - k,
            {
                assert(cv[k as int].id == minted@[k as int].id@);
                if str_eq(minted[k].id.as_str(), id) {
                    assert(ids[k as int] == ids[i as int]);
                    return Err(AdmitError::UnusableCredentials);
                }
                k += 1;
            }
            i += 1;
        }
        assert(credentials_usable(cv, n as int, start.job_ids()));
        let mut accepted: Vec<String> = Vec::new();
        let mut i: usize = 0;
        assert(self@.jobs =~= start.jobs + Seq::new(0, |k: int| minted_job(pv[k], cv[k], now)));
        assert(self@.pending =~= start.pending + minted_ids(cv, 0));
        assert(accepted.deep_view() =~= minted_ids(cv, 0));
        while i < n
            invariant
                i <= n,
                n == plans.len(),
                n <= minted.len(),
                pv == plans_view(plans@),
                cv == credentials_view(minted@),
                self@.agents == start.agents,
                self@.channels == start.channels,
                self@.tokens == start.tokens,
                self@.public_base_url == start.public_base_url,
                self@.jobs == start.jobs + Seq::new(i as nat, |k: int| minted_job(pv[k], cv[k], now)),
                self@.pending == start.pending + minted_ids(cv, i as int),
                accepted.deep_view() == minted_ids(cv, i as int),
            decreases n - i,
        {
            let ghost jobs_before = self@.jobs;
            let ghost pending_before = self@.pending;
            let ghost accepted_before = accepted.deep_view();
            let c = &minted[i];
            let job = Job {
                id: c.id.clone(),
                status: JobStatus::Pending,
                node_id: None,
                input_token: c.input_token.clone(),
                output_token: c.output_token.clone(),
                created_at: now,
                updated_at: now,
                plan: plans[i].clone(),
            };
            assert(job@ == minted_job(pv[i as int], cv[i as int], now));
            self.jobs.push(job);
            self.pending_jobs.push_back(c.id.clone());
            accepted.push(c.id.clone());
            assert(self@.jobs =~= jobs_before.push(minted_job(pv[i as int], cv[i as int], now)));
            assert(self@.jobs =~= start.jobs + Seq::new(
                (i + 1) as nat,
                |k: int| minted_job(pv[k], cv[k], now),
            ));
            assert(self@.pending =~= pending_before.push(cv[i as int].id));
            assert(self@.pending =~= start.pending + minted_ids(cv, i as int + 1));
            assert(accepted.deep_view() =~= accepted_before.push(cv[i as int].id));
            assert(accepted.deep_view() =~= minted_ids(cv, i as int + 1));
            i += 1;
        }
        Ok(accepted)
    }

    /// Admits a batch of plans at the time `now` and sweeps the queue.
    pub fn start_at(
        &mut self,
        plans: Vec<PlanJob>,
        source_exists: &Vec<bool>,
        minted: Vec<Credentials>,
        now: i64,
    ) -> (r: Result<Started, AdmitError>)
        ensures
            (final(self)@, Started::view_of(r)) == old(self)@.started(
                plans_view(plans@),
                source_exists@,
                credentials_view(minted@),
                now,
            ),
            old(self)@.wf() ==> final(self)@.wf(),
            old(self)@.valid() ==> final(self)@.valid() && old(self)@.steps_to(final(self)@),
    {
        match self.admit_with(plans, source_exists, minted, now) {
            Ok(accepted) => {
                let leases = self.try_dispatch_at(now);
                Ok(Started { accepted: accepted, leases: leases })
            },
            Err(e) => Err(e),
        }
    }

    /// Admits the plans of a request at the present time, with freshly
    /// minted credentials, one for each plan and each made of random UUIDs,
    /// and sweeps the queue.
    pub fn start(&mut self, payload: StartPayload, source_exists: &Vec<bool>) -> (r: Result<
        Started,
        AdmitError,
    >)
        ensures
            exists|minted: Seq<CredentialsView>, now: i64|
                minted.len() == payload.jobs@.len() && all_minted(minted) && (
                    final(self)@,
                    Started::view_of(r),
                ) == #[trigger] old(self)@.started(
                    plans_view(payload.jobs@),
                    source_exists@,
                    minted,
                    now,
                ),
            old(self)@.wf() ==> final(self)@.wf(),
            old(self)@.valid() ==> final(self)@.valid() && old(self)@.steps_to(final(self)@),
    {
        let mut minted: Vec<Credentials> = Vec::new();
        let mut i: usize = 0;
        while i < payload.jobs.len()
            invariant
                i <= payload.jobs.len(),
                minted.len() == i,
                all_minted(credentials_view(minted@)),
            decreases payload.jobs.len() - i,
        {
            let ghost before = credentials_view(minted@);
            let fresh = Credentials::mint();
            minted.push(fresh);
            let ghost after = credentials_view(minted@);
            assert forall|k: int| 0 <= k < after.len() implies (#[trigger] after[k]).minted() by {
                if k < before.len() {
                    assert(after[k] == before[k]);
                }
            }
            i += 1;
        }
        let now = now_millis();
        self.start_at(payload.jobs, source_exists, minted, now)
    }
}

} // verus!
