//! The argument planner: from a job's plan to the transcoder's argument
//! list, the output extension, and the encoders that can serve the plan.

use crate::jobs::{Job, MediaType, PlanOptionsView, PlanView};
use crate::text::{contains_name, push_name, push_str, str_eq};
use vstd::prelude::*;

verus! {

/// The extension of the output file for a media type and a requested codec.
pub open spec fn output_ext(media: MediaType, codec: Seq<char>) -> Seq<char> {
    match media {
        MediaType::Audio => {
            if codec == "flac"@ {
                ".flac"@
            } else if codec == "mp3"@ {
                ".mp3"@
            } else if codec == "opus"@ {
                ".opus"@
            } else if codec == "ogg"@ || codec == "vorbis"@ {
                ".ogg"@
            } else {
                ".m4a"@
            }
        },
        MediaType::Video => {
            if codec == "av1"@ {
                ".mkv"@
            } else if codec == "vp9"@ {
                ".webm"@
            } else {
                ".mp4"@
            }
        },
        MediaType::Image => {
            if codec == "avif"@ {
                ".avif"@
            } else if codec == "heic"@ {
                ".heic"@
            } else if codec == "heif"@ {
                ".heif"@
            } else if codec == "webp"@ {
                ".webp"@
            } else if codec == "jpeg"@ || codec == "jpg"@ {
                ".jpg"@
            } else {
                ".png"@
            }
        },
    }
}

/// The arguments every invocation starts with.
pub open spec fn base_args() -> Seq<Seq<char>> {
    seq!["-hide_banner"@, "-nostdin"@, "-y"@, "-progress"@, "pipe:1"@, "-loglevel"@, "error"@]
}

/// The arguments of an audio conversion: no video, then the codec and its quality.
pub open spec fn audio_args(codec: Seq<char>) -> Seq<Seq<char>> {
    if codec == "flac"@ {
        seq!["-vn"@, "-c:a"@, "flac"@]
    } else if codec == "alac"@ {
        seq!["-vn"@, "-c:a"@, "alac"@]
    } else if codec == "mp3"@ {
        seq!["-vn"@, "-c:a"@, "libmp3lame"@, "-b:a"@, "192k"@]
    } else if codec == "opus"@ {
        seq!["-vn"@, "-c:a"@, "libopus"@, "-b:a"@, "160k"@]
    } else if codec == "ogg"@ || codec == "vorbis"@ {
        seq!["-vn"@, "-c:a"@, "libvorbis"@, "-q:a"@, "5"@]
    } else {
        seq!["-vn"@, "-c:a"@, "aac"@, "-b:a"@, "192k"@]
    }
}

/// The constant rate factor of a video codec, as the transcoder reads it.
pub open spec fn video_crf(codec: Seq<char>) -> Seq<char> {
    if codec == "h265"@ || codec == "hevc"@ {
        "28"@
    } else if codec == "av1"@ {
        "32"@
    } else {
        "23"@
    }
}

/// The encoder and quality arguments of a video conversion.
///
/// With an encoder chosen for the agent, the encoder is named as given and
/// the knobs follow the codec's family. Without one, the codec's default
/// software encoder is used.
pub open spec fn video_codec_args(codec: Seq<char>, encoder: Option<Seq<char>>) -> Seq<Seq<char>> {
    let crf = video_crf(codec);
    match encoder {
        Some(enc) => {
            if codec == "vp9"@ {
                seq!["-c:v"@, enc, "-b:v"@, "0"@, "-crf"@, crf, "-row-mt"@, "1"@]
            } else if codec == "av1"@ {
                seq!["-c:v"@, enc, "-crf"@, crf]
            } else {
                seq!["-c:v"@, enc, "-preset"@, "medium"@, "-crf"@, crf]
            }
        },
        None => {
            if codec == "h265"@ || codec == "hevc"@ {
                seq!["-c:v"@, "libx265"@, "-preset"@, "medium"@, "-crf"@, crf]
            } else if codec == "av1"@ {
                seq!["-c:v"@, "libsvtav1"@, "-preset"@, "6"@, "-crf"@, crf]
            } else if codec == "vp9"@ {
                seq!["-c:v"@, "libvpx-vp9"@, "-b:v"@, "0"@, "-crf"@, crf, "-row-mt"@, "1"@]
            } else {
                seq!["-c:v"@, "libx264"@, "-preset"@, "medium"@, "-crf"@, crf]
            }
        },
    }
}

/// Whether the options ask for the audio track of a video to be re-encoded.
pub open spec fn reencodes_audio(options: Option<PlanOptionsView>) -> bool {
    options matches Some(o) && o.audio_copy == Some(false)
}

/// The bitrate of a re-encoded audio track: the one asked for, else 160k.
pub open spec fn audio_bitrate(options: Option<PlanOptionsView>) -> Seq<char> {
    match options {
        Some(o) => match o.audio_bitrate {
            Some(b) => b,
            None => "160k"@,
        },
        None => "160k"@,
    }
}

/// The arguments for the audio track of a video: copied, unless the options
/// ask for AAC at a bitrate.
pub open spec fn audio_track_args(options: Option<PlanOptionsView>) -> Seq<Seq<char>> {
    if reencodes_audio(options) {
        seq!["-c:a"@, "aac"@, "-b:a"@, audio_bitrate(options)]
    } else {
        seq!["-c:a"@, "copy"@]
    }
}

/// The arguments of a video conversion.
pub open spec fn video_args(
    codec: Seq<char>,
    encoder: Option<Seq<char>>,
    options: Option<PlanOptionsView>,
) -> Seq<Seq<char>> {
    seq!["-pix_fmt"@, "yuv420p"@] + video_codec_args(codec, encoder) + audio_track_args(options)
}

/// The arguments of a single-frame image conversion.
pub open spec fn image_args(codec: Seq<char>) -> Seq<Seq<char>> {
    if codec == "avif"@ {
        seq![
            "-c:v"@,
            "libaom-av1"@,
            "-still-picture"@,
            "1"@,
            "-b:v"@,
            "0"@,
            "-crf"@,
            "28"@,
            "-frames:v"@,
            "1"@,
        ]
    } else if codec == "heic"@ || codec == "heif"@ {
        seq!["-c:v"@, "libx265"@, "-frames:v"@, "1"@]
    } else if codec == "webp"@ {
        seq!["-c:v"@, "libwebp"@, "-q:v"@, "80"@, "-frames:v"@, "1"@]
    } else if codec == "jpeg"@ || codec == "jpg"@ {
        seq!["-c:v"@, "mjpeg"@, "-q:v"@, "2"@, "-frames:v"@, "1"@]
    } else {
        seq!["-c:v"@, "png"@, "-frames:v"@, "1"@]
    }
}

/// The transcoder's argument list for a plan. `encoder` is the encoder
/// chosen for the agent; only a video plan reads it.
pub open spec fn ffmpeg_args(plan: PlanView, encoder: Option<Seq<char>>) -> Seq<Seq<char>> {
    base_args() + match plan.media_type {
        MediaType::Audio => audio_args(plan.codec),
        MediaType::Video => video_args(plan.codec, encoder, plan.options),
        MediaType::Image => image_args(plan.codec),
    }
}

/// The encoder names that can serve a media type and codec, most preferred
/// first: hardware encoders before software ones.
pub open spec fn required(media: MediaType, codec: Seq<char>) -> Seq<Seq<char>> {
    match media {
        MediaType::Audio => {
            if codec == "flac"@ {
                seq!["flac"@]
            } else if codec == "alac"@ {
                seq!["alac"@]
            } else if codec == "mp3"@ {
                seq!["libmp3lame"@, "mp3"@]
            } else if codec == "opus"@ {
                seq!["libopus"@, "opus"@]
            } else if codec == "ogg"@ || codec == "vorbis"@ {
                seq!["libvorbis"@, "vorbis"@]
            } else {
                seq!["aac"@]
            }
        },
        MediaType::Video => {
            if codec == "h264"@ {
                seq!["h264_nvenc"@, "h264_qsv"@, "h264_videotoolbox"@, "libx264"@, "h264"@]
            } else if codec == "h265"@ || codec == "hevc"@ {
                seq![
                    "hevc_nvenc"@,
                    "hevc_qsv"@,
                    "hevc_videotoolbox"@,
                    "libx265"@,
                    "hevc"@,
                    "h265"@,
                ]
            } else if codec == "av1"@ {
                seq!["av1_nvenc"@, "av1_qsv"@, "libsvtav1"@, "libaom-av1"@, "av1"@]
            } else if codec == "vp9"@ {
                seq!["vp9_qsv"@, "libvpx-vp9"@, "vp9"@]
            } else {
                seq!["libx264"@, "h264"@]
            }
        },
        MediaType::Image => {
            if codec == "avif"@ {
                seq!["libaom-av1"@]
            } else if codec == "heic"@ || codec == "heif"@ {
                seq!["libx265"@]
            } else if codec == "webp"@ {
                seq!["libwebp"@]
            } else if codec == "jpeg"@ || codec == "jpg"@ {
                seq!["mjpeg"@]
            } else {
                seq!["png"@]
            }
        },
    }
}

/// The first of `candidates` that occurs in `have`, if any does.
pub open spec fn first_match(candidates: Seq<Seq<char>>, have: Seq<Seq<char>>) -> Option<Seq<char>>
    decreases candidates.len(),
{
    if candidates.len() == 0 {
        None
    } else if have.contains(candidates[0]) {
        Some(candidates[0])
    } else {
        first_match(candidates.drop_first(), have)
    }
}

/// Whether some name occurs in both lists.
pub open spec fn intersects(candidates: Seq<Seq<char>>, have: Seq<Seq<char>>) -> bool {
    exists|i: int| 0 <= i < candidates.len() && have.contains(#[trigger] candidates[i])
}

/// The encoder the dispatcher names for an agent that advertises `have`:
/// for a video plan the agent's most preferred encoder, otherwise none.
pub open spec fn preferred_encoder(plan: PlanView, have: Seq<Seq<char>>) -> Option<Seq<char>> {
    if plan.media_type == MediaType::Video {
        first_match(required(plan.media_type, plan.codec), have)
    } else {
        None
    }
}

pub open spec fn opt_str_view(s: Option<&str>) -> Option<Seq<char>> {
    match s {
        Some(x) => Some(x@),
        None => None,
    }
}

/// `first_match` finds a name exactly when the two lists intersect, and the
/// name it finds is the earliest candidate that `have` contains.
pub proof fn lemma_first_match(candidates: Seq<Seq<char>>, have: Seq<Seq<char>>)
    ensures
        first_match(candidates, have) is Some <==> intersects(candidates, have),
        first_match(candidates, have) matches Some(c) ==> exists|i: int|
            0 <= i < candidates.len() && #[trigger] candidates[i] == c && have.contains(c)
                && forall|j: int| 0 <= j < i ==> !have.contains(#[trigger] candidates[j]),
    decreases candidates.len(),
{
    if candidates.len() == 0 {
    } else if have.contains(candidates[0]) {
        assert(candidates[0] == candidates[0]);
    } else {
        let rest = candidates.drop_first();
        lemma_first_match(rest, have);
        if intersects(candidates, have) {
            let i = choose|i: int| 0 <= i < candidates.len() && have.contains(#[trigger] candidates[i]);
            assert(rest[i - 1] == candidates[i]);
        }
        if first_match(rest, have) is Some {
            let c = first_match(rest, have)->0;
            let i = choose|i: int|
                0 <= i < rest.len() && #[trigger] rest[i] == c && have.contains(c)
                    && forall|j: int| 0 <= j < i ==> !have.contains(#[trigger] rest[j]);
            assert(candidates[i + 1] == rest[i]);
            assert forall|j: int| 0 <= j < i + 1 implies !have.contains(#[trigger] candidates[j]) by {
                if j > 0 {
                    assert(candidates[j] == rest[j - 1]);
                }
            }
        }
    }
}

/// The extension of the output file for a media type and codec.
pub fn compute_output_ext(media_type: &MediaType, codec: &str) -> (r: String)
    ensures
        r@ == output_ext(*media_type, codec@),
{
    let ext: &str = match media_type {
        MediaType::Audio => {
            if str_eq(codec, "flac") {
                ".flac"
            } else if str_eq(codec, "mp3") {
                ".mp3"
            } else if str_eq(codec, "opus") {
                ".opus"
            } else if str_eq(codec, "ogg") || str_eq(codec, "vorbis") {
                ".ogg"
            } else {
                ".m4a"
            }
        },
        MediaType::Video => {
            if str_eq(codec, "av1") {
                ".mkv"
            } else if str_eq(codec, "vp9") {
                ".webm"
            } else {
                ".mp4"
            }
        },
        MediaType::Image => {
            if str_eq(codec, "avif") {
                ".avif"
            } else if str_eq(codec, "heic") {
                ".heic"
            } else if str_eq(codec, "heif") {
                ".heif"
            } else if str_eq(codec, "webp") {
                ".webp"
            } else if str_eq(codec, "jpeg") || str_eq(codec, "jpg") {
                ".jpg"
            } else {
                ".png"
            }
        },
    };
    ext.to_owned()
}

/// The transcoder's argument list for a job, with the default encoders.
pub fn build_ffmpeg_args(job: &Job) -> (args: Vec<String>)
    ensures
        args.deep_view() == ffmpeg_args(job.plan@, None),
{
    build_ffmpeg_args_with_encoder(job, None)
}

fn push_audio_args(args: &mut Vec<String>, codec: &str)
    ensures
        final(args).deep_view() == old(args).deep_view() + audio_args(codec@),
{
    let ghost before = args.deep_view();
    push_str(args, "-vn");
    push_str(args, "-c:a");
    if str_eq(codec, "flac") {
        push_str(args, "flac");
    } else if str_eq(codec, "alac") {
        push_str(args, "alac");
    } else if str_eq(codec, "mp3") {
        push_str(args, "libmp3lame");
        push_str(args, "-b:a");
        push_str(args, "192k");
    } else if str_eq(codec, "opus") {
        push_str(args, "libopus");
        push_str(args, "-b:a");
        push_str(args, "160k");
    } else if str_eq(codec, "ogg") || str_eq(codec, "vorbis") {
        push_str(args, "libvorbis");
        push_str(args, "-q:a");
        push_str(args, "5");
    } else {
        push_str(args, "aac");
        push_str(args, "-b:a");
        push_str(args, "192k");
    }
    assert(args.deep_view() =~= before + audio_args(codec@));
}

fn push_video_codec_args(args: &mut Vec<String>, codec: &str, encoder: Option<&str>)
    ensures
        final(args).deep_view() == old(args).deep_view() + video_codec_args(
            codec@,
            opt_str_view(encoder),
        ),
{
    let ghost before = args.deep_view();
    let crf: &str = if str_eq(codec, "h265") || str_eq(codec, "hevc") {
        "28"
    } else if str_eq(codec, "av1") {
        "32"
    } else {
        "23"
    };
    push_str(args, "-c:v");
    match encoder {
        Some(enc) => {
            push_str(args, enc);
            if str_eq(codec, "vp9") {
                push_str(args, "-b:v");
                push_str(args, "0");
                push_str(args, "-crf");
                push_str(args, crf);
                push_str(args, "-row-mt");
                push_str(args, "1");
            } else if str_eq(codec, "av1") {
                push_str(args, "-crf");
                push_str(args, crf);
            } else {
                push_str(args, "-preset");
                push_str(args, "medium");
                push_str(args, "-crf");
                push_str(args, crf);
            }
        },
        None => {
            if str_eq(codec, "h265") || str_eq(codec, "hevc") {
                push_str(args, "libx265");
                push_str(args, "-preset");
                push_str(args, "medium");
                push_str(args, "-crf");
                push_str(args, crf);
            } else if str_eq(codec, "av1") {
                push_str(args, "libsvtav1");
                push_str(args, "-preset");
                push_str(args, "6");
                push_str(args, "-crf");
                push_str(args, crf);
            } else if str_eq(codec, "vp9") {
                push_str(args, "libvpx-vp9");
                push_str(args, "-b:v");
                push_str(args, "0");
                push_str(args, "-crf");
                push_str(args, crf);
                push_str(args, "-row-mt");
                push_str(args, "1");
            } else {
                push_str(args, "libx264");
                push_str(args, "-preset");
                push_str(args, "medium");
                push_str(args, "-crf");
                push_str(args, crf);
            }
        },
    }
    assert(args.deep_view() =~= before + video_codec_args(codec@, opt_str_view(encoder)));
}

fn push_audio_track_args(args: &mut Vec<String>, job: &Job)
    ensures
        final(args).deep_view() == old(args).deep_view() + audio_track_args(job.plan@.options),
{
    let ghost before = args.deep_view();
    push_str(args, "-c:a");
    let reencode = match &job.plan.options {
        Some(o) => match o.audio_copy {
            Some(copy) => !copy,
            None => false,
        },
        None => false,
    };
    if reencode {
        push_str(args, "aac");
        push_str(args, "-b:a");
        match &job.plan.options {
            Some(o) => match &o.audio_bitrate {
                Some(b) => push_str(args, b.as_str()),
                None => push_str(args, "160k"),
            },
            None => push_str(args, "160k"),
        }
    } else {
        push_str(args, "copy");
    }
    assert(args.deep_view() =~= before + audio_track_args(job.plan@.options));
}

fn push_image_args(args: &mut Vec<String>, codec: &str)
    ensures
        final(args).deep_view() == old(args).deep_view() + image_args(codec@),
{
    let ghost before = args.deep_view();
    push_str(args, "-c:v");
    if str_eq(codec, "avif") {
        push_str(args, "libaom-av1");
        push_str(args, "-still-picture");
        push_str(args, "1");
        push_str(args, "-b:v");
        push_str(args, "0");
        push_str(args, "-crf");
        push_str(args, "28");
    } else if str_eq(codec, "heic") || str_eq(codec, "heif") {
        push_str(args, "libx265");
    } else if str_eq(codec, "webp") {
        push_str(args, "libwebp");
        push_str(args, "-q:v");
        push_str(args, "80");
    } else if str_eq(codec, "jpeg") || str_eq(codec, "jpg") {
        push_str(args, "mjpeg");
        push_str(args, "-q:v");
        push_str(args, "2");
    } else {
        push_str(args, "png");
    }
    push_str(args, "-frames:v");
    push_str(args, "1");
    assert(args.deep_view() =~= before + image_args(codec@));
}

/// The transcoder's argument list for a job. `selected_video_encoder` names
/// the encoder chosen for the agent that will run a video job; other jobs
/// ignore it.
pub fn build_ffmpeg_args_with_encoder(job: &Job, selected_video_encoder: Option<&str>) -> (args:
    Vec<String>)
    ensures
        args.deep_view() == ffmpeg_args(job.plan@, opt_str_view(selected_video_encoder)),
{
    let mut args: Vec<String> = Vec::new();
    assert(args.deep_view() =~= Seq::<Seq<char>>::empty());
    push_str(&mut args, "-hide_banner");
    push_str(&mut args, "-nostdin");
    push_str(&mut args, "-y");
    push_str(&mut args, "-progress");
    push_str(&mut args, "pipe:1");
    push_str(&mut args, "-loglevel");
    push_str(&mut args, "error");
    assert(args.deep_view() =~= base_args());
    let codec = job.plan.codec.as_str();
    match job.plan.media_type {
        MediaType::Audio => {
            push_audio_args(&mut args, codec);
        },
        MediaType::Video => {
            push_str(&mut args, "-pix_fmt");
            push_str(&mut args, "yuv420p");
            push_video_codec_args(&mut args, codec, selected_video_encoder);
            push_audio_track_args(&mut args, job);
            assert(args.deep_view() =~= base_args() + video_args(
                codec@,
                opt_str_view(selected_video_encoder),
                job.plan@.options,
            ));
        },
        MediaType::Image => {
            push_image_args(&mut args, codec);
        },
    }
    args
}

/// The encoder names that can serve a job, most preferred first.
pub fn required_encoders(job: &Job) -> (names: Vec<&'static str>)
    ensures
        names.deep_view() == required(job.plan@.media_type, job.plan@.codec),
{
    let codec = job.plan.codec.as_str();
    let mut names: Vec<&'static str> = Vec::new();
    assert(names.deep_view() =~= Seq::<Seq<char>>::empty());
    match job.plan.media_type {
        MediaType::Audio => {
            if str_eq(codec, "flac") {
                push_name(&mut names, "flac");
            } else if str_eq(codec, "alac") {
                push_name(&mut names, "alac");
            } else if str_eq(codec, "mp3") {
                push_name(&mut names, "libmp3lame");
                push_name(&mut names, "mp3");
            } else if str_eq(codec, "opus") {
                push_name(&mut names, "libopus");
                push_name(&mut names, "opus");
            } else if str_eq(codec, "ogg") || str_eq(codec, "vorbis") {
                push_name(&mut names, "libvorbis");
                push_name(&mut names, "vorbis");
            } else {
                push_name(&mut names, "aac");
            }
        },
        MediaType::Video => {
            if str_eq(codec, "h264") {
                push_name(&mut names, "h264_nvenc");
                push_name(&mut names, "h264_qsv");
                push_name(&mut names, "h264_videotoolbox");
                push_name(&mut names, "libx264");
                push_name(&mut names, "h264");
            } else if str_eq(codec, "h265") || str_eq(codec, "hevc") {
                push_name(&mut names, "hevc_nvenc");
                push_name(&mut names, "hevc_qsv");
                push_name(&mut names, "hevc_videotoolbox");
                push_name(&mut names, "libx265");
                push_name(&mut names, "hevc");
                push_name(&mut names, "h265");
            } else if str_eq(codec, "av1") {
                push_name(&mut names, "av1_nvenc");
                push_name(&mut names, "av1_qsv");
                push_name(&mut names, "libsvtav1");
                push_name(&mut names, "libaom-av1");
                push_name(&mut names, "av1");
            } else if str_eq(codec, "vp9") {
                push_name(&mut names, "vp9_qsv");
                push_name(&mut names, "libvpx-vp9");
                push_name(&mut names, "vp9");
            } else {
                push_name(&mut names, "libx264");
                push_name(&mut names, "h264");
            }
        },
        MediaType::Image => {
            if str_eq(codec, "avif") {
                push_name(&mut names, "libaom-av1");
            } else if str_eq(codec, "heic") || str_eq(codec, "heif") {
                push_name(&mut names, "libx265");
            } else if str_eq(codec, "webp") {
                push_name(&mut names, "libwebp");
            } else if str_eq(codec, "jpeg") || str_eq(codec, "jpg") {
                push_name(&mut names, "mjpeg");
            } else {
                push_name(&mut names, "png");
            }
        },
    }
    assert(names.deep_view() =~= required(job.plan@.media_type, job.plan@.codec));
    names
}

/// The agent's most preferred encoder for a video job; `None` for a job of
/// another kind, or where the agent has none of the encoders the job needs.
pub fn select_preferred_encoder(job: &Job, agent_encoders: &[String]) -> (r: Option<String>)
    ensures
        match r {
            Some(e) => Some(e@),
            None => None,
        } == preferred_encoder(job.plan@, agent_encoders.deep_view()),
{
    match job.plan.media_type {
        MediaType::Video => {},
        _ => {
            return None;
        },
    }
    let candidates = required_encoders(job);
    let ghost all = candidates.deep_view();
    let ghost have = agent_encoders.deep_view();
    let mut i: usize = 0;
    assert(all.skip(0) =~= all);
    while i < candidates.len()
        invariant
            i <= candidates.len(),
            all == candidates.deep_view(),
            all == required(job.plan@.media_type, job.plan@.codec),
            job.plan@.media_type == MediaType::Video,
            have == agent_encoders.deep_view(),
            first_match(all, have) == first_match(all.skip(i as int), have),
        decreases candidates.len() - i,
    {
        let cand: &str = candidates[i];
        assert(all[i as int] == candidates@[i as int]@);
        assert(all.skip(i as int)[0] == all[i as int]);
        if contains_name(agent_encoders, cand) {
            assert(first_match(all.skip(i as int), have) == Some(cand@));
            return Some(cand.to_owned());
        }
        assert(all.skip(i as int).drop_first() =~= all.skip(i as int + 1));
        i += 1;
    }
    assert(all.skip(i as int).len() == 0);
    None
}

/// No argument that the planner writes by itself for a video is `copy`,
/// and the two options that stand before a name that is given to it are
/// not `-c:a`.
proof fn lemma_video_literals()
    ensures
        "-hide_banner"@ != "copy"@,
        "-nostdin"@ != "copy"@,
        "-y"@ != "copy"@,
        "-progress"@ != "copy"@,
        "pipe:1"@ != "copy"@,
        "-loglevel"@ != "copy"@,
        "error"@ != "copy"@,
        "-pix_fmt"@ != "copy"@,
        "yuv420p"@ != "copy"@,
        "-c:v"@ != "copy"@,
        "-b:v"@ != "copy"@,
        "0"@ != "copy"@,
        "-crf"@ != "copy"@,
        "23"@ != "copy"@,
        "28"@ != "copy"@,
        "32"@ != "copy"@,
        "-row-mt"@ != "copy"@,
        "1"@ != "copy"@,
        "-preset"@ != "copy"@,
        "medium"@ != "copy"@,
        "6"@ != "copy"@,
        "libx265"@ != "copy"@,
        "libsvtav1"@ != "copy"@,
        "libvpx-vp9"@ != "copy"@,
        "libx264"@ != "copy"@,
        "aac"@ != "copy"@,
        "-b:a"@ != "copy"@,
        "-c:a"@ != "copy"@,
        "-c:v"@ != "-c:a"@,
        "-b:a"@ != "-c:a"@,
{
    reveal_strlit("-hide_banner");
    reveal_strlit("-nostdin");
    reveal_strlit("-y");
    reveal_strlit("-progress");
    reveal_strlit("pipe:1");
    reveal_strlit("-loglevel");
    reveal_strlit("error");
    reveal_strlit("-pix_fmt");
    reveal_strlit("yuv420p");
    reveal_strlit("-c:v");
    reveal_strlit("-b:v");
    reveal_strlit("0");
    reveal_strlit("-crf");
    reveal_strlit("23");
    reveal_strlit("28");
    reveal_strlit("32");
    reveal_strlit("-row-mt");
    reveal_strlit("1");
    reveal_strlit("-preset");
    reveal_strlit("medium");
    reveal_strlit("6");
    reveal_strlit("libx265");
    reveal_strlit("libsvtav1");
    reveal_strlit("libvpx-vp9");
    reveal_strlit("libx264");
    reveal_strlit("aac");
    reveal_strlit("-b:a");
    reveal_strlit("-c:a");
    reveal_strlit("copy");
    assert("-c:v"@[3] == 'v');
    assert("-c:a"@[3] == 'a');
    assert("-b:a"@[1] == 'b');
    assert("-c:a"@[1] == 'c');
    assert("copy"@.len() == 4);
    assert("copy"@[0] == 'c');
    assert("-c:v"@[0] == '-');
    assert("-b:v"@[0] == '-');
    assert("-crf"@[0] == '-');
    assert("-b:a"@[0] == '-');
    assert("-c:a"@[0] == '-');
}

/// The pair `-c:a copy` stands nowhere in `args`.
pub open spec fn copies_no_audio(args: Seq<Seq<char>>) -> bool {
    forall|i: int| 0 <= i < args.len() - 1 ==> !(#[trigger] args[i] == "-c:a"@ && args[i + 1] == "copy"@)
}

/// Where the options of a video plan ask for the audio to be re-encoded,
/// the arguments end with `-c:a aac -b:a` and the bitrate, and the pair
/// `-c:a copy` stands nowhere in them, whatever the codec, the encoder and
/// the bitrate are.
pub proof fn lemma_audio_override(plan: PlanView, encoder: Option<Seq<char>>)
    requires
        plan.media_type == MediaType::Video,
        reencodes_audio(plan.options),
    ensures
        ({
            let args = ffmpeg_args(plan, encoder);
            let n = args.len() as int;
            &&& n >= 4
            &&& args[n - 4] == "-c:a"@
            &&& args[n - 3] == "aac"@
            &&& args[n - 2] == "-b:a"@
            &&& args[n - 1] == audio_bitrate(plan.options)
            &&& copies_no_audio(args)
        }),
{
    lemma_video_literals();
    let v = video_codec_args(plan.codec, encoder);
    let head = base_args() + seq!["-pix_fmt"@, "yuv420p"@];
    let tail = audio_track_args(plan.options);
    let args = ffmpeg_args(plan, encoder);
    assert(args =~= head + v + tail);
    assert(head.len() == 9);
    assert(tail.len() == 4);
    // Of the codec's arguments the first is `-c:v`, the second names the
    // encoder, and the rest are written by the planner.
    assert(v.len() >= 4);
    assert(v[0] == "-c:v"@);
    assert forall|k: int| 2 <= k < v.len() implies #[trigger] v[k] != "copy"@ by {}
    let m = v.len() as int;
    assert forall|i: int| 0 <= i < args.len() - 1 implies !(#[trigger] args[i] == "-c:a"@
        && args[i + 1] == "copy"@) by {
        if i + 1 < 9 {
            assert(args[i + 1] == head[i + 1]);
        } else if i + 1 == 9 {
            assert(args[i + 1] == v[0]);
        } else if i + 1 == 10 {
            assert(args[i] == v[0]);
        } else if i + 1 < 9 + m {
            assert(args[i + 1] == v[i + 1 - 9]);
        } else if i + 1 < 9 + m + 3 {
            assert(args[i + 1] == tail[i + 1 - 9 - m]);
        } else {
            assert(args[i] == tail[2]);
        }
    }
}

/// A video plan for `h264` without options, leased to an agent that has
/// `libx264` and `aac`, is run with `libx264` at the preset `medium` and
/// the rate factor 23, the audio copied, into an `.mp4` file.
pub proof fn lemma_h264_arguments(plan: PlanView)
    requires
        plan.media_type == MediaType::Video,
        plan.codec == "h264"@,
        plan.options is None,
    ensures
        preferred_encoder(plan, seq!["libx264"@, "aac"@]) == Some("libx264"@),
        ffmpeg_args(plan, Some("libx264"@)) == seq![
            "-hide_banner"@,
            "-nostdin"@,
            "-y"@,
            "-progress"@,
            "pipe:1"@,
            "-loglevel"@,
            "error"@,
            "-pix_fmt"@,
            "yuv420p"@,
            "-c:v"@,
            "libx264"@,
            "-preset"@,
            "medium"@,
            "-crf"@,
            "23"@,
            "-c:a"@,
            "copy"@,
        ],
        output_ext(plan.media_type, plan.codec) == ".mp4"@,
{
    reveal_strlit("h264");
    reveal_strlit("h265");
    reveal_strlit("hevc");
    reveal_strlit("av1");
    reveal_strlit("vp9");
    reveal_strlit("h264_nvenc");
    reveal_strlit("h264_qsv");
    reveal_strlit("h264_videotoolbox");
    reveal_strlit("libx264");
    reveal_strlit("aac");
    assert("h264"@.len() == 4);
    assert("av1"@.len() == 3);
    assert("vp9"@.len() == 3);
    assert("h264"@[3] == '4');
    assert("h265"@[3] == '5');
    assert("hevc"@[1] == 'e');
    assert("h264"@[1] == '2');
    assert("h264"@ != "h265"@);
    assert("h264"@ != "hevc"@);
    assert("h264"@ != "av1"@);
    assert("h264"@ != "vp9"@);
    let have = seq!["libx264"@, "aac"@];
    let wanted = required(plan.media_type, plan.codec);
    assert(wanted.len() == 5);
    assert(wanted[3] == "libx264"@);
    assert(have[0] == "libx264"@);
    assert(have.contains(wanted[3]));
    assert("libx264"@.len() == 7);
    assert("aac"@.len() == 3);
    assert("h264_nvenc"@.len() == 10);
    assert("h264_qsv"@.len() == 8);
    assert("h264_videotoolbox"@.len() == 17);
    assert forall|j: int| 0 <= j < 3 implies !have.contains(#[trigger] wanted[j]) by {
        if have.contains(wanted[j]) {
            let k = choose|k: int| 0 <= k < have.len() && have[k] == wanted[j];
            assert(have[k].len() == wanted[j].len());
        }
    }
    lemma_first_match(wanted, have);
    assert(intersects(wanted, have));
    let found = first_match(wanted, have)->0;
    let i = choose|i: int|
        0 <= i < wanted.len() && #[trigger] wanted[i] == found && have.contains(found)
            && forall|j: int| 0 <= j < i ==> !have.contains(#[trigger] wanted[j]);
    assert(i == 3) by {
        if i > 3 {
            assert(!have.contains(wanted[3]));
        }
        if i < 3 {
            assert(!have.contains(wanted[i]));
        }
    }
    assert(ffmpeg_args(plan, Some("libx264"@)) =~= seq![
        "-hide_banner"@,
        "-nostdin"@,
        "-y"@,
        "-progress"@,
        "pipe:1"@,
        "-loglevel"@,
        "error"@,
        "-pix_fmt"@,
        "yuv420p"@,
        "-c:v"@,
        "libx264"@,
        "-preset"@,
        "medium"@,
        "-crf"@,
        "23"@,
        "-c:a"@,
        "copy"@,
    ]);
}

} // verus!
