//! The command line handed to `ffmpeg`: raw BGRA frames on standard input,
//! encoded with the chosen encoder into the output file.

use vstd::prelude::*;
use crate::codec::views;
use crate::path::{container_for, container_spec};
use crate::text::{
    chars_of, contains, decimal, decimal_chars, ends_with, has_infix, has_suffix, seq_eq,
    string_from_chars,
};
use crate::vaapi::{device_path, render_node_choice_spec};

verus! {

/// The arguments that describe the input: raw BGRA frames of the given size
/// and rate, read from standard input; existing output is overwritten.
pub open spec fn input_args(width: u32, height: u32, fps: u32) -> Seq<Seq<char>> {
    seq![
        "-y"@,
        "-f"@,
        "rawvideo"@,
        "-pix_fmt"@,
        "bgra"@,
        "-s"@,
        decimal(width as nat) + seq!['x'] + decimal(height as nat),
        "-r"@,
        decimal(fps as nat),
        "-i"@,
        "-"@,
    ]
}

/// A VAAPI encoder (its name ends in `_vaapi`).
pub open spec fn is_vaapi(codec: Seq<char>) -> bool {
    has_suffix(codec, "_vaapi"@)
}

/// An NVENC encoder (its name ends in `_nvenc`).
pub open spec fn is_nvenc(codec: Seq<char>) -> bool {
    has_suffix(codec, "_nvenc"@)
}

/// The arguments that select and tune the encoder. A VAAPI encoder gets the
/// render node `device` and uploads NV12 frames to it.
pub open spec fn codec_args(codec: Seq<char>, device: Seq<char>) -> Seq<Seq<char>> {
    if is_vaapi(codec) {
        seq!["-vaapi_device"@, device, "-vf"@, "format=nv12,hwupload"@, "-c:v"@, codec]
    } else if is_nvenc(codec) {
        seq!["-c:v"@, codec, "-pix_fmt"@, "yuv420p"@]
    } else if codec == "libsvtav1"@ {
        seq![
            "-c:v"@,
            "libsvtav1"@,
            "-preset"@,
            "10"@,
            "-svtav1-params"@,
            "tune=0:enable-overlays=1"@,
        ]
    } else if codec == "libvpx-vp9"@ {
        seq![
            "-c:v"@,
            "libvpx-vp9"@,
            "-cpu-used"@,
            "5"@,
            "-deadline"@,
            "realtime"@,
            "-row-mt"@,
            "1"@,
        ]
    } else if codec == "libx264"@ {
        seq!["-c:v"@, "libx264"@, "-preset"@, "ultrafast"@, "-tune"@, "zerolatency"@]
    } else {
        seq!["-c:v"@, codec]
    }
}

/// The bitrate used when none is given: 2M for VP9, 1.5M for AV1, 4M for
/// NVENC and for H.264 that is not VAAPI, and the encoder's own default
/// otherwise.
pub open spec fn default_bitrate(codec: Seq<char>) -> Option<Seq<char>> {
    if has_infix(codec, "vp9"@) {
        Some("2M"@)
    } else if has_infix(codec, "av1"@) {
        Some("1.5M"@)
    } else if has_infix(codec, "nvenc"@) {
        Some("4M"@)
    } else if has_infix(codec, "h264"@) && !has_infix(codec, "vaapi"@) {
        Some("4M"@)
    } else {
        None
    }
}

/// The bitrate arguments: the given bitrate, or else the default one.
pub open spec fn bitrate_args(codec: Seq<char>, bitrate: Option<Seq<char>>) -> Seq<Seq<char>> {
    match bitrate {
        Some(b) => seq!["-b:v"@, b],
        None => match default_bitrate(codec) {
            Some(b) => seq!["-b:v"@, b],
            None => seq![],
        },
    }
}

/// The arguments that name the container and the output file.
pub open spec fn output_args(output: Seq<char>) -> Seq<Seq<char>> {
    seq!["-f"@, container_spec(output), output]
}

/// The whole `ffmpeg` command line (without the program name).
pub open spec fn ffmpeg_args_spec(
    width: u32,
    height: u32,
    fps: u32,
    codec: Seq<char>,
    bitrate: Option<Seq<char>>,
    output: Seq<char>,
    device: Seq<char>,
) -> Seq<Seq<char>> {
    input_args(width, height, fps) + codec_args(codec, device) + bitrate_args(codec, bitrate)
        + output_args(output)
}

/// The view of an optional string.
pub open spec fn opt_view(o: Option<&str>) -> Option<Seq<char>> {
    match o {
        Some(s) => Some(s@),
        None => None,
    }
}

fn push_arg(args: &mut Vec<String>, a: &str)
    ensures
        views(final(args)@) == views(old(args)@).push(a@),
{
    args.push(String::from_str(a));
    assert(views(args@) =~= views(old(args)@).push(a@));
}

fn push_string(args: &mut Vec<String>, a: String)
    ensures
        views(final(args)@) == views(old(args)@).push(a@),
{
    let ghost v = a@;
    args.push(a);
    assert(views(args@) =~= views(old(args)@).push(v));
}

fn push_input_args(args: &mut Vec<String>, width: u32, height: u32, fps: u32)
    ensures
        views(final(args)@) == views(old(args)@) + input_args(width, height, fps),
{
    push_arg(args, "-y");
    push_arg(args, "-f");
    push_arg(args, "rawvideo");
    push_arg(args, "-pix_fmt");
    push_arg(args, "bgra");
    push_arg(args, "-s");
    let mut size = decimal_chars(width as u64);
    size.push('x');
    let mut h = decimal_chars(height as u64);
    size.append(&mut h);
    assert(size@ =~= decimal(width as nat) + seq!['x'] + decimal(height as nat));
    push_string(args, string_from_chars(&size));
    push_arg(args, "-r");
    push_string(args, string_from_chars(&decimal_chars(fps as u64)));
    push_arg(args, "-i");
    push_arg(args, "-");
    assert(views(args@) =~= views(old(args)@) + input_args(width, height, fps));
}

fn push_codec_args(args: &mut Vec<String>, codec: &str, device: &str)
    ensures
        views(final(args)@) == views(old(args)@) + codec_args(codec@, device@),
{
    let c = chars_of(codec);
    if ends_with(&c, &chars_of("_vaapi")) {
        push_arg(args, "-vaapi_device");
        push_arg(args, device);
        push_arg(args, "-vf");
        push_arg(args, "format=nv12,hwupload");
        push_arg(args, "-c:v");
        push_arg(args, codec);
    } else if ends_with(&c, &chars_of("_nvenc")) {
        push_arg(args, "-c:v");
        push_arg(args, codec);
        push_arg(args, "-pix_fmt");
        push_arg(args, "yuv420p");
    } else if seq_eq(&c, &chars_of("libsvtav1")) {
        push_arg(args, "-c:v");
        push_arg(args, "libsvtav1");
        push_arg(args, "-preset");
        push_arg(args, "10");
        push_arg(args, "-svtav1-params");
        push_arg(args, "tune=0:enable-overlays=1");
    } else if seq_eq(&c, &chars_of("libvpx-vp9")) {
        push_arg(args, "-c:v");
        push_arg(args, "libvpx-vp9");
        push_arg(args, "-cpu-used");
        push_arg(args, "5");
        push_arg(args, "-deadline");
        push_arg(args, "realtime");
        push_arg(args, "-row-mt");
        push_arg(args, "1");
    } else if seq_eq(&c, &chars_of("libx264")) {
        push_arg(args, "-c:v");
        push_arg(args, "libx264");
        push_arg(args, "-preset");
        push_arg(args, "ultrafast");
        push_arg(args, "-tune");
        push_arg(args, "zerolatency");
    } else {
        push_arg(args, "-c:v");
        push_arg(args, codec);
    }
    assert(views(args@) =~= views(old(args)@) + codec_args(codec@, device@));
}

/// Whether `codec` names a VAAPI encoder, which needs the VAAPI drivers set up.
pub fn is_vaapi_codec(codec: &str) -> (r: bool)
    ensures
        r == is_vaapi(codec@),
{
    ends_with(&chars_of(codec), &chars_of("_vaapi"))
}

/// The bitrate used when none is given.
pub fn default_bitrate_for(codec: &str) -> (b: Option<&'static str>)
    ensures
        opt_view(b) == default_bitrate(codec@),
{
    let c = chars_of(codec);
    if contains(&c, &chars_of("vp9")) {
        Some("2M")
    } else if contains(&c, &chars_of("av1")) {
        Some("1.5M")
    } else if contains(&c, &chars_of("nvenc")) {
        Some("4M")
    } else if contains(&c, &chars_of("h264")) && !contains(&c, &chars_of("vaapi")) {
        Some("4M")
    } else {
        None
    }
}

fn push_bitrate_args(args: &mut Vec<String>, codec: &str, bitrate: Option<&str>)
    ensures
        views(final(args)@) == views(old(args)@) + bitrate_args(codec@, opt_view(bitrate)),
{
    match bitrate {
        Some(br) => {
            push_arg(args, "-b:v");
            push_arg(args, br);
        },
        None => match default_bitrate_for(codec) {
            Some(br) => {
                push_arg(args, "-b:v");
                push_arg(args, br);
            },
            None => {},
        },
    }
    assert(views(args@) =~= views(old(args)@) + bitrate_args(codec@, opt_view(bitrate)));
}

/// Builds the `ffmpeg` arguments for recording `width` x `height` BGRA
/// frames at `fps` frames per second with `codec` into `output`, using the
/// render node `device` when the encoder is a VAAPI one.
pub fn ffmpeg_args(
    width: u32,
    height: u32,
    fps: u32,
    codec: &str,
    bitrate: Option<&str>,
    output: &str,
    device: &str,
) -> (args: Vec<String>)
    ensures
        views(args@) == ffmpeg_args_spec(
            width,
            height,
            fps,
            codec@,
            opt_view(bitrate),
            output@,
            device@,
        ),
{
    let mut args: Vec<String> = Vec::new();
    assert(views(args@) =~= Seq::<Seq<char>>::empty());
    push_input_args(&mut args, width, height, fps);
    push_codec_args(&mut args, codec, device);
    push_bitrate_args(&mut args, codec, bitrate);
    push_arg(&mut args, "-f");
    push_arg(&mut args, container_for(output));
    push_arg(&mut args, output);
    assert(views(args@) =~= ffmpeg_args_spec(
        width,
        height,
        fps,
        codec@,
        opt_view(bitrate),
        output@,
        device@,
    ));
    args
}

/// Builds the `ffmpeg` arguments for a recording. For a VAAPI encoder the
/// render node is looked up on this machine (renderD128 or renderD129).
pub fn build_args(
    width: u32,
    height: u32,
    fps: u32,
    codec: &str,
    bitrate: Option<&str>,
    output: &str,
) -> (args: Vec<String>)
    ensures
        is_vaapi(codec@) ==> exists|has_128: bool, has_129: bool|
            views(args@) == ffmpeg_args_spec(
                width,
                height,
                fps,
                codec@,
                opt_view(bitrate),
                output@,
                render_node_choice_spec(has_128, has_129),
            ),
        !is_vaapi(codec@) ==> views(args@) == ffmpeg_args_spec(
            width,
            height,
            fps,
            codec@,
            opt_view(bitrate),
            output@,
            Seq::empty(),
        ),
{
    if is_vaapi_codec(codec) {
        let device = device_path();
        ffmpeg_args(width, height, fps, codec, bitrate, output, device.as_str())
    } else {
        ffmpeg_args(width, height, fps, codec, bitrate, output, "")
    }
}


/// Every command line starts with the description of the raw input, tells
/// `ffmpeg` to use the chosen encoder, and ends with `-f`, the container and
/// the output path; a given bitrate comes just before them.
pub proof fn lemma_args_shape(
    width: u32,
    height: u32,
    fps: u32,
    codec: Seq<char>,
    bitrate: Option<Seq<char>>,
    output: Seq<char>,
    device: Seq<char>,
)
    ensures
        ({
            let a = ffmpeg_args_spec(width, height, fps, codec, bitrate, output, device);
            &&& a.take(11) == input_args(width, height, fps)
            &&& a.len() >= 16
            &&& a[a.len() - 1] == output
            &&& a[a.len() - 2] == container_spec(output)
            &&& a[a.len() - 3] == "-f"@
            &&& (bitrate matches Some(b) ==> a[a.len() - 4] == b && a[a.len() - 5] == "-b:v"@)
            &&& exists|i: int| 0 <= i < a.len() - 1 && #[trigger] a[i] == "-c:v"@ && a[i + 1] == codec
        }),
{
    let a = ffmpeg_args_spec(width, height, fps, codec, bitrate, output, device);
    let inp = input_args(width, height, fps);
    let c = codec_args(codec, device);
    let br = bitrate_args(codec, bitrate);
    let out = output_args(output);
    assert(a == inp + c + br + out);
    assert(a.take(11) =~= inp);
    assert(a[a.len() - 1] == out[2]);
    assert(a[a.len() - 2] == out[1]);
    assert(a[a.len() - 3] == out[0]);
    if bitrate is Some {
        assert(br.len() == 2);
        assert(a[a.len() - 4] == br[1]);
        assert(a[a.len() - 5] == br[0]);
    }
    let k: int = if is_vaapi(codec) { 4 } else { 0 };
    assert(c[k] == "-c:v"@ && c[k + 1] == codec);
    assert(a[11 + k] == c[k]);
    assert(a[11 + k + 1] == c[k + 1]);
}


/// Giving a bitrate replaces the encoder's default bitrate arguments (when
/// it has any) with `-b:v` and the given bitrate, just before the last three
/// arguments, and changes nothing else.
pub proof fn lemma_given_bitrate_replaces_default(
    width: u32,
    height: u32,
    fps: u32,
    codec: Seq<char>,
    b: Seq<char>,
    output: Seq<char>,
    device: Seq<char>,
)
    ensures
        ({
            let a = ffmpeg_args_spec(width, height, fps, codec, None, output, device);
            let d = bitrate_args(codec, None).len();
            &&& d == if default_bitrate(codec) is Some { 2int } else { 0int }
            &&& a.len() >= 3 + d
            &&& ffmpeg_args_spec(width, height, fps, codec, Some(b), output, device) == a.take(
                a.len() - 3 - d,
            ) + seq!["-b:v"@, b] + a.skip(a.len() - 3)
        }),
{
    let a = ffmpeg_args_spec(width, height, fps, codec, None, output, device);
    let p = input_args(width, height, fps) + codec_args(codec, device);
    let dflt = bitrate_args(codec, None);
    let o = output_args(output);
    assert(a == p + dflt + o);
    assert(a.take(a.len() - 3 - dflt.len()) =~= p);
    assert(a.skip(a.len() - 3) =~= o);
    assert(ffmpeg_args_spec(width, height, fps, codec, Some(b), output, device) =~= p + seq![
        "-b:v"@,
        b,
    ] + o);
}


/// The bitrate chosen when none is given, stated by the encoder's name: a
/// VP9 encoder gets 2M; an AV1 encoder (any name holding `av1`, NVENC ones
/// included) that is not VP9 gets 1.5M; another NVENC encoder gets 4M; an
/// H.264 encoder that is none of these and not VAAPI gets 4M; any other
/// encoder gets no `-b:v` at all. Given a bitrate, it is used as it is.
pub proof fn lemma_bitrate_by_encoder_name(
    width: u32,
    height: u32,
    fps: u32,
    codec: Seq<char>,
    given: Option<Seq<char>>,
    output: Seq<char>,
    device: Seq<char>,
)
    ensures
        ({
            let a = ffmpeg_args_spec(width, height, fps, codec, given, output, device);
            let n = a.len() as int;
            let bare = ffmpeg_args_spec(width, height, fps, codec, None, output, device);
            &&& n >= 16
            &&& (given matches Some(b) ==> a[n - 5] == "-b:v"@ && a[n - 4] == b)
            &&& (given is None && has_infix(codec, "vp9"@) ==> a[n - 5] == "-b:v"@ && a[n - 4]
                == "2M"@)
            &&& (given is None && !has_infix(codec, "vp9"@) && has_infix(codec, "av1"@) ==> a[n
                - 5] == "-b:v"@ && a[n - 4] == "1.5M"@)
            &&& (given is None && !has_infix(codec, "vp9"@) && !has_infix(codec, "av1"@)
                && has_infix(codec, "nvenc"@) ==> a[n - 5] == "-b:v"@ && a[n - 4] == "4M"@)
            &&& (given is None && !has_infix(codec, "vp9"@) && !has_infix(codec, "av1"@)
                && !has_infix(codec, "nvenc"@) && has_infix(codec, "h264"@) && !has_infix(
                codec,
                "vaapi"@,
            ) ==> a[n - 5] == "-b:v"@ && a[n - 4] == "4M"@)
            &&& (given is None && !has_infix(codec, "vp9"@) && !has_infix(codec, "av1"@)
                && !has_infix(codec, "nvenc"@) && !(has_infix(codec, "h264"@) && !has_infix(
                codec,
                "vaapi"@,
            )) ==> a == input_args(width, height, fps) + codec_args(codec, device) + output_args(
                output,
            ))
            &&& (given is None ==> a == bare)
        }),
{
    let a = ffmpeg_args_spec(width, height, fps, codec, given, output, device);
    let p = input_args(width, height, fps) + codec_args(codec, device);
    let br = bitrate_args(codec, given);
    let o = output_args(output);
    assert(a == p + br + o);
    assert(a[a.len() - 1] == o[2]);
    if br.len() == 2 {
        assert(a[a.len() - 5] == br[0]);
        assert(a[a.len() - 4] == br[1]);
    } else {
        assert(br.len() == 0);
        assert(a =~= p + o);
    }
}

} // verus!
