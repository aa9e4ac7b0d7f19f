use yasr::{
    build_args, choose_codec, container_for, default_bitrate_for, device_path, encoders_from_output,
    ffmpeg_args, parse_encoders, pick_best,
};

fn strings(v: &[&str]) -> Vec<String> {
    v.iter().map(|s| s.to_string()).collect()
}

const ENCODER_LIST: &str = "Encoders:\n V..... = Video\n A..... = Audio\n ------\n V....D libx264              libx264 H.264 / AVC (codec h264)\n V....D libsvtav1            SVT-AV1(Scalable Video Technology for AV1) encoder (codec av1)\r\n A....D aac                  AAC (Advanced Audio Coding)\n V....D h264_vaapi           H.264/AVC (VAAPI) (codec h264)\n";

#[test]
fn parse_encoders_reads_video_lines() {
    let names = parse_encoders(ENCODER_LIST);
    // The legend above the rule line is not read.
    assert_eq!(names, strings(&["libx264", "libsvtav1", "h264_vaapi"]));
    assert!(!names.contains(&"=".to_string()));
}

#[test]
fn parse_encoders_without_legend_reads_all_lines() {
    assert_eq!(parse_encoders(" V....D a x\n V....D b y\n"), strings(&["a", "b"]));
}

#[test]
fn parse_encoders_reads_only_below_first_rule() {
    let text = " V..... = Video\r\n ------\r\n V....D a x\r\n --\r\n V....D b y\r\n";
    assert_eq!(parse_encoders(text), strings(&["a", "b"]));
    assert_eq!(parse_encoders(" V x y\n ------"), Vec::<String>::new());
    assert_eq!(parse_encoders(" V x y\n    \n V z w"), strings(&["x", "z"]));
}

#[test]
fn parse_encoders_handles_crlf_and_missing_final_newline() {
    let names = parse_encoders(" V....D libvpx-vp9 VP9\r\n V....D libx265 HEVC");
    assert_eq!(names, strings(&["libvpx-vp9", "libx265"]));
}

#[test]
fn parse_encoders_skips_lines_without_second_word() {
    assert_eq!(parse_encoders(" V\n V   \n"), Vec::<String>::new());
    assert_eq!(parse_encoders(""), Vec::<String>::new());
    assert_eq!(parse_encoders("  V....D x264\n"), Vec::<String>::new());
}

#[test]
fn parse_encoders_splits_on_unicode_whitespace() {
    assert_eq!(parse_encoders(" V....D\u{3000}name\u{a0}rest"), strings(&["name"]));
}

#[test]
fn encoders_from_output_decodes_bytes() {
    let names = encoders_from_output(ENCODER_LIST.as_bytes());
    assert_eq!(names, strings(&["libx264", "libsvtav1", "h264_vaapi"]));
    let mut bad = b" V....D \xffenc rest\n".to_vec();
    bad.extend_from_slice(b" V....D ok x\n");
    assert_eq!(encoders_from_output(&bad), strings(&["\u{fffd}enc", "ok"]));
}

#[test]
fn pick_best_prefers_av1() {
    let avail = strings(&["libx264", "h264_vaapi", "libsvtav1"]);
    assert_eq!(pick_best(&avail), "libsvtav1");
}

#[test]
fn pick_best_follows_priority() {
    assert_eq!(pick_best(&strings(&["h264_vaapi", "hevc_vaapi"])), "hevc_vaapi");
    assert_eq!(pick_best(&strings(&["libx265", "h264_nvenc"])), "h264_nvenc");
    assert_eq!(pick_best(&strings(&["libx265", "libx264"])), "libx264");
    assert_eq!(pick_best(&strings(&["libx265"])), "libx264");
    assert_eq!(pick_best(&strings(&["libx264", "libvpx-vp9"])), "libvpx-vp9");
    assert_eq!(pick_best(&strings(&["av1_nvenc", "hevc_nvenc"])), "av1_nvenc");
}

#[test]
fn pick_best_falls_back_to_x264() {
    assert_eq!(pick_best(&[]), "libx264");
    assert_eq!(pick_best(&strings(&["aac", "libopus"])), "libx264");
}

#[test]
fn choose_codec_respects_request() {
    let avail = strings(&["libsvtav1"]);
    assert_eq!(choose_codec(Some("libx264".to_string()), &avail), "libx264");
    assert_eq!(choose_codec(None, &avail), "libsvtav1");
}

#[test]
fn container_follows_extension() {
    assert_eq!(container_for("output.webm"), "webm");
    assert_eq!(container_for("clip.mp4"), "mp4");
    assert_eq!(container_for("clip.mkv"), "mp4");
    assert_eq!(container_for("videos/today/rec.webm"), "webm");
    assert_eq!(container_for("clip.WEBM"), "mp4");
}

#[test]
fn container_without_extension_is_webm() {
    assert_eq!(container_for("output"), "webm");
    assert_eq!(container_for(".webm"), "webm");
    assert_eq!(container_for(".hidden"), "webm");
    assert_eq!(container_for(""), "webm");
    assert_eq!(container_for("dir.mp4/file"), "webm");
    assert_eq!(container_for(".."), "webm");
    assert_eq!(container_for("a.mp4/.."), "webm");
}

#[test]
fn container_uses_last_real_component() {
    assert_eq!(container_for("rec.mp4/"), "mp4");
    assert_eq!(container_for("rec.mp4/."), "mp4");
    assert_eq!(container_for("rec.webm//./"), "webm");
    assert_eq!(container_for("a.b.mp4"), "mp4");
    assert_eq!(container_for("name."), "mp4");
}

#[test]
fn default_bitrates() {
    assert_eq!(default_bitrate_for("libvpx-vp9"), Some("2M"));
    assert_eq!(default_bitrate_for("libsvtav1"), Some("1.5M"));
    assert_eq!(default_bitrate_for("av1_nvenc"), Some("1.5M"));
    assert_eq!(default_bitrate_for("h264_nvenc"), Some("4M"));
    assert_eq!(default_bitrate_for("libopenh264"), Some("4M"));
    assert_eq!(default_bitrate_for("h264_vaapi"), None);
    assert_eq!(default_bitrate_for("libx264"), None);
    assert_eq!(default_bitrate_for("hevc_vaapi"), None);
}

#[test]
fn args_for_svtav1() {
    let args = ffmpeg_args(1920, 1080, 30, "libsvtav1", None, "out.webm", "");
    assert_eq!(
        args,
        strings(&[
            "-y", "-f", "rawvideo", "-pix_fmt", "bgra", "-s", "1920x1080", "-r", "30", "-i", "-",
            "-c:v", "libsvtav1", "-preset", "10", "-svtav1-params", "tune=0:enable-overlays=1",
            "-b:v", "1.5M", "-f", "webm", "out.webm",
        ])
    );
}

#[test]
fn args_for_vaapi_use_device() {
    let args = ffmpeg_args(800, 600, 5, "h264_vaapi", Some("3M"), "a.mp4", "/dev/dri/renderD129");
    assert_eq!(
        args,
        strings(&[
            "-y", "-f", "rawvideo", "-pix_fmt", "bgra", "-s", "800x600", "-r", "5", "-i", "-",
            "-vaapi_device", "/dev/dri/renderD129", "-vf", "format=nv12,hwupload", "-c:v",
            "h264_vaapi", "-b:v", "3M", "-f", "mp4", "a.mp4",
        ])
    );
}

#[test]
fn args_for_other_encoders() {
    let nv = ffmpeg_args(10, 20, 60, "hevc_nvenc", None, "x", "");
    assert_eq!(&nv[11..], &strings(&["-c:v", "hevc_nvenc", "-pix_fmt", "yuv420p", "-b:v", "4M", "-f", "webm", "x"])[..]);
    let vp9 = ffmpeg_args(10, 20, 60, "libvpx-vp9", None, "x.mp4", "");
    assert_eq!(
        &vp9[11..],
        &strings(&["-c:v", "libvpx-vp9", "-cpu-used", "5", "-deadline", "realtime", "-row-mt", "1", "-b:v", "2M", "-f", "mp4", "x.mp4"])[..]
    );
    let x264 = ffmpeg_args(10, 20, 60, "libx264", None, "x.mp4", "");
    assert_eq!(
        &x264[11..],
        &strings(&["-c:v", "libx264", "-preset", "ultrafast", "-tune", "zerolatency", "-f", "mp4", "x.mp4"])[..]
    );
    let other = ffmpeg_args(0, 0, 0, "libx265", Some("900k"), "y.mkv", "");
    assert_eq!(&other[5..], &strings(&["-s", "0x0", "-r", "0", "-i", "-", "-c:v", "libx265", "-b:v", "900k", "-f", "mp4", "y.mkv"])[..]);
}

#[test]
fn build_args_without_vaapi_needs_no_device() {
    let built = build_args(1280, 720, 24, "libx264", Some("2M"), "rec.webm");
    assert_eq!(built, ffmpeg_args(1280, 720, 24, "libx264", Some("2M"), "rec.webm", ""));
}

#[test]
fn build_args_with_vaapi_picks_a_render_node() {
    let built = build_args(1280, 720, 24, "hevc_vaapi", None, "rec.mp4");
    let dev = &built[12];
    assert!(dev == "/dev/dri/renderD128" || dev == "/dev/dri/renderD129");
    assert_eq!(built, ffmpeg_args(1280, 720, 24, "hevc_vaapi", None, "rec.mp4", dev));
}

#[test]
fn device_path_is_a_render_node() {
    let d = device_path();
    assert!(d == "/dev/dri/renderD128" || d == "/dev/dri/renderD129");
}

#[test]
fn more_encoders_never_worse() {
    let order = ["libsvtav1", "av1_nvenc", "hevc_vaapi", "h264_vaapi", "hevc_nvenc", "h264_nvenc", "libvpx-vp9", "libx264"];
    let rank = |c: &str| order.iter().position(|o| *o == c).unwrap();
    let small = strings(&["h264_nvenc", "aac"]);
    let mut big = small.clone();
    big.push("hevc_vaapi".to_string());
    assert!(rank(&pick_best(&big)) <= rank(&pick_best(&small)));
    assert_eq!(pick_best(&big), "hevc_vaapi");
}
