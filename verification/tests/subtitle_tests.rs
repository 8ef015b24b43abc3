use my_nas::smi::{parse_smi_start, smi_body_to_text, smi_to_vtt, strip_html_tags};
use my_nas::subtitle::{
    ass_time_to_vtt, ass_to_vtt, decode_subtitle_bytes, file_stem, matches_video_subtitle,
    ms_to_vtt, normalize_vtt, srt_to_vtt, strip_ass_tags, subtitle_extension, subtitle_file_to_vtt,
    subtitle_label, to_vtt,
};

#[test]
fn matches_subtitle_names_case_insensitive() {
    assert!(matches_video_subtitle("movie.mp4", "movie.smi"));
    assert!(matches_video_subtitle("Movie.mp4", "movie.smi"));
    assert!(matches_video_subtitle("movie.mp4", "movie.ko.srt"));
    assert!(!matches_video_subtitle("movie.mp4", "other.smi"));
}

#[test]
fn smi_converts_with_closing_sync() {
    let smi = r#"<SAMI><BODY><SYNC Start=1000><P>Hello</P></SYNC><SYNC Start=3000><P>World</P></SYNC></BODY></SAMI>"#;
    let vtt = smi_to_vtt(smi).unwrap();
    assert!(vtt.starts_with("WEBVTT"));
    assert!(vtt.contains("Hello"));
    assert!(vtt.contains("World"));
}

#[test]
fn smi_converts_without_closing_sync() {
    let smi = r#"<SAMI><BODY><SYNC Start=1000><P>Hello</P><SYNC Start=3000><P>World</P></BODY></SAMI>"#;
    let vtt = smi_to_vtt(smi).unwrap();
    assert!(vtt.contains("Hello"));
    assert!(vtt.contains("World"));
}

#[test]
fn smi_converts_euc_kr_bytes() {
    let smi = "<SYNC Start=1000><P>안녕</P><SYNC Start=3000><P>세계</P>";
    let bytes = encoding_rs::EUC_KR.encode(smi).0.into_owned();
    let decoded = decode_subtitle_bytes(&bytes).unwrap();
    let vtt = smi_to_vtt(&decoded).unwrap();
    assert!(vtt.contains("안녕"));
    assert!(vtt.contains("세계"));
}

#[test]
fn smi_cue_times_and_text_are_exact() {
    let smi = r#"<SAMI><BODY><SYNC Start=1000><P>Hello</P></SYNC><SYNC Start=3000><P>World</P></SYNC></BODY></SAMI>"#;
    assert_eq!(
        smi_to_vtt(smi).unwrap(),
        "WEBVTT\n\n00:00:01.000 --> 00:00:03.000\nHello\n\n00:00:03.000 --> 00:00:06.000\nWorld\n\n"
    );
}

#[test]
fn smi_without_cues_is_an_error() {
    assert_eq!(smi_to_vtt("<SAMI><BODY></BODY></SAMI>").unwrap_err(), "no SMI cues found");
    assert_eq!(smi_to_vtt("<SYNC Start=10><P>&nbsp;</P>").unwrap_err(), "no SMI cues found");
}

#[test]
fn smi_start_is_read_case_insensitively() {
    assert_eq!(parse_smi_start("<SYNC Start=1000>"), Some(1000));
    assert_eq!(parse_smi_start("<sync START = 250 >"), Some(250));
    assert_eq!(parse_smi_start("<SYNC End=5>"), None);
    assert_eq!(parse_smi_start("<SYNC Start>"), None);
}

#[test]
fn html_tags_are_dropped() {
    assert_eq!(strip_html_tags("<b>Hi</b> there"), "Hi there");
    assert_eq!(strip_html_tags("a<unclosed"), "a");
}

#[test]
fn smi_body_markup_becomes_lines() {
    assert_eq!(smi_body_to_text("<P>Hello<br>World</P>"), "Hello\nWorld");
    assert_eq!(smi_body_to_text("<p>a&nbsp;b</p>"), "a b");
    assert_eq!(smi_body_to_text("<P>&nbsp;</P>"), "");
}

#[test]
fn vtt_times_are_padded() {
    assert_eq!(ms_to_vtt(3_723_004), "01:02:03.004");
    assert_eq!(ms_to_vtt(0), "00:00:00.000");
    assert_eq!(ms_to_vtt(360_000_000), "100:00:00.000");
}

#[test]
fn ass_times_convert() {
    assert_eq!(ass_time_to_vtt("0:01:02.50").unwrap(), "00:01:02.500");
    assert_eq!(ass_time_to_vtt("1:00:00").unwrap(), "01:00:00.000");
    assert_eq!(ass_time_to_vtt("0:00:01.xx").unwrap(), "00:00:01.000");
    assert_eq!(ass_time_to_vtt("bad").unwrap_err(), "invalid ASS time: bad");
    assert_eq!(ass_time_to_vtt("a:00:01.00").unwrap_err(), "invalid ASS time: a:00:01.00");
}

#[test]
fn ass_tags_and_backslashes_are_dropped() {
    assert_eq!(strip_ass_tags("{\\i1}Hi{\\i0} there "), "Hi there");
    assert_eq!(strip_ass_tags("Hi\\Nthere"), "HiNthere");
}

#[test]
fn ass_dialogue_lines_become_cues() {
    let ass = "[Events]\nFormat: Layer, Start, End, Style, Name, MarginL, MarginR, MarginV, Effect, Text\nDialogue: 0,0:00:01.00,0:00:02.50,Default,,0,0,0,,{\\i1}Hi, you\n";
    assert_eq!(
        ass_to_vtt(ass).unwrap(),
        "WEBVTT\n\n00:00:01.000 --> 00:00:02.500\nHi, you\n\n"
    );
    assert_eq!(ass_to_vtt("[Events]\n").unwrap_err(), "no ASS/SSA dialogue lines found");
    assert_eq!(
        ass_to_vtt("Dialogue: 0,x,0:00:02.50,D,,0,0,0,,Hi\n").unwrap_err(),
        "invalid ASS time: x"
    );
}

#[test]
fn srt_blocks_become_cues() {
    let srt = "1\r\n00:00:01,000 --> 00:00:02,000\r\nHello\r\n\r\n2\r\n00:00:03,000 --> 00:00:04,000\r\nWorld\r\nagain\r\n";
    assert_eq!(
        srt_to_vtt(srt).unwrap(),
        "WEBVTT\n\n00:00:01.000 --> 00:00:02.000\nHello\n\n00:00:03.000 --> 00:00:04.000\nWorld\nagain\n\n"
    );
    assert_eq!(srt_to_vtt("just text").unwrap_err(), "no valid SRT cues");
    assert_eq!(srt_to_vtt("1\n00:00:01,000 --> 00:00:02,000\n").unwrap_err(), "no valid SRT cues");
}

#[test]
fn vtt_is_normalized() {
    assert_eq!(normalize_vtt("\u{feff}WEBVTT\n\nx"), "WEBVTT\n\nx");
    assert_eq!(normalize_vtt("00:01.000 --> 00:02.000\nx"), "WEBVTT\n\n00:01.000 --> 00:02.000\nx");
    let once = normalize_vtt("\u{feff}\u{feff}cue");
    assert_eq!(normalize_vtt(&once), once);
}

#[test]
fn conversion_dispatches_on_format() {
    assert_eq!(to_vtt("x", "txt").unwrap_err(), "unsupported subtitle format: txt");
    assert_eq!(to_vtt("WEBVTT\n", "vtt").unwrap(), "WEBVTT\n");
    for ext in ["vtt", "srt", "smi", "ass", "ssa"] {
        if let Ok(v) = to_vtt("1\n00:00:01,000 --> 00:00:02,000\nHi\n", ext) {
            assert!(v.starts_with("WEBVTT"));
        }
    }
}

#[test]
fn subtitle_names() {
    assert_eq!(file_stem("movie.ko.srt"), "movie.ko");
    assert_eq!(file_stem("README"), "README");
    assert_eq!(subtitle_label("movie.ko.srt"), "movie.ko");
    assert_eq!(subtitle_extension("A.SRT"), Some("srt"));
    assert_eq!(subtitle_extension("a.Ass"), Some("ass"));
    assert_eq!(subtitle_extension("a.mp4"), None);
    assert_eq!(subtitle_extension("vtt"), Some("vtt"));
    assert!(!matches_video_subtitle("movie.mp4", "movie.mp4"));
    assert!(!matches_video_subtitle("movie.mp4", "movies.srt"));
}

#[test]
fn subtitle_bytes_are_decoded() {
    assert_eq!(decode_subtitle_bytes(&[0xEF, 0xBB, 0xBF, b'h', b'i']).unwrap(), "hi");
    assert_eq!(decode_subtitle_bytes(&[0xFF, 0xFE, b'h', 0, b'i', 0]).unwrap(), "hi");
    assert_eq!(decode_subtitle_bytes(&[0xFE, 0xFF, 0, b'h', 0, b'i']).unwrap(), "hi");
    assert_eq!(decode_subtitle_bytes("안녕".as_bytes()).unwrap(), "안녕");
    assert!(decode_subtitle_bytes(&[0xEF, 0xBB, 0xBF, 0xFF]).unwrap_err().starts_with("UTF-8 decode: "));
    assert_eq!(decode_subtitle_bytes(&[0xFF, 0xFF]).unwrap_err(), "지원하지 않는 자막 인코딩입니다.");
}

#[test]
fn subtitle_files_convert_from_bytes() {
    let srt = "1\n00:00:01,000 --> 00:00:02,000\nHi\n";
    match subtitle_file_to_vtt(srt.as_bytes(), "srt") {
        Some(Ok(v)) => assert_eq!(v, "WEBVTT\n\n00:00:01.000 --> 00:00:02.000\nHi\n\n"),
        _ => panic!("conversion expected"),
    }
    match subtitle_file_to_vtt(b"nothing", "srt") {
        Some(Err(my_nas::errors::NasError::BadRequest(m))) => assert_eq!(m, "no valid SRT cues"),
        _ => panic!("bad request expected"),
    }
}

#[test]
fn subtitle_matching_ignores_ascii_case() {
    let pairs = [("Movie.MP4", "MOVIE.Ko.SRT"), ("clip.mkv", "CLIP.ASS"), ("Été.mp4", "été.VTT")];
    for (v, s) in pairs {
        assert!(matches_video_subtitle(v, s));
        assert_eq!(
            matches_video_subtitle(v, s),
            matches_video_subtitle(&v.to_ascii_lowercase(), &s.to_ascii_uppercase())
        );
    }
    assert!(!matches_video_subtitle("MOVIE.mp4", "movie.TXT"));
    assert!(!matches_video_subtitle("Movie.mp4", "Movies.SRT"));
}
