use tg_downloader::callback::{callback_action, CallbackAction};
use std::cmp::Ordering;
use tg_downloader::callback::{Query, QueryError};
use tg_downloader::dlp_info::{Audio, FormatInfo, FormatInfoRaw, Video, ZERO_RATE};
use tg_downloader::downloader::{output_path, Downloader, Format};
use tg_downloader::keyboard::{
    info_to_keyboard, keyboard_layout, process_formats, query_data_text, Button, ButtonLabel,
};
use tg_downloader::text::IntErrorKind;

fn raw(id: &str, acodec: &str, vcodec: &str) -> FormatInfoRaw {
    FormatInfoRaw {
        format_note: "720p".to_string(),
        format_id: id.to_string(),
        resolution: "1280x720".to_string(),
        width: Some(1280),
        height: Some(720),
        filesize_approx: Some(1000),
        abr: Some(ZERO_RATE + 5),
        vbr: Some(ZERO_RATE + 9),
        acodec: acodec.to_string(),
        vcodec: vcodec.to_string(),
    }
}

fn video(id: u32, note: &str, size: u64) -> Video {
    Video { id, note: note.to_string(), width: 1, height: 1, size, bitrate: ZERO_RATE }
}

fn audio(id: u32, bitrate: u64, size: u64) -> Audio {
    Audio { id, bitrate, size, note: "a".to_string() }
}

#[test]
fn query_parsing() {
    assert!(matches!(Query::parse("close"), Ok(Query::Close)));
    assert!(matches!(Query::parse("close:"), Ok(Query::Close)));
    assert!(matches!(Query::parse("close:anything:more"), Ok(Query::Close)));
    assert_eq!(Query::parse("audio:12"), Ok(Query::FormatAudio { id: 12 }));
    assert_eq!(Query::parse("video:7:extra"), Ok(Query::FormatVideo { id: 7 }));
    assert_eq!(Query::parse("foo"), Err(QueryError::Malformed("foo".to_string())));
    assert_eq!(Query::parse("audio"), Err(QueryError::Malformed("audio".to_string())));
    assert_eq!(Query::parse("foo:1"), Err(QueryError::Malformed("foo:1".to_string())));
    assert_eq!(
        Query::parse("audio:x"),
        Err(QueryError::Parse { ty: "audio".to_string(), e: IntErrorKind::InvalidDigit })
    );
    assert_eq!(
        Query::parse("foo:"),
        Err(QueryError::Parse { ty: "foo".to_string(), e: IntErrorKind::Empty })
    );
    assert_eq!("video:3".parse::<Query>(), Ok(Query::FormatVideo { id: 3 }));
}

#[test]
fn query_selects_format() {
    assert_eq!(Query::FormatAudio { id: 4 }.format(), Some(Format::Audio(4)));
    assert_eq!(Query::FormatVideo { id: 5 }.format(), Some(Format::Video(5)));
    assert_eq!(Query::Close.format(), None);
    assert!(Query::FormatVideo { id: 5 }.is_video());
    assert!(!Query::FormatAudio { id: 5 }.is_video());
}

#[test]
fn button_data_reads_back() {
    for q in [
        Query::Close,
        Query::FormatAudio { id: 0 },
        Query::FormatVideo { id: 4294967295 },
        Query::FormatVideo { id: 137 },
    ] {
        assert_eq!(Query::parse(&query_data_text(q)), Ok(q));
    }
    assert_eq!(query_data_text(Query::FormatVideo { id: 137 }), "video:137");
    assert_eq!(query_data_text(Query::Close), "close:");
}

#[test]
fn format_args() {
    assert_eq!(Format::Audio(140).args(), vec!["-f", "140", "-x", "--audio-format", "mp3"]);
    assert_eq!(
        Format::Video(137).args(),
        vec!["-f", "137+ba", "--merge-output-format", "mp4", "--remux-video", "mp4"]
    );
}

#[test]
fn downloader_args() {
    let d = Downloader::new("/bin/yt-dlp".to_string(), "/opt/ffmpeg".to_string());
    assert_eq!(d.yt_dlp(), "/bin/yt-dlp");
    assert_eq!(d.ffmpeg(), "/opt/ffmpeg");
    let common = vec![
        "--no-progress",
        "--print",
        "after_move:filepath",
        "-P",
        "./stored/",
        "-o",
        "%(title)s.%(ext)s",
        "--ffmpeg-location=/opt/ffmpeg",
    ];
    let mut expected = common.clone();
    expected.extend(["-t", "mp3", "https://youtu.be/x"]);
    assert_eq!(d.download_args("https://youtu.be/x", &tg_downloader::url::UrlType::YoutubeAudio), expected);
    let mut expected = common.clone();
    expected.extend(["-f", "22+ba", "--merge-output-format", "mp4", "--remux-video", "mp4", "u"]);
    assert_eq!(d.download_with_format_args("u", Format::Video(22)), expected);
    assert_eq!(d.info_json_args("u"), vec!["-j", "--no-download", "u"]);
    assert_eq!(output_path("  ./stored/My title.mp4\n"), "./stored/My title.mp4");
}

#[test]
fn raw_formats_are_classified() {
    assert_eq!(
        FormatInfo::from_raw(raw("137", "none", "avc1")),
        FormatInfo::Video(Video {
            id: 137,
            note: "720p".to_string(),
            width: 1280,
            height: 720,
            size: 1000,
            bitrate: ZERO_RATE + 9,
        })
    );
    assert_eq!(
        FormatInfo::from_raw(raw("140", "mp4a", "none")),
        FormatInfo::Audio(Audio { id: 140, bitrate: ZERO_RATE + 5, size: 1000, note: "720p".to_string() })
    );
    assert_eq!(FormatInfo::from_raw(raw("18", "mp4a", "avc1")), FormatInfo::Unknown(raw("18", "mp4a", "avc1")));
    assert_eq!(FormatInfo::from_raw(raw("sb0", "none", "none")), FormatInfo::Unknown(raw("sb0", "none", "none")));
    assert_eq!(FormatInfo::from_raw(raw("1", "none", "none")), FormatInfo::Unknown(raw("1", "none", "none")));
    let mut bare = raw("5", "opus", "none");
    bare.abr = None;
    bare.filesize_approx = None;
    assert_eq!(
        FormatInfo::from(bare),
        FormatInfo::Audio(Audio { id: 5, bitrate: ZERO_RATE, size: 0, note: "720p".to_string() })
    );
}

#[test]
fn audio_ordering() {
    assert_eq!(audio(1, 10, 5).partial_cmp(&audio(2, 9, 50)), Some(Ordering::Greater));
    assert_eq!(audio(1, 9, 5).partial_cmp(&audio(2, 10, 1)), Some(Ordering::Less));
    assert_eq!(audio(1, 9, 5).partial_cmp(&audio(2, 9, 4)), Some(Ordering::Greater));
    assert_eq!(audio(1, 9, 5).partial_cmp(&audio(2, 9, 5)), None);
    assert!(audio(1, 10, 5) > audio(2, 9, 5));
    assert!(!(audio(1, 9, 5) > audio(2, 9, 5)));
}

#[test]
fn formats_are_processed() {
    let formats = vec![
        FormatInfo::Video(video(1, "720p", 300)),
        FormatInfo::Audio(audio(10, 5, 100)),
        FormatInfo::Video(video(2, "480p", 100)),
        FormatInfo::Video(video(3, "720p", 500)),
        FormatInfo::Unknown(raw("x", "none", "none")),
        FormatInfo::Audio(audio(11, 7, 50)),
        FormatInfo::Video(video(4, "720p", 500)),
        FormatInfo::Video(video(5, "1080p", 200)),
        FormatInfo::Audio(audio(12, 7, 10)),
        FormatInfo::Video(video(6, "480p", 50)),
    ];
    let (best, videos) = process_formats(formats);
    assert_eq!(best, Some(audio(11, 7, 50)));
    assert_eq!(videos, vec![video(2, "480p", 100), video(5, "1080p", 200), video(4, "720p", 500)]);
}

#[test]
fn equal_audios_keep_the_later() {
    let formats = vec![FormatInfo::Audio(audio(1, 7, 50)), FormatInfo::Audio(audio(2, 7, 50))];
    let (best, videos) = process_formats(formats);
    assert_eq!(best, Some(audio(2, 7, 50)));
    assert!(videos.is_empty());
    assert_eq!(process_formats(vec![]), (None, vec![]));
}

#[test]
fn keyboard_is_laid_out() {
    let rows = keyboard_layout(
        Some(audio(140, 1, 77)),
        vec![video(1, "360p", 10), video(2, "480p", 20), video(3, "720p", 30)],
    );
    let vb = |id: u32, note: &str, size: u64| Button {
        label: ButtonLabel::Video { note: note.to_string(), size },
        data: format!("video:{id}"),
    };
    assert_eq!(
        rows,
        vec![
            vec![vb(1, "360p", 10), vb(2, "480p", 20)],
            vec![vb(3, "720p", 30)],
            vec![Button { label: ButtonLabel::Audio { size: 77 }, data: "audio:140".to_string() }],
            vec![Button { label: ButtonLabel::Close, data: "close:".to_string() }],
        ]
    );
    let rows = info_to_keyboard(vec![]);
    assert_eq!(rows, vec![vec![Button { label: ButtonLabel::Close, data: "close:".to_string() }]]);
}

#[test]
fn keyboard_buttons_ask_for_what_they_show() {
    let videos = vec![video(7, "360p", 10), video(8, "480p", 20), video(9, "720p", 30)];
    let rows = keyboard_layout(Some(audio(140, 1, 77)), videos);
    assert_eq!(Query::parse(&rows[0][0].data), Ok(Query::FormatVideo { id: 7 }));
    assert_eq!(Query::parse(&rows[0][1].data), Ok(Query::FormatVideo { id: 8 }));
    assert_eq!(Query::parse(&rows[1][0].data), Ok(Query::FormatVideo { id: 9 }));
    assert_eq!(Query::parse(&rows[2][0].data), Ok(Query::FormatAudio { id: 140 }));
    assert_eq!(Query::parse(&rows[3][0].data), Ok(Query::Close));
}

#[test]
fn callback_steps() {
    assert_eq!(callback_action(Query::Close, Some("u".to_string())), CallbackAction::Close);
    assert_eq!(callback_action(Query::Close, None), CallbackAction::Close);
    assert_eq!(callback_action(Query::FormatAudio { id: 1 }, None), CallbackAction::SourceMissing);
    assert_eq!(
        callback_action(Query::FormatAudio { id: 1 }, Some("u".to_string())),
        CallbackAction::Download { url: "u".to_string(), format: Format::Audio(1), as_video: false }
    );
    assert_eq!(
        callback_action(Query::FormatVideo { id: 2 }, Some("v".to_string())),
        CallbackAction::Download { url: "v".to_string(), format: Format::Video(2), as_video: true }
    );
}
