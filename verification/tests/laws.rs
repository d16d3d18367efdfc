use std::cmp::Ordering;

use tg_downloader::dlp_info::{Audio, FormatInfo, FormatInfoRaw};
use tg_downloader::keyboard::process_formats;
use tg_downloader::url::{url_pattern_text, UrlChecker, UrlType};

const ALL_TYPES: [UrlType; 5] = [
    UrlType::YoutubeAudio,
    UrlType::YoutubeVideo,
    UrlType::Tiktok,
    UrlType::Webm,
    UrlType::InstaReel,
];

#[test]
fn every_pattern_compiles() {
    for t in ALL_TYPES {
        assert!(regex::Regex::new(url_pattern_text(t)).is_ok(), "{t:?}");
    }
}

#[test]
fn checker_answers_agree_with_patterns() {
    let checker = UrlChecker::default();
    let inputs = [
        "https://vt.tiktok.com/ZSFhj2JFc/",
        "https://youtu.be/ytWz0qVvBZ0?si=XVs8rAM2bx-9FEiS",
        "video https://youtu.be/ytWz0qVvBZ0",
        "https://youtube.com/watch?v=abc video",
        "http://host/path/file.webm",
        "instagram.com/reel/xyz",
        "just words",
        "",
    ];
    for input in inputs {
        let matching: Vec<UrlType> = ALL_TYPES
            .into_iter()
            .filter(|t| regex::Regex::new(url_pattern_text(*t)).unwrap().is_match(input))
            .collect();
        assert_eq!(checker.check(input), matching.first().copied(), "input {input:?}");
    }
}

fn audio(id: u32, bitrate: u64, size: u64) -> Audio {
    Audio { id, bitrate, size, note: String::new() }
}

#[test]
fn audio_order_is_antisymmetric() {
    let samples = [audio(1, 5, 5), audio(2, 5, 6), audio(3, 6, 1), audio(4, 5, 5)];
    for a in &samples {
        for b in &samples {
            assert_eq!(a > b, b < a);
            assert_eq!(a.partial_cmp(b).is_none(), b.partial_cmp(a).is_none());
            assert_ne!(a.partial_cmp(b), Some(Ordering::Equal));
        }
    }
}

#[test]
fn chosen_audio_is_offered() {
    let unknown = FormatInfo::Unknown(FormatInfoRaw {
        format_note: String::new(),
        format_id: "x".to_string(),
        resolution: String::new(),
        width: None,
        height: None,
        filesize_approx: None,
        abr: None,
        vbr: None,
        acodec: "none".to_string(),
        vcodec: "none".to_string(),
    });
    assert_eq!(process_formats(vec![unknown]).0, None);
    let (best, _) = process_formats(vec![
        FormatInfo::Audio(audio(1, 9, 1)),
        FormatInfo::Audio(audio(2, 3, 100)),
    ]);
    assert_eq!(best, Some(audio(1, 9, 1)));
}

fn unknown_format() -> FormatInfo {
    FormatInfo::Unknown(FormatInfoRaw {
        format_note: "storyboard".to_string(),
        format_id: "sb0".to_string(),
        resolution: String::new(),
        width: None,
        height: None,
        filesize_approx: None,
        abr: None,
        vbr: None,
        acodec: "none".to_string(),
        vcodec: "none".to_string(),
    })
}

fn video(id: u32, note: &str, size: u64) -> tg_downloader::dlp_info::Video {
    tg_downloader::dlp_info::Video { id, note: note.to_string(), width: 1, height: 1, size, bitrate: 0 }
}

#[test]
fn unknown_formats_change_nothing() {
    let plain = vec![
        FormatInfo::Video(video(1, "720p", 300)),
        FormatInfo::Audio(audio(10, 5, 100)),
        FormatInfo::Video(video(2, "480p", 100)),
        FormatInfo::Video(video(3, "720p", 500)),
    ];
    let padded = vec![
        unknown_format(),
        FormatInfo::Video(video(1, "720p", 300)),
        unknown_format(),
        FormatInfo::Audio(audio(10, 5, 100)),
        FormatInfo::Video(video(2, "480p", 100)),
        unknown_format(),
        FormatInfo::Video(video(3, "720p", 500)),
        unknown_format(),
    ];
    assert_eq!(process_formats(plain), process_formats(padded));
}

#[test]
fn offered_videos_are_fixed_up_to_equal_sizes() {
    let formats = vec![
        FormatInfo::Video(video(1, "720p", 300)),
        FormatInfo::Video(video(2, "480p", 300)),
        FormatInfo::Video(video(3, "360p", 100)),
    ];
    let (_, vs) = process_formats(formats);
    assert_eq!(vs.len(), 3);
    assert_eq!(vs.iter().map(|v| v.size).collect::<Vec<_>>(), vec![100, 300, 300]);
    let mut ids: Vec<u32> = vs.iter().map(|v| v.id).collect();
    ids.sort();
    assert_eq!(ids, vec![1, 2, 3]);
}
