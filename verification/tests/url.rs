use tg_downloader::handler::{recognise_request, request_url};
use tg_downloader::url::{first_matched, UrlChecker, UrlType};

#[test]
fn match_tiktok() {
    let r = UrlChecker::default().check("https://vt.tiktok.com/ZSFhj2JFc/");
    assert_eq!(r, Some(UrlType::Tiktok));
}

#[test]
fn match_youtube_audio() {
    let r = UrlChecker::default().check("https://youtu.be/ytWz0qVvBZ0?si=XVs8rAM2bx-9FEiS");
    assert_eq!(r, Some(UrlType::YoutubeAudio));
}

#[test]
fn match_youtube_video() {
    let checker = UrlChecker::default();
    let r = checker.check("video https://youtu.be/ytWz0qVvBZ0?si=XVs8rAM2bx-9FEiS");
    assert_eq!(r, Some(UrlType::YoutubeVideo));

    let r = checker.check("https://youtu.be/ytWz0qVvBZ0?si=XVs8rAM2bx-9FEiS video");
    assert_eq!(r, Some(UrlType::YoutubeVideo));
}

#[test]
fn match_insta_reel_and_webm() {
    let checker = UrlChecker::default();
    assert_eq!(
        checker.check("https://www.instagram.com/reel/C1a2b3c4d5/"),
        Some(UrlType::InstaReel)
    );
    assert_eq!(
        checker.check("https://example.com/media/clip.webm"),
        Some(UrlType::Webm)
    );
    assert_eq!(checker.check("https://m.youtube.com/watch?v=abc-DEF_123"), Some(UrlType::YoutubeAudio));
}

#[test]
fn unrecognised_text_matches_nothing() {
    let checker = UrlChecker::default();
    assert_eq!(checker.check("hello there"), None);
    assert_eq!(checker.check(""), None);
    assert_eq!(checker.check("https://example.com/page"), None);
}

#[test]
fn url_type_properties() {
    assert!(!UrlType::YoutubeAudio.is_video());
    assert!(UrlType::YoutubeVideo.is_video());
    assert!(UrlType::InstaReel.is_video());
    assert!(UrlType::Tiktok.is_video());
    assert!(UrlType::Webm.is_video());
    assert_eq!(UrlType::YoutubeAudio.yt_dlp_format(), "mp3");
    assert_eq!(UrlType::Tiktok.yt_dlp_format(), "mp4");
    assert_eq!(UrlType::YoutubeAudio.display_name(), "Youtube audio");
    assert_eq!(UrlType::YoutubeVideo.display_name(), "Youtube video");
    assert_eq!(UrlType::InstaReel.display_name(), "Instagram reel");
    assert_eq!(UrlType::Tiktok.display_name(), "Tiktok");
    assert_eq!(UrlType::Webm.display_name(), "webm");
}

#[test]
fn request_url_strips_video_prefix_only() {
    assert_eq!(
        request_url("video https://youtu.be/abc", UrlType::YoutubeVideo),
        "https://youtu.be/abc"
    );
    assert_eq!(
        request_url("https://youtu.be/abc video", UrlType::YoutubeVideo),
        "https://youtu.be/abc video"
    );
    assert_eq!(
        request_url("video https://youtu.be/abc", UrlType::YoutubeAudio),
        "video https://youtu.be/abc"
    );
    assert_eq!(request_url("video", UrlType::YoutubeVideo), "video");
}

#[test]
fn recognise_request_gives_type_and_url() {
    let checker = UrlChecker::default();
    assert_eq!(
        recognise_request(&checker, "video https://youtu.be/ytWz0qVvBZ0"),
        Some((UrlType::YoutubeVideo, "https://youtu.be/ytWz0qVvBZ0".to_string()))
    );
    assert_eq!(
        recognise_request(&checker, "https://vt.tiktok.com/ZSFhj2JFc/"),
        Some((UrlType::Tiktok, "https://vt.tiktok.com/ZSFhj2JFc/".to_string()))
    );
    assert_eq!(recognise_request(&checker, "nothing to see"), None);
}

#[test]
fn first_matched_picks_the_first_hit() {
    assert_eq!(
        first_matched(&vec![
            (UrlType::Tiktok, false),
            (UrlType::Webm, true),
            (UrlType::InstaReel, true),
        ]),
        Some(UrlType::Webm)
    );
    assert_eq!(first_matched(&vec![(UrlType::Tiktok, false)]), None);
    assert_eq!(first_matched(&vec![]), None);
}
