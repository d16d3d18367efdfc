use tg_downloader::handler::{file_source, FileSource, SIZE_LIMIT};
use tg_downloader::util::{thumbnail_filter, video_dimensions, video_stream, MetaError, StreamInfo};

fn stream(kind: Option<&str>) -> StreamInfo {
    StreamInfo { codec_type: kind.map(|k| k.to_string()), width: Some(1), height: Some(1) }
}

#[test]
fn first_video_stream_is_found() {
    let streams = vec![stream(Some("audio")), stream(None), stream(Some("video")), stream(Some("video"))];
    assert_eq!(video_stream(&streams), Some(2));
    assert_eq!(video_stream(&vec![stream(Some("audio"))]), None);
    assert_eq!(video_stream(&vec![]), None);
}

#[test]
fn dimensions_are_checked() {
    assert_eq!(video_dimensions(Some(1920), Some(1080)), Ok((1920, 1080)));
    assert_eq!(video_dimensions(None, Some(1080)), Err(MetaError::Width));
    assert_eq!(video_dimensions(Some(1920), None), Err(MetaError::Height));
    assert_eq!(video_dimensions(None, None), Err(MetaError::Width));
    assert_eq!(video_dimensions(Some(0), Some(0)), Err(MetaError::WidthZero));
    assert_eq!(video_dimensions(Some(5), Some(0)), Err(MetaError::HeightZero));
    assert_eq!(video_dimensions(Some(4294967296), Some(3)), Err(MetaError::WidthZero));
    assert_eq!(video_dimensions(Some(4294967297), Some(3)), Ok((1, 3)));
}

#[test]
fn thumbnail_scales_longer_side() {
    assert_eq!(thumbnail_filter(1920, 1080), "scale=320:-1");
    assert_eq!(thumbnail_filter(1080, 1920), "scale=-1:320");
    assert_eq!(thumbnail_filter(500, 500), "scale=-1:320");
}

#[test]
fn file_source_by_size() {
    assert_eq!(SIZE_LIMIT, 20 * 1024 * 1024);
    assert_eq!(file_source(true, u32::MAX), FileSource::Local);
    assert_eq!(file_source(false, SIZE_LIMIT), FileSource::Download);
    assert_eq!(file_source(false, SIZE_LIMIT + 1), FileSource::TooLarge(SIZE_LIMIT + 1));
}
