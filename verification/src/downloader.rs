//! Download helper: the command lines given to `yt-dlp` and the reading of
//! what it prints
use vstd::prelude::*;

use crate::text::{decimal, trim, trim_str, u32_to_decimal};
use crate::url::UrlType;

verus! {

/// The characters of each string
pub open spec fn texts(v: Seq<String>) -> Seq<Seq<char>> {
    v.map_values(|s: String| s@)
}

/// Download helper: where the `yt-dlp` and `ffmpeg` programs are
pub struct Downloader {
    yt_dlp: String,
    ffmpeg: String,
}

/// Format info for the downloader
#[derive(Debug, Clone, Copy, PartialEq, Eq, Structural)]
pub enum Format {
    /// Audio
    Audio(u32),
    /// Video
    Video(u32),
}

/// The arguments every download starts with
pub open spec fn common_args(ffmpeg: Seq<char>) -> Seq<Seq<char>> {
    seq![
        "--no-progress"@,
        "--print"@,
        "after_move:filepath"@,
        "-P"@,
        "./stored/"@,
        "-o"@,
        "%(title)s.%(ext)s"@,
        "--ffmpeg-location="@ + ffmpeg,
    ]
}

/// The arguments that select a format
pub open spec fn format_args(format: Format) -> Seq<Seq<char>> {
    match format {
        Format::Audio(id) => seq!["-f"@, decimal(id as nat), "-x"@, "--audio-format"@, "mp3"@],
        Format::Video(id) => seq![
            "-f"@,
            decimal(id as nat) + "+ba"@,
            "--merge-output-format"@,
            "mp4"@,
            "--remux-video"@,
            "mp4"@,
        ],
    }
}

/// Pushes a copy of `s`
fn push_str(v: &mut Vec<String>, s: &str)
    ensures
        texts(final(v)@) == texts(old(v)@).push(s@),
{
    let ghost before = v@;
    v.push(String::from_str(s));
    assert(texts(v@) =~= texts(before).push(s@));
}

/// Pushes `s`
fn push_string(v: &mut Vec<String>, s: String)
    ensures
        texts(final(v)@) == texts(old(v)@).push(s@),
{
    let ghost before = v@;
    v.push(s);
    assert(texts(v@) =~= texts(before).push(s@));
}

impl Format {
    /// Arguments for `yt-dlp` that select this format
    pub fn args(self) -> (r: Vec<String>)
        ensures
            texts(r@) == format_args(self),
    {
        let mut v: Vec<String> = Vec::new();
        assert(texts(v@) =~= Seq::<Seq<char>>::empty());
        match self {
            Format::Audio(id) => {
                push_str(&mut v, "-f");
                push_string(&mut v, u32_to_decimal(id));
                push_str(&mut v, "-x");
                push_str(&mut v, "--audio-format");
                push_str(&mut v, "mp3");
            },
            Format::Video(id) => {
                push_str(&mut v, "-f");
                let mut sel = u32_to_decimal(id);
                sel.append("+ba");
                push_string(&mut v, sel);
                push_str(&mut v, "--merge-output-format");
                push_str(&mut v, "mp4");
                push_str(&mut v, "--remux-video");
                push_str(&mut v, "mp4");
            },
        }
        assert(texts(v@) =~= format_args(self));
        v
    }
}

impl Downloader {
    /// The path of the `yt-dlp` program
    pub closed spec fn yt_dlp_path(&self) -> Seq<char> {
        self.yt_dlp@
    }

    /// The location of `ffmpeg`
    pub closed spec fn ffmpeg_path(&self) -> Seq<char> {
        self.ffmpeg@
    }

    /// A downloader that runs `yt_dlp` and has it use `ffmpeg`
    pub fn new(yt_dlp: String, ffmpeg: String) -> (r: Self)
        ensures
            r.yt_dlp_path() == yt_dlp@,
            r.ffmpeg_path() == ffmpeg@,
    {
        Downloader { yt_dlp, ffmpeg }
    }

    /// The `yt-dlp` program
    pub fn yt_dlp(&self) -> (r: &str)
        ensures
            r@ == self.yt_dlp_path(),
    {
        self.yt_dlp.as_str()
    }

    /// The location of `ffmpeg`
    pub fn ffmpeg(&self) -> (r: &str)
        ensures
            r@ == self.ffmpeg_path(),
    {
        self.ffmpeg.as_str()
    }

    /// The arguments every download starts with
    fn common_args(&self) -> (r: Vec<String>)
        ensures
            texts(r@) == common_args(self.ffmpeg_path()),
    {
        let mut v: Vec<String> = Vec::new();
        assert(texts(v@) =~= Seq::<Seq<char>>::empty());
        push_str(&mut v, "--no-progress");
        push_str(&mut v, "--print");
        push_str(&mut v, "after_move:filepath");
        push_str(&mut v, "-P");
        push_str(&mut v, "./stored/");
        push_str(&mut v, "-o");
        push_str(&mut v, "%(title)s.%(ext)s");
        let mut loc = String::from_str("--ffmpeg-location=");
        loc.append(self.ffmpeg.as_str());
        push_string(&mut v, loc);
        assert(texts(v@) =~= common_args(self.ffmpeg_path()));
        v
    }

    /// Arguments for `yt-dlp` to download `url` as `url_type` asks
    pub fn download_args(&self, url: &str, url_type: &UrlType) -> (r: Vec<String>)
        ensures
            texts(r@) == common_args(self.ffmpeg_path()) + seq![
                "-t"@,
                url_type.spec_yt_dlp_format(),
                url@,
            ],
    {
        let mut v = self.common_args();
        let ghost c = texts(v@);
        push_str(&mut v, "-t");
        push_str(&mut v, url_type.yt_dlp_format());
        push_str(&mut v, url);
        assert(texts(v@) =~= c + seq!["-t"@, url_type.spec_yt_dlp_format(), url@]);
        v
    }

    /// Arguments for `yt-dlp` to print the json info of `url`
    pub fn info_json_args(&self, url: &str) -> (r: Vec<String>)
        ensures
            texts(r@) == seq!["-j"@, "--no-download"@, url@],
    {
        let mut v: Vec<String> = Vec::new();
        assert(texts(v@) =~= Seq::<Seq<char>>::empty());
        push_str(&mut v, "-j");
        push_str(&mut v, "--no-download");
        push_str(&mut v, url);
        assert(texts(v@) =~= seq!["-j"@, "--no-download"@, url@]);
        v
    }

    /// Arguments for `yt-dlp` to download `url` in a chosen format
    pub fn download_with_format_args(&self, url: &str, format: Format) -> (r: Vec<String>)
        ensures
            texts(r@) == common_args(self.ffmpeg_path()) + format_args(format) + seq![url@],
    {
        let mut v = self.common_args();
        let ghost c = texts(v@);
        let f = format.args();
        let mut i: usize = 0;
        while i < f.len()
            invariant
                i <= f@.len(),
                texts(f@) == format_args(format),
                texts(v@) == c + texts(f@).take(i as int),
            decreases f@.len() - i,
        {
            push_str(&mut v, f[i].as_str());
            assert(texts(f@).take(i + 1) =~= texts(f@).take(i as int).push(f@[i as int]@));
            i = i + 1;
        }
        push_str(&mut v, url);
        assert(texts(f@).take(f@.len() as int) =~= texts(f@));
        v
    }
}

/// The path of the downloaded file, from what `yt-dlp` printed
pub fn output_path(stdout: &str) -> (r: String)
    ensures
        r@ == trim(stdout@),
{
    trim_str(stdout)
}

} // verus!
