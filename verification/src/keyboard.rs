//! The format choice offered to the user: which formats are shown, and the
//! buttons that show them
use vstd::prelude::*;

use crate::callback::{first_part, spec_parse_query, Query, QueryErrorView};
use crate::dlp_info::{audio_beats, Audio, FormatInfo, Video};
use crate::text::{
    decimal, digit_char, first_index_of, is_digit, lemma_parse_decimal, spec_parse_u32, u32_to_decimal,
    IntErrorKind,
};

verus! {

/// The video at position `m`, if the format there is one
pub open spec fn video_at(fs: Seq<FormatInfo>, m: int) -> Option<Video> {
    match fs[m] {
        FormatInfo::Video(v) => Some(v),
        _ => None,
    }
}

/// The best audio of `fs`: going through `fs` in order, an audio replaces
/// the best so far unless the best so far is greater than it
pub open spec fn best_audio(fs: Seq<FormatInfo>) -> Option<Audio>
    decreases fs.len(),
{
    if fs.len() == 0 {
        None
    } else {
        let prev = best_audio(fs.drop_last());
        match fs.last() {
            FormatInfo::Audio(a) => match prev {
                Some(cb) => if audio_beats(&cb, &a) {
                    Some(cb)
                } else {
                    Some(a)
                },
                None => Some(a),
            },
            _ => prev,
        }
    }
}

/// Among the first `n` formats, the video at `m` is `x`, and it is the
/// largest with its note; of those as large, it comes last
pub open spec fn best_among(fs: Seq<FormatInfo>, n: int, m: int, x: Video) -> bool {
    &&& 0 <= m < n
    &&& video_at(fs, m) == Some(x)
    &&& forall|m2: int|
        #![trigger video_at(fs, m2)]
        0 <= m2 < n && video_at(fs, m2) is Some && video_at(fs, m2)->0.note@ == x.note@ ==> {
            &&& video_at(fs, m2)->0.size <= x.size
            &&& (m2 > m ==> video_at(fs, m2)->0.size < x.size)
        }
}

/// `x` is the largest video of `fs` with its note (of those as large, the last)
pub open spec fn is_best_video(fs: Seq<FormatInfo>, x: Video) -> bool {
    exists|m: int| best_among(fs, fs.len() as int, m, x)
}

/// `vs` is sorted by size
pub open spec fn sorted_by_size(vs: Seq<Video>) -> bool {
    forall|a: int, b: int| 0 <= a < b < vs.len() ==> #[trigger] vs[a].size <= #[trigger] vs[b].size
}

/// No two videos of `vs` have the same note
pub open spec fn distinct_notes(vs: Seq<Video>) -> bool {
    forall|a: int, b: int|
        0 <= a < vs.len() && 0 <= b < vs.len() && a != b ==> #[trigger] vs[a].note@
            != #[trigger] vs[b].note@
}

/// Each note of a video among the first `n` formats is the note of a video in `vs`
pub open spec fn covers_notes(fs: Seq<FormatInfo>, n: int, vs: Seq<Video>) -> bool {
    forall|m: int|
        #![trigger video_at(fs, m)]
        0 <= m < n && video_at(fs, m) is Some ==> exists|k: int|
            0 <= k < vs.len() && #[trigger] vs[k].note@ == video_at(fs, m)->0.note@
}

/// The videos offered for `fs`: one for each note, the largest with that
/// note (the last of the largest), sorted by size. The order of videos of
/// equal size is left open.
pub open spec fn offered_videos(fs: Seq<FormatInfo>, vs: Seq<Video>) -> bool {
    &&& sorted_by_size(vs)
    &&& distinct_notes(vs)
    &&& covers_notes(fs, fs.len() as int, vs)
    &&& forall|k: int| 0 <= k < vs.len() ==> #[trigger] is_best_video(fs, vs[k])
}

/// The index of the video whose note is `note`
fn find_note(vs: &Vec<Video>, note: &String) -> (r: Option<usize>)
    ensures
        r matches Some(j) ==> j < vs@.len() && vs@[j as int].note@ == note@,
        r is None ==> forall|t: int| 0 <= t < vs@.len() ==> vs@[t].note@ != note@,
{
    let mut j: usize = 0;
    while j < vs.len()
        invariant
            j <= vs@.len(),
            forall|t: int| 0 <= t < j ==> vs@[t].note@ != note@,
        decreases vs@.len() - j,
    {
        if vs[j].note == *note {
            return Some(j);
        }
        j = j + 1;
    }
    None
}

/// The first position whose video is larger than `size`
fn insert_position(vs: &Vec<Video>, size: u64) -> (r: usize)
    requires
        sorted_by_size(vs@),
    ensures
        r <= vs@.len(),
        forall|t: int| 0 <= t < r ==> vs@[t].size <= size,
        forall|t: int| r <= t < vs@.len() ==> vs@[t].size > size,
{
    let mut p: usize = 0;
    while p < vs.len() && vs[p].size <= size
        invariant
            p <= vs@.len(),
            sorted_by_size(vs@),
            forall|t: int| 0 <= t < p ==> vs@[t].size <= size,
        decreases vs@.len() - p,
    {
        p = p + 1;
    }
    proof {
        assert forall|t: int| p <= t < vs@.len() implies vs@[t].size > size by {
            if t > p {
                assert(vs@[p as int].size <= vs@[t].size);
            }
        }
    }
    p
}

/// Sorts by size; `pos` tells where each video came from, `inv` where each went
fn sort_by_size(b: Vec<Video>) -> (r: (Vec<Video>, Ghost<Seq<int>>, Ghost<Seq<int>>))
    ensures
        r.0@.len() == b@.len(),
        r.1@.len() == b@.len(),
        r.2@.len() == b@.len(),
        sorted_by_size(r.0@),
        forall|t: int|
            #![trigger r.0@[t]]
            0 <= t < b@.len() ==> 0 <= r.1@[t] < b@.len() && r.0@[t] == b@[r.1@[t]],
        forall|t1: int, t2: int|
            0 <= t1 < b@.len() && 0 <= t2 < b@.len() && t1 != t2 ==> #[trigger] r.1@[t1]
                != #[trigger] r.1@[t2],
        forall|q: int|
            #![trigger r.2@[q]]
            0 <= q < b@.len() ==> 0 <= r.2@[q] < b@.len() && r.1@[r.2@[q]] == q,
{
    let ghost orig = b@;
    let mut rem = b;
    let mut sorted: Vec<Video> = Vec::new();
    let ghost mut pos: Seq<int> = Seq::empty();
    let ghost mut inv: Seq<int> = Seq::empty();
    let ghost mut k: int = 0;
    while rem.len() > 0
        invariant
            0 <= k <= orig.len(),
            rem@ == orig.skip(k),
            sorted@.len() == k,
            pos.len() == k,
            inv.len() == k,
            sorted_by_size(sorted@),
            forall|t: int| 0 <= t < k ==> 0 <= #[trigger] pos[t] < k,
            forall|t: int| #![trigger sorted@[t]] 0 <= t < k ==> sorted@[t] == orig[pos[t]],
            forall|t1: int, t2: int|
                0 <= t1 < k && 0 <= t2 < k && t1 != t2 ==> #[trigger] pos[t1] != #[trigger] pos[t2],
            forall|q: int| #![trigger inv[q]] 0 <= q < k ==> 0 <= inv[q] < k && pos[inv[q]] == q,
        decreases rem@.len(),
    {
        let v = rem.remove(0);
        assert(v == orig[k]);
        assert(rem@ =~= orig.skip(k + 1));
        let p = insert_position(&sorted, v.size);
        let ghost old_sorted = sorted@;
        let ghost old_pos = pos;
        let ghost old_inv = inv;
        let ghost k0 = k;
        sorted.insert(p, v);
        proof {
            k = k0 + 1;
            pos = old_pos.insert(p as int, k0);
            inv = Seq::new(
                (k) as nat,
                |q: int|
                    if q == k0 {
                        p as int
                    } else if old_inv[q] < p {
                        old_inv[q]
                    } else {
                        old_inv[q] + 1
                    },
            );
            assert forall|a: int, c: int| 0 <= a < c < sorted@.len() implies #[trigger] sorted@[a].size
                <= #[trigger] sorted@[c].size by {
                if a < p && c > p {
                    assert(old_sorted[a].size <= v.size);
                    assert(old_sorted[c - 1].size > v.size);
                } else if a == p {
                    assert(old_sorted[c - 1].size > v.size);
                } else if c == p {
                    assert(old_sorted[a].size <= v.size);
                } else if a > p {
                    assert(old_sorted[a - 1].size <= old_sorted[c - 1].size);
                } else {
                    assert(old_sorted[a].size <= old_sorted[c].size);
                }
            }
            assert forall|t: int| 0 <= t < k implies 0 <= #[trigger] pos[t] < k by {
                if t < p {
                    assert(0 <= old_pos[t] < k0);
                } else if t > p {
                    assert(0 <= old_pos[t - 1] < k0);
                }
            }
            assert forall|t: int| #![trigger sorted@[t]] 0 <= t < k implies sorted@[t] == orig[pos[t]] by {
                assert(pos[t] == (if t < p { old_pos[t] } else if t == p { k0 } else { old_pos[t - 1] }));
                if t < p {
                    assert(sorted@[t] == old_sorted[t]);
                } else if t > p {
                    assert(sorted@[t] == old_sorted[t - 1]);
                }
            }
            assert forall|t1: int, t2: int|
                0 <= t1 < k && 0 <= t2 < k && t1 != t2 implies #[trigger] pos[t1]
                != #[trigger] pos[t2] by {
                if t1 != p && t2 != p {
                    let u1 = if t1 < p {
                        t1
                    } else {
                        t1 - 1
                    };
                    let u2 = if t2 < p {
                        t2
                    } else {
                        t2 - 1
                    };
                    assert(old_pos[u1] != old_pos[u2]);
                } else if t1 == p {
                    let u2 = if t2 < p {
                        t2
                    } else {
                        t2 - 1
                    };
                    assert(old_sorted[u2] == orig[old_pos[u2]]);
                    assert(0 <= u2 < k0 && old_pos[u2] < k0);
                } else {
                    let u1 = if t1 < p {
                        t1
                    } else {
                        t1 - 1
                    };
                    assert(old_sorted[u1] == orig[old_pos[u1]]);
                    assert(0 <= u1 < k0 && old_pos[u1] < k0);
                }
            }
            assert forall|q: int| #![trigger inv[q]] 0 <= q < k implies 0 <= inv[q] < k
                && pos[inv[q]] == q by {
                if q < k0 {
                    assert(old_pos[old_inv[q]] == q);
                }
            }
        }
    }
    assert(orig.skip(k).len() == 0);
    (sorted, Ghost(pos), Ghost(inv))
}

/// Picks the formats to offer: the best audio, and for each note the
/// largest video, sorted by size
pub fn process_formats(formats: Vec<FormatInfo>) -> (r: (Option<Audio>, Vec<Video>))
    ensures
        r.0 == best_audio(formats@),
        offered_videos(formats@, r.1@),
{
    let ghost fs = formats@;
    let mut rest = formats;
    let mut audio_best: Option<Audio> = None;
    let mut buckets: Vec<Video> = Vec::new();
    let ghost mut src: Seq<int> = Seq::empty();
    let ghost mut i: int = 0;
    proof {
        assert(fs.take(0) =~= Seq::<FormatInfo>::empty());
        assert(fs.skip(0) =~= fs);
    }
    while rest.len() > 0
        invariant
            0 <= i <= fs.len(),
            rest@ == fs.skip(i),
            audio_best == best_audio(fs.take(i)),
            buckets@.len() == src.len(),
            forall|k: int|
                #![trigger buckets@[k]]
                0 <= k < buckets@.len() ==> best_among(fs, i, src[k], buckets@[k]),
            distinct_notes(buckets@),
            covers_notes(fs, i, buckets@),
        decreases rest@.len(),
    {
        let f = rest.remove(0);
        assert(f == fs[i]);
        assert(rest@ =~= fs.skip(i + 1));
        assert(fs.take(i + 1).drop_last() =~= fs.take(i));
        assert(fs.take(i + 1).last() == fs[i]);
        let ghost old_buckets = buckets@;
        let ghost old_src = src;
        match f {
            FormatInfo::Unknown(_) => {},
            FormatInfo::Audio(audio) => {
                let keep = match &audio_best {
                    Some(cb) => *cb > audio,
                    None => false,
                };
                if !keep {
                    audio_best = Some(audio);
                }
            },
            FormatInfo::Video(video) => {
                match find_note(&buckets, &video.note) {
                    Some(j) => {
                        assert(old_buckets[j as int].note@ == video.note@);
                        if video.size >= buckets[j].size {
                            buckets.set(j, video);
                            proof {
                                src = old_src.update(j as int, i);
                            }
                        }
                    },
                    None => {
                        assert(video_at(fs, i) == Some(video));
                        buckets.push(video);
                        proof {
                            src = old_src.push(i);
                        }
                    },
                }
            },
        }
        proof {
            lemma_step(fs, i, old_buckets, old_src, buckets@, src);
            i = i + 1;
        }
    }
    proof {
        assert(fs.take(i) =~= fs);
    }
    let (videos, Ghost(pos), Ghost(inv)) = sort_by_size(buckets);
    proof {
        let b = buckets@;
        assert forall|m: int|
            #![trigger video_at(fs, m)]
            0 <= m < fs.len() && video_at(fs, m) is Some implies exists|k: int|
                0 <= k < videos@.len() && #[trigger] videos@[k].note@ == video_at(
                fs,
                m,
            )->0.note@ by {
            let q = choose|q: int| 0 <= q < b.len() && #[trigger] b[q].note@ == video_at(fs, m)->0.note@;
            let t = inv[q];
            assert(videos@[t] == b[q]);
        }
        assert forall|k: int| 0 <= k < videos@.len() implies #[trigger] is_best_video(
            fs,
            videos@[k],
        ) by {
            assert(videos@[k] == b[pos[k]]);
            assert(best_among(fs, fs.len() as int, src[pos[k]], videos@[k]));
        }
        assert forall|a: int, c: int|
            0 <= a < videos@.len() && 0 <= c < videos@.len() && a != c implies #[trigger] videos@[a].note@
            != #[trigger] videos@[c].note@ by {
            assert(videos@[a] == b[pos[a]]);
            assert(videos@[c] == b[pos[c]]);
        }
    }
    (audio_best, videos)
}

/// One format's step keeps the bucket invariants
proof fn lemma_step(
    fs: Seq<FormatInfo>,
    i: int,
    old_b: Seq<Video>,
    old_src: Seq<int>,
    b: Seq<Video>,
    src: Seq<int>,
)
    requires
        0 <= i < fs.len(),
        old_b.len() == old_src.len(),
        forall|k: int|
            #![trigger old_b[k]]
            0 <= k < old_b.len() ==> best_among(fs, i, old_src[k], old_b[k]),
        distinct_notes(old_b),
        covers_notes(fs, i, old_b),
        video_at(fs, i) is None ==> b == old_b && src == old_src,
        video_at(fs, i) matches Some(v) ==> {
            ||| exists|j: int|
                0 <= j < old_b.len() && old_b[j].note@ == v.note@ && v.size >= old_b[j].size && b
                    == old_b.update(j, v) && src == old_src.update(j, i)
            ||| exists|j: int|
                0 <= j < old_b.len() && old_b[j].note@ == v.note@ && v.size < old_b[j].size && b
                    == old_b && src == old_src
            ||| (forall|t: int| 0 <= t < old_b.len() ==> old_b[t].note@ != v.note@) && b
                == old_b.push(v) && src == old_src.push(i)
        },
    ensures
        b.len() == src.len(),
        forall|k: int| #![trigger b[k]] 0 <= k < b.len() ==> best_among(fs, i + 1, src[k], b[k]),
        distinct_notes(b),
        covers_notes(fs, i + 1, b),
{
    match video_at(fs, i) {
        None => {
            assert forall|k: int| #![trigger b[k]] 0 <= k < b.len() implies best_among(
                fs,
                i + 1,
                src[k],
                b[k],
            ) by {
                assert(best_among(fs, i, old_src[k], old_b[k]));
            }
        },
        Some(v) => {
            if exists|j: int|
                0 <= j < old_b.len() && old_b[j].note@ == v.note@ && v.size >= old_b[j].size && b
                    == old_b.update(j, v) && src == old_src.update(j, i) {
                let j = choose|j: int|
                    0 <= j < old_b.len() && old_b[j].note@ == v.note@ && v.size >= old_b[j].size
                        && b == old_b.update(j, v) && src == old_src.update(j, i);
                assert(best_among(fs, i, old_src[j], old_b[j]));
                assert forall|k: int| #![trigger b[k]] 0 <= k < b.len() implies best_among(
                    fs,
                    i + 1,
                    src[k],
                    b[k],
                ) by {
                    assert(best_among(fs, i, old_src[k], old_b[k]));
                    if k != j {
                        assert(old_b[k].note@ != old_b[j].note@);
                    }
                }
                assert forall|a: int, c: int|
                    0 <= a < b.len() && 0 <= c < b.len() && a != c implies #[trigger] b[a].note@
                    != #[trigger] b[c].note@ by {
                    assert(old_b[a].note@ != old_b[c].note@);
                }
                assert forall|m: int|
                    #![trigger video_at(fs, m)]
                    0 <= m < i + 1 && video_at(fs, m) is Some implies exists|k: int|
                        0 <= k < b.len() && #[trigger] b[k].note@ == video_at(fs, m)->0.note@ by {
                    if m == i {
                        assert(b[j].note@ == v.note@);
                    } else {
                        let k = choose|k: int|
                            0 <= k < old_b.len() && #[trigger] old_b[k].note@ == video_at(
                                fs,
                                m,
                            )->0.note@;
                        assert(b[k].note@ == old_b[k].note@);
                    }
                }
            } else if exists|j: int|
                0 <= j < old_b.len() && old_b[j].note@ == v.note@ && v.size < old_b[j].size && b
                    == old_b && src == old_src {
                let j = choose|j: int|
                    0 <= j < old_b.len() && old_b[j].note@ == v.note@ && v.size < old_b[j].size
                        && b == old_b && src == old_src;
                assert forall|k: int| #![trigger b[k]] 0 <= k < b.len() implies best_among(
                    fs,
                    i + 1,
                    src[k],
                    b[k],
                ) by {
                    assert(best_among(fs, i, old_src[k], old_b[k]));
                    if k != j {
                        assert(old_b[k].note@ != old_b[j].note@);
                    }
                }
                assert forall|m: int|
                    #![trigger video_at(fs, m)]
                    0 <= m < i + 1 && video_at(fs, m) is Some implies exists|k: int|
                        0 <= k < b.len() && #[trigger] b[k].note@ == video_at(fs, m)->0.note@ by {
                    if m == i {
                        assert(b[j].note@ == v.note@);
                    }
                }
            } else {
                let n = old_b.len() as int;
                assert forall|k: int| #![trigger b[k]] 0 <= k < b.len() implies best_among(
                    fs,
                    i + 1,
                    src[k],
                    b[k],
                ) by {
                    if k < n {
                        assert(best_among(fs, i, old_src[k], old_b[k]));
                        assert(old_b[k].note@ != v.note@);
                    } else {
                        assert forall|m2: int|
                            #![trigger video_at(fs, m2)]
                            0 <= m2 < i + 1 && video_at(fs, m2) is Some && video_at(
                                fs,
                                m2,
                            )->0.note@ == v.note@ implies video_at(fs, m2)->0.size <= v.size && (
                            m2 > i ==> video_at(fs, m2)->0.size < v.size) by {
                            if m2 < i {
                                let t = choose|t: int|
                                    0 <= t < old_b.len() && #[trigger] old_b[t].note@ == video_at(
                                        fs,
                                        m2,
                                    )->0.note@;
                                assert(old_b[t].note@ != v.note@);
                            }
                        }
                    }
                }
                assert forall|a: int, c: int|
                    0 <= a < b.len() && 0 <= c < b.len() && a != c implies #[trigger] b[a].note@
                    != #[trigger] b[c].note@ by {
                    if a < n && c < n {
                        assert(old_b[a].note@ != old_b[c].note@);
                    } else if a < n {
                        assert(old_b[a].note@ != v.note@);
                    } else {
                        assert(old_b[c].note@ != v.note@);
                    }
                }
                assert forall|m: int|
                    #![trigger video_at(fs, m)]
                    0 <= m < i + 1 && video_at(fs, m) is Some implies exists|k: int|
                        0 <= k < b.len() && #[trigger] b[k].note@ == video_at(fs, m)->0.note@ by {
                    if m == i {
                        assert(b[n].note@ == v.note@);
                    } else {
                        let k = choose|k: int|
                            0 <= k < old_b.len() && #[trigger] old_b[k].note@ == video_at(
                                fs,
                                m,
                            )->0.note@;
                        assert(b[k].note@ == old_b[k].note@);
                    }
                }
            }
        },
    }
}

/// What a button shows; the app writes the sizes out
#[derive(Debug, PartialEq)]
pub enum ButtonLabel {
    /// A video format: its note and size
    Video { note: String, size: u64 },
    /// The audio format: its size
    Audio { size: u64 },
    /// Close the keyboard
    Close,
}

/// A keyboard button: what it shows and the callback data it sends
#[derive(Debug, PartialEq)]
pub struct Button {
    /// What the button shows
    pub label: ButtonLabel,
    /// The callback data sent when it is pressed
    pub data: String,
}

/// The callback data that asks for `q`
pub open spec fn query_data(q: Query) -> Seq<char> {
    match q {
        Query::FormatAudio { id } => "audio:"@ + decimal(id as nat),
        Query::FormatVideo { id } => "video:"@ + decimal(id as nat),
        Query::Close => "close:"@,
    }
}

/// `b` offers the video `v`
pub open spec fn is_video_button(b: Button, v: Video) -> bool {
    &&& b.label matches ButtonLabel::Video { note, size } && note@ == v.note@ && size == v.size
    &&& b.data@ == query_data(Query::FormatVideo { id: v.id })
}

/// `b` offers the audio `a`
pub open spec fn is_audio_button(b: Button, a: Audio) -> bool {
    &&& b.label == ButtonLabel::Audio { size: a.size }
    &&& b.data@ == query_data(Query::FormatAudio { id: a.id })
}

/// `b` closes the keyboard
pub open spec fn is_close_button(b: Button) -> bool {
    &&& b.label == ButtonLabel::Close
    &&& b.data@ == query_data(Query::Close)
}

/// Row `r` holds the videos `2r` and, where there is one, `2r + 1`
pub open spec fn is_video_row(row: Seq<Button>, vs: Seq<Video>, r: int) -> bool {
    &&& row.len() == (if 2 * r + 1 < vs.len() {
        2int
    } else {
        1int
    })
    &&& is_video_button(row[0], vs[2 * r])
    &&& row.len() == 2 ==> is_video_button(row[1], vs[2 * r + 1])
}

/// The keyboard: the videos two to a row, then the audio (if any) in a row
/// of its own, then a close button
pub open spec fn is_layout(rows: Seq<Vec<Button>>, audio: Option<Audio>, vs: Seq<Video>) -> bool {
    let nv: int = (vs.len() as int + 1) / 2;
    let na: int = if audio is Some {
        1
    } else {
        0
    };
    &&& rows.len() == nv + na + 1
    &&& forall|r: int| 0 <= r < nv ==> #[trigger] is_video_row(rows[r]@, vs, r)
    &&& audio matches Some(a) ==> rows[nv]@.len() == 1 && is_audio_button(rows[nv]@[0], a)
    &&& rows[nv + na]@.len() == 1
    &&& is_close_button(rows[nv + na]@[0])
}

/// The callback data that asks for `q`
pub fn query_data_text(q: Query) -> (r: String)
    ensures
        r@ == query_data(q),
{
    match q {
        Query::FormatAudio { id } => {
            let mut s = String::from_str("audio:");
            s.append(u32_to_decimal(id).as_str());
            s
        },
        Query::FormatVideo { id } => {
            let mut s = String::from_str("video:");
            s.append(u32_to_decimal(id).as_str());
            s
        },
        Query::Close => String::from_str("close:"),
    }
}

/// The button that offers `v`
fn video_button(v: Video) -> (r: Button)
    ensures
        is_video_button(r, v),
{
    let data = query_data_text(Query::FormatVideo { id: v.id });
    Button { label: ButtonLabel::Video { note: v.note, size: v.size }, data }
}

/// Lays out the keyboard for the offered audio and videos
pub fn keyboard_layout(audio: Option<Audio>, videos: Vec<Video>) -> (r: Vec<Vec<Button>>)
    ensures
        is_layout(r@, audio, videos@),
{
    let ghost vs = videos@;
    let n = videos.len();
    let mut rest = videos;
    let mut rows: Vec<Vec<Button>> = Vec::new();
    let mut c: usize = 0;
    proof {
        assert(vs.skip(0) =~= vs);
    }
    while rest.len() > 0
        invariant
            n == vs.len(),
            c <= n,
            c % 2 == 0 || c == n,
            rows@.len() == (c + 1) / 2,
            rest@ == vs.skip(c as int),
            forall|r: int| 0 <= r < rows@.len() ==> #[trigger] is_video_row(rows@[r]@, vs, r),
        decreases rest@.len(),
    {
        let ghost r = rows@.len() as int;
        let v1 = rest.remove(0);
        assert(v1 == vs[c as int]);
        let mut row: Vec<Button> = Vec::new();
        row.push(video_button(v1));
        if rest.len() > 0 {
            let v2 = rest.remove(0);
            assert(v2 == vs[c + 1]);
            row.push(video_button(v2));
            c = c + 2;
        } else {
            c = c + 1;
        }
        assert(rest@ =~= vs.skip(c as int));
        assert(is_video_row(row@, vs, r));
        rows.push(row);
        assert(is_video_row(rows@[r]@, vs, r));
    }
    let ghost nv = rows@.len() as int;
    assert(c == n);
    match audio {
        Some(a) => {
            let mut row: Vec<Button> = Vec::new();
            let data = query_data_text(Query::FormatAudio { id: a.id });
            row.push(Button { label: ButtonLabel::Audio { size: a.size }, data });
            rows.push(row);
        },
        None => {},
    }
    let mut row: Vec<Button> = Vec::new();
    row.push(Button { label: ButtonLabel::Close, data: query_data_text(Query::Close) });
    rows.push(row);
    assert forall|r: int| 0 <= r < nv implies #[trigger] is_video_row(rows@[r]@, vs, r) by {}
    rows
}

/// The keyboard that offers the formats of a download
pub fn info_to_keyboard(formats: Vec<FormatInfo>) -> (r: Vec<Vec<Button>>)
    ensures
        exists|vs: Seq<Video>|
            offered_videos(formats@, vs) && #[trigger] is_layout(r@, best_audio(formats@), vs),
{
    let (audio, videos) = process_formats(formats);
    let ghost vs = videos@;
    let r = keyboard_layout(audio, videos);
    assert(is_layout(r@, best_audio(formats@), vs));
    r
}

/// `s[i]` is the first `c` in `s`
proof fn lemma_first_index_at(s: Seq<char>, c: char, i: int)
    requires
        0 <= i < s.len(),
        s[i] == c,
        forall|k: int| 0 <= k < i ==> s[k] != c,
    ensures
        first_index_of(s, c) == Some(i),
    decreases i,
{
    if i > 0 {
        lemma_first_index_at(s.drop_first(), c, i - 1);
    }
}

/// No element of `s` is `c`
proof fn lemma_first_index_none(s: Seq<char>, c: char)
    requires
        forall|k: int| 0 <= k < s.len() ==> s[k] != c,
    ensures
        first_index_of(s, c) is None,
    decreases s.len(),
{
    if s.len() > 0 {
        lemma_first_index_none(s.drop_first(), c);
    }
}

/// Every character of a decimal is a digit
proof fn lemma_decimal_digits(n: nat)
    ensures
        forall|k: int| 0 <= k < decimal(n).len() ==> is_digit(#[trigger] decimal(n)[k]),
    decreases n,
{
    let d = (n % 10) as int;
    assert(is_digit(digit_char(d)));
    if n >= 10 {
        lemma_decimal_digits(n / 10);
        let s = decimal(n);
        assert forall|k: int| 0 <= k < s.len() implies is_digit(#[trigger] s[k]) by {
            if k < s.len() - 1 {
                assert(s[k] == decimal(n / 10)[k]);
            }
        }
    }
}

/// Data written as `<ty>:<id>` for a five-letter type reads back as that type and id
proof fn lemma_typed_data(ty: Seq<char>, id: u32)
    requires
        ty.len() == 5,
        forall|k: int| 0 <= k < 5 ==> ty[k] != ':',
    ensures
        first_part(ty + ":"@ + decimal(id as nat)) == ty,
        first_index_of(ty + ":"@ + decimal(id as nat), ':') == Some(5int),
        first_part((ty + ":"@ + decimal(id as nat)).skip(6)) == decimal(id as nat),
        spec_parse_u32(first_part((ty + ":"@ + decimal(id as nat)).skip(6))) == Ok::<u32, IntErrorKind>(id),
{
    reveal_strlit(":");
    let d = decimal(id as nat);
    let s = ty + ":"@ + d;
    lemma_first_index_at(s, ':', 5);
    assert(s.take(5) =~= ty);
    assert(s.skip(6) =~= d);
    lemma_decimal_digits(id as nat);
    lemma_first_index_none(d, ':');
    lemma_parse_decimal(id);
}

/// The data of every button reads back as the query it stands for: pressing
/// a button asks for exactly what the button offers
pub proof fn lemma_query_data_round_trip(q: Query)
    ensures
        spec_parse_query(query_data(q)) == Ok::<Query, QueryErrorView>(q),
{
    reveal_strlit("audio:");
    reveal_strlit("video:");
    reveal_strlit("close:");
    reveal_strlit("audio");
    reveal_strlit("video");
    reveal_strlit("close");
    reveal_strlit(":");
    match q {
        Query::FormatAudio { id } => {
            assert("audio:"@ =~= "audio"@ + ":"@);
            lemma_typed_data("audio"@, id);
        },
        Query::FormatVideo { id } => {
            assert("video:"@ =~= "video"@ + ":"@);
            lemma_typed_data("video"@, id);
        },
        Query::Close => {
            let s = "close:"@;
            lemma_first_index_at(s, ':', 5);
            assert(s.take(5) =~= "close"@);
        },
    }
}

/// The chosen audio is one of the audios offered, and there is one as soon
/// as any audio is offered
pub proof fn lemma_best_audio_is_offered(fs: Seq<FormatInfo>)
    ensures
        best_audio(fs) matches Some(a) ==> exists|m: int|
            0 <= m < fs.len() && #[trigger] fs[m] == FormatInfo::Audio(a),
        best_audio(fs) is None <==> forall|m: int| 0 <= m < fs.len() ==> !(#[trigger] fs[m] is Audio),
    decreases fs.len(),
{
    if fs.len() > 0 {
        let pre = fs.drop_last();
        lemma_best_audio_is_offered(pre);
        let n = fs.len() - 1;
        if let Some(a) = best_audio(fs) {
            if fs.last() != FormatInfo::Audio(a) {
                let m = choose|m: int| 0 <= m < pre.len() && #[trigger] pre[m] == FormatInfo::Audio(a);
                assert(fs[m] == pre[m]);
            }
        }
        if best_audio(fs) is None {
            assert forall|m: int| 0 <= m < fs.len() implies !(#[trigger] fs[m] is Audio) by {
                if m < n {
                    assert(fs[m] == pre[m]);
                }
            }
        } else if !(fs.last() is Audio) {
            let m = choose|m: int| 0 <= m < pre.len() && (#[trigger] pre[m] is Audio);
            assert(fs[m] == pre[m]);
        }
    }
}

/// The audio at position `m`, if the format there is one
pub open spec fn audio_at(fs: Seq<FormatInfo>, m: int) -> Option<Audio> {
    match fs[m] {
        FormatInfo::Audio(a) => Some(a),
        _ => None,
    }
}

/// `b` is at most `a` in bitrate, and at most as large where the bitrates
/// are equal
pub open spec fn audio_at_most(b: Audio, a: Audio) -> bool {
    b.bitrate < a.bitrate || (b.bitrate == a.bitrate && b.size <= a.size)
}

/// The chosen audio has the highest bitrate of all the audios offered, and
/// of those with that bitrate it is the largest
pub proof fn lemma_best_audio_is_greatest(fs: Seq<FormatInfo>)
    ensures
        best_audio(fs) matches Some(a) ==> forall|m: int|
            0 <= m < fs.len() && (#[trigger] audio_at(fs, m)) is Some ==> audio_at_most(
                audio_at(fs, m)->0,
                a,
            ),
    decreases fs.len(),
{
    if fs.len() > 0 {
        let pre = fs.drop_last();
        let n = fs.len() - 1;
        lemma_best_audio_is_greatest(pre);
        lemma_best_audio_is_offered(pre);
        if let Some(a) = best_audio(fs) {
            assert forall|m: int|
                0 <= m < fs.len() && (#[trigger] audio_at(fs, m)) is Some implies audio_at_most(
                audio_at(fs, m)->0,
                a,
            ) by {
                if m < n {
                    assert(fs[m] == pre[m]);
                    assert(audio_at(fs, m) == audio_at(pre, m));
                    assert(pre[m] is Audio);
                }
            }
        }
    }
}

/// Every button of a keyboard asks, when pressed, for what it shows: a
/// video button for that video's format, the audio button for the audio's
/// format, and the last button for closing
pub proof fn lemma_layout_buttons_round_trip(
    rows: Seq<Vec<Button>>,
    audio: Option<Audio>,
    vs: Seq<Video>,
)
    requires
        is_layout(rows, audio, vs),
    ensures
        forall|r: int, c: int|
            #![trigger rows[r]@[c]]
            0 <= r < (vs.len() + 1) / 2 && 0 <= c < rows[r]@.len() ==> spec_parse_query(
                rows[r]@[c].data@,
            ) == Ok::<Query, QueryErrorView>(Query::FormatVideo { id: vs[2 * r + c].id }),
        audio matches Some(a) ==> spec_parse_query(rows[(vs.len() as int + 1) / 2]@[0].data@) == Ok::<
            Query,
            QueryErrorView,
        >(Query::FormatAudio { id: a.id }),
        spec_parse_query(rows[rows.len() - 1]@[0].data@) == Ok::<Query, QueryErrorView>(
            Query::Close,
        ),
{
    let nv: int = (vs.len() as int + 1) / 2;
    assert forall|r: int, c: int|
        #![trigger rows[r]@[c]]
        0 <= r < nv && 0 <= c < rows[r]@.len() implies spec_parse_query(rows[r]@[c].data@)
        == Ok::<Query, QueryErrorView>(Query::FormatVideo { id: vs[2 * r + c].id }) by {
        assert(is_video_row(rows[r]@, vs, r));
        lemma_query_data_round_trip(Query::FormatVideo { id: vs[2 * r + c].id });
    }
    if let Some(a) = audio {
        lemma_query_data_round_trip(Query::FormatAudio { id: a.id });
    }
    lemma_query_data_round_trip(Query::Close);
}

/// The formats of `fs` that are not unknown, in order
pub open spec fn known_formats(fs: Seq<FormatInfo>) -> Seq<FormatInfo>
    decreases fs.len(),
{
    if fs.len() == 0 {
        Seq::empty()
    } else if fs.last() is Unknown {
        known_formats(fs.drop_last())
    } else {
        known_formats(fs.drop_last()).push(fs.last())
    }
}

/// Where position `j` of `fs` with position `i` removed was in `fs`
spec fn index_before_removal(i: int, j: int) -> int {
    if j < i {
        j
    } else {
        j + 1
    }
}

/// An unknown format plays no part in the choice of audio
proof fn lemma_best_audio_remove_unknown(fs: Seq<FormatInfo>, i: int)
    requires
        0 <= i < fs.len(),
        fs[i] is Unknown,
    ensures
        best_audio(fs.remove(i)) == best_audio(fs),
    decreases fs.len(),
{
    let g = fs.remove(i);
    if i == fs.len() - 1 {
        assert(g =~= fs.drop_last());
    } else {
        assert(g.drop_last() =~= fs.drop_last().remove(i));
        assert(g.last() == fs.last());
        lemma_best_audio_remove_unknown(fs.drop_last(), i);
    }
}

/// An unknown format plays no part in the choice of videos
proof fn lemma_offered_remove_unknown(fs: Seq<FormatInfo>, i: int, vs: Seq<Video>)
    requires
        0 <= i < fs.len(),
        fs[i] is Unknown,
    ensures
        offered_videos(fs.remove(i), vs) == offered_videos(fs, vs),
{
    let g = fs.remove(i);
    let n = fs.len() as int;
    assert(video_at(fs, i) is None);
    assert forall|j: int| 0 <= j < n - 1 implies #[trigger] video_at(g, j) == video_at(
        fs,
        index_before_removal(i, j),
    ) by {
        assert(g[j] == fs[index_before_removal(i, j)]);
    }
    if covers_notes(fs, n, vs) {
        assert forall|m: int|
            #![trigger video_at(g, m)]
            0 <= m < n - 1 && video_at(g, m) is Some implies exists|k: int|
                0 <= k < vs.len() && #[trigger] vs[k].note@ == video_at(g, m)->0.note@ by {
            assert(video_at(fs, index_before_removal(i, m)) == video_at(g, m));
        }
    }
    if covers_notes(g, n - 1, vs) {
        assert forall|m: int|
            #![trigger video_at(fs, m)]
            0 <= m < n && video_at(fs, m) is Some implies exists|k: int|
                0 <= k < vs.len() && #[trigger] vs[k].note@ == video_at(fs, m)->0.note@ by {
            let j = if m < i {
                m
            } else {
                m - 1
            };
            assert(video_at(g, j) == video_at(fs, m));
        }
    }
    assert forall|x: Video| #[trigger] is_best_video(fs, x) implies is_best_video(g, x) by {
        let m = choose|m: int| best_among(fs, n, m, x);
        let j = if m < i {
            m
        } else {
            m - 1
        };
        assert(video_at(g, j) == video_at(fs, m));
        assert forall|j2: int|
            #![trigger video_at(g, j2)]
            0 <= j2 < n - 1 && video_at(g, j2) is Some && video_at(g, j2)->0.note@
                == x.note@ implies video_at(g, j2)->0.size <= x.size && (j2 > j ==> video_at(
            g,
            j2,
        )->0.size < x.size) by {
            assert(video_at(fs, index_before_removal(i, j2)) == video_at(g, j2));
        }
        assert(g.len() == n - 1);
        assert(best_among(g, g.len() as int, j, x));
    }
    assert forall|x: Video| #[trigger] is_best_video(g, x) implies is_best_video(fs, x) by {
        let n1 = n - 1;
        let j = choose|j: int| best_among(g, n1, j, x);
        let m = index_before_removal(i, j);
        assert(video_at(g, j) == video_at(fs, m));
        assert forall|m2: int|
            #![trigger video_at(fs, m2)]
            0 <= m2 < n && video_at(fs, m2) is Some && video_at(fs, m2)->0.note@
                == x.note@ implies video_at(fs, m2)->0.size <= x.size && (m2 > m ==> video_at(
            fs,
            m2,
        )->0.size < x.size) by {
            let j2 = if m2 < i {
                m2
            } else {
                m2 - 1
            };
            assert(video_at(g, j2) == video_at(fs, m2));
        }
        assert(best_among(fs, n, m, x));
    }
    if offered_videos(fs, vs) {
        assert forall|k: int| 0 <= k < vs.len() implies #[trigger] is_best_video(g, vs[k]) by {
            assert(is_best_video(fs, vs[k]));
        }
    }
    if offered_videos(g, vs) {
        assert forall|k: int| 0 <= k < vs.len() implies #[trigger] is_best_video(fs, vs[k]) by {
            assert(is_best_video(g, vs[k]));
        }
    }
}

/// Dropping the unknown formats of a prefix changes neither choice
proof fn lemma_strip_unknown(p: Seq<FormatInfo>, t: Seq<FormatInfo>, vs: Seq<Video>)
    ensures
        best_audio(p + t) == best_audio(known_formats(p) + t),
        offered_videos(p + t, vs) == offered_videos(known_formats(p) + t, vs),
    decreases p.len(),
{
    if p.len() == 0 {
        assert(p + t =~= t);
        assert(known_formats(p) + t =~= t);
    } else {
        let pre = p.drop_last();
        let l = p.last();
        if l is Unknown {
            let i = pre.len() as int;
            assert((p + t)[i] == l);
            assert((p + t).remove(i) =~= pre + t);
            lemma_best_audio_remove_unknown(p + t, i);
            lemma_offered_remove_unknown(p + t, i, vs);
            lemma_strip_unknown(pre, t, vs);
        } else {
            let t2 = seq![l] + t;
            assert(p + t =~= pre + t2);
            assert(known_formats(p) + t =~= known_formats(pre) + t2);
            lemma_strip_unknown(pre, t2, vs);
        }
    }
}

/// Unknown formats play no part in what is offered: two lists of formats
/// that differ only in unknown formats, added or removed anywhere, give the
/// same audio and allow the same offered videos
pub proof fn lemma_unknown_formats_ignored(fs: Seq<FormatInfo>, gs: Seq<FormatInfo>, vs: Seq<Video>)
    requires
        known_formats(fs) == known_formats(gs),
    ensures
        best_audio(fs) == best_audio(gs),
        offered_videos(fs, vs) == offered_videos(gs, vs),
{
    let e = Seq::<FormatInfo>::empty();
    lemma_strip_unknown(fs, e, vs);
    lemma_strip_unknown(gs, e, vs);
    assert(fs + e =~= fs);
    assert(gs + e =~= gs);
}

/// Two videos that are each the best for the same note are the same video
proof fn lemma_best_video_unique(fs: Seq<FormatInfo>, x: Video, y: Video)
    requires
        is_best_video(fs, x),
        is_best_video(fs, y),
        x.note@ == y.note@,
    ensures
        x == y,
{
    let n = fs.len() as int;
    let m1 = choose|m: int| best_among(fs, n, m, x);
    let m2 = choose|m: int| best_among(fs, n, m, y);
    assert(video_at(fs, m1) == Some(x));
    assert(video_at(fs, m2) == Some(y));
    if m1 < m2 {
        assert(y.size < x.size);
        assert(x.size <= y.size);
    } else if m2 < m1 {
        assert(x.size < y.size);
        assert(y.size <= x.size);
    }
}

/// Two sorted lists of the same videos, neither holding two videos of one
/// note, have the same length and, position by position, the same sizes
proof fn lemma_sorted_same_sizes(a: Seq<Video>, b: Seq<Video>)
    requires
        sorted_by_size(a),
        sorted_by_size(b),
        distinct_notes(a),
        distinct_notes(b),
        forall|i: int| 0 <= i < a.len() ==> b.contains(#[trigger] a[i]),
        forall|j: int| 0 <= j < b.len() ==> a.contains(#[trigger] b[j]),
    ensures
        a.len() == b.len(),
        forall|k: int| 0 <= k < a.len() ==> #[trigger] a[k].size == b[k].size,
    decreases a.len(),
{
    if a.len() == 0 {
        if b.len() > 0 {
            assert(a.contains(b[0]));
        }
    } else {
        let la = a.len() - 1;
        let x = a[la];
        assert(b.contains(x));
        let j = choose|j: int| 0 <= j < b.len() && b[j] == x;
        let lb = b.len() - 1;
        assert(a.contains(b[lb]));
        let i2 = choose|i: int| 0 <= i < a.len() && a[i] == b[lb];
        // the largest of each list has the size of the largest of the other
        if j < lb {
            assert(b[j].size <= b[lb].size);
        }
        if i2 < la {
            assert(a[i2].size <= a[la].size);
        }
        let s = x.size;
        assert(b[lb].size == s);
        let a2 = a.drop_last();
        let b2 = b.remove(j);
        assert forall|i: int| 0 <= i < a2.len() implies b2.contains(#[trigger] a2[i]) by {
            assert(a2[i] == a[i]);
            assert(b.contains(a[i]));
            let t = choose|t: int| 0 <= t < b.len() && b[t] == a[i];
            assert(a[i].note@ != a[la].note@);
            assert(t != j);
            if t < j {
                assert(b2[t] == a[i]);
            } else {
                assert(b2[t - 1] == a[i]);
            }
        }
        assert forall|t: int| 0 <= t < b2.len() implies a2.contains(#[trigger] b2[t]) by {
            let t0 = if t < j {
                t
            } else {
                t + 1
            };
            assert(b2[t] == b[t0]);
            assert(a.contains(b[t0]));
            let i = choose|i: int| 0 <= i < a.len() && a[i] == b[t0];
            assert(b[t0].note@ != b[j].note@);
            assert(i != la);
            assert(a2[i] == a[i]);
        }
        assert forall|c: int, d: int| 0 <= c < d < b2.len() implies #[trigger] b2[c].size
            <= #[trigger] b2[d].size by {
            let c0 = if c < j {
                c
            } else {
                c + 1
            };
            let d0 = if d < j {
                d
            } else {
                d + 1
            };
            assert(b[c0].size <= b[d0].size);
        }
        assert forall|c: int, d: int|
            0 <= c < b2.len() && 0 <= d < b2.len() && c != d implies #[trigger] b2[c].note@
            != #[trigger] b2[d].note@ by {
            let c0 = if c < j {
                c
            } else {
                c + 1
            };
            let d0 = if d < j {
                d
            } else {
                d + 1
            };
            assert(b[c0].note@ != b[d0].note@);
        }
        assert forall|c: int, d: int| 0 <= c < d < a2.len() implies #[trigger] a2[c].size
            <= #[trigger] a2[d].size by {
            assert(a[c].size <= a[d].size);
        }
        assert forall|c: int, d: int|
            0 <= c < a2.len() && 0 <= d < a2.len() && c != d implies #[trigger] a2[c].note@
            != #[trigger] a2[d].note@ by {
            assert(a[c].note@ != a[d].note@);
        }
        lemma_sorted_same_sizes(a2, b2);
        assert forall|k: int| 0 <= k < a.len() implies #[trigger] a[k].size == b[k].size by {
            if k == la {
            } else if k < j {
                assert(a2[k].size == b2[k].size);
                assert(b2[k] == b[k]);
            } else {
                // from position `j` on, both lists hold only videos of the largest size
                assert(a2[k].size == b2[k].size);
                assert(b2[k] == b[k + 1]);
                assert(b[j].size <= b[k + 1].size);
                assert(b[k + 1].size <= b[lb].size);
                if k > j {
                    assert(b[j].size <= b[k].size);
                }
                assert(b[k].size <= b[lb].size);
            }
        }
    }
}

/// The videos offered for a list of formats are determined up to the order
/// of videos of equal size: any two admissible lists hold the same videos,
/// are equally long, and have the same size at each position
pub proof fn lemma_offered_videos_unique(fs: Seq<FormatInfo>, vs1: Seq<Video>, vs2: Seq<Video>)
    requires
        offered_videos(fs, vs1),
        offered_videos(fs, vs2),
    ensures
        vs1.len() == vs2.len(),
        forall|k: int| 0 <= k < vs1.len() ==> #[trigger] vs1[k].size == vs2[k].size,
        forall|k: int| 0 <= k < vs1.len() ==> vs2.contains(#[trigger] vs1[k]),
        forall|k: int| 0 <= k < vs2.len() ==> vs1.contains(#[trigger] vs2[k]),
{
    let n = fs.len() as int;
    assert forall|k: int| 0 <= k < vs1.len() implies vs2.contains(#[trigger] vs1[k]) by {
        let x = vs1[k];
        assert(is_best_video(fs, x));
        let m = choose|m: int| best_among(fs, n, m, x);
        assert(video_at(fs, m) == Some(x));
        let k2 = choose|k2: int| 0 <= k2 < vs2.len() && #[trigger] vs2[k2].note@ == video_at(fs, m)->0.note@;
        assert(is_best_video(fs, vs2[k2]));
        lemma_best_video_unique(fs, x, vs2[k2]);
    }
    assert forall|k: int| 0 <= k < vs2.len() implies vs1.contains(#[trigger] vs2[k]) by {
        let x = vs2[k];
        assert(is_best_video(fs, x));
        let m = choose|m: int| best_among(fs, n, m, x);
        assert(video_at(fs, m) == Some(x));
        let k1 = choose|k1: int| 0 <= k1 < vs1.len() && #[trigger] vs1[k1].note@ == video_at(fs, m)->0.note@;
        assert(is_best_video(fs, vs1[k1]));
        lemma_best_video_unique(fs, x, vs1[k1]);
    }
    lemma_sorted_same_sizes(vs1, vs2);
}

/// Adding or removing unknown formats anywhere leaves the chosen audio as it
/// is, and any videos offered before and after hold the same videos, in the
/// same order up to videos of equal size
pub proof fn lemma_unknown_formats_keep_offer(
    fs: Seq<FormatInfo>,
    gs: Seq<FormatInfo>,
    vs1: Seq<Video>,
    vs2: Seq<Video>,
)
    requires
        known_formats(fs) == known_formats(gs),
        offered_videos(fs, vs1),
        offered_videos(gs, vs2),
    ensures
        best_audio(fs) == best_audio(gs),
        vs1.len() == vs2.len(),
        forall|k: int| 0 <= k < vs1.len() ==> #[trigger] vs1[k].size == vs2[k].size,
        forall|k: int| 0 <= k < vs1.len() ==> vs2.contains(#[trigger] vs1[k]),
        forall|k: int| 0 <= k < vs2.len() ==> vs1.contains(#[trigger] vs2[k]),
{
    lemma_unknown_formats_ignored(fs, gs, vs2);
    lemma_offered_videos_unique(fs, vs1, vs2);
}

} // verus!
