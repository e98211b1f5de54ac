use twdl::{
    best_source_index, best_source_url, format_source_urls, source_url_text, Clip, Data,
    Extensions, FetchError, PlaybackAccessToken, SourceFile, VideoQuality, VideoSourceResponse,
};

fn quality(label: &str, frame_rate: u32, base: &str) -> VideoQuality {
    VideoQuality {
        quality: label.to_string(),
        frame_rate,
        source_url: base.to_string(),
    }
}

fn response(sig: &str, token: &str, qualities: Vec<VideoQuality>) -> VideoSourceResponse {
    VideoSourceResponse {
        data: Data {
            clip: Clip {
                playback_access_token: PlaybackAccessToken {
                    signature: sig.to_string(),
                    value: token.to_string(),
                },
                video_qualities: qualities,
            },
        },
        extensions: Extensions {
            duration_milliseconds: 12,
            operation_name: "VideoAccessToken_Clip".to_string(),
            request_id: "req".to_string(),
        },
    }
}

fn file(q: u32) -> SourceFile {
    SourceFile {
        quality: q,
        frame_rate: 30,
        url: format!("https://clips.example.com/{q}.mp4"),
    }
}

#[test]
fn token_is_percent_encoded_and_signature_is_not() {
    let url = source_url_text("https://clips.example.com/a.mp4", "s1.g-2", "a=b&c");
    assert_eq!(url, "https://clips.example.com/a.mp4?sig=s1.g-2&token=a%3Db%26c");
}

#[test]
fn token_encoding_covers_every_non_alphanumeric_byte() {
    let url = source_url_text("b", "s", "Az09 {\"k\":1}/é~");
    assert_eq!(url, "b?sig=s&token=Az09%20%7B%22k%22%3A1%7D%2F%C3%A9%7E");
}

#[test]
fn empty_token_gives_empty_query_value() {
    assert_eq!(source_url_text("b", "", ""), "b?sig=&token=");
}

#[test]
fn renditions_become_candidates_in_order() {
    let r = response(
        "abc",
        "{\"x\":1}",
        vec![
            quality("480", 30, "https://clips.example.com/480.mp4"),
            quality("+1080", 60, "https://clips.example.com/1080.mp4"),
        ],
    );
    let files = format_source_urls(&r).unwrap();
    assert_eq!(
        files,
        vec![
            SourceFile {
                quality: 480,
                frame_rate: 30,
                url: "https://clips.example.com/480.mp4?sig=abc&token=%7B%22x%22%3A1%7D"
                    .to_string(),
            },
            SourceFile {
                quality: 1080,
                frame_rate: 60,
                url: "https://clips.example.com/1080.mp4?sig=abc&token=%7B%22x%22%3A1%7D"
                    .to_string(),
            },
        ]
    );
}

#[test]
fn url_is_normalized_by_the_parser() {
    let r = response("s", "t", vec![quality("720", 30, "HTTPS://Clips.Example.COM")]);
    let files = format_source_urls(&r).unwrap();
    assert_eq!(files[0].url, "https://clips.example.com/?sig=s&token=t");
}

#[test]
fn no_renditions_gives_no_candidates() {
    let r = response("s", "t", vec![]);
    assert_eq!(format_source_urls(&r), Ok(vec![]));
}

#[test]
fn non_numeric_quality_is_malformed() {
    for label in ["720p", "", "-1", "+", " 720", "4294967296"] {
        let r = response("s", "t", vec![quality(label, 30, "https://clips.example.com/a.mp4")]);
        assert_eq!(format_source_urls(&r), Err(FetchError::MalformedMetadata), "{label}");
    }
}

#[test]
fn largest_quality_label_is_accepted() {
    let r = response("s", "t", vec![quality("4294967295", 30, "https://clips.example.com/a.mp4")]);
    assert_eq!(format_source_urls(&r).unwrap()[0].quality, u32::MAX);
}

#[test]
fn unparsable_url_is_malformed() {
    let r = response(
        "s",
        "t",
        vec![
            quality("480", 30, "https://clips.example.com/a.mp4"),
            quality("720", 30, "not a url"),
        ],
    );
    assert_eq!(format_source_urls(&r), Err(FetchError::MalformedMetadata));
}

#[test]
fn best_candidate_has_highest_quality() {
    let files = vec![file(160), file(1080), file(480), file(720)];
    assert_eq!(best_source_index(&files), Some(1));
    assert_eq!(
        best_source_url(&files),
        Ok("https://clips.example.com/1080.mp4".to_string())
    );
}

#[test]
fn best_candidate_ignores_frame_rate() {
    let mut a = file(720);
    a.frame_rate = 60;
    let mut b = file(720);
    b.frame_rate = 30;
    b.url = "https://clips.example.com/other.mp4".to_string();
    let files = vec![file(480), a, b];
    let best = best_source_index(&files).unwrap();
    assert!(best == 1 || best == 2);
    assert_eq!(files[best].quality, 720);
}

#[test]
fn no_candidate_means_no_source_found() {
    let files: Vec<SourceFile> = vec![];
    assert_eq!(best_source_index(&files), None);
    assert_eq!(best_source_url(&files), Err(FetchError::NoSourceFound));
}

#[test]
fn source_file_text_is_its_url() {
    assert_eq!(file(480).to_string(), "https://clips.example.com/480.mp4");
}
