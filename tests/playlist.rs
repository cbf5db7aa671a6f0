use hls_demo::playlist::{parse_playlist, ParseError, Playlist, SegmentDuration};

fn variants(text: &str) -> Vec<(String, u32)> {
    match parse_playlist(text) {
        Ok(Playlist::Master(m)) => m.variants.iter().map(|v| (v.uri.clone(), v.bandwidth)).collect(),
        other => panic!("expected a master playlist, got {:?}", other),
    }
}

fn segments(text: &str) -> Vec<(String, u64, u32)> {
    match parse_playlist(text) {
        Ok(Playlist::Media(m)) => m
            .segments
            .iter()
            .map(|s| (s.uri.clone(), s.duration.units, s.duration.decimals))
            .collect(),
        other => panic!("expected a media playlist, got {:?}", other),
    }
}

fn error(text: &str) -> ParseError {
    match parse_playlist(text) {
        Err(e) => e,
        Ok(p) => panic!("expected an error, got {:?}", p),
    }
}

#[test]
fn master_two_variants_in_order() {
    let text = "#EXTM3U\n#EXT-X-STREAM-INF:BANDWIDTH=100000\na.m3u8\n#EXT-X-STREAM-INF:BANDWIDTH=500000\nb.m3u8\n";
    assert_eq!(
        variants(text),
        vec![("a.m3u8".to_string(), 100000), ("b.m3u8".to_string(), 500000)]
    );
}

#[test]
fn master_bandwidth_among_other_attributes() {
    let text = "#EXTM3U\r\n#EXT-X-STREAM-INF:PROGRAM-ID=1,BANDWIDTH=1280000,RESOLUTION=640x360\r\nlow/index.m3u8\r\n";
    assert_eq!(variants(text), vec![("low/index.m3u8".to_string(), 1280000)]);
}

#[test]
fn master_bandwidth_at_u32_limit() {
    let text = "#EXTM3U\n#EXT-X-STREAM-INF:BANDWIDTH=4294967295\nx.m3u8";
    assert_eq!(variants(text), vec![("x.m3u8".to_string(), 4294967295)]);
}

#[test]
fn master_bandwidth_over_u32_limit() {
    let text = "#EXTM3U\n#EXT-X-STREAM-INF:BANDWIDTH=4294967296\nx.m3u8";
    assert_eq!(error(text), ParseError::MalformedNumber);
}

#[test]
fn master_bandwidth_not_a_number() {
    let text = "#EXTM3U\n#EXT-X-STREAM-INF:BANDWIDTH=fast\nx.m3u8";
    assert_eq!(error(text), ParseError::MalformedNumber);
}

#[test]
fn master_without_bandwidth() {
    let text = "#EXTM3U\n#EXT-X-STREAM-INF:RESOLUTION=640x360\nx.m3u8\n";
    assert_eq!(error(text), ParseError::MalformedAttribute);
}

#[test]
fn master_stream_info_last_line() {
    let text = "#EXTM3U\n#EXT-X-STREAM-INF:BANDWIDTH=1\n";
    assert_eq!(error(text), ParseError::MalformedURI);
}

#[test]
fn media_two_segments_in_order() {
    let text = "#EXTM3U\n#EXT-X-TARGETDURATION:10\n#EXTINF:9.5,\n0.mp4\n#EXTINF:10.0,\n1.mp4\n#EXT-X-ENDLIST\n";
    assert_eq!(
        segments(text),
        vec![("0.mp4".to_string(), 95, 1), ("1.mp4".to_string(), 100, 1)]
    );
}

#[test]
fn media_duration_forms() {
    let text = "#EXTM3U\n#EXTINF:10,title\na.mp4\n#EXTINF:.25,\nb.mp4\n#EXTINF:3.,\nc.mp4";
    assert_eq!(
        segments(text),
        vec![
            ("a.mp4".to_string(), 10, 0),
            ("b.mp4".to_string(), 25, 2),
            ("c.mp4".to_string(), 3, 0)
        ]
    );
    match parse_playlist("#EXTM3U\n#EXTINF:9.5,\n0.mp4") {
        Ok(Playlist::Media(m)) => assert_eq!(m.segments[0].duration, SegmentDuration { units: 95, decimals: 1 }),
        other => panic!("unexpected {:?}", other),
    }
}

#[test]
fn media_segment_info_last_line() {
    assert_eq!(error("#EXTM3U\n#EXTINF:9.5,\n"), ParseError::MalformedURI);
    assert_eq!(error("#EXTM3U\n#EXTINF:9.5,"), ParseError::MalformedURI);
}

#[test]
fn media_bad_durations() {
    assert_eq!(error("#EXTM3U\n#EXTINF:abc,\n0.mp4"), ParseError::MalformedNumber);
    assert_eq!(error("#EXTM3U\n#EXTINF:9.5\n0.mp4"), ParseError::MalformedNumber);
    assert_eq!(error("#EXTM3U\n#EXTINF:1.2.3,\n0.mp4"), ParseError::MalformedNumber);
    assert_eq!(error("#EXTM3U\n#EXTINF:.,\n0.mp4"), ParseError::MalformedNumber);
    assert_eq!(error("#EXTM3U\n#EXTINF:,\n0.mp4"), ParseError::MalformedNumber);
}

#[test]
fn missing_header() {
    assert_eq!(error(""), ParseError::MissingHeader);
    assert_eq!(error("not a playlist"), ParseError::MissingHeader);
}

#[test]
fn missing_tag() {
    assert_eq!(error("#EXTM3U\nsegment.mp4\n"), ParseError::MissingTag);
}

#[test]
fn media_without_segment_lines_is_empty() {
    assert_eq!(segments("#EXTM3U\n#EXTINF\n"), vec![]);
}

#[test]
fn chars_of_keeps_order() {
    assert_eq!(hls_demo::text::chars_of("ab\u{e9}"), vec!['a', 'b', '\u{e9}']);
}
