use hls_demo::feeder::{load_playlist, Action, Event, FeedError, FeederState, SegmentFeeder};
use hls_demo::playlist::ParseError;

const THREE: &str = "#EXTM3U\n#EXTINF:10.0,\n0.mp4\n#EXTINF:10.0,\n1.mp4\n#EXTINF:4.2,\n2.mp4\n";

fn started(text: &str) -> (SegmentFeeder, Action) {
    let mut f = SegmentFeeder::new("/hls_demo.m3u8".to_string());
    match f.step(Event::BufferOpened) {
        Action::FetchPlaylist(url) => assert_eq!(url, "/hls_demo.m3u8"),
        other => panic!("unexpected {:?}", other),
    }
    assert_eq!(f.state(), FeederState::FetchingPlaylist);
    let a = f.step(Event::PlaylistFetched(text.to_string()));
    (f, a)
}

#[test]
fn synchronous_buffer_gets_every_segment_in_order() {
    let (mut f, mut action) = started(THREE);
    let mut fetched = Vec::new();
    let mut appended = Vec::new();
    let mut end_signals = 0;
    let mut acks = 0;
    loop {
        action = match action {
            Action::FetchSegment(uri) => {
                fetched.push(uri.clone());
                f.step(Event::SegmentFetched(uri.into_bytes()))
            }
            Action::Append(bytes) => {
                appended.push(String::from_utf8(bytes).unwrap());
                acks += 1;
                f.step(Event::AppendAcknowledged)
            }
            Action::SignalEndOfStream => {
                assert_eq!(acks, 3);
                end_signals += 1;
                f.step(Event::EndOfStreamSignaled)
            }
            Action::Wait => break,
            other => panic!("unexpected {:?}", other),
        };
    }
    assert_eq!(fetched, vec!["0.mp4", "1.mp4", "2.mp4"]);
    assert_eq!(appended, fetched);
    assert_eq!(end_signals, 1);
    assert_eq!(f.state(), FeederState::Done);
    assert_eq!(f.delivered(), 3);
    assert_eq!(f.segments().len(), 3);
}

#[test]
fn fetch_failure_mid_stream_halts() {
    let (mut f, a) = started(THREE);
    assert!(matches!(a, Action::FetchSegment(ref u) if u == "0.mp4"));
    assert!(matches!(f.step(Event::SegmentFetched(vec![1, 2])), Action::Append(ref b) if b == &vec![1, 2]));
    assert!(matches!(f.step(Event::AppendAcknowledged), Action::FetchSegment(ref u) if u == "1.mp4"));
    assert!(matches!(f.step(Event::FetchFailed), Action::Fail(FeedError::Fetch)));
    assert_eq!(f.state(), FeederState::Error(FeedError::Fetch));
    assert_eq!(f.delivered(), 1);
    assert!(matches!(f.step(Event::SegmentFetched(vec![3])), Action::Wait));
    assert!(matches!(f.step(Event::AppendAcknowledged), Action::Wait));
    assert!(matches!(f.step(Event::EndOfStreamSignaled), Action::Wait));
    assert!(matches!(f.step(Event::Cancel), Action::Wait));
    assert_eq!(f.state(), FeederState::Error(FeedError::Fetch));
    assert_eq!(f.delivered(), 1);
}

#[test]
fn no_second_append_before_acknowledgement() {
    let (mut f, _) = started(THREE);
    assert!(matches!(f.step(Event::SegmentFetched(vec![0])), Action::Append(_)));
    assert!(matches!(f.step(Event::SegmentFetched(vec![9])), Action::Wait));
    assert_eq!(f.state(), FeederState::Streaming { index: 0, appending: true });
}

#[test]
fn playlist_fetch_failure() {
    let mut f = SegmentFeeder::new("/p.m3u8".to_string());
    f.step(Event::BufferOpened);
    assert!(matches!(f.step(Event::FetchFailed), Action::Fail(FeedError::Fetch)));
    assert_eq!(f.state(), FeederState::Error(FeedError::Fetch));
}

#[test]
fn master_playlist_is_an_error() {
    let (f, a) = started("#EXTM3U\n#EXT-X-STREAM-INF:BANDWIDTH=1\na.m3u8\n");
    assert!(matches!(a, Action::Fail(FeedError::MasterPlaylist)));
    assert_eq!(f.state(), FeederState::Error(FeedError::MasterPlaylist));
}

#[test]
fn unparsable_playlist_is_an_error() {
    let (f, a) = started("hello");
    assert!(matches!(a, Action::Fail(FeedError::Playlist(ParseError::MissingHeader))));
    assert_eq!(f.state(), FeederState::Error(FeedError::Playlist(ParseError::MissingHeader)));
}

#[test]
fn empty_media_playlist_ends_at_once() {
    let (mut f, a) = started("#EXTM3U\n#EXTINF\n");
    assert!(matches!(a, Action::SignalEndOfStream));
    assert_eq!(f.state(), FeederState::Draining);
    assert!(matches!(f.step(Event::EndOfStreamSignaled), Action::Wait));
    assert_eq!(f.state(), FeederState::Done);
}

#[test]
fn cancel_tears_down_from_streaming() {
    let (mut f, _) = started(THREE);
    assert!(matches!(f.step(Event::Cancel), Action::Abort));
    assert_eq!(f.state(), FeederState::Done);
    assert!(matches!(f.step(Event::SegmentFetched(vec![1])), Action::Wait));
}

#[test]
fn events_before_opening_are_ignored() {
    let mut f = SegmentFeeder::new("/p.m3u8".to_string());
    assert!(matches!(f.step(Event::AppendAcknowledged), Action::Wait));
    assert_eq!(f.state(), FeederState::Idle);
}

#[test]
fn load_playlist_accepts_only_media() {
    let m = load_playlist(THREE).unwrap();
    assert_eq!(m.segments.len(), 3);
    assert_eq!(m.segments[2].uri, "2.mp4");
    assert!(matches!(load_playlist("#EXTM3U\n#EXT-X-STREAM-INF:BANDWIDTH=1\na\n"), Err(FeedError::MasterPlaylist)));
    assert!(matches!(load_playlist(""), Err(FeedError::Playlist(ParseError::MissingHeader))));
}
