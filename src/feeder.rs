use vstd::prelude::*;
use crate::playlist::{
    lemma_segments_len, parse_playlist, parse_spec, MediaPlaylist, MediaSegment, ParseError, Playlist, PlaylistModel, SegmentDuration,
};

verus! {

/// Why a session stopped in its error state.
#[derive(Clone, Copy, Debug, PartialEq, Eq, Structural)]
pub enum FeedError {
    /// A fetch failed: a network failure or a status other than success.
    Fetch,
    /// The playlist text could not be parsed.
    Playlist(ParseError),
    /// The playlist is a master playlist; only media playlists are played.
    MasterPlaylist,
}

/// Where a session stands. Opening the buffer and asking for the playlist are one
/// step, so a session goes from `Idle` straight to `FetchingPlaylist`.
#[derive(Clone, Copy, Debug, PartialEq, Eq, Structural)]
pub enum FeederState {
    Idle,
    FetchingPlaylist,
    /// Segment `index` is being fetched (`appending == false`) or has been handed
    /// to the buffer, whose acknowledgement is awaited (`appending == true`).
    Streaming { index: usize, appending: bool },
    /// Every segment was acknowledged; end of stream has been asked for.
    Draining,
    Done,
    Error(FeedError),
}

/// What happened outside the session.
#[derive(Debug)]
pub enum Event {
    BufferOpened,
    PlaylistFetched(String),
    SegmentFetched(Vec<u8>),
    FetchFailed,
    AppendAcknowledged,
    EndOfStreamSignaled,
    /// Playback was stopped by the caller.
    Cancel,
}

pub enum EventModel {
    BufferOpened,
    PlaylistFetched(Seq<char>),
    SegmentFetched(Seq<u8>),
    FetchFailed,
    AppendAcknowledged,
    EndOfStreamSignaled,
    Cancel,
}

impl View for Event {
    type V = EventModel;

    open spec fn view(&self) -> EventModel {
        match self {
            Event::BufferOpened => EventModel::BufferOpened,
            Event::PlaylistFetched(t) => EventModel::PlaylistFetched(t@),
            Event::SegmentFetched(b) => EventModel::SegmentFetched(b@),
            Event::FetchFailed => EventModel::FetchFailed,
            Event::AppendAcknowledged => EventModel::AppendAcknowledged,
            Event::EndOfStreamSignaled => EventModel::EndOfStreamSignaled,
            Event::Cancel => EventModel::Cancel,
        }
    }
}

/// What the session asks its host to do next.
#[derive(Debug)]
pub enum Action {
    FetchPlaylist(String),
    FetchSegment(String),
    Append(Vec<u8>),
    SignalEndOfStream,
    /// Abort any fetch in flight and release the buffer.
    Abort,
    Fail(FeedError),
    /// Nothing to do until the next event.
    Wait,
}

pub enum ActionModel {
    FetchPlaylist(Seq<char>),
    FetchSegment(Seq<char>),
    Append(Seq<u8>),
    SignalEndOfStream,
    Abort,
    Fail(FeedError),
    Wait,
}

impl View for Action {
    type V = ActionModel;

    open spec fn view(&self) -> ActionModel {
        match self {
            Action::FetchPlaylist(u) => ActionModel::FetchPlaylist(u@),
            Action::FetchSegment(u) => ActionModel::FetchSegment(u@),
            Action::Append(b) => ActionModel::Append(b@),
            Action::SignalEndOfStream => ActionModel::SignalEndOfStream,
            Action::Abort => ActionModel::Abort,
            Action::Fail(e) => ActionModel::Fail(*e),
            Action::Wait => ActionModel::Wait,
        }
    }
}

/// One playback session: it feeds the segments of one media playlist, one at a
/// time and in order, into a media buffer.
pub struct SegmentFeeder {
    url: String,
    segments: Vec<MediaSegment>,
    state: FeederState,
    delivered: usize,
}

pub struct FeederModel {
    /// Where the playlist is fetched from.
    pub url: Seq<char>,
    /// The playlist's segments, once it has been parsed.
    pub segments: Seq<(Seq<char>, SegmentDuration)>,
    pub state: FeederState,
    /// How many segments the buffer has acknowledged.
    pub delivered: nat,
}

impl View for SegmentFeeder {
    type V = FeederModel;

    closed spec fn view(&self) -> FeederModel {
        FeederModel {
            url: self.url@,
            segments: self.segments@.map_values(|m: MediaSegment| m@),
            state: self.state,
            delivered: self.delivered as nat,
        }
    }
}

pub open spec fn segment_uris(m: Seq<(Seq<char>, SegmentDuration)>) -> Seq<Seq<char>> {
    m.map_values(|x: (Seq<char>, SegmentDuration)| x.0)
}

/// The media playlist that fetched playlist text holds, or why there is none.
pub open spec fn media_of(t: Seq<char>) -> Result<Seq<(Seq<char>, SegmentDuration)>, FeedError> {
    match parse_spec(t) {
        Err(pe) => Err(FeedError::Playlist(pe)),
        Ok(PlaylistModel::Master(_)) => Err(FeedError::MasterPlaylist),
        Ok(PlaylistModel::Media(m)) => Ok(m),
    }
}

/// Reads fetched playlist text as a media playlist; a master playlist is refused.
pub fn load_playlist(content: &str) -> (r: Result<MediaPlaylist, FeedError>)
    ensures
        match r {
            Ok(m) => media_of(content@) == Ok::<_, FeedError>(m@),
            Err(e) => media_of(content@) == Err::<Seq<(Seq<char>, SegmentDuration)>, _>(e),
        },
{
    match parse_playlist(content) {
        Err(pe) => Err(FeedError::Playlist(pe)),
        Ok(Playlist::Master(_)) => Err(FeedError::MasterPlaylist),
        Ok(Playlist::Media(m)) => Ok(m),
    }
}

pub open spec fn is_terminal(s: FeederState) -> bool {
    s is Done || s is Error
}

/// One step of a session: its next model and the action asked for.
pub open spec fn step_spec(v: FeederModel, e: EventModel) -> (FeederModel, ActionModel) {
    if is_terminal(v.state) {
        (v, ActionModel::Wait)
    } else {
        match (v.state, e) {
            (_, EventModel::Cancel) => (FeederModel { state: FeederState::Done, ..v }, ActionModel::Abort),
            (FeederState::Idle, EventModel::BufferOpened) => (
                FeederModel { state: FeederState::FetchingPlaylist, ..v },
                ActionModel::FetchPlaylist(v.url),
            ),
            (FeederState::FetchingPlaylist, EventModel::FetchFailed) => (
                FeederModel { state: FeederState::Error(FeedError::Fetch), ..v },
                ActionModel::Fail(FeedError::Fetch),
            ),
            (FeederState::FetchingPlaylist, EventModel::PlaylistFetched(t)) => match media_of(t) {
                Err(fe) => (
                    FeederModel { state: FeederState::Error(fe), ..v },
                    ActionModel::Fail(fe),
                ),
                Ok(m) => if m.len() == 0 {
                    (
                        FeederModel { segments: m, state: FeederState::Draining, ..v },
                        ActionModel::SignalEndOfStream,
                    )
                } else {
                    (
                        FeederModel {
                            segments: m,
                            state: FeederState::Streaming { index: 0, appending: false },
                            ..v
                        },
                        ActionModel::FetchSegment(m[0].0),
                    )
                },
            },
            (FeederState::Streaming { index, appending: false }, EventModel::SegmentFetched(b)) => (
                FeederModel { state: FeederState::Streaming { index, appending: true }, ..v },
                ActionModel::Append(b),
            ),
            (FeederState::Streaming { index: _, appending: false }, EventModel::FetchFailed) => (
                FeederModel { state: FeederState::Error(FeedError::Fetch), ..v },
                ActionModel::Fail(FeedError::Fetch),
            ),
            (FeederState::Streaming { index, appending: true }, EventModel::AppendAcknowledged) => {
                if index + 1 < v.segments.len() {
                    (
                        FeederModel {
                            state: FeederState::Streaming { index: (index + 1) as usize, appending: false },
                            delivered: v.delivered + 1,
                            ..v
                        },
                        ActionModel::FetchSegment(v.segments[index + 1].0),
                    )
                } else {
                    (
                        FeederModel { state: FeederState::Draining, delivered: v.delivered + 1, ..v },
                        ActionModel::SignalEndOfStream,
                    )
                }
            },
            (FeederState::Draining, EventModel::EndOfStreamSignaled) => (
                FeederModel { state: FeederState::Done, ..v },
                ActionModel::Wait,
            ),
            _ => (v, ActionModel::Wait),
        }
    }
}

/// The session's invariant: in `Streaming { index, .. }` exactly the segments
/// before `index` were acknowledged, in `Draining` all of them.
pub open spec fn feeder_wf(v: FeederModel) -> bool {
    &&& v.delivered <= v.segments.len() <= usize::MAX
    &&& (v.state is Idle || v.state is FetchingPlaylist ==> v.delivered == 0)
    &&& (v.state matches FeederState::Streaming { index, appending: _ } ==> index < v.segments.len()
        && v.delivered == index)
    &&& (v.state is Draining ==> v.delivered == v.segments.len())
}

impl SegmentFeeder {
    pub open spec fn wf(&self) -> bool {
        feeder_wf(self@)
    }

    /// A session, not yet started, that plays the media playlist at `url`.
    pub fn new(url: String) -> (r: SegmentFeeder)
        ensures
            r@.url == url@,
            r@.segments.len() == 0,
            r@.state == FeederState::Idle,
            r@.delivered == 0,
            r.wf(),
    {
        SegmentFeeder { url, segments: Vec::new(), state: FeederState::Idle, delivered: 0 }
    }

    pub fn state(&self) -> (r: FeederState)
        ensures
            r == self@.state,
    {
        self.state
    }

    /// How many segments the buffer has acknowledged.
    pub fn delivered(&self) -> (r: usize)
        ensures
            r == self@.delivered,
    {
        self.delivered
    }

    /// The segments of the playlist being played (empty until it is parsed).
    pub fn segments(&self) -> (r: &Vec<MediaSegment>)
        ensures
            r@.map_values(|m: MediaSegment| m@) == self@.segments,
    {
        &self.segments
    }

    /// Takes in one event and says what to do next.
    pub fn step(&mut self, event: Event) -> (r: Action)
        requires
            old(self).wf(),
        ensures
            final(self).wf(),
            (final(self)@, r@) == step_spec(old(self)@, event@),
    {
        if matches!(self.state, FeederState::Done | FeederState::Error(_)) {
            return Action::Wait;
        }
        if matches!(event, Event::Cancel) {
            self.state = FeederState::Done;
            return Action::Abort;
        }
        match (self.state, event) {
            (FeederState::Idle, Event::BufferOpened) => {
                self.state = FeederState::FetchingPlaylist;
                Action::FetchPlaylist(self.url.clone())
            },
            (FeederState::FetchingPlaylist, Event::FetchFailed) => {
                self.state = FeederState::Error(FeedError::Fetch);
                Action::Fail(FeedError::Fetch)
            },
            (FeederState::FetchingPlaylist, Event::PlaylistFetched(text)) => {
                match load_playlist(text.as_str()) {
                    Err(fe) => {
                        self.state = FeederState::Error(fe);
                        Action::Fail(fe)
                    },
                    Ok(m) => {
                        self.segments = m.segments;
                        proof {
                            assert(self@.segments == m@);
                        }
                        if self.segments.len() == 0 {
                            self.state = FeederState::Draining;
                            Action::SignalEndOfStream
                        } else {
                            self.state = FeederState::Streaming { index: 0, appending: false };
                            Action::FetchSegment(self.segments[0].uri.clone())
                        }
                    },
                }
            },
            (FeederState::Streaming { index, appending: false }, Event::SegmentFetched(bytes)) => {
                self.state = FeederState::Streaming { index, appending: true };
                Action::Append(bytes)
            },
            (FeederState::Streaming { index: _, appending: false }, Event::FetchFailed) => {
                self.state = FeederState::Error(FeedError::Fetch);
                Action::Fail(FeedError::Fetch)
            },
            (FeederState::Streaming { index, appending: true }, Event::AppendAcknowledged) => {
                assert(self@.segments.len() == self.segments.len());
                self.delivered = self.delivered + 1;
                if index + 1 < self.segments.len() {
                    self.state = FeederState::Streaming { index: index + 1, appending: false };
                    Action::FetchSegment(self.segments[index + 1].uri.clone())
                } else {
                    self.state = FeederState::Draining;
                    Action::SignalEndOfStream
                }
            },
            (FeederState::Draining, Event::EndOfStreamSignaled) => {
                self.state = FeederState::Done;
                Action::Wait
            },
            _ => Action::Wait,
        }
    }
}

/// The model and the actions after a session took in `events`, in order.
pub open spec fn run(v: FeederModel, events: Seq<EventModel>) -> (FeederModel, Seq<ActionModel>)
    decreases events.len(),
{
    if events.len() == 0 {
        (v, Seq::empty())
    } else {
        let (v1, a) = step_spec(v, events[0]);
        let (v2, rest) = run(v1, events.drop_first());
        (v2, seq![a] + rest)
    }
}

/// A buffer that acknowledges at once: each segment arrives, then its append is
/// acknowledged.
pub open spec fn segment_events(bodies: Seq<Seq<u8>>) -> Seq<EventModel>
    decreases bodies.len(),
{
    if bodies.len() == 0 {
        Seq::empty()
    } else {
        seq![EventModel::SegmentFetched(bodies[0]), EventModel::AppendAcknowledged] + segment_events(
            bodies.drop_first(),
        )
    }
}

/// From segment `i` on: each segment is appended, then the next one is fetched,
/// and after the last acknowledgement end of stream is asked for, once.
pub open spec fn streaming_actions(uris: Seq<Seq<char>>, bodies: Seq<Seq<u8>>, i: int) -> Seq<ActionModel>
    decreases bodies.len(),
{
    if bodies.len() == 0 {
        Seq::empty()
    } else if bodies.len() == 1 {
        seq![ActionModel::Append(bodies[0]), ActionModel::SignalEndOfStream]
    } else {
        seq![ActionModel::Append(bodies[0]), ActionModel::FetchSegment(uris[i + 1])]
            + streaming_actions(uris, bodies.drop_first(), i + 1)
    }
}

pub proof fn lemma_run_append(v: FeederModel, a: Seq<EventModel>, b: Seq<EventModel>)
    ensures
        run(v, a + b) == ({
            let (v1, x) = run(v, a);
            let (v2, y) = run(v1, b);
            (v2, x + y)
        }),
    decreases a.len(),
{
    if a.len() == 0 {
        assert(a + b =~= b);
        assert(Seq::<ActionModel>::empty() + run(v, b).1 =~= run(v, b).1);
    } else {
        let (v1, act) = step_spec(v, a[0]);
        assert((a + b).drop_first() =~= a.drop_first() + b);
        lemma_run_append(v1, a.drop_first(), b);
        let (v2, x) = run(v1, a.drop_first());
        let (v3, y) = run(v2, b);
        assert(seq![act] + (x + y) =~= (seq![act] + x) + y);
    }
}

proof fn lemma_run_one(v: FeederModel, e: EventModel)
    ensures
        run(v, seq![e]) == (step_spec(v, e).0, seq![step_spec(v, e).1]),
{
    let (v1, a) = step_spec(v, e);
    assert(seq![e].drop_first() =~= Seq::<EventModel>::empty());
    assert(run(v1, Seq::<EventModel>::empty()) == (v1, Seq::<ActionModel>::empty()));
    assert(seq![a] + Seq::<ActionModel>::empty() =~= seq![a]);
}

proof fn lemma_run_two(v: FeederModel, e1: EventModel, e2: EventModel)
    ensures
        run(v, seq![e1, e2]) == ({
            let (v1, a1) = step_spec(v, e1);
            let (v2, a2) = step_spec(v1, e2);
            (v2, seq![a1, a2])
        }),
{
    let (v1, a1) = step_spec(v, e1);
    let (v2, a2) = step_spec(v1, e2);
    assert(seq![e1] + seq![e2] =~= seq![e1, e2]);
    lemma_run_append(v, seq![e1], seq![e2]);
    lemma_run_one(v, e1);
    lemma_run_one(v1, e2);
    assert(seq![a1] + seq![a2] =~= seq![a1, a2]);
}

proof fn lemma_streaming(v: FeederModel, bodies: Seq<Seq<u8>>)
    requires
        feeder_wf(v),
        v.state matches FeederState::Streaming { index, appending } && !appending && bodies.len()
            == v.segments.len() - index,
    ensures
        run(v, segment_events(bodies)) == ((
            FeederModel { state: FeederState::Draining, delivered: v.segments.len(), ..v },
            streaming_actions(segment_uris(v.segments), bodies, v.delivered as int),
        )),
    decreases bodies.len(),
{
    let i = v.delivered as int;
    let b0 = bodies[0];
    let two = seq![EventModel::SegmentFetched(b0), EventModel::AppendAcknowledged];
    assert(segment_events(bodies) == two + segment_events(bodies.drop_first()));
    lemma_run_append(v, two, segment_events(bodies.drop_first()));
    lemma_run_two(v, EventModel::SegmentFetched(b0), EventModel::AppendAcknowledged);
    let (v2, acts) = run(v, two);
    if bodies.len() == 1 {
        assert(segment_events(bodies.drop_first()) =~= Seq::<EventModel>::empty());
        assert(acts + Seq::<ActionModel>::empty() =~= acts);
    } else {
        lemma_streaming(v2, bodies.drop_first());
    }
}

/// A session that is opened, gets a media playlist, and whose buffer acknowledges
/// each append at once fetches the playlist, then fetches every segment exactly
/// once in ascending order, never appends before the previous append was
/// acknowledged, and asks for end of stream exactly once, after the last
/// acknowledgement; it then ends in `Done` with every segment delivered.
pub proof fn lemma_feeds_every_segment_in_order(
    v: FeederModel,
    text: Seq<char>,
    m: Seq<(Seq<char>, SegmentDuration)>,
    bodies: Seq<Seq<u8>>,
)
    requires
        feeder_wf(v),
        v.state == FeederState::Idle,
        text.len() <= usize::MAX,
        parse_spec(text) == Ok::<_, ParseError>(PlaylistModel::Media(m)),
        bodies.len() == m.len(),
    ensures
        run(
            v,
            seq![EventModel::BufferOpened, EventModel::PlaylistFetched(text)] + segment_events(bodies)
                + seq![EventModel::EndOfStreamSignaled],
        ) == ((
            FeederModel {
                url: v.url,
                segments: m,
                state: FeederState::Done,
                delivered: m.len(),
            },
            seq![ActionModel::FetchPlaylist(v.url)] + (if m.len() == 0 {
                seq![ActionModel::SignalEndOfStream]
            } else {
                seq![ActionModel::FetchSegment(m[0].0)] + streaming_actions(segment_uris(m), bodies, 0)
            }) + seq![ActionModel::Wait],
        )),
{
    let open = seq![EventModel::BufferOpened, EventModel::PlaylistFetched(text)];
    let seg = segment_events(bodies);
    let end = seq![EventModel::EndOfStreamSignaled];
    lemma_run_append(v, open + seg, end);
    lemma_run_append(v, open, seg);
    lemma_run_two(v, EventModel::BufferOpened, EventModel::PlaylistFetched(text));
    let (v2, a2) = run(v, open);
    lemma_segments_len(text, 0);
    if m.len() == 0 {
        assert(bodies =~= Seq::<Seq<u8>>::empty());
        assert(seg =~= Seq::<EventModel>::empty());
        assert(a2 + Seq::<ActionModel>::empty() =~= a2);
    } else {
        lemma_streaming(v2, bodies);
        assert(a2 + streaming_actions(segment_uris(m), bodies, 0) =~= seq![ActionModel::FetchPlaylist(v.url)]
            + (seq![ActionModel::FetchSegment(m[0].0)] + streaming_actions(segment_uris(m), bodies, 0)));
    }
    let (v3, a3) = run(v, open + seg);
    lemma_run_one(v3, EventModel::EndOfStreamSignaled);
}

proof fn lemma_terminal_stays(v: FeederModel, events: Seq<EventModel>)
    requires
        is_terminal(v.state),
    ensures
        run(v, events).0 == v,
    decreases events.len(),
{
    if events.len() > 0 {
        lemma_terminal_stays(v, events.drop_first());
    }
}

/// A failed fetch of segment `i` puts the session in its error state: segments
/// before `i` stay delivered, nothing is asked for but the failure report, and
/// whatever happens afterwards the session stays there and never reaches `Done`.
pub proof fn lemma_fetch_failure_halts(v: FeederModel, events: Seq<EventModel>)
    requires
        feeder_wf(v),
        v.state matches FeederState::Streaming { index, appending } && !appending,
    ensures
        step_spec(v, EventModel::FetchFailed).1 == ActionModel::Fail(FeedError::Fetch),
        run(step_spec(v, EventModel::FetchFailed).0, events).0.state == FeederState::Error(FeedError::Fetch),
        run(step_spec(v, EventModel::FetchFailed).0, events).0.delivered == v.delivered,
{
    lemma_terminal_stays(step_spec(v, EventModel::FetchFailed).0, events);
}

} // verus!
