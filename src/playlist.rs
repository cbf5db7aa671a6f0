use vstd::prelude::*;
use crate::text::{
    chars_of, contains, contains_exec, copy_range, find_char, find_from, lemma_find_from, line_at,
    line_at_exec, next_line, starts_with, starts_with_exec, string_from_chars,
};

verus! {

/// Why a playlist text was refused.
#[derive(Clone, Copy, Debug, PartialEq, Eq, Structural)]
pub enum ParseError {
    /// The text does not contain the `#EXTM3U` header tag.
    MissingHeader,
    /// The header is present but neither a stream-info nor a segment-info tag is.
    MissingTag,
    /// A stream-info line carries no `BANDWIDTH=` attribute.
    MalformedAttribute,
    /// An info line is the last line: the URI line that must follow it is absent.
    MalformedURI,
    /// A duration or a bandwidth is not a well-formed number of its type.
    MalformedNumber,
}

/// A segment duration as an exact decimal: `units / 10^decimals` seconds
/// (`9.5` is `units == 95, decimals == 1`).
#[derive(Clone, Copy, Debug, PartialEq, Eq, Structural)]
pub struct SegmentDuration {
    pub units: u64,
    pub decimals: u32,
}

/// One alternate-quality stream of a master playlist.
#[derive(Clone, Debug)]
pub struct Variant {
    pub uri: String,
    pub bandwidth: u32,
}

/// One playable chunk of a media playlist.
#[derive(Clone, Debug)]
pub struct MediaSegment {
    pub uri: String,
    pub duration: SegmentDuration,
}

/// A playlist of alternate-quality streams, in the order of its text.
#[derive(Clone, Debug)]
pub struct MasterPlaylist {
    pub variants: Vec<Variant>,
}

/// A playlist of segments, in playback order.
#[derive(Clone, Debug)]
pub struct MediaPlaylist {
    pub segments: Vec<MediaSegment>,
}

/// The parsed form of playlist text.
#[derive(Clone, Debug)]
pub enum Playlist {
    Master(MasterPlaylist),
    Media(MediaPlaylist),
}

impl View for Variant {
    type V = (Seq<char>, u32);

    open spec fn view(&self) -> (Seq<char>, u32) {
        (self.uri@, self.bandwidth)
    }
}

impl View for MediaSegment {
    type V = (Seq<char>, SegmentDuration);

    open spec fn view(&self) -> (Seq<char>, SegmentDuration) {
        (self.uri@, self.duration)
    }
}

impl View for MasterPlaylist {
    type V = Seq<(Seq<char>, u32)>;

    open spec fn view(&self) -> Seq<(Seq<char>, u32)> {
        self.variants@.map_values(|v: Variant| v@)
    }
}

impl View for MediaPlaylist {
    type V = Seq<(Seq<char>, SegmentDuration)>;

    open spec fn view(&self) -> Seq<(Seq<char>, SegmentDuration)> {
        self.segments@.map_values(|m: MediaSegment| m@)
    }
}

/// What a playlist holds, over plain values.
pub enum PlaylistModel {
    Master(Seq<(Seq<char>, u32)>),
    Media(Seq<(Seq<char>, SegmentDuration)>),
}

impl View for Playlist {
    type V = PlaylistModel;

    open spec fn view(&self) -> PlaylistModel {
        match self {
            Playlist::Master(m) => PlaylistModel::Master(m@),
            Playlist::Media(m) => PlaylistModel::Media(m@),
        }
    }
}

// ---------------------------------------------------------------------------
// The text format, stated over sequences of characters.

pub open spec fn header_tag() -> Seq<char> {
    "#EXTM3U"@
}

/// Marks a text as a master playlist.
pub open spec fn stream_marker() -> Seq<char> {
    "#EXT-X-STREAM-INF"@
}

/// Starts a stream-info line.
pub open spec fn stream_tag() -> Seq<char> {
    "#EXT-X-STREAM-INF:"@
}

/// Marks a text as a media playlist.
pub open spec fn segment_marker() -> Seq<char> {
    "#EXTINF"@
}

/// Starts a segment-info line.
pub open spec fn segment_tag() -> Seq<char> {
    "#EXTINF:"@
}

pub open spec fn bandwidth_key() -> Seq<char> {
    "BANDWIDTH="@
}

pub open spec fn is_digit(c: char) -> bool {
    '0' <= c <= '9'
}

pub open spec fn digit_value(c: char) -> int {
    c as int - '0' as int
}

/// Reads a numeral left to right: `(units, decimals, dots, well_formed)`, where
/// `units` is the value of all its digits taken together, `decimals` the number of
/// digits after the dot, `dots` the number of dots, and `well_formed` says that
/// it holds only digits and at most one dot.
pub open spec fn numeral(t: Seq<char>) -> (int, int, int, bool)
    decreases t.len(),
{
    if t.len() == 0 {
        (0, 0, 0, true)
    } else {
        let (u, d, dots, ok) = numeral(t.drop_last());
        let c = t.last();
        if c == '.' {
            (u, d, dots + 1, ok && dots == 0)
        } else if is_digit(c) {
            (u * 10 + digit_value(c), if dots > 0 { d + 1 } else { d }, dots, ok)
        } else {
            (u, d, dots, false)
        }
    }
}

/// A non-negative decimal integer that fits in a `u32`.
pub open spec fn number_u32(t: Seq<char>) -> Result<u32, ParseError> {
    let (u, d, dots, ok) = numeral(t);
    if ok && dots == 0 && t.len() > 0 && u <= u32::MAX {
        Ok(u as u32)
    } else {
        Err(ParseError::MalformedNumber)
    }
}

/// A decimal with at least one digit and at most one dot (`10`, `9.5`, `.5`, `10.`).
pub open spec fn number_decimal(t: Seq<char>) -> Result<SegmentDuration, ParseError> {
    let (u, d, dots, ok) = numeral(t);
    if ok && t.len() > dots && u <= u64::MAX && d <= u32::MAX {
        Ok(SegmentDuration { units: u as u64, decimals: d as u32 })
    } else {
        Err(ParseError::MalformedNumber)
    }
}

/// Searches the comma-separated attribute list `a`, from the attribute that
/// starts at `i` on, for the first one that starts with `BANDWIDTH=`.
pub open spec fn bandwidth_in(a: Seq<char>, i: int) -> Result<u32, ParseError>
    decreases a.len() - i,
{
    let e = find_from(a, ',', i);
    let part = a.subrange(i, e);
    if starts_with(part, bandwidth_key()) {
        number_u32(part.subrange(bandwidth_key().len() as int, part.len() as int))
    } else if e >= a.len() || i < 0 {
        Err(ParseError::MalformedAttribute)
    } else {
        proof {
            lemma_find_from(a, ',', i);
        }
        bandwidth_in(a, e + 1)
    }
}

/// The bandwidth of a stream-info line: searched for in its attribute list,
/// which is what follows the tag.
pub open spec fn bandwidth_of(line: Seq<char>) -> Result<u32, ParseError> {
    bandwidth_in(line.subrange(stream_tag().len() as int, line.len() as int), 0)
}

/// The duration of a segment-info line: the text between its first colon and
/// its first comma.
pub open spec fn duration_of(line: Seq<char>) -> Result<SegmentDuration, ParseError> {
    let colon = find_from(line, ':', 0);
    let comma = find_from(line, ',', 0);
    if colon < comma && comma < line.len() {
        number_decimal(line.subrange(colon + 1, comma))
    } else {
        Err(ParseError::MalformedNumber)
    }
}

pub open spec fn prepend<T>(acc: Seq<T>, r: Result<Seq<T>, ParseError>) -> Result<Seq<T>, ParseError> {
    match r {
        Ok(rest) => Ok(acc + rest),
        Err(e) => Err(e),
    }
}

/// The variants of the master playlist text `s`, read from the line that starts at `i` on.
pub open spec fn variants_from(s: Seq<char>, i: int) -> Result<Seq<(Seq<char>, u32)>, ParseError>
    decreases s.len() - i,
{
    if i >= s.len() || i < 0 {
        Ok(Seq::empty())
    } else {
        let line = line_at(s, i);
        let n = next_line(s, i);
        proof {
            lemma_find_from(s, '\n', i);
        }
        if starts_with(line, stream_tag()) {
            match bandwidth_of(line) {
                Err(e) => Err(e),
                Ok(b) => if n >= s.len() {
                    Err(ParseError::MalformedURI)
                } else {
                    proof {
                        lemma_find_from(s, '\n', n);
                    }
                    prepend(seq![(line_at(s, n), b)], variants_from(s, next_line(s, n)))
                },
            }
        } else {
            variants_from(s, n)
        }
    }
}

/// The segments of the media playlist text `s`, read from the line that starts at `i` on.
pub open spec fn segments_from(s: Seq<char>, i: int) -> Result<Seq<(Seq<char>, SegmentDuration)>, ParseError>
    decreases s.len() - i,
{
    if i >= s.len() || i < 0 {
        Ok(Seq::empty())
    } else {
        let line = line_at(s, i);
        let n = next_line(s, i);
        proof {
            lemma_find_from(s, '\n', i);
        }
        if starts_with(line, segment_tag()) {
            match duration_of(line) {
                Err(e) => Err(e),
                Ok(d) => if n >= s.len() {
                    Err(ParseError::MalformedURI)
                } else {
                    proof {
                        lemma_find_from(s, '\n', n);
                    }
                    prepend(seq![(line_at(s, n), d)], segments_from(s, next_line(s, n)))
                },
            }
        } else {
            segments_from(s, n)
        }
    }
}

pub proof fn lemma_numeral_prefix(t: Seq<char>, k: int)
    requires
        0 <= k <= t.len(),
    ensures
        numeral(t).0 >= numeral(t.take(k)).0 >= 0,
        !numeral(t.take(k)).3 ==> !numeral(t).3,
    decreases t.len(),
{
    if k == t.len() {
        assert(t.take(k) =~= t);
        if t.len() > 0 {
            lemma_numeral_prefix(t.drop_last(), 0);
        }
    } else {
        lemma_numeral_prefix(t.drop_last(), k);
        assert(t.drop_last().take(k) =~= t.take(k));
    }
}

/// Reads the numeral `t`: `Some((units, decimals, dots))` when it is well formed
/// and its units fit in a `u64`.
fn scan_numeral(t: &Vec<char>) -> (r: Option<(u64, usize, usize)>)
    ensures
        match r {
            Some((u, d, dots)) => numeral(t@) == (u as int, d as int, dots as int, true),
            None => !numeral(t@).3 || numeral(t@).0 > u64::MAX,
        },
{
    let mut u: u64 = 0;
    let mut d: usize = 0;
    let mut dots: usize = 0;
    let mut k: usize = 0;
    while k < t.len()
        invariant
            k <= t.len(),
            d <= k,
            dots <= k,
            numeral(t@.take(k as int)) == (u as int, d as int, dots as int, true),
        decreases t.len() - k,
    {
        let c = t[k];
        assert(t@.take(k + 1).drop_last() =~= t@.take(k as int));
        if c == '.' {
            if dots > 0 {
                proof {
                    lemma_numeral_prefix(t@, k + 1);
                }
                return None;
            }
            dots = dots + 1;
        } else if '0' <= c && c <= '9' {
            let v = (c as u32 - '0' as u32) as u64;
            if u > (u64::MAX - v) / 10 {
                proof {
                    lemma_numeral_prefix(t@, k + 1);
                }
                return None;
            }
            u = u * 10 + v;
            if dots > 0 {
                d = d + 1;
            }
        } else {
            proof {
                lemma_numeral_prefix(t@, k + 1);
            }
            return None;
        }
        k = k + 1;
    }
    assert(t@.take(k as int) =~= t@);
    Some((u, d, dots))
}

fn parse_u32(t: &Vec<char>) -> (r: Result<u32, ParseError>)
    ensures
        r == number_u32(t@),
{
    match scan_numeral(t) {
        Some((u, _d, dots)) => {
            if dots == 0 && t.len() > 0 && u <= u32::MAX as u64 {
                Ok(u as u32)
            } else {
                Err(ParseError::MalformedNumber)
            }
        },
        None => Err(ParseError::MalformedNumber),
    }
}

fn parse_decimal(t: &Vec<char>) -> (r: Result<SegmentDuration, ParseError>)
    ensures
        r == number_decimal(t@),
{
    match scan_numeral(t) {
        Some((u, d, dots)) => {
            if t.len() > dots && d <= u32::MAX as usize {
                Ok(SegmentDuration { units: u, decimals: d as u32 })
            } else {
                Err(ParseError::MalformedNumber)
            }
        },
        None => Err(ParseError::MalformedNumber),
    }
}

fn bandwidth_exec(line: &Vec<char>, tag_len: usize, key: &Vec<char>) -> (r: Result<u32, ParseError>)
    requires
        tag_len == stream_tag().len(),
        tag_len <= line.len(),
        key@ == bandwidth_key(),
    ensures
        r == bandwidth_of(line@),
{
    let a = copy_range(line, tag_len, line.len());
    let mut i: usize = 0;
    loop
        invariant
            i <= a.len(),
            key@ == bandwidth_key(),
            bandwidth_of(line@) == bandwidth_in(a@, i as int),
        decreases a.len() - i,
    {
        let e = find_char(&a, ',', i);
        proof {
            lemma_find_from(a@, ',', i as int);
        }
        let part = copy_range(&a, i, e);
        if starts_with_exec(&part, key) {
            let rest = copy_range(&part, key.len(), part.len());
            return parse_u32(&rest);
        } else if e >= a.len() {
            return Err(ParseError::MalformedAttribute);
        }
        i = e + 1;
    }
}

fn duration_exec(line: &Vec<char>) -> (r: Result<SegmentDuration, ParseError>)
    ensures
        r == duration_of(line@),
{
    let colon = find_char(line, ':', 0);
    let comma = find_char(line, ',', 0);
    proof {
        lemma_find_from(line@, ':', 0);
        lemma_find_from(line@, ',', 0);
    }
    if colon < comma && comma < line.len() {
        let t = copy_range(line, colon + 1, comma);
        parse_decimal(&t)
    } else {
        Err(ParseError::MalformedNumber)
    }
}

fn parse_master(s: &Vec<char>) -> (r: Result<MasterPlaylist, ParseError>)
    ensures
        match r {
            Ok(m) => variants_from(s@, 0) == Ok::<_, ParseError>(m@),
            Err(e) => variants_from(s@, 0) == Err::<Seq<(Seq<char>, u32)>, _>(e),
        },
{
    let tag = chars_of("#EXT-X-STREAM-INF:");
    let key = chars_of("BANDWIDTH=");
    let mut variants: Vec<Variant> = Vec::new();
    let mut i: usize = 0;
    while i < s.len()
        invariant
            i <= s.len(),
            tag@ == stream_tag(),
            key@ == bandwidth_key(),
            variants_from(s@, 0) == prepend(variants@.map_values(|v: Variant| v@), variants_from(s@, i as int)),
        decreases s.len() - i,
    {
        let (line, n) = line_at_exec(s, i);
        proof {
            lemma_find_from(s@, '\n', i as int);
        }
        if starts_with_exec(&line, &tag) {
            let b = match bandwidth_exec(&line, tag.len(), &key) {
                Ok(b) => b,
                Err(e) => return Err(e),
            };
            if n >= s.len() {
                return Err(ParseError::MalformedURI);
            }
            let (uri_line, n2) = line_at_exec(s, n);
            proof {
                lemma_find_from(s@, '\n', n as int);
            }
            let ghost before = variants@.map_values(|v: Variant| v@);
            variants.push(Variant { uri: string_from_chars(&uri_line), bandwidth: b });
            proof {
                let after = variants@.map_values(|v: Variant| v@);
                assert(after =~= before + seq![(line_at(s@, n as int), b)]);
                match variants_from(s@, n2 as int) {
                    Ok(rest) => assert(before + (seq![(line_at(s@, n as int), b)] + rest) =~= after + rest),
                    Err(_) => {},
                }
            }
            i = n2;
        } else {
            i = n;
        }
    }
    proof {
        assert(variants@.map_values(|v: Variant| v@) + Seq::<(Seq<char>, u32)>::empty() =~= variants@.map_values(|v: Variant| v@));
    }
    Ok(MasterPlaylist { variants })
}

fn parse_media(s: &Vec<char>) -> (r: Result<MediaPlaylist, ParseError>)
    ensures
        match r {
            Ok(m) => segments_from(s@, 0) == Ok::<_, ParseError>(m@),
            Err(e) => segments_from(s@, 0) == Err::<Seq<(Seq<char>, SegmentDuration)>, _>(e),
        },
{
    let tag = chars_of("#EXTINF:");
    let mut segments: Vec<MediaSegment> = Vec::new();
    let mut i: usize = 0;
    while i < s.len()
        invariant
            i <= s.len(),
            tag@ == segment_tag(),
            segments_from(s@, 0) == prepend(segments@.map_values(|m: MediaSegment| m@), segments_from(s@, i as int)),
        decreases s.len() - i,
    {
        let (line, n) = line_at_exec(s, i);
        proof {
            lemma_find_from(s@, '\n', i as int);
        }
        if starts_with_exec(&line, &tag) {
            let d = match duration_exec(&line) {
                Ok(d) => d,
                Err(e) => return Err(e),
            };
            if n >= s.len() {
                return Err(ParseError::MalformedURI);
            }
            let (uri_line, n2) = line_at_exec(s, n);
            proof {
                lemma_find_from(s@, '\n', n as int);
            }
            let ghost before = segments@.map_values(|m: MediaSegment| m@);
            segments.push(MediaSegment { uri: string_from_chars(&uri_line), duration: d });
            proof {
                let after = segments@.map_values(|m: MediaSegment| m@);
                assert(after =~= before + seq![(line_at(s@, n as int), d)]);
                match segments_from(s@, n2 as int) {
                    Ok(rest) => assert(before + (seq![(line_at(s@, n as int), d)] + rest) =~= after + rest),
                    Err(_) => {},
                }
            }
            i = n2;
        } else {
            i = n;
        }
    }
    proof {
        assert(segments@.map_values(|m: MediaSegment| m@) + Seq::<(Seq<char>, SegmentDuration)>::empty() =~= segments@.map_values(|m: MediaSegment| m@));
    }
    Ok(MediaPlaylist { segments })
}

/// Parses playlist text. Text without the header tag is refused first; text with
/// a stream-info marker is a master playlist, else text with a segment-info
/// marker is a media playlist, else it is refused. Entries come in line order.
pub fn parse_playlist(text: &str) -> (r: Result<Playlist, ParseError>)
    ensures
        match r {
            Ok(p) => parse_spec(text@) == Ok::<_, ParseError>(p@),
            Err(e) => parse_spec(text@) == Err::<PlaylistModel, _>(e),
        },
{
    let s = chars_of(text);
    if !contains_exec(&s, &chars_of("#EXTM3U")) {
        Err(ParseError::MissingHeader)
    } else if contains_exec(&s, &chars_of("#EXT-X-STREAM-INF")) {
        match parse_master(&s) {
            Ok(m) => Ok(Playlist::Master(m)),
            Err(e) => Err(e),
        }
    } else if contains_exec(&s, &chars_of("#EXTINF")) {
        match parse_media(&s) {
            Ok(m) => Ok(Playlist::Media(m)),
            Err(e) => Err(e),
        }
    } else {
        Err(ParseError::MissingTag)
    }
}

/// The playlist that the text `s` holds, or why it holds none.
pub open spec fn parse_spec(s: Seq<char>) -> Result<PlaylistModel, ParseError> {
    if !contains(s, header_tag()) {
        Err(ParseError::MissingHeader)
    } else if contains(s, stream_marker()) {
        match variants_from(s, 0) {
            Ok(v) => Ok(PlaylistModel::Master(v)),
            Err(e) => Err(e),
        }
    } else if contains(s, segment_marker()) {
        match segments_from(s, 0) {
            Ok(m) => Ok(PlaylistModel::Media(m)),
            Err(e) => Err(e),
        }
    } else {
        Err(ParseError::MissingTag)
    }
}

/// A media playlist holds at most one segment per character of its text.
pub proof fn lemma_segments_len(s: Seq<char>, i: int)
    requires
        0 <= i,
    ensures
        segments_from(s, i) matches Ok(m) ==> m.len() <= s.len() - i || (i > s.len() && m.len() == 0),
    decreases s.len() - i,
{
    if i < s.len() {
        lemma_find_from(s, '\n', i);
        let n = next_line(s, i);
        if starts_with(line_at(s, i), segment_tag()) {
            if n < s.len() {
                lemma_find_from(s, '\n', n);
                lemma_segments_len(s, next_line(s, n));
            }
        } else {
            lemma_segments_len(s, n);
        }
    }
}
} // verus!
