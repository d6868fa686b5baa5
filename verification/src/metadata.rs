//! Reading a track's metadata tags into what the library records about it,
//! and the decisions taken when the track is filed under an album.
use vstd::prelude::*;
use crate::numtext::{all_digits, decimal_text, digits_value, is_digit, lemma_digits_value_nonneg, parse_u32, parse_u32_spec, u64_text};

verus! {

/// The tag kinds the library reads; every other kind is ignored.
#[derive(Clone, Copy, Debug, PartialEq, Eq, Structural)]
pub enum TagKey {
    Album,
    AlbumArtist,
    Artist,
    DiscNumber,
    DiscTotal,
    Genre,
    TrackNumber,
    TrackTitle,
    TrackTotal,
    /// Any other kind, or a tag without a standard kind.
    Other,
}

/// A tag's value: text, an unsigned number, or another kind of value given
/// by its display text.
#[derive(Clone, Debug)]
pub enum TagValue {
    Text(String),
    UnsignedInt(u64),
    Other(String),
}

/// One metadata tag of a track.
#[derive(Clone, Debug)]
pub struct MetadataTag {
    pub key: TagKey,
    pub value: TagValue,
}

/// What the tags of a track say, once all of them were read.
#[derive(Clone, Debug)]
pub struct TagSummary {
    /// The album title (empty when no tag names one).
    pub album_name: String,
    /// Every album artist named, in tag order.
    pub album_artists: Vec<String>,
    /// The track artist named last.
    pub artist_name: Option<String>,
    /// The track title named last.
    pub title: Option<String>,
    /// Every non-empty genre named, in tag order.
    pub genres: Vec<String>,
    pub disc_number: u32,
    pub disc_total: u32,
    pub track_number: u32,
    pub track_total: u32,
}

/// A tag whose number cannot be read.
#[derive(Clone, Debug)]
pub enum TagProblem {
    /// A disc or track number whose text (before any `/`) is no number.
    BadNumber(String),
    /// A disc or track total whose text is no number.
    BadTotal(String),
}

/// The first tag that could not be read, and why.
#[derive(Clone, Debug)]
pub struct TagError {
    pub index: usize,
    pub problem: TagProblem,
}

/// The abstract content of a `TagSummary`.
pub struct SummaryModel {
    pub album: Seq<char>,
    pub album_artists: Seq<Seq<char>>,
    pub artist: Option<Seq<char>>,
    pub title: Option<Seq<char>>,
    pub genres: Seq<Seq<char>>,
    pub disc_number: u32,
    pub disc_total: u32,
    pub track_number: u32,
    pub track_total: u32,
}

/// The abstract content of a `TagProblem`.
pub enum ProblemModel {
    BadNumber(Seq<char>),
    BadTotal(Seq<char>),
}

/// The text of an optional string.
pub open spec fn opt_text(s: Option<String>) -> Option<Seq<char>> {
    match s {
        Some(t) => Some(t@),
        None => None,
    }
}

impl TagSummary {
    /// The abstract content of this summary.
    pub open spec fn model(&self) -> SummaryModel {
        SummaryModel {
            album: self.album_name@,
            album_artists: self.album_artists@.map_values(|s: String| s@),
            artist: opt_text(self.artist_name),
            title: opt_text(self.title),
            genres: self.genres@.map_values(|s: String| s@),
            disc_number: self.disc_number,
            disc_total: self.disc_total,
            track_number: self.track_number,
            track_total: self.track_total,
        }
    }
}

impl TagProblem {
    /// The abstract content of this problem.
    pub open spec fn model(&self) -> ProblemModel {
        match self {
            TagProblem::BadNumber(s) => ProblemModel::BadNumber(s@),
            TagProblem::BadTotal(s) => ProblemModel::BadTotal(s@),
        }
    }
}

/// The display text of a tag value.
pub open spec fn rendered(v: TagValue) -> Seq<char> {
    match v {
        TagValue::Text(s) => s@,
        TagValue::UnsignedInt(n) => decimal_text(n as nat),
        TagValue::Other(s) => s@,
    }
}

/// `k` is where the first `/` of `v` stands (or the end when there is none).
pub open spec fn is_first_slash(v: Seq<char>, k: int) -> bool {
    &&& 0 <= k <= v.len()
    &&& forall|i: int| 0 <= i < k ==> v[i] != '/'
    &&& (k == v.len() || v[k] == '/')
}

/// The text of a disc or track number: what stands before the first `/`
/// (as in `3/12`), or all of it.
pub open spec fn number_text(v: Seq<char>) -> Seq<char> {
    v.take(choose|k: int| is_first_slash(v, k))
}

/// Why a tag cannot be read, if it cannot.
pub open spec fn tag_problem(t: MetadataTag) -> Option<ProblemModel> {
    match (t.key, t.value) {
        (TagKey::DiscNumber, TagValue::Text(s)) | (TagKey::TrackNumber, TagValue::Text(s)) => {
            if parse_u32_spec(number_text(s@)) is None {
                Some(ProblemModel::BadNumber(number_text(s@)))
            } else {
                None
            }
        },
        (TagKey::DiscTotal, TagValue::Text(s)) | (TagKey::TrackTotal, TagValue::Text(s)) => {
            if parse_u32_spec(s@) is None {
                Some(ProblemModel::BadTotal(s@))
            } else {
                None
            }
        },
        _ => None,
    }
}

/// The summary before any tag was read: no album title, one disc, and no
/// numbers.
pub open spec fn initial_summary() -> SummaryModel {
    SummaryModel {
        album: Seq::empty(),
        album_artists: Seq::empty(),
        artist: None,
        title: None,
        genres: Seq::empty(),
        disc_number: 0,
        disc_total: 1,
        track_number: 0,
        track_total: 0,
    }
}

/// The summary once tag `t` (which can be read) was read: text tags set the
/// album title, artist and title or add an album artist, a non-empty genre
/// is added, numbers are read (an unsigned disc or track number is cut to 32
/// bits), and everything else is ignored.
pub open spec fn apply_tag(m: SummaryModel, t: MetadataTag) -> SummaryModel {
    match t.key {
        TagKey::Album => match t.value {
            TagValue::Text(s) => SummaryModel { album: s@, ..m },
            _ => m,
        },
        TagKey::AlbumArtist => match t.value {
            TagValue::Text(s) => SummaryModel { album_artists: m.album_artists.push(s@), ..m },
            _ => m,
        },
        TagKey::Artist => match t.value {
            TagValue::Text(s) => SummaryModel { artist: Some(s@), ..m },
            _ => m,
        },
        TagKey::TrackTitle => match t.value {
            TagValue::Text(s) => SummaryModel { title: Some(s@), ..m },
            _ => m,
        },
        TagKey::Genre => if rendered(t.value).len() > 0 {
            SummaryModel { genres: m.genres.push(rendered(t.value)), ..m }
        } else {
            m
        },
        TagKey::DiscNumber => match t.value {
            TagValue::Text(s) => SummaryModel {
                disc_number: parse_u32_spec(number_text(s@)).unwrap(),
                ..m
            },
            TagValue::UnsignedInt(n) => SummaryModel { disc_number: n as u32, ..m },
            _ => m,
        },
        TagKey::TrackNumber => match t.value {
            TagValue::Text(s) => SummaryModel {
                track_number: parse_u32_spec(number_text(s@)).unwrap(),
                ..m
            },
            TagValue::UnsignedInt(n) => SummaryModel { track_number: n as u32, ..m },
            _ => m,
        },
        TagKey::DiscTotal => match t.value {
            TagValue::Text(s) => SummaryModel { disc_total: parse_u32_spec(s@).unwrap(), ..m },
            _ => m,
        },
        TagKey::TrackTotal => match t.value {
            TagValue::Text(s) => SummaryModel { track_total: parse_u32_spec(s@).unwrap(), ..m },
            _ => m,
        },
        TagKey::Other => m,
    }
}

/// The summary of a list of tags, read in order.
pub open spec fn summarize(tags: Seq<MetadataTag>) -> SummaryModel
    decreases tags.len(),
{
    if tags.len() == 0 {
        initial_summary()
    } else {
        apply_tag(summarize(tags.drop_last()), tags.last())
    }
}

/// The position of the first `/` in `s` (or its length when there is none).
fn first_slash(s: &str) -> (k: usize)
    ensures
        is_first_slash(s@, k as int),
{
    let n: usize = s.unicode_len();
    let mut k: usize = 0;
    while k < n && s.get_char(k) != '/'
        invariant
            k <= n,
            n == s@.len(),
            forall|i: int| 0 <= i < k ==> s@[i] != '/',
        decreases n - k,
    {
        k += 1;
    }
    k
}

/// The text of a disc or track number (see `number_text`).
fn number_prefix(s: &str) -> (r: &str)
    ensures
        r@ == number_text(s@),
{
    let k = first_slash(s);
    proof {
        let c = choose|j: int| is_first_slash(s@, j);
        assert(is_first_slash(s@, c));
        if c < k {
            assert(s@[c] == '/');
        } else if k < c {
            assert(s@[k as int] == '/');
        }
        assert(c == k);
    }
    s.substring_char(0, k)
}

/// Reads one tag into the summary, or says why it cannot be read.
fn read_tag(summary: &mut TagSummary, tag: &MetadataTag) -> (problem: Option<TagProblem>)
    ensures
        match tag_problem(*tag) {
            Some(pm) => problem matches Some(p) && p.model() == pm,
            None => problem is None && final(summary).model() == apply_tag(
                old(summary).model(),
                *tag,
            ),
        },
{
    match tag.key {
        TagKey::Album => {
            if let TagValue::Text(s) = &tag.value {
                summary.album_name = s.clone();
            }
        },
        TagKey::AlbumArtist => {
            if let TagValue::Text(s) = &tag.value {
                summary.album_artists.push(s.clone());
                proof {
                    assert(summary.album_artists@.map_values(|s: String| s@) =~= old(
                        summary,
                    ).album_artists@.map_values(|s: String| s@).push(s@));
                }
            }
        },
        TagKey::Artist => {
            if let TagValue::Text(s) = &tag.value {
                summary.artist_name = Some(s.clone());
            }
        },
        TagKey::TrackTitle => {
            if let TagValue::Text(s) = &tag.value {
                summary.title = Some(s.clone());
            }
        },
        TagKey::Genre => {
            let text = match &tag.value {
                TagValue::Text(s) => s.clone(),
                TagValue::UnsignedInt(n) => u64_text(*n),
                TagValue::Other(s) => s.clone(),
            };
            if text.as_str().unicode_len() > 0 {
                summary.genres.push(text);
                proof {
                    assert(summary.genres@.map_values(|s: String| s@) =~= old(
                        summary,
                    ).genres@.map_values(|s: String| s@).push(rendered(tag.value)));
                }
            }
        },
        TagKey::DiscNumber | TagKey::TrackNumber => {
            let value: Option<u32> = match &tag.value {
                TagValue::Text(s) => {
                    let digits = number_prefix(s.as_str());
                    match parse_u32(digits) {
                        Some(n) => Some(n),
                        None => {
                            return Some(TagProblem::BadNumber(digits.to_owned()));
                        },
                    }
                },
                TagValue::UnsignedInt(n) => Some(*n as u32),
                TagValue::Other(_) => None,
            };
            if let Some(n) = value {
                if tag.key == TagKey::DiscNumber {
                    summary.disc_number = n;
                } else {
                    summary.track_number = n;
                }
            }
        },
        TagKey::DiscTotal | TagKey::TrackTotal => {
            if let TagValue::Text(s) = &tag.value {
                match parse_u32(s.as_str()) {
                    Some(n) => {
                        if tag.key == TagKey::DiscTotal {
                            summary.disc_total = n;
                        } else {
                            summary.track_total = n;
                        }
                    },
                    None => {
                        return Some(TagProblem::BadTotal(s.clone()));
                    },
                }
            }
        },
        TagKey::Other => {},
    }
    None
}

/// Reads the tags of a track in order. Later tags override earlier ones,
/// album artists and non-empty genres are collected, and the first tag whose
/// number cannot be read stops the reading with an error.
pub fn interpret_tags(tags: &Vec<MetadataTag>) -> (r: Result<TagSummary, TagError>)
    ensures
        match r {
            Ok(summary) => {
                &&& forall|i: int| 0 <= i < tags@.len() ==> tag_problem(#[trigger] tags@[i]) is None
                &&& summary.model() == summarize(tags@)
            },
            Err(e) => {
                &&& e.index < tags@.len()
                &&& forall|i: int| 0 <= i < e.index ==> tag_problem(#[trigger] tags@[i]) is None
                &&& tag_problem(tags@[e.index as int]) == Some(e.problem.model())
            },
        },
{
    let mut summary = TagSummary {
        album_name: String::new(),
        album_artists: Vec::new(),
        artist_name: None,
        title: None,
        genres: Vec::new(),
        disc_number: 0,
        disc_total: 1,
        track_number: 0,
        track_total: 0,
    };
    proof {
        assert(summary.model() == initial_summary()) by {
            assert(summary.album_artists@.map_values(|s: String| s@) =~= Seq::<Seq<char>>::empty());
            assert(summary.genres@.map_values(|s: String| s@) =~= Seq::<Seq<char>>::empty());
        }
        assert(tags@.take(0) =~= Seq::<MetadataTag>::empty());
    }
    let mut i: usize = 0;
    while i < tags.len()
        invariant
            i <= tags@.len(),
            forall|j: int| 0 <= j < i ==> tag_problem(#[trigger] tags@[j]) is None,
            summary.model() == summarize(tags@.take(i as int)),
        decreases tags@.len() - i,
    {
        match read_tag(&mut summary, &tags[i]) {
            Some(problem) => {
                return Err(TagError { index: i, problem });
            },
            None => {},
        }
        proof {
            assert(tags@.take(i + 1).drop_last() =~= tags@.take(i as int));
        }
        i += 1;
    }
    proof {
        assert(tags@.take(i as int) =~= tags@);
    }
    Ok(summary)
}

/// How a track is filed when no existing album takes it: as an album (the
/// tags give a track total other than one) or as a single.
#[derive(Clone, Copy, Debug, PartialEq, Eq, Structural)]
pub enum Grouping {
    Album,
    Single,
}

/// What to do with a track's album once the track itself was recorded.
#[derive(Clone, Copy, Debug, PartialEq, Eq, Structural)]
pub enum AlbumStep {
    /// The tags name no album: nothing more to record.
    Skip,
    /// File the track under the existing album `album_id`, and link the two
    /// (with track and disc number) when `link` is set.
    Existing { album_id: u32, link: bool },
    /// Create a new grouping, then link the track to it when `link` is set.
    New { grouping: Grouping, link: bool },
}

/// An album found under the same title is the track's album when it has no
/// artist, or the same artist as the track's album.
pub open spec fn album_matches(entry: (u32, Option<u32>), album_artist: Option<u32>) -> bool {
    entry.1 is None || entry.1 == album_artist
}

/// The last album in `similar` that is the track's album, if any.
pub open spec fn last_matching_album(similar: Seq<(u32, Option<u32>)>, album_artist: Option<u32>) -> Option<u32>
    decreases similar.len(),
{
    if similar.len() == 0 {
        None
    } else if album_matches(similar.last(), album_artist) {
        Some(similar.last().0)
    } else {
        last_matching_album(similar.drop_last(), album_artist)
    }
}

/// The grouping a new entry gets: a single for a track total of one, else an
/// album.
pub open spec fn grouping_spec(track_total: u32) -> Grouping {
    if track_total != 1 {
        Grouping::Album
    } else {
        Grouping::Single
    }
}

/// Among the albums that share the track's album title (with their artist,
/// when the track names an album artist), picks the last one that is the
/// track's album.
pub fn match_existing_album(similar: &Vec<(u32, Option<u32>)>, album_artist: Option<u32>) -> (r:
    Option<u32>)
    requires
        album_artist is None ==> forall|i: int| 0 <= i < similar@.len() ==> (#[trigger] similar@[i]).1 is None,
    ensures
        r == last_matching_album(similar@, album_artist),
{
    let mut found: Option<u32> = None;
    let mut i: usize = 0;
    while i < similar.len()
        invariant
            i <= similar@.len(),
            album_artist is None ==> forall|j: int| 0 <= j < similar@.len() ==> (#[trigger] similar@[j]).1 is None,
            found == last_matching_album(similar@.take(i as int), album_artist),
        decreases similar@.len() - i,
    {
        let (id, artist) = similar[i];
        let matched = match artist {
            None => true,
            Some(a) => match album_artist {
                Some(b) => a == b,
                None => false,
            },
        };
        if matched {
            found = Some(id);
        }
        proof {
            assert(similar@.take(i + 1).drop_last() =~= similar@.take(i as int));
        }
        i += 1;
    }
    proof {
        assert(similar@.take(i as int) =~= similar@);
    }
    found
}

/// Decides what happens with the track's album: nothing without an album
/// title; else the last matching album found under that title takes the
/// track, or a new grouping is made. The track is linked to its album only
/// when the tags give a track total other than one.
pub fn album_step(summary: &TagSummary, similar: &Vec<(u32, Option<u32>)>, album_artist: Option<u32>) -> (step:
    AlbumStep)
    requires
        album_artist is None ==> forall|i: int| 0 <= i < similar@.len() ==> (#[trigger] similar@[i]).1 is None,
    ensures
        step == (if summary.album_name@.len() == 0 {
            AlbumStep::Skip
        } else {
            match last_matching_album(similar@, album_artist) {
                Some(id) => AlbumStep::Existing { album_id: id, link: summary.track_total != 1 },
                None => AlbumStep::New {
                    grouping: grouping_spec(summary.track_total),
                    link: summary.track_total != 1,
                },
            }
        }),
{
    if summary.album_name.as_str().unicode_len() == 0 {
        return AlbumStep::Skip;
    }
    let link = summary.track_total != 1;
    match match_existing_album(similar, album_artist) {
        Some(id) => AlbumStep::Existing { album_id: id, link },
        None => {
            let grouping = if summary.track_total != 1 {
                Grouping::Album
            } else {
                Grouping::Single
            };
            AlbumStep::New { grouping, link }
        },
    }
}


/// Disc and track numbers are read alike: a text value made of a decimal
/// number that fits in 32 bits, optionally followed by `/` and anything
/// (as in `1/2`), can be read, and gives that number as the disc number
/// (for a disc number tag) or the track number (for a track number tag).
pub proof fn law_number_before_slash_is_read(t: MetadataTag, digits: Seq<char>, rest: Seq<char>)
    requires
        t.key == TagKey::DiscNumber || t.key == TagKey::TrackNumber,
        t.value is Text,
        rendered(t.value) == digits + rest,
        digits.len() > 0,
        all_digits(digits),
        digits_value(digits) <= u32::MAX,
        rest.len() == 0 || rest[0] == '/',
    ensures
        tag_problem(t) is None,
        t.key == TagKey::DiscNumber ==> summarize(seq![t]).disc_number == digits_value(digits),
        t.key == TagKey::TrackNumber ==> summarize(seq![t]).track_number == digits_value(digits),
{
    let v = digits + rest;
    let k = digits.len() as int;
    assert forall|i: int| 0 <= i < k implies v[i] != '/' by {
        assert(is_digit(digits[i]));
    }
    assert(is_first_slash(v, k));
    let c = choose|j: int| is_first_slash(v, j);
    assert(is_first_slash(v, c));
    if c < k {
        assert(v[c] == '/');
    } else if k < c {
        assert(v[k] != '/');
    }
    assert(c == k);
    assert(number_text(v) =~= digits);
    assert(is_digit(digits[0]));
    lemma_digits_value_nonneg(digits);
    assert(parse_u32_spec(digits) == Some(digits_value(digits) as u32));
    assert(seq![t].drop_last() =~= Seq::<MetadataTag>::empty());
    assert(seq![t].last() == t);
    assert(summarize(Seq::<MetadataTag>::empty()) == initial_summary());
    assert(summarize(seq![t]) == apply_tag(initial_summary(), t));
}


/// Disc and track totals are read whole: a decimal number that fits in 32
/// bits gives that total, and a text holding `/` (as in `1/2`) cannot be read
/// as a total and is reported as it stands.
pub proof fn law_total_read_whole(t: MetadataTag, v: Seq<char>)
    requires
        t.key == TagKey::DiscTotal || t.key == TagKey::TrackTotal,
        t.value is Text,
        rendered(t.value) == v,
    ensures
        v.len() > 0 && all_digits(v) && digits_value(v) <= u32::MAX ==> {
            &&& tag_problem(t) is None
            &&& t.key == TagKey::DiscTotal ==> summarize(seq![t]).disc_total == digits_value(v)
            &&& t.key == TagKey::TrackTotal ==> summarize(seq![t]).track_total == digits_value(v)
        },
        v.contains('/') ==> tag_problem(t) == Some(ProblemModel::BadTotal(v)),
{
    if v.len() > 0 && all_digits(v) && digits_value(v) <= u32::MAX {
        assert(is_digit(v[0]));
        lemma_digits_value_nonneg(v);
        assert(parse_u32_spec(v) == Some(digits_value(v) as u32));
        assert(seq![t].drop_last() =~= Seq::<MetadataTag>::empty());
        assert(seq![t].last() == t);
        assert(summarize(Seq::<MetadataTag>::empty()) == initial_summary());
        assert(summarize(seq![t]) == apply_tag(initial_summary(), t));
    }
    if v.contains('/') {
        let k = choose|k: int| 0 <= k < v.len() && v[k] == '/';
        let body = if v.len() > 0 && v[0] == '+' {
            v.drop_first()
        } else {
            v
        };
        if v[0] == '+' {
            assert(k > 0);
            assert(body[k - 1] == '/');
            assert(!is_digit(body[k - 1]));
        } else {
            assert(body[k] == '/');
            assert(!is_digit(body[k]));
        }
        assert(parse_u32_spec(v) is None);
    }
}

} // verus!
