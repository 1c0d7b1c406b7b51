//! The data model: difficulties, song metadata, score records and the
//! rows read from the score export.

use vstd::prelude::*;
use crate::text::str_eq;

verus! {

/// The difficulty of a chart.
#[derive(Debug, Clone)]
pub enum Difficulty {
    Detected,
    Invaded,
    Massive,
    Fate,
    Unknown(String),
}

/// The mathematical value of a [`Difficulty`].
pub enum DifficultyView {
    Detected,
    Invaded,
    Massive,
    Fate,
    Unknown(Seq<char>),
}

impl View for Difficulty {
    type V = DifficultyView;

    open spec fn view(&self) -> DifficultyView {
        match self {
            Difficulty::Detected => DifficultyView::Detected,
            Difficulty::Invaded => DifficultyView::Invaded,
            Difficulty::Massive => DifficultyView::Massive,
            Difficulty::Fate => DifficultyView::Fate,
            Difficulty::Unknown(s) => DifficultyView::Unknown(s@),
        }
    }
}

impl PartialEq for Difficulty {
    fn eq(&self, other: &Self) -> (res: bool) {
        match (self, other) {
            (Difficulty::Detected, Difficulty::Detected) => true,
            (Difficulty::Invaded, Difficulty::Invaded) => true,
            (Difficulty::Massive, Difficulty::Massive) => true,
            (Difficulty::Fate, Difficulty::Fate) => true,
            (Difficulty::Unknown(a), Difficulty::Unknown(b)) => *a == *b,
            _ => false,
        }
    }
}

impl vstd::std_specs::cmp::PartialEqSpecImpl for Difficulty {
    open spec fn obeys_eq_spec() -> bool {
        true
    }

    /// Two difficulties are equal when they are the same known one, or both
    /// unknown with the same name.
    open spec fn eq_spec(&self, other: &Self) -> bool {
        self@ == other@
    }
}

/// The difficulty that a name in the score export stands for: one of the
/// four known names, or else an unknown difficulty that keeps the name.
pub open spec fn spec_difficulty_from(s: Seq<char>) -> DifficultyView {
    if s == "Detected"@ {
        DifficultyView::Detected
    } else if s == "Invaded"@ {
        DifficultyView::Invaded
    } else if s == "Massive"@ {
        DifficultyView::Massive
    } else if s == "Fate"@ {
        DifficultyView::Fate
    } else {
        DifficultyView::Unknown(s)
    }
}

/// The name of a difficulty as it is written in the score export.
pub open spec fn spec_difficulty_name(d: DifficultyView) -> Seq<char> {
    match d {
        DifficultyView::Detected => "Detected"@,
        DifficultyView::Invaded => "Invaded"@,
        DifficultyView::Massive => "Massive"@,
        DifficultyView::Fate => "Fate"@,
        DifficultyView::Unknown(s) => s,
    }
}

/// The display colour of a difficulty.
pub open spec fn spec_difficulty_color(d: DifficultyView) -> Seq<char> {
    match d {
        DifficultyView::Detected => "#3fcbff"@,
        DifficultyView::Invaded => "#ff6b6b"@,
        DifficultyView::Massive => "#8f629d"@,
        DifficultyView::Fate => "#eeeeee"@,
        DifficultyView::Unknown(_) => "#888888"@,
    }
}

impl Difficulty {
    /// Reads a difficulty name; a name other than the four known ones gives
    /// `Unknown` holding that name.
    pub fn from_str(s: &str) -> (res: Difficulty)
        ensures
            res@ == spec_difficulty_from(s@),
            spec_difficulty_name(res@) == s@,
    {
        if str_eq(s, "Detected") {
            Difficulty::Detected
        } else if str_eq(s, "Invaded") {
            Difficulty::Invaded
        } else if str_eq(s, "Massive") {
            Difficulty::Massive
        } else if str_eq(s, "Fate") {
            Difficulty::Fate
        } else {
            Difficulty::Unknown(s.to_owned())
        }
    }

    /// The display colour of this difficulty, as a CSS hex colour.
    pub fn to_color(&self) -> (res: &str)
        ensures
            res@ == spec_difficulty_color(self@),
    {
        match self {
            Difficulty::Detected => "#3fcbff",
            Difficulty::Invaded => "#ff6b6b",
            Difficulty::Massive => "#8f629d",
            Difficulty::Fate => "#eeeeee",
            Difficulty::Unknown(_) => "#888888",
        }
    }
}

} // verus!

verus! {

/// Metadata of a song as shown on its slide.
#[derive(Debug, Clone)]
pub struct SongMetadata {
    pub song_id: String,
    pub title: String,
    pub artist: String,
    /// Path of the cover picture, relative to the generated page.
    pub cover_url: String,
    pub bilibili_av: Option<String>,
    /// The song came with a recent version of the game.
    pub is_new: bool,
}

/// The mathematical value of a [`SongMetadata`].
pub struct SongMetadataView {
    pub song_id: Seq<char>,
    pub title: Seq<char>,
    pub artist: Seq<char>,
    pub cover_url: Seq<char>,
    pub bilibili_av: Option<Seq<char>>,
    pub is_new: bool,
}

impl View for SongMetadata {
    type V = SongMetadataView;

    open spec fn view(&self) -> SongMetadataView {
        SongMetadataView {
            song_id: self.song_id@,
            title: self.title@,
            artist: self.artist@,
            cover_url: self.cover_url@,
            bilibili_av: self.bilibili_av.deep_view(),
            is_new: self.is_new,
        }
    }
}

/// One play of a chart, as it enters the best-records list.
///
/// The level is kept in millionths, the accuracy and the rating in
/// hundredths: a level of 14.755 is `level_micro == 14_755_000`, an accuracy
/// of 100.53% is `acc_centi == 10053`, a rating of 152.33 is
/// `rating_centi == 15233`.
#[derive(Debug, Clone)]
pub struct ScoreRecord {
    pub song_metadata: SongMetadata,
    pub difficulty: Difficulty,
    pub level_micro: i64,
    pub score: u32,
    pub acc_centi: u32,
    pub rating_centi: i64,
    pub comment: Option<String>,
    pub display_duration_sec: u64,
}

/// The mathematical value of a [`ScoreRecord`].
pub struct ScoreRecordView {
    pub song_metadata: SongMetadataView,
    pub difficulty: DifficultyView,
    pub level_micro: int,
    pub score: int,
    pub acc_centi: int,
    pub rating_centi: int,
    pub comment: Option<Seq<char>>,
    pub display_duration_sec: int,
}

impl View for ScoreRecord {
    type V = ScoreRecordView;

    open spec fn view(&self) -> ScoreRecordView {
        ScoreRecordView {
            song_metadata: self.song_metadata@,
            difficulty: self.difficulty@,
            level_micro: self.level_micro as int,
            score: self.score as int,
            acc_centi: self.acc_centi as int,
            rating_centi: self.rating_centi as int,
            comment: self.comment.deep_view(),
            display_duration_sec: self.display_duration_sec as int,
        }
    }
}

/// The values of a sequence of records.
pub open spec fn records_view(v: Seq<ScoreRecord>) -> Seq<ScoreRecordView> {
    v.map_values(|r: ScoreRecord| r@)
}

/// The whole best-records page: who played, when it was made, and the
/// records from best to worst.
#[derive(Debug)]
pub struct B50Project {
    pub player_name: String,
    pub generated_at: String,
    pub records: Vec<ScoreRecord>,
}

/// One row of the score export.
///
/// The level is kept in millionths (see [`ScoreRecord`]); a row without a
/// score has `score == None`.
#[derive(Debug)]
pub struct CsvRow {
    pub song_level_id: String,
    pub title: String,
    pub version: String,
    pub difficulty: String,
    pub level_micro: i64,
    pub score: Option<u32>,
}

/// The mathematical value of a [`CsvRow`].
pub struct CsvRowView {
    pub song_level_id: Seq<char>,
    pub title: Seq<char>,
    pub version: Seq<char>,
    pub difficulty: Seq<char>,
    pub level_micro: int,
    pub score: Option<u32>,
}

impl View for CsvRow {
    type V = CsvRowView;

    open spec fn view(&self) -> CsvRowView {
        CsvRowView {
            song_level_id: self.song_level_id@,
            title: self.title@,
            version: self.version@,
            difficulty: self.difficulty@,
            level_micro: self.level_micro as int,
            score: self.score,
        }
    }
}

/// The values of a sequence of rows.
pub open spec fn rows_view(v: Seq<CsvRow>) -> Seq<CsvRowView> {
    v.map_values(|r: CsvRow| r@)
}

/// What the wiki tells of a song.
#[derive(Debug, Clone)]
pub struct CachedMeta {
    pub artist: String,
    /// Path of the downloaded cover, relative to the generated page.
    pub local_cover_path: String,
    pub is_new: bool,
}

/// The mathematical value of a [`CachedMeta`].
pub struct CachedMetaView {
    pub artist: Seq<char>,
    pub local_cover_path: Seq<char>,
    pub is_new: bool,
}

impl View for CachedMeta {
    type V = CachedMetaView;

    open spec fn view(&self) -> CachedMetaView {
        CachedMetaView {
            artist: self.artist@,
            local_cover_path: self.local_cover_path@,
            is_new: self.is_new,
        }
    }
}

/// One entry of the wiki cache: a song title and what is known of it.
#[derive(Debug)]
pub struct CacheEntry {
    pub title: String,
    pub meta: CachedMeta,
}

/// The map that a sequence of entries stands for; a later entry of a title
/// wins over an earlier one.
pub open spec fn entries_map(s: Seq<CacheEntry>) -> Map<Seq<char>, CachedMetaView>
    decreases s.len(),
{
    if s.len() == 0 {
        Map::empty()
    } else {
        entries_map(s.drop_last()).insert(s.last().title@, s.last().meta@)
    }
}

/// No two entries have the same title.
pub open spec fn distinct_titles(s: Seq<CacheEntry>) -> bool {
    forall|i: int, j: int|
        0 <= i < s.len() && 0 <= j < s.len() && i != j ==> #[trigger] s[i].title@ != #[trigger] s[j].title@
}

/// The wiki metadata of songs, keyed by song title.
#[derive(Debug)]
pub struct WikiCache {
    entries: Vec<CacheEntry>,
}

impl View for WikiCache {
    type V = Map<Seq<char>, CachedMetaView>;

    closed spec fn view(&self) -> Map<Seq<char>, CachedMetaView> {
        entries_map(self.entries@)
    }
}

/// Where the titles are distinct, the map of the entries holds exactly their
/// titles, each with the metadata of its entry.
proof fn lemma_entries_map(s: Seq<CacheEntry>)
    requires
        distinct_titles(s),
    ensures
        forall|k: Seq<char>|
            entries_map(s).contains_key(k) <==> exists|i: int|
                0 <= i < s.len() && #[trigger] s[i].title@ == k,
        forall|i: int| 0 <= i < s.len() ==> entries_map(s)[#[trigger] s[i].title@] == s[i].meta@,
        entries_map(s).dom().finite(),
        entries_map(s).len() == s.len(),
    decreases s.len(),
{
    if s.len() > 0 {
        let p = s.drop_last();
        assert(distinct_titles(p)) by {
            assert forall|i: int, j: int|
                0 <= i < p.len() && 0 <= j < p.len() && i != j implies #[trigger] p[i].title@
                != #[trigger] p[j].title@ by {
                assert(p[i] == s[i] && p[j] == s[j]);
            }
        }
        lemma_entries_map(p);
        let last = s.last();
        assert(!entries_map(p).contains_key(last.title@)) by {
            if entries_map(p).contains_key(last.title@) {
                let i = choose|i: int| 0 <= i < p.len() && #[trigger] p[i].title@ == last.title@;
                assert(s[i].title@ == s[s.len() - 1].title@);
            }
        }
        assert forall|k: Seq<char>| entries_map(s).contains_key(k) implies exists|i: int|
            0 <= i < s.len() && #[trigger] s[i].title@ == k by {
            if k != last.title@ {
                let i = choose|i: int| 0 <= i < p.len() && #[trigger] p[i].title@ == k;
                assert(s[i].title@ == k);
            } else {
                assert(s[s.len() - 1].title@ == k);
            }
        }
        assert forall|k: Seq<char>|
            (exists|i: int| 0 <= i < s.len() && #[trigger] s[i].title@ == k) implies entries_map(
            s,
        ).contains_key(k) by {
            let i = choose|i: int| 0 <= i < s.len() && #[trigger] s[i].title@ == k;
            if i < s.len() - 1 {
                assert(p[i].title@ == k);
            }
        }
        assert forall|i: int| 0 <= i < s.len() implies entries_map(s)[#[trigger] s[i].title@]
            == s[i].meta@ by {
            if i < s.len() - 1 {
                assert(p[i] == s[i]);
                assert(s[i].title@ != last.title@);
            }
        }
    }
}

/// Replacing the metadata of an entry with a given title changes the map at
/// that title only.
proof fn lemma_entries_map_update(s: Seq<CacheEntry>, i: int, e: CacheEntry)
    requires
        distinct_titles(s),
        0 <= i < s.len(),
        e.title@ == s[i].title@,
    ensures
        entries_map(s.update(i, e)) == entries_map(s).insert(e.title@, e.meta@),
        distinct_titles(s.update(i, e)),
    decreases s.len(),
{
    let t = s.update(i, e);
    assert(distinct_titles(t)) by {
        assert forall|a: int, b: int|
            0 <= a < t.len() && 0 <= b < t.len() && a != b implies #[trigger] t[a].title@
            != #[trigger] t[b].title@ by {
            assert(t[a].title@ == s[a].title@);
            assert(t[b].title@ == s[b].title@);
        }
    }
    lemma_entries_map(s);
    lemma_entries_map(t);
    assert forall|k: Seq<char>| #[trigger] entries_map(t).contains_key(k) <==> entries_map(
        s,
    ).insert(e.title@, e.meta@).contains_key(k) by {
        if entries_map(t).contains_key(k) {
            let j = choose|j: int| 0 <= j < t.len() && #[trigger] t[j].title@ == k;
            assert(s[j].title@ == k);
        }
        if entries_map(s).contains_key(k) {
            let j = choose|j: int| 0 <= j < s.len() && #[trigger] s[j].title@ == k;
            assert(t[j].title@ == k);
        }
        if k == e.title@ {
            assert(t[i].title@ == k);
        }
    }
    assert forall|k: Seq<char>| #[trigger] entries_map(t).contains_key(k) implies entries_map(t)[k]
        == entries_map(s).insert(e.title@, e.meta@)[k] by {
        let j = choose|j: int| 0 <= j < t.len() && #[trigger] t[j].title@ == k;
        assert(entries_map(t)[t[j].title@] == t[j].meta@);
        if j != i {
            assert(s[j] == t[j]);
            assert(entries_map(s)[s[j].title@] == s[j].meta@);
        }
    }
    assert(entries_map(t) =~= entries_map(s).insert(e.title@, e.meta@));
}

impl WikiCache {
    #[verifier::type_invariant]
    spec fn titles_distinct(&self) -> bool {
        distinct_titles(self.entries@)
    }

    /// An empty cache.
    pub fn new() -> (res: WikiCache)
        ensures
            res@ == Map::<Seq<char>, CachedMetaView>::empty(),
    {
        let res = WikiCache { entries: Vec::new() };
        assert(res@ =~= Map::<Seq<char>, CachedMetaView>::empty());
        res
    }

    /// The number of songs in the cache.
    pub fn len(&self) -> (res: usize)
        ensures
            res == self@.len(),
    {
        proof {
            use_type_invariant(self);
            lemma_entries_map(self.entries@);
        }
        self.entries.len()
    }

    /// The index of the entry for `title`, if there is one.
    fn position(&self, title: &str) -> (res: Option<usize>)
        ensures
            match res {
                Some(i) => i < self.entries@.len() && self.entries@[i as int].title@ == title@,
                None => !self@.contains_key(title@),
            },
    {
        proof {
            use_type_invariant(self);
            lemma_entries_map(self.entries@);
        }
        let mut i: usize = 0;
        while i < self.entries.len()
            invariant
                i <= self.entries@.len(),
                forall|j: int| 0 <= j < i ==> #[trigger] self.entries@[j].title@ != title@,
            decreases self.entries.len() - i,
        {
            if str_eq(self.entries[i].title.as_str(), title) {
                return Some(i);
            }
            i = i + 1;
        }
        None
    }

    /// The metadata of the song titled `title`, if the cache holds it.
    pub fn get(&self, title: &str) -> (res: Option<&CachedMeta>)
        ensures
            match res {
                Some(m) => self@.contains_key(title@) && m@ == self@[title@],
                None => !self@.contains_key(title@),
            },
    {
        proof {
            use_type_invariant(self);
            lemma_entries_map(self.entries@);
        }
        match self.position(title) {
            Some(i) => Some(&self.entries[i].meta),
            None => None,
        }
    }

    /// Sets the metadata of the song titled `title`, replacing what the
    /// cache held for it.
    pub fn insert(&mut self, title: String, meta: CachedMeta)
        ensures
            final(self)@ == old(self)@.insert(title@, meta@),
    {
        proof {
            use_type_invariant(&*self);
        }
        let pos = self.position(title.as_str());
        let mut entries: Vec<CacheEntry> = Vec::new();
        std::mem::swap(&mut entries, &mut self.entries);
        let ghost before = entries@;
        let entry = CacheEntry { title, meta };
        match pos {
            Some(i) => {
                proof {
                    lemma_entries_map_update(before, i as int, entry);
                }
                entries.set(i, entry);
            },
            None => {
                proof {
                    lemma_entries_map(before);
                    assert(distinct_titles(before.push(entry))) by {
                        assert forall|a: int, b: int|
                            0 <= a < before.len() + 1 && 0 <= b < before.len() + 1 && a != b
                                implies #[trigger] before.push(entry)[a].title@
                            != #[trigger] before.push(entry)[b].title@ by {
                            if a == before.len() as int {
                                assert(before[b].title@ != entry.title@);
                            } else if b == before.len() as int {
                                assert(before[a].title@ != entry.title@);
                            }
                        }
                    }
                    assert(before.push(entry).drop_last() =~= before);
                }
                entries.push(entry);
            },
        }
        self.entries = entries;
    }

    /// The entries of the cache, one per title.
    pub fn entries(&self) -> (res: &[CacheEntry])
        ensures
            entries_map(res@) == self@,
            distinct_titles(res@),
    {
        proof {
            use_type_invariant(self);
        }
        self.entries.as_slice()
    }
}

} // verus!
