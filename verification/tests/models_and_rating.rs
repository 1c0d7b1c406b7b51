use paradigm_b50::calculator::{Calculator, BEST_COUNT};
use paradigm_b50::models::{
    CachedMeta, CsvRow, Difficulty, ScoreRecord, SongMetadata, WikiCache,
};

#[test]
fn from_str_reads_the_four_names() {
    assert!(matches!(Difficulty::from_str("Detected"), Difficulty::Detected));
    assert!(matches!(Difficulty::from_str("Invaded"), Difficulty::Invaded));
    assert!(matches!(Difficulty::from_str("Massive"), Difficulty::Massive));
    assert!(matches!(Difficulty::from_str("Fate"), Difficulty::Fate));
}

#[test]
fn from_str_keeps_other_names() {
    match Difficulty::from_str("fate") {
        Difficulty::Unknown(s) => assert_eq!(s, "fate"),
        _ => panic!("a lower-case name is not a known difficulty"),
    }
    match Difficulty::from_str("") {
        Difficulty::Unknown(s) => assert_eq!(s, ""),
        _ => panic!("the empty name is not a known difficulty"),
    }
}

#[test]
fn to_color_of_each_difficulty() {
    assert_eq!(Difficulty::Detected.to_color(), "#3fcbff");
    assert_eq!(Difficulty::Invaded.to_color(), "#ff6b6b");
    assert_eq!(Difficulty::Massive.to_color(), "#8f629d");
    assert_eq!(Difficulty::Fate.to_color(), "#eeeeee");
    assert_eq!(Difficulty::Unknown("Extra".to_string()).to_color(), "#888888");
}

#[test]
fn rating_at_the_formula_boundaries() {
    // Level 14.7: rating 147.00 at 1,000,000, 153.00 at 1,009,000, 157.00 at 1,010,000.
    assert_eq!(Calculator::calculate_rating(14_700_000, 1_000_000), 14700);
    assert_eq!(Calculator::calculate_rating(14_700_000, 1_009_000), 15300);
    assert_eq!(Calculator::calculate_rating(14_700_000, 1_010_000), 15700);
    // One point below each boundary.
    assert_eq!(Calculator::calculate_rating(14_700_000, 999_999), 14699);
    assert_eq!(Calculator::calculate_rating(14_700_000, 1_008_999), 15299);
}

#[test]
fn rating_in_each_piece() {
    // 1,004,500: 147 + 4500 / 1500 = 150.00
    assert_eq!(Calculator::calculate_rating(14_700_000, 1_004_500), 15000);
    // 1,009,500: 147 + 6 + 500 / 250 = 155.00
    assert_eq!(Calculator::calculate_rating(14_700_000, 1_009_500), 15500);
    // 1,000,100: 147 + 100 / 1500 = 147.0666.. -> 147.06
    assert_eq!(Calculator::calculate_rating(14_700_000, 1_000_100), 14706);
    // 950,000: 147 * 0.95 = 139.65
    assert_eq!(Calculator::calculate_rating(14_700_000, 950_000), 13965);
    // 0 points: 0
    assert_eq!(Calculator::calculate_rating(14_700_000, 0), 0);
    // A negative level is rounded down.
    assert_eq!(Calculator::calculate_rating(-10_000, 1), -1);
}

#[test]
fn rating_of_a_level_with_more_than_two_decimals() {
    // Level 14.755: 147.55 at 1,000,000, 153.55 at 1,009,000.
    assert_eq!(Calculator::calculate_rating(14_755_000, 1_000_000), 14755);
    assert_eq!(Calculator::calculate_rating(14_755_000, 1_009_000), 15355);
    // 1,000,100: 147.55 + 100 / 1500 = 147.6166.. -> 147.61
    assert_eq!(Calculator::calculate_rating(14_755_000, 1_000_100), 14761);
    // 950,000: 147.55 * 0.95 = 140.1725 -> 140.17
    assert_eq!(Calculator::calculate_rating(14_755_000, 950_000), 14017);
    // Level 14.7551 at 1,000,000: 147.551 -> 147.55
    assert_eq!(Calculator::calculate_rating(14_755_100, 1_000_000), 14755);
}

#[test]
fn rating_never_drops_as_score_rises() {
    let mut prev = Calculator::calculate_rating(15_250_000, 0);
    let mut s: u32 = 0;
    while s <= 1_010_000 {
        let r = Calculator::calculate_rating(15_250_000, s);
        assert!(r >= prev, "score {}", s);
        prev = r;
        s += 997;
    }
}

#[test]
fn rating_never_drops_as_level_rises() {
    for score in [0u32, 500_000, 999_999, 1_000_000, 1_005_000, 1_009_000, 1_010_000] {
        assert!(Calculator::calculate_rating(12_000_000, score) <= Calculator::calculate_rating(12_100_000, score));
    }
}

#[test]
fn accuracy_in_hundredths_of_a_percent() {
    assert_eq!(Calculator::calculate_acc(1_005_000), 10050);
    assert_eq!(Calculator::calculate_acc(1_005_049), 10050);
    assert_eq!(Calculator::calculate_acc(1_005_050), 10051);
    assert_eq!(Calculator::calculate_acc(0), 0);
}

fn row(title: &str, difficulty: &str, level_micro: i64, score: Option<u32>) -> CsvRow {
    CsvRow {
        song_level_id: format!("{}-{}", title, difficulty),
        title: title.to_string(),
        version: "1.0.0".to_string(),
        difficulty: difficulty.to_string(),
        level_micro,
        score,
    }
}

#[test]
fn build_record_uses_the_cache() {
    let mut cache = WikiCache::new();
    cache.insert(
        "Song A".to_string(),
        CachedMeta { artist: "Artist A".to_string(), local_cover_path: "covers/Song_A.png".to_string(), is_new: true },
    );
    let r = Calculator::build_record(&row("Song A", "Massive", 14_700_000, Some(1_004_500)), &cache).unwrap();
    assert_eq!(r.song_metadata.song_id, "Song A-Massive");
    assert_eq!(r.song_metadata.title, "Song A");
    assert_eq!(r.song_metadata.artist, "Artist A");
    assert_eq!(r.song_metadata.cover_url, "covers/Song_A.png");
    assert!(r.song_metadata.is_new);
    assert!(r.song_metadata.bilibili_av.is_none());
    assert!(matches!(r.difficulty, Difficulty::Massive));
    assert_eq!(r.level_micro, 14_700_000);
    assert_eq!(r.score, 1_004_500);
    assert_eq!(r.acc_centi, 10045);
    assert_eq!(r.rating_centi, 15000);
    assert!(r.comment.is_none());
    assert_eq!(r.display_duration_sec, 5);
}

#[test]
fn build_record_without_cache_entry_uses_defaults() {
    let cache = WikiCache::new();
    let r = Calculator::build_record(&row("Song B", "Fate", 13_000_000, Some(990_000)), &cache).unwrap();
    assert_eq!(r.song_metadata.artist, "Unknown Artist");
    assert_eq!(r.song_metadata.cover_url, "covers/default.jpg");
    assert!(!r.song_metadata.is_new);
    assert_eq!(r.rating_centi, 12870);
}

#[test]
fn build_record_skips_rows_without_score() {
    let cache = WikiCache::new();
    assert!(Calculator::build_record(&row("Song C", "Fate", 13_000_000, None), &cache).is_none());
}

fn record(title: &str, rating_centi: i64) -> ScoreRecord {
    ScoreRecord {
        song_metadata: SongMetadata {
            song_id: title.to_string(),
            title: title.to_string(),
            artist: String::new(),
            cover_url: String::new(),
            bilibili_av: None,
            is_new: false,
        },
        difficulty: Difficulty::Fate,
        level_micro: 0,
        score: 0,
        acc_centi: 0,
        rating_centi,
        comment: None,
        display_duration_sec: 5,
    }
}

#[test]
fn sort_by_rating_is_descending_and_stable() {
    let input = vec![record("a", 10), record("b", 30), record("c", 10), record("d", 20), record("e", 30)];
    let sorted = Calculator::sort_by_rating(input);
    let titles: Vec<&str> = sorted.iter().map(|r| r.song_metadata.title.as_str()).collect();
    assert_eq!(titles, vec!["b", "e", "d", "a", "c"]);
}

#[test]
fn select_best_keeps_the_best_fifty() {
    let input: Vec<ScoreRecord> = (0..60).map(|i| record(&format!("s{}", i), (i % 8) as i64)).collect();
    let best = Calculator::select_best(input);
    assert_eq!(best.len(), BEST_COUNT);
    assert_eq!(BEST_COUNT, 50);
    for w in best.windows(2) {
        assert!(w[0].rating_centi >= w[1].rating_centi);
    }
    // 60 records: ratings 7, 6, 5, 4 occur 7 times each, ratings 3, 2, 1, 0 eight times.
    // The 50 best take 28 + 8 + 8 = 44 records of rating 2 or more and the first
    // 6 of rating 1; the last two records of rating 1 and those of rating 0 stay out.
    assert_eq!(best.iter().filter(|r| r.rating_centi == 0).count(), 0);
    let ones: Vec<&str> = best.iter().filter(|r| r.rating_centi == 1).map(|r| r.song_metadata.title.as_str()).collect();
    assert_eq!(ones, vec!["s1", "s9", "s17", "s25", "s33", "s41"]);
    assert_eq!(best[0].song_metadata.title, "s7");
}

#[test]
fn select_best_keeps_all_of_a_short_list() {
    let best = Calculator::select_best(vec![record("x", 1), record("y", 2)]);
    assert_eq!(best.len(), 2);
    assert_eq!(best[0].song_metadata.title, "y");
    assert!(Calculator::select_best(Vec::new()).is_empty());
}

#[test]
fn calculate_project_builds_sorts_and_names() {
    let mut cache = WikiCache::new();
    cache.insert(
        "Hi".to_string(),
        CachedMeta { artist: "Hi Artist".to_string(), local_cover_path: "covers/Hi.jpg".to_string(), is_new: false },
    );
    let rows = vec![
        row("Lo", "Detected", 8_000_000, Some(900_000)),
        row("None", "Detected", 15_000_000, None),
        row("Hi", "Invaded", 15_000_000, Some(1_010_000)),
    ];
    let p = Calculator::calculate_project(&rows, &cache, "2024-01-02".to_string());
    assert_eq!(p.player_name, "Player");
    assert_eq!(p.generated_at, "2024-01-02");
    assert_eq!(p.records.len(), 2);
    assert_eq!(p.records[0].song_metadata.title, "Hi");
    assert_eq!(p.records[0].rating_centi, 16000);
    assert_eq!(p.records[0].song_metadata.artist, "Hi Artist");
    assert_eq!(p.records[1].song_metadata.title, "Lo");
    assert_eq!(p.records[1].rating_centi, 7200);
}

#[test]
fn wiki_cache_read_after_write() {
    let mut cache = WikiCache::new();
    assert_eq!(cache.len(), 0);
    assert!(cache.get("A").is_none());
    cache.insert("A".to_string(), CachedMeta { artist: "x".to_string(), local_cover_path: "p".to_string(), is_new: false });
    cache.insert("B".to_string(), CachedMeta { artist: "y".to_string(), local_cover_path: "q".to_string(), is_new: true });
    assert_eq!(cache.get("A").unwrap().artist, "x");
    assert_eq!(cache.get("B").unwrap().artist, "y");
    assert_eq!(cache.len(), 2);
    // A second write to a title replaces the first.
    cache.insert("A".to_string(), CachedMeta { artist: "z".to_string(), local_cover_path: "r".to_string(), is_new: true });
    assert_eq!(cache.len(), 2);
    assert_eq!(cache.get("A").unwrap().artist, "z");
    assert!(cache.get("A").unwrap().is_new);
    assert_eq!(cache.get("B").unwrap().local_cover_path, "q");
    let titles: Vec<&str> = cache.entries().iter().map(|e| e.title.as_str()).collect();
    assert_eq!(titles.len(), 2);
    assert!(titles.contains(&"A") && titles.contains(&"B"));
}

#[test]
fn calculate_project_keeps_fifty_of_many_rows() {
    let cache = WikiCache::new();
    let rows: Vec<CsvRow> = (0..55u32).map(|i| row(&format!("S{}", i), "Fate", (1000 + i as i64) * 10_000, Some(1_000_000))).collect();
    let p = Calculator::calculate_project(&rows, &cache, String::new());
    assert_eq!(p.records.len(), 50);
    assert_eq!(p.records[0].song_metadata.title, "S54");
    assert_eq!(p.records[49].song_metadata.title, "S5");
}

#[test]
fn difficulty_equality() {
    assert!(Difficulty::from_str("Fate") == Difficulty::Fate);
    assert!(Difficulty::Detected != Difficulty::Fate);
    assert!(Difficulty::from_str("Extra") == Difficulty::Unknown("Extra".to_string()));
    assert!(Difficulty::Unknown("a".to_string()) != Difficulty::Unknown("b".to_string()));
    assert!(Difficulty::Unknown("Fate".to_string()) != Difficulty::Fate);
}
