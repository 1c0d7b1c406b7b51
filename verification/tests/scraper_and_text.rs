use paradigm_b50::models::WikiCache;
use paradigm_b50::scraper::{Scraper, WikiCell, WikiEntry};
use paradigm_b50::text::{
    chars_of, contains, decimal, ends_with, find_from, parse_u32, split_char, starts_with,
    string_from_chars, trim,
};

fn cv(s: &str) -> Vec<char> {
    s.chars().collect()
}

#[test]
fn trim_removes_unicode_whitespace() {
    assert_eq!(trim("  Song \n"), "Song");
    assert_eq!(trim("\u{3000}曲名\u{a0}"), "曲名");
    assert_eq!(trim(" \t "), "");
    assert_eq!(trim(""), "");
    assert_eq!(trim("a b"), "a b");
    assert_eq!(trim(&trim("  x  ")), trim("  x  "));
}

#[test]
fn split_keeps_empty_pieces_and_joins_back() {
    let parts = split_char(&cv("3..9."), '.');
    let strs: Vec<String> = parts.iter().map(|p| p.iter().collect()).collect();
    assert_eq!(strs, vec!["3", "", "9", ""]);
    assert_eq!(split_char(&cv(""), '.').len(), 1);
    assert_eq!(strs.join("."), "3..9.");
}

#[test]
fn decimal_and_parse() {
    assert_eq!(decimal(0), "0");
    assert_eq!(decimal(8080), "8080");
    assert_eq!(decimal(u64::MAX), u64::MAX.to_string());
    assert_eq!(parse_u32(&cv("42")), Some(42));
    assert_eq!(parse_u32(&cv("+7")), Some(7));
    assert_eq!(parse_u32(&cv("007")), Some(7));
    assert_eq!(parse_u32(&cv("4294967295")), Some(u32::MAX));
    assert_eq!(parse_u32(&cv("4294967296")), None);
    assert_eq!(parse_u32(&cv("")), None);
    assert_eq!(parse_u32(&cv("+")), None);
    assert_eq!(parse_u32(&cv("-5")), None);
    assert_eq!(parse_u32(&cv("1a")), None);
    for n in [0u32, 9, 10, 12345, u32::MAX] {
        assert_eq!(parse_u32(&cv(&decimal(n as u64))), Some(n));
        assert_eq!(parse_u32(&cv(&n.to_string())), n.to_string().parse::<u32>().ok());
    }
}

#[test]
fn searching() {
    assert_eq!(find_from(&cv("a/thumb/b/thumb/c"), &cv("/thumb/"), 0), Some(1));
    assert_eq!(find_from(&cv("a/thumb/b/thumb/c"), &cv("/thumb/"), 2), Some(9));
    assert_eq!(find_from(&cv("abc"), &cv("x"), 0), None);
    assert!(contains(&cv("a..b"), &cv("..")));
    assert!(!contains(&cv("a.b"), &cv("..")));
    assert!(starts_with(&cv("//x"), &cv("//")));
    assert!(ends_with(&cv("a.png"), &cv(".png")));
    assert!(!ends_with(&cv("png"), &cv(".png")));
    assert_eq!(string_from_chars(&chars_of("曲")), "曲");
}

#[test]
fn sanitize_title_replaces_unsafe_characters() {
    assert_eq!(Scraper::sanitize_title("Hello, World!"), "Hello__World_");
    assert_eq!(Scraper::sanitize_title("a-b_c/d"), "a-b_c_d");
    assert_eq!(Scraper::sanitize_title("A b/c"), "A_b_c");
    assert_eq!(Scraper::sanitize_title("曲名 2"), "曲名_2");
    let once = Scraper::sanitize_title("x: y?");
    assert_eq!(Scraper::sanitize_title(&once), once);
}

#[test]
fn image_extension_by_lowercased_ending() {
    assert_eq!(Scraper::image_extension("https://x/a.png"), "png");
    assert_eq!(Scraper::image_extension("https://x/A.PNG"), "png");
    assert_eq!(Scraper::image_extension("https://x/a.jpg"), "jpg");
    assert_eq!(Scraper::image_extension("https://x/a.webp"), "jpg");
}

#[test]
fn cover_paths_under_covers_and_dist() {
    let (web, fs) = Scraper::cover_paths("Song: One", "https://x/a.PNG");
    assert_eq!(web, "covers/Song__One.png");
    assert_eq!(fs, "dist/covers/Song__One.png");
    assert!(Scraper::cover_download("T", "").is_none());
    let d = Scraper::cover_download("T", "https://x/t.jpg").unwrap();
    assert_eq!(d.url, "https://x/t.jpg");
    assert_eq!(d.web_path, "covers/T.jpg");
    assert_eq!(d.fs_path, "dist/covers/T.jpg");
}

#[test]
fn full_image_url_drops_the_thumbnail() {
    assert_eq!(
        Scraper::full_image_url("//static.wikitide.net/prwiki/thumb/a/ab/Cover.png/80px-Cover.png"),
        "https://static.wikitide.net/prwiki/a/ab/Cover.png"
    );
    assert_eq!(Scraper::full_image_url("https://x/thumb/a.png"), "https://x/thumb/a.png");
    assert_eq!(Scraper::full_image_url("https://x/img/a.png"), "https://x/img/a.png");
    assert_eq!(Scraper::full_image_url("//x/a.png"), "https://x/a.png");
    assert_eq!(Scraper::full_image_url("/thumb/a/b/thumb/c"), "/a");
    assert_eq!(Scraper::full_image_url(""), "");
}

#[test]
fn versions() {
    assert_eq!(Scraper::version_numbers("3.10.2"), vec![3, 10, 2]);
    assert_eq!(Scraper::version_numbers("99999999999.1.1"), vec![1, 1]);
    assert!(Scraper::version_is_new("3.9.0"));
    assert!(Scraper::version_is_new("3.10.2"));
    assert!(Scraper::version_is_new("4.0.0"));
    assert!(!Scraper::version_is_new("3.8.99"));
    assert!(!Scraper::version_is_new("2.99.99"));
    assert!(!Scraper::version_is_new("99999999999.1.1"));
}

fn cell(text: &str, img: Option<&str>) -> WikiCell {
    WikiCell { text: text.to_string(), img_src: img.map(|s| s.to_string()) }
}

#[test]
fn the_first_cell_with_a_version_decides() {
    assert!(Scraper::row_is_new(&[cell("", None), cell("T", None), cell("A", None), cell("v3.9.0", None)]));
    assert!(!Scraper::row_is_new(&[cell("1.0.0", None), cell("T", None), cell("3.9.0", None)]));
    assert!(!Scraper::row_is_new(&[cell("x", None), cell("T", None), cell("A", None)]));
    assert!(Scraper::row_is_new(&[cell("ver 3.12.1 (2024)", None)]));
}

#[test]
fn parse_row_reads_title_artist_and_cover() {
    let e = Scraper::parse_row(&[
        cell("", Some("//img.example/thumb/c/cd/X.jpg/120px-X.jpg")),
        cell("  Title \n", None),
        cell(" Artist ", None),
        cell("3.9.1", None),
    ])
    .unwrap();
    assert_eq!(e.title, "Title");
    assert_eq!(e.artist, "Artist");
    assert!(e.is_new);
    assert_eq!(e.img_url, "https://img.example/c/cd/X.jpg");
    assert!(Scraper::parse_row(&[cell("a", None), cell("b", None)]).is_none());
    assert!(Scraper::parse_row(&[cell("a", None), cell("  ", None), cell("c", None)]).is_none());
    let f = Scraper::parse_row(&[cell("", None), cell("T", None), cell("", None)]).unwrap();
    assert_eq!(f.img_url, "");
    assert!(!f.is_new);
}

#[test]
fn parse_wiki_page_reads_the_song_table() {
    let html = r#"<html><body>
<table class="wikitable">
<tr><th>Cover</th><th>Title</th><th>Artist</th><th>Version</th></tr>
<tr><td><img src="//img.example/thumb/a/ab/A.png/80px-A.png"></td><td> Alpha </td><td>Ann</td><td>3.9.0</td></tr>
<tr><td></td><td>Beta</td><td><b>Bob</b> &amp; Co</td><td>1.2.3</td></tr>
<tr><td></td><td>   </td><td>Nobody</td></tr>
</table>
<table><tr><td></td><td>Other</td><td>Table</td></tr></table>
</body></html>"#;
    let entries = Scraper::parse_wiki_page(html);
    assert_eq!(entries.len(), 2);
    assert_eq!(entries[0].title, "Alpha");
    assert_eq!(entries[0].artist, "Ann");
    assert!(entries[0].is_new);
    assert_eq!(entries[0].img_url, "https://img.example/a/ab/A.png");
    assert_eq!(entries[1].title, "Beta");
    assert_eq!(entries[1].artist, "Bob & Co");
    assert!(!entries[1].is_new);
    assert_eq!(entries[1].img_url, "");
    assert!(Scraper::parse_wiki_page("").is_empty());
}

fn entry(title: &str, img: &str) -> WikiEntry {
    WikiEntry { title: title.to_string(), artist: "Ar".to_string(), is_new: true, img_url: img.to_string() }
}

#[test]
fn add_entry_keeps_the_downloaded_cover_or_the_default() {
    let mut cache = WikiCache::new();
    Scraper::add_entry(&mut cache, &entry("With Cover", "https://x/c.png"), true);
    Scraper::add_entry(&mut cache, &entry("Failed", "https://x/f.png"), false);
    Scraper::add_entry(&mut cache, &entry("No Cover", ""), true);
    assert_eq!(cache.get("With Cover").unwrap().local_cover_path, "covers/With_Cover.png");
    assert_eq!(cache.get("Failed").unwrap().local_cover_path, "covers/default.jpg");
    assert_eq!(cache.get("No Cover").unwrap().local_cover_path, "covers/default.jpg");
    assert_eq!(cache.get("No Cover").unwrap().artist, "Ar");
    assert!(cache.get("No Cover").unwrap().is_new);
    assert_eq!(cache.len(), 3);
}

#[test]
fn build_cache_one_entry_per_title_last_wins() {
    let mut later = entry("Same", "https://x/later.jpg");
    later.artist = "Later".to_string();
    let items = vec![
        (entry("Same", "https://x/first.png"), true),
        (entry("Other", "https://x/o.png"), true),
        (later, false),
    ];
    let cache = Scraper::build_cache(&items);
    assert_eq!(cache.len(), 2);
    assert_eq!(cache.get("Same").unwrap().artist, "Later");
    assert_eq!(cache.get("Same").unwrap().local_cover_path, "covers/default.jpg");
    assert_eq!(cache.get("Other").unwrap().local_cover_path, "covers/Other.png");
    assert!(Scraper::build_cache(&Vec::new()).len() == 0);
}

#[test]
fn cover_files_lie_directly_in_covers() {
    for title in ["../../etc/passwd", "a\\b", "x.y.z", "曲/名"] {
        let (web, fs) = Scraper::cover_paths(title, "https://x/a.png");
        let name = web.strip_prefix("covers/").unwrap();
        assert!(!name.contains('/') && !name.contains('\\'));
        assert_eq!(name.matches('.').count(), 1);
        assert_eq!(fs, format!("dist/{}", web));
    }
    assert_eq!(Scraper::cover_paths("../x", "u.jpg").0, "covers/___x.jpg");
}
