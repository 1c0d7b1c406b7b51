use paradigm_b50::capture::SlideCapture;
use paradigm_b50::html_generator::{HtmlGenerator, PAGE_HEAD, PAGE_TAIL};
use paradigm_b50::models::{B50Project, Difficulty, ScoreRecord, SongMetadata};
use paradigm_b50::script_generator::ScriptGenerator;
use paradigm_b50::server::{bind_address, content_type, local_url, route_request, Route};

fn file_route(url: &str) -> (String, &'static str) {
    match route_request(url, "dist") {
        Route::File { path, content_type } => (path, content_type),
        Route::Forbidden => panic!("{} was refused", url),
    }
}

#[test]
fn root_serves_the_page() {
    assert_eq!(file_route("/"), ("dist/b50_slides.html".to_string(), "text/html; charset=UTF-8"));
}

#[test]
fn query_is_dropped() {
    assert_eq!(file_route("/b50_slides.html?i=3"), ("dist/b50_slides.html".to_string(), "text/html; charset=UTF-8"));
    assert_eq!(file_route("/covers/a.png?x?y"), ("dist/covers/a.png".to_string(), "image/png"));
}

#[test]
fn climbing_out_is_refused() {
    assert!(matches!(route_request("/../secret", "dist"), Route::Forbidden));
    assert!(matches!(route_request("/a?b=..", "dist"), Route::Forbidden));
}

#[test]
fn content_types_by_extension() {
    assert_eq!(content_type("a.html"), "text/html; charset=UTF-8");
    assert_eq!(content_type("a.jpg"), "image/jpeg");
    assert_eq!(content_type("a.jpeg"), "image/jpeg");
    assert_eq!(content_type("a.png"), "image/png");
    assert_eq!(content_type("a.json"), "application/json");
    assert_eq!(content_type("a.css"), "text/css");
    assert_eq!(content_type("a.js"), "application/javascript");
    assert_eq!(content_type("a.PNG"), "application/octet-stream");
    assert_eq!(content_type("a"), "application/octet-stream");
}

#[test]
fn server_addresses() {
    assert_eq!(bind_address(8080), "0.0.0.0:8080");
    assert_eq!(local_url(8080), "http://localhost:8080");
}

#[test]
fn page_holds_name_date_and_records() {
    let page = HtmlGenerator::generate("[{\"score\":1}]", "Alice", "2024-05-06");
    assert!(page.starts_with(PAGE_HEAD));
    assert!(page.ends_with(PAGE_TAIL));
    assert!(page.contains("<div class=\"player-name\" contenteditable=\"true\">Alice</div>"));
    assert!(page.contains("2024-05-06"));
    assert!(page.contains("const records = [{\"score\":1}];"));
    assert!(page.starts_with("<!DOCTYPE html>"));
    assert!(page.contains("let comments = {};"));
}

fn record(d: u64) -> ScoreRecord {
    ScoreRecord {
        song_metadata: SongMetadata {
            song_id: String::new(),
            title: String::new(),
            artist: String::new(),
            cover_url: String::new(),
            bilibili_av: None,
            is_new: false,
        },
        difficulty: Difficulty::Detected,
        level_micro: 0,
        score: 0,
        acc_centi: 0,
        rating_centi: 0,
        comment: None,
        display_duration_sec: d,
    }
}

#[test]
fn script_lists_every_slide() {
    let project = B50Project {
        player_name: "Bob".to_string(),
        generated_at: String::new(),
        records: vec![record(5), record(12)],
    };
    let script = ScriptGenerator::generate(&project);
    let expected = "
# Paradigm B50 Render Script
# Generated for Bob
# Note: Since the UI is now a Single Page App, ensure you capture screenshots
# matching the timing or use a screen recorder.
echo \"Creating input list...\"
rm -f input.txt
echo \"file 'slide_0.png'\" >> input.txt
echo \"duration 5\" >> input.txt
echo \"file 'slide_1.png'\" >> input.txt
echo \"duration 12\" >> input.txt

echo \"file 'slide_0.png'\" >> input.txt
echo \"Rendering video...\"
ffmpeg -f concat -safe 0 -i input.txt -vsync vfr -pix_fmt yuv420p output_b50.mp4
echo \"Done!\"
";
    assert_eq!(script, expected);
}

#[test]
fn slide_names_and_scripts() {
    assert_eq!(SlideCapture::slide_file_name(7), "slide_7.png");
    assert_eq!(
        SlideCapture::show_slide_script(3),
        "(function(){ if(typeof render === 'function') { try { render(3); } catch(e){} } else { var el = document.getElementById('item-3'); if(el) el.scrollIntoView({behavior:'auto', block:'center'}); } return true; })();"
    );
}
