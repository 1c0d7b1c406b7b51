//! The wiki rules that build the metadata cache: which table rows describe a
//! song, what title, artist and version they give, where the cover picture
//! is fetched from and where it is stored.

use vstd::prelude::*;
use vstd::string::*;
use crate::models::{CachedMeta, CachedMetaView, WikiCache};
use crate::text::{
    chars_of, ends_with, find_from, last_index_of, lemma_contains_find, lemma_find_from,
    lemma_last_index_of, occurs_at, parse_u32, pieces_view, spec_contains, spec_ends_with,
    spec_find_from, spec_last_index_of, spec_parse_u32, spec_split, spec_starts_with, spec_trim,
    split_char, starts_with, string_from_chars, string_from_range, trim, spec_is_whitespace,
    lemma_trim_idempotent, lemma_split_append_free, lemma_split_push_separator,
    lemma_decimal_digits, lemma_parse_decimal, spec_decimal,
};

verus! {

/// Builds the metadata cache from the song table of the wiki.
pub struct Scraper;

/// The pattern of a game version such as `3.9.0` in a table cell.
pub const VERSION_PATTERN: &'static str = "\\d+\\.\\d+\\.\\d+";

/// Songs that came with this version of the game or a later one are new.
pub const NEW_VERSION_THRESHOLD: (u32, u32, u32) = (3, 9, 0);

/// The CSS selector of the rows of the song table.
pub const ROW_SELECTOR: &'static str = "table.wikitable tr";

/// The CSS selector of the cells of a row.
pub const CELL_SELECTOR: &'static str = "td";

/// The CSS selector of a picture in a cell.
pub const IMG_SELECTOR: &'static str = "img";

/// The marker of a thumbnail in a picture address.
pub const THUMB_MARKER: &'static str = "/thumb/";

/// The cover shown where no picture could be had.
pub const DEFAULT_COVER: &'static str = "covers/default.jpg";

// ---------------------------------------------------------------------------
// Outside functions
// ---------------------------------------------------------------------------

/// What `char::is_alphanumeric` answers for a character.
pub uninterp spec fn spec_is_alphanumeric(c: char) -> bool;

/// Calls `char::is_alphanumeric`. Its answer is named; of an ASCII
/// character the contract states what std documents: it is alphanumeric
/// exactly when it is an ASCII letter or digit (the ASCII letters are
/// alphabetic, the ASCII digits numeric, and no other ASCII character is
/// either). Of other characters nothing is stated.
#[verifier::external_body]
fn char_is_alphanumeric(c: char) -> (res: bool)
    ensures
        res == spec_is_alphanumeric(c),
        (c as u32) < 128 ==> (res <==> ('a' <= c <= 'z' || 'A' <= c <= 'Z' || '0' <= c <= '9')),
{
    c.is_alphanumeric()
}

/// The lower-case form of an ASCII character: `A`..`Z` become `a`..`z`,
/// every other character stays.
pub open spec fn spec_ascii_lower(c: char) -> char {
    if 'A' <= c <= 'Z' {
        ((c as u32) + 32) as char
    } else {
        c
    }
}

/// Every character of `s` is ASCII.
pub open spec fn spec_all_ascii(s: Seq<char>) -> bool {
    forall|k: int| 0 <= k < s.len() ==> (#[trigger] s[k] as u32) < 128
}

/// `s` with each ASCII capital letter lowered.
pub open spec fn spec_ascii_lowercase(s: Seq<char>) -> Seq<char> {
    s.map_values(|c: char| spec_ascii_lower(c))
}

/// What `str::to_lowercase` gives for a text.
pub uninterp spec fn spec_to_lowercase(s: Seq<char>) -> Seq<char>;

/// Calls `str::to_lowercase`. Its result is named; of a text made only of
/// ASCII characters the contract states what the Unicode lower-case mapping
/// gives there: each `A`..`Z` becomes `a`..`z` and every other character
/// stays. Of other texts nothing is stated.
#[verifier::external_body]
fn str_to_lowercase(s: &str) -> (res: String)
    ensures
        res@ == spec_to_lowercase(s@),
        spec_all_ascii(s@) ==> res@ == spec_ascii_lowercase(s@),
{
    s.to_lowercase()
}

/// The first (leftmost) match of a regular expression in a text, as the
/// `regex` crate finds it, or `None` where there is no match or the pattern
/// is not a valid regular expression.
pub uninterp spec fn spec_regex_find(pattern: Seq<char>, text: Seq<char>) -> Option<Seq<char>>;

/// Compiles `pattern` with `regex::Regex::new` and returns the text of the
/// first match of `Regex::find` in `text`. The contract names the result and
/// states nothing more of it.
#[verifier::external_body]
fn regex_find(pattern: &str, text: &str) -> (res: Option<String>)
    ensures
        res.deep_view() == spec_regex_find(pattern@, text@),
{
    regex::Regex::new(pattern).ok().and_then(|re| re.find(text).map(|m| m.as_str().to_string()))
}

/// One cell of a table row: its text (the text of all its descendants, in
/// document order) and the `src` of the first picture inside it.
#[derive(Debug)]
pub struct WikiCell {
    pub text: String,
    pub img_src: Option<String>,
}

/// The mathematical value of a [`WikiCell`].
pub struct WikiCellView {
    pub text: Seq<char>,
    pub img_src: Option<Seq<char>>,
}

impl View for WikiCell {
    type V = WikiCellView;

    open spec fn view(&self) -> WikiCellView {
        WikiCellView { text: self.text@, img_src: self.img_src.deep_view() }
    }
}

/// The values of the cells of a row.
pub open spec fn cells_view(cells: Seq<WikiCell>) -> Seq<WikiCellView> {
    cells.map_values(|c: WikiCell| c@)
}

/// The values of the cells of each row.
pub open spec fn table_view(rows: Seq<Vec<WikiCell>>) -> Seq<Seq<WikiCellView>> {
    rows.map_values(|r: Vec<WikiCell>| cells_view(r@))
}

/// The rows that the `scraper` crate selects from an HTML document with
/// `row_selector`, each as the cells that it selects inside the row with
/// `cell_selector`, each cell with its text and the `src` of the first
/// element inside it that `img_selector` selects; `None` where a selector
/// does not parse.
pub uninterp spec fn spec_select_table(
    html: Seq<char>,
    row_selector: Seq<char>,
    cell_selector: Seq<char>,
    img_selector: Seq<char>,
) -> Option<Seq<Seq<WikiCellView>>>;

/// Parses `html` with `scraper::Html::parse_document`, the selectors with
/// `scraper::Selector::parse`, and reads the selected rows and cells with
/// `select`, `text` and `attr("src")`. The contract names the result and
/// states nothing more of it.
#[verifier::external_body]
fn select_table(html: &str, row_selector: &str, cell_selector: &str, img_selector: &str) -> (res:
    Option<Vec<Vec<WikiCell>>>)
    ensures
        match res {
            Some(rows) => spec_select_table(html@, row_selector@, cell_selector@, img_selector@)
                == Some(table_view(rows@)),
            None => spec_select_table(html@, row_selector@, cell_selector@, img_selector@) is None,
        },
{
    let rows = ::scraper::Selector::parse(row_selector).ok()?;
    let cells = ::scraper::Selector::parse(cell_selector).ok()?;
    let img = ::scraper::Selector::parse(img_selector).ok()?;
    let doc = ::scraper::Html::parse_document(html);
    Some(doc.select(&rows).map(|r| r.select(&cells).map(|c| WikiCell {
        text: c.text().collect(),
        img_src: c.select(&img).next().and_then(|i| i.value().attr("src")).map(|s| s.to_string()),
    }).collect()).collect())
}

} // verus!

verus! {

// ---------------------------------------------------------------------------
// Cover pictures
// ---------------------------------------------------------------------------

/// A character that may stand in a file name: letters, digits, `-` and `_`
/// stay; every other character becomes `_`.
pub open spec fn spec_safe_char(c: char) -> char {
    if spec_is_alphanumeric(c) || c == '-' || c == '_' {
        c
    } else {
        '_'
    }
}

/// A song title made safe for a file name.
pub open spec fn spec_safe_title(title: Seq<char>) -> Seq<char> {
    title.map_values(|c: char| spec_safe_char(c))
}

/// The file extension of a cover: `png` where the lower-cased address ends
/// with `.png`, else `jpg`.
pub open spec fn spec_image_extension(url: Seq<char>) -> Seq<char> {
    if spec_ends_with(spec_to_lowercase(url), ".png"@) {
        "png"@
    } else {
        "jpg"@
    }
}

/// Where the page finds the cover of a song: `covers/<safe title>.<ext>`.
pub open spec fn spec_cover_web_path(title: Seq<char>, url: Seq<char>) -> Seq<char> {
    "covers/"@ + spec_safe_title(title) + "."@ + spec_image_extension(url)
}

/// Where the cover is stored on disk: under `dist/`, beside the page.
pub open spec fn spec_cover_fs_path(title: Seq<char>, url: Seq<char>) -> Seq<char> {
    "dist/"@ + spec_cover_web_path(title, url)
}

/// A picture address as it appears in the table, made absolute (`//...`
/// becomes `https://...`).
pub open spec fn spec_with_scheme(src: Seq<char>) -> Seq<char> {
    if spec_starts_with(src, "//"@) {
        "https:"@ + src
    } else {
        src
    }
}

/// The address of the full-size picture for a picture address of the
/// table: where the address holds `/thumb/`, the thumbnail part is dropped,
/// that is, the text between the first `/thumb/` and the next one (or the
/// end) loses its last `/`-separated part, and the `/thumb` step goes.
pub open spec fn spec_full_image_url(src: Seq<char>) -> Seq<char> {
    let s = spec_with_scheme(src);
    let m = THUMB_MARKER@;
    match spec_find_from(s, m, 0) {
        None => s,
        Some(i) => {
            let rest = s.subrange(i + m.len(), s.len() as int);
            let tail = match spec_find_from(rest, m, 0) {
                None => rest,
                Some(j) => rest.subrange(0, j),
            };
            match spec_last_index_of(tail, '/') {
                None => s,
                Some(k) => s.subrange(0, i) + "/"@ + tail.subrange(0, k),
            }
        },
    }
}

/// An address that holds no thumbnail marker is only made absolute.
pub proof fn lemma_full_image_url_plain(src: Seq<char>)
    requires
        !spec_contains(spec_with_scheme(src), THUMB_MARKER@),
    ensures
        spec_full_image_url(src) == spec_with_scheme(src),
{
    lemma_contains_find(spec_with_scheme(src), THUMB_MARKER@);
}

/// `/thumb/` occurs in the text after a place exactly where it occurs in
/// the whole text, shifted by that place.
proof fn lemma_occurs_after(s: Seq<char>, p: Seq<char>, start: int, j: int)
    requires
        0 <= start <= s.len(),
        0 <= j,
    ensures
        occurs_at(s.subrange(start, s.len() as int), p, j) == occurs_at(s, p, start + j),
{
    let rest = s.subrange(start, s.len() as int);
    if j + p.len() <= rest.len() {
        assert(rest.subrange(j, j + p.len()) =~= s.subrange(start + j, start + j + p.len()));
    }
}

/// The thumbnail part of a picture address is dropped, whether the address
/// starts with `//` or with a scheme. Let `s` be the address made absolute
/// (`//...` becomes `https://...`), `i` the first place of `/thumb/` in it,
/// `e` the length of the text after that marker up to the next `/thumb/`
/// (or the end), and `k` the place of the last `/` in that text: the
/// full-size address is `s[..i]`, then `/`, then the first `k` characters
/// of that text.
pub proof fn lemma_full_image_url_thumbnail(src: Seq<char>, s: Seq<char>, i: int, e: int, k: int)
    requires
        s == (if src.len() >= 2 && src[0] == '/' && src[1] == '/' {
            "https:"@ + src
        } else {
            src
        }),
        occurs_at(s, "/thumb/"@, i),
        forall|j: int| 0 <= j < i ==> !occurs_at(s, "/thumb/"@, j),
        0 <= e,
        i + 7 + e == s.len() || occurs_at(s, "/thumb/"@, i + 7 + e),
        forall|j: int| i + 7 <= j < i + 7 + e ==> !occurs_at(s, "/thumb/"@, j),
        0 <= k < e,
        s[i + 7 + k] == '/',
        forall|j: int| i + 7 + k < j < i + 7 + e ==> s[j] != '/',
    ensures
        spec_full_image_url(src) == s.subrange(0, i) + "/"@ + s.subrange(i + 7, i + 7 + k),
{
    reveal_strlit("//");
    reveal_strlit("/thumb/");
    reveal_strlit("/");
    let m = THUMB_MARKER@;
    assert(m == "/thumb/"@);
    assert(m.len() == 7);
    assert(spec_with_scheme(src) == s) by {
        if src.len() >= 2 && src[0] == '/' && src[1] == '/' {
            assert(src.subrange(0, 2) =~= "//"@);
        } else if spec_starts_with(src, "//"@) {
            assert(src.subrange(0, 2)[0] == src[0]);
            assert(src.subrange(0, 2)[1] == src[1]);
        }
    }
    lemma_find_from(s, m, 0);
    assert(spec_find_from(s, m, 0) == Some(i));
    let rest = s.subrange(i + 7, s.len() as int);
    assert forall|j: int| 0 <= j < e implies !occurs_at(rest, m, j) by {
        lemma_occurs_after(s, m, i + 7, j);
    }
    lemma_find_from(rest, m, 0);
    let tail = rest.subrange(0, e);
    if i + 7 + e == s.len() {
        if spec_find_from(rest, m, 0) is Some {
            let j = spec_find_from(rest, m, 0)->0;
            assert(occurs_at(rest, m, j));
        }
        assert(spec_find_from(rest, m, 0) is None);
        assert(tail =~= rest);
    } else {
        lemma_occurs_after(s, m, i + 7, e);
        assert(spec_find_from(rest, m, 0) == Some(e));
    }
    lemma_last_index_of(tail, '/');
    assert(tail[k] == '/');
    assert forall|j: int| k < j < tail.len() implies tail[j] != '/' by {
        assert(tail[j] == s[i + 7 + j]);
    }
    assert(spec_last_index_of(tail, '/') == Some(k));
    assert(tail.subrange(0, k) =~= s.subrange(i + 7, i + 7 + k));
}

/// An address with no thumbnail part is only made absolute (`//...`
/// becomes `https://...`): so where it holds no `/thumb/`, or where the
/// text after the first `/thumb/` up to the next one (or the end) holds no
/// `/`.
pub proof fn lemma_full_image_url_kept(src: Seq<char>, s: Seq<char>, i: int, e: int)
    requires
        s == (if src.len() >= 2 && src[0] == '/' && src[1] == '/' {
            "https:"@ + src
        } else {
            src
        }),
        (forall|j: int| 0 <= j ==> !occurs_at(s, "/thumb/"@, j)) || ({
            &&& occurs_at(s, "/thumb/"@, i)
            &&& forall|j: int| 0 <= j < i ==> !occurs_at(s, "/thumb/"@, j)
            &&& 0 <= e
            &&& (i + 7 + e == s.len() || occurs_at(s, "/thumb/"@, i + 7 + e))
            &&& forall|j: int| i + 7 <= j < i + 7 + e ==> !occurs_at(s, "/thumb/"@, j)
            &&& forall|j: int| i + 7 <= j < i + 7 + e ==> s[j] != '/'
        }),
    ensures
        spec_full_image_url(src) == s,
{
    reveal_strlit("//");
    reveal_strlit("/thumb/");
    let m = THUMB_MARKER@;
    assert(m == "/thumb/"@);
    assert(m.len() == 7);
    assert(spec_with_scheme(src) == s) by {
        if src.len() >= 2 && src[0] == '/' && src[1] == '/' {
            assert(src.subrange(0, 2) =~= "//"@);
        } else if spec_starts_with(src, "//"@) {
            assert(src.subrange(0, 2)[0] == src[0]);
            assert(src.subrange(0, 2)[1] == src[1]);
        }
    }
    lemma_find_from(s, m, 0);
    if spec_find_from(s, m, 0) is Some {
        let i0 = spec_find_from(s, m, 0)->0;
        assert(occurs_at(s, m, i0));
        assert(i0 == i);
        let rest = s.subrange(i + 7, s.len() as int);
        assert forall|j: int| 0 <= j < e implies !occurs_at(rest, m, j) by {
            lemma_occurs_after(s, m, i + 7, j);
        }
        lemma_find_from(rest, m, 0);
        let tail = rest.subrange(0, e);
        if i + 7 + e == s.len() {
            if spec_find_from(rest, m, 0) is Some {
                let j = spec_find_from(rest, m, 0)->0;
                assert(occurs_at(rest, m, j));
            }
            assert(tail =~= rest);
        } else {
            lemma_occurs_after(s, m, i + 7, e);
            assert(spec_find_from(rest, m, 0) == Some(e));
        }
        lemma_last_index_of(tail, '/');
        if spec_last_index_of(tail, '/') is Some {
            let k = spec_last_index_of(tail, '/')->0;
            assert(tail[k] == s[i + 7 + k]);
        }
    }
}

/// The sanitised form of an ASCII character: ASCII letters, digits, `-`
/// and `_` stay; every other ASCII character becomes `_`.
pub open spec fn spec_ascii_safe_char(c: char) -> char {
    if 'a' <= c <= 'z' || 'A' <= c <= 'Z' || '0' <= c <= '9' || c == '-' || c == '_' {
        c
    } else {
        '_'
    }
}

/// `safe` sanitises `title` as far as ASCII goes: it has the same length,
/// and each ASCII character of the title is sanitised as
/// [`spec_ascii_safe_char`] says.
pub open spec fn spec_ascii_sanitised(title: Seq<char>, safe: Seq<char>) -> bool {
    &&& safe.len() == title.len()
    &&& forall|k: int|
        0 <= k < title.len() && (#[trigger] title[k] as u32) < 128 ==> safe[k]
            == spec_ascii_safe_char(title[k])
}

/// A character that cannot take a file name out of its directory or add an
/// extension: not a slash, a backslash or a dot.
pub open spec fn spec_name_char(c: char) -> bool {
    c != '/' && c != '\\' && c != '.'
}

/// `name` is a plain file name: no slash or backslash, and exactly one dot.
pub open spec fn spec_plain_file_name(name: Seq<char>) -> bool {
    &&& forall|k: int| 0 <= k < name.len() ==> name[k] != '/' && name[k] != '\\'
    &&& exists|i: int|
        0 <= i < name.len() && name[i] == '.' && forall|k: int|
            0 <= k < name.len() && #[trigger] name[k] == '.' ==> k == i
}

/// `path` is `dir` followed by a plain file name: the file lies directly in
/// `dir`.
pub open spec fn spec_directly_inside(path: Seq<char>, dir: Seq<char>) -> bool {
    &&& dir.len() <= path.len()
    &&& path.subrange(0, dir.len() as int) == dir
    &&& spec_plain_file_name(path.subrange(dir.len() as int, path.len() as int))
}

/// Sanitising a title twice is sanitising it once.
pub proof fn lemma_safe_title_idempotent(title: Seq<char>)
    ensures
        spec_safe_title(spec_safe_title(title)) == spec_safe_title(title),
{
    assert(spec_safe_title(spec_safe_title(title)) =~= spec_safe_title(title));
}

/// Every character of a sanitised title is `_`, `-` or alphanumeric.
pub proof fn lemma_safe_title_chars(title: Seq<char>)
    ensures
        spec_safe_title(title).len() == title.len(),
        forall|k: int|
            0 <= k < title.len() ==> {
                let c = #[trigger] spec_safe_title(title)[k];
                c == '_' || c == '-' || spec_is_alphanumeric(c)
            },
{
}

impl Scraper {
    /// The title with every character other than a letter, a digit, `-` or
    /// `_` replaced by `_`.
    pub fn sanitize_title(title: &str) -> (res: String)
        ensures
            res@ == spec_safe_title(title@),
            forall|k: int| 0 <= k < res@.len() ==> spec_name_char(#[trigger] res@[k]),
            spec_ascii_sanitised(title@, res@),
    {
        let v = chars_of(title);
        let mut out: Vec<char> = Vec::new();
        let mut i: usize = 0;
        while i < v.len()
            invariant
                v@ == title@,
                i <= v@.len(),
                out@ == spec_safe_title(title@.subrange(0, i as int)),
                forall|k: int| 0 <= k < out@.len() ==> spec_name_char(#[trigger] out@[k]),
                out@.len() == i,
                forall|k: int|
                    0 <= k < i && (#[trigger] title@[k] as u32) < 128 ==> out@[k]
                        == spec_ascii_safe_char(title@[k]),
            decreases v.len() - i,
        {
            let c = v[i];
            let keep = char_is_alphanumeric(c) || c == '-' || c == '_';
            out.push(if keep { c } else { '_' });
            assert(out@ =~= spec_safe_title(title@.subrange(0, i + 1)));
            i = i + 1;
        }
        assert(title@.subrange(0, title@.len() as int) =~= title@);
        string_from_chars(&out)
    }

    /// The file extension for a cover address: `png` or `jpg`.
    pub fn image_extension(url: &str) -> (res: &'static str)
        ensures
            res@ == spec_image_extension(url@),
            spec_all_ascii(url@) ==> res@ == (if spec_ends_with(spec_ascii_lowercase(url@), ".png"@) {
                "png"@
            } else {
                "jpg"@
            }),
    {
        let lower = str_to_lowercase(url);
        let lv = chars_of(lower.as_str());
        let suffix = chars_of(".png");
        if ends_with(&lv, &suffix) {
            "png"
        } else {
            "jpg"
        }
    }

    /// Where the cover of a song is found from the page (first) and where it
    /// is stored on disk (second).
    pub fn cover_paths(title: &str, url: &str) -> (res: (String, String))
        ensures
            res.0@ == spec_cover_web_path(title@, url@),
            res.1@ == spec_cover_fs_path(title@, url@),
            spec_directly_inside(res.0@, "covers/"@),
            spec_directly_inside(res.1@, "dist/covers/"@),
            spec_ascii_sanitised(title@, spec_safe_title(title@)),
    {
        let safe = Self::sanitize_title(title);
        let ext = Self::image_extension(url);
        let mut web = "covers/".to_owned();
        web.append(safe.as_str());
        web.append(".");
        web.append(ext);
        let mut fs = "dist/".to_owned();
        fs.append(web.as_str());
        proof {
            reveal_strlit("covers/");
            reveal_strlit("dist/");
            reveal_strlit("dist/covers/");
            reveal_strlit(".");
            reveal_strlit("png");
            reveal_strlit("jpg");
            let d = "covers/"@;
            let sv = safe@;
            let name = sv + "."@ + ext@;
            assert(web@ =~= d + name);
            assert(web@.subrange(0, d.len() as int) =~= d);
            assert(web@.subrange(d.len() as int, web@.len() as int) =~= name);
            assert(ext@.len() == 3);
            assert forall|k: int| 0 <= k < 3 implies ext@[k] != '.' && ext@[k] != '/' && ext@[k]
                != '\\' by {}
            assert forall|k: int| 0 <= k < name.len() implies name[k] != '/' && name[k] != '\\' by {
                if k < sv.len() {
                    assert(name[k] == sv[k]);
                } else if k > sv.len() {
                    assert(name[k] == ext@[k - sv.len() - 1]);
                }
            }
            assert forall|k: int| 0 <= k < name.len() && #[trigger] name[k] == '.' implies k
                == sv.len() by {
                if k < sv.len() {
                    assert(name[k] == sv[k]);
                } else if k > sv.len() {
                    assert(name[k] == ext@[k - sv.len() - 1]);
                }
            }
            assert(name[sv.len() as int] == '.');
            let dd = "dist/covers/"@;
            assert(dd =~= "dist/"@ + d);
            assert(fs@ =~= dd + name);
            assert(fs@.subrange(0, dd.len() as int) =~= dd);
            assert(fs@.subrange(dd.len() as int, fs@.len() as int) =~= name);
        }
        (web, fs)
    }

    /// The address of the full-size picture for a picture address of the
    /// table (see [`spec_full_image_url`]).
    pub fn full_image_url(src: &str) -> (res: String)
        ensures
            res@ == spec_full_image_url(src@),
    {
        let sv = chars_of(src);
        let slashes = chars_of("//");
        let s: Vec<char> = if starts_with(&sv, &slashes) {
            let mut t = chars_of("https:");
            let ghost t0 = t@;
            let mut k: usize = 0;
            while k < sv.len()
                invariant
                    k <= sv@.len(),
                    t@ == t0 + sv@.subrange(0, k as int),
                decreases sv.len() - k,
            {
                t.push(sv[k]);
                assert(t@ =~= t0 + sv@.subrange(0, k + 1));
                k = k + 1;
            }
            assert(sv@.subrange(0, sv@.len() as int) =~= sv@);
            t
        } else {
            sv
        };
        assert(s@ == spec_with_scheme(src@));
        let m = chars_of(THUMB_MARKER);
        match find_from(&s, &m, 0) {
            None => string_from_chars(&s),
            Some(i) => {
                proof {
                    lemma_find_from(s@, m@, 0);
                    assert(occurs_at(s@, m@, i as int));
                    assert(i + m@.len() <= s@.len());
                }
                let len = s.len();
                let start = i + m.len();
                let mut rest: Vec<char> = Vec::new();
                let mut k: usize = start;
                while k < len
                    invariant
                        len == s@.len(),
                        start <= k <= s@.len(),
                        rest@ == s@.subrange(start as int, k as int),
                    decreases s.len() - k,
                {
                    rest.push(s[k]);
                    assert(rest@ =~= s@.subrange(start as int, k + 1));
                    k = k + 1;
                }
                let tail_end = match find_from(&rest, &m, 0) {
                    None => rest.len(),
                    Some(j) => {
                        proof {
                            lemma_find_from(rest@, m@, 0);
                        }
                        j
                    },
                };
                assert(rest@.subrange(0, rest@.len() as int) =~= rest@);
                let ghost tail = rest@.subrange(0, tail_end as int);
                match last_index_of(&rest, tail_end, '/') {
                    None => string_from_chars(&s),
                    Some(k2) => {
                        proof {
                            lemma_last_index_of(tail, '/');
                        }
                        let mut out = string_from_range(&s, 0, i);
                        out.append("/");
                        let t = string_from_range(&rest, 0, k2);
                        out.append(t.as_str());
                        proof {
                            assert(tail.subrange(0, k2 as int) =~= rest@.subrange(0, k2 as int));
                        }
                        out
                    },
                }
            },
        }
    }

    /// Where a song's cover is fetched from and stored, or `None` where the
    /// table gives no picture address.
    pub fn cover_download(title: &str, img_url: &str) -> (res: Option<CoverDownload>)
        ensures
            match res {
                Some(d) => img_url@.len() > 0 && d.url@ == img_url@ && d.web_path@
                    == spec_cover_web_path(title@, img_url@) && d.fs_path@ == spec_cover_fs_path(
                    title@,
                    img_url@,
                ) && spec_directly_inside(d.web_path@, "covers/"@) && spec_directly_inside(
                    d.fs_path@,
                    "dist/covers/"@,
                ) && spec_ascii_sanitised(title@, spec_safe_title(title@)),
                None => img_url@.len() == 0,
            },
    {
        if img_url.is_empty() {
            None
        } else {
            let (web_path, fs_path) = Self::cover_paths(title, img_url);
            Some(CoverDownload { url: img_url.to_owned(), web_path, fs_path })
        }
    }
}

/// A cover picture to fetch: from `url`, into `fs_path`; the page then
/// finds it at `web_path`.
#[derive(Debug)]
pub struct CoverDownload {
    pub url: String,
    pub web_path: String,
    pub fs_path: String,
}

} // verus!

verus! {

// ---------------------------------------------------------------------------
// Versions
// ---------------------------------------------------------------------------

/// Version `v` is `t` or later, comparing the numbers from left to right.
pub open spec fn spec_version_at_least(v: (u32, u32, u32), t: (u32, u32, u32)) -> bool {
    v.0 > t.0 || (v.0 == t.0 && (v.1 > t.1 || (v.1 == t.1 && v.2 >= t.2)))
}

/// Reads one `.`-separated part of a version.
pub open spec fn spec_part_reader() -> spec_fn(Seq<char>) -> Option<u32> {
    |p: Seq<char>| spec_parse_u32(p)
}

/// The numbers of a version text: those of its `.`-separated parts that
/// read as a `u32`, in order.
pub open spec fn spec_version_numbers(m: Seq<char>) -> Seq<u32> {
    spec_split(m, '.').filter_map(spec_part_reader())
}

/// A version text names a new version: it has at least three numbers and
/// the first three are [`NEW_VERSION_THRESHOLD`] or later.
pub open spec fn spec_version_is_new(m: Seq<char>) -> bool {
    let n = spec_version_numbers(m);
    n.len() >= 3 && spec_version_at_least((n[0], n[1], n[2]), NEW_VERSION_THRESHOLD)
}

/// Whether a row is of a new song: the first cell from `i` on whose text
/// holds a version decides; a row without a version is not new.
pub open spec fn spec_row_is_new_from(cells: Seq<WikiCellView>, i: int) -> bool
    decreases cells.len() - i,
{
    if i < 0 || i >= cells.len() {
        false
    } else {
        match spec_regex_find(VERSION_PATTERN@, cells[i].text) {
            Some(m) => spec_version_is_new(m),
            None => spec_row_is_new_from(cells, i + 1),
        }
    }
}

/// The digits of a number hold no `.`.
proof fn lemma_decimal_free_of_dot(n: nat)
    ensures
        forall|k: int| 0 <= k < spec_decimal(n).len() ==> spec_decimal(n)[k] != '.',
{
    lemma_decimal_digits(n);
}

/// A version written `a.b.c` in decimal digits is new exactly when it is
/// 3.9.0 or later: its first number is above 3, or it is 3 and the second
/// number is at least 9 (the third number is never below 0).
pub proof fn lemma_version_is_new_numbers(a: u32, b: u32, c: u32)
    ensures
        spec_version_is_new(
            spec_decimal(a as nat) + "."@ + spec_decimal(b as nat) + "."@ + spec_decimal(c as nat),
        ) == (a > 3 || (a == 3 && b >= 9)),
{
    reveal_strlit(".");
    let da = spec_decimal(a as nat);
    let db = spec_decimal(b as nat);
    let dc = spec_decimal(c as nat);
    lemma_decimal_free_of_dot(a as nat);
    lemma_decimal_free_of_dot(b as nat);
    lemma_decimal_free_of_dot(c as nat);
    let e = Seq::<char>::empty();
    lemma_split_append_free(e, da, '.');
    assert(e + da =~= da);
    assert(spec_split(da, '.') =~= seq![da]);
    let x1 = da + "."@;
    assert(x1 =~= da.push('.'));
    lemma_split_push_separator(da, '.');
    lemma_split_append_free(x1, db, '.');
    let x2 = x1 + db;
    assert(spec_split(x2, '.') =~= seq![da, db]);
    let x3 = x2 + "."@;
    assert(x3 =~= x2.push('.'));
    lemma_split_push_separator(x2, '.');
    lemma_split_append_free(x3, dc, '.');
    let m = x3 + dc;
    let pieces = spec_split(m, '.');
    assert(pieces =~= seq![da, db, dc]);
    lemma_parse_decimal(a);
    lemma_parse_decimal(b);
    lemma_parse_decimal(c);
    let f = spec_part_reader();
    assert(f(da) == Some(a));
    assert(f(db) == Some(b));
    assert(f(dc) == Some(c));
    assert(pieces.drop_last() =~= seq![da, db]);
    assert(pieces.drop_last().drop_last() =~= seq![da]);
    assert(pieces.drop_last().drop_last().drop_last() =~= Seq::<Seq<char>>::empty());
    reveal_with_fuel(Seq::filter_map, 4);
    assert(spec_version_numbers(m) =~= seq![a, b, c]);
}

/// From cell `j` on, the first cell that holds a version decides.
proof fn lemma_row_is_new_from_first(cells: Seq<WikiCellView>, j: int, k: int)
    requires
        0 <= j <= k < cells.len(),
        forall|l: int| j <= l < k ==> spec_regex_find(VERSION_PATTERN@, #[trigger] cells[l].text) is None,
        spec_regex_find(VERSION_PATTERN@, cells[k].text) is Some,
    ensures
        spec_row_is_new_from(cells, j) == spec_version_is_new(
            spec_regex_find(VERSION_PATTERN@, cells[k].text)->0,
        ),
    decreases k - j,
{
    if j < k {
        assert(spec_regex_find(VERSION_PATTERN@, cells[j].text) is None);
        lemma_row_is_new_from_first(cells, j + 1, k);
    }
}

/// From cell `j` on, a row whose cells hold no version is not new.
proof fn lemma_row_is_new_from_none(cells: Seq<WikiCellView>, j: int)
    requires
        0 <= j,
        forall|l: int| j <= l < cells.len() ==> spec_regex_find(VERSION_PATTERN@, #[trigger] cells[l].text) is None,
    ensures
        !spec_row_is_new_from(cells, j),
    decreases cells.len() - j,
{
    if j < cells.len() {
        assert(spec_regex_find(VERSION_PATTERN@, cells[j].text) is None);
        lemma_row_is_new_from_none(cells, j + 1);
    }
}

/// Any cell of a row may give the version, wherever it stands: where no
/// cell before cell `k` holds a version and cell `k` does, the song is new
/// exactly when that version is new.
pub proof fn lemma_row_is_new_first_version(cells: Seq<WikiCellView>, k: int)
    requires
        0 <= k < cells.len(),
        forall|j: int| 0 <= j < k ==> spec_regex_find(VERSION_PATTERN@, #[trigger] cells[j].text) is None,
        spec_regex_find(VERSION_PATTERN@, cells[k].text) is Some,
    ensures
        spec_row_is_new_from(cells, 0) == spec_version_is_new(
            spec_regex_find(VERSION_PATTERN@, cells[k].text)->0,
        ),
{
    lemma_row_is_new_from_first(cells, 0, k);
}

/// A row none of whose cells holds a version is not of a new song.
pub proof fn lemma_row_without_version(cells: Seq<WikiCellView>)
    requires
        forall|j: int| 0 <= j < cells.len() ==> spec_regex_find(VERSION_PATTERN@, #[trigger] cells[j].text) is None,
    ensures
        !spec_row_is_new_from(cells, 0),
{
    lemma_row_is_new_from_none(cells, 0);
}

impl Scraper {
    /// The numbers of a version text (see [`spec_version_numbers`]).
    pub fn version_numbers(m: &str) -> (res: Vec<u32>)
        ensures
            res@ == spec_version_numbers(m@),
    {
        let mv = chars_of(m);
        let pieces = split_char(&mv, '.');
        let ghost pv = pieces_view(pieces@);
        let mut res: Vec<u32> = Vec::new();
        let mut i: usize = 0;
        while i < pieces.len()
            invariant
                pv == pieces_view(pieces@),
                pv == spec_split(m@, '.'),
                i <= pieces@.len(),
                res@ == pv.take(i as int).filter_map(spec_part_reader()),
            decreases pieces.len() - i,
        {
            proof {
                pv.lemma_filter_map_take_succ(spec_part_reader(), i as int);
            }
            match parse_u32(pieces[i].as_slice()) {
                Some(n) => {
                    res.push(n);
                },
                None => {},
            }
            i = i + 1;
        }
        assert(pv.take(pv.len() as int) =~= pv);
        res
    }

    /// Whether a version text names a new version (see
    /// [`spec_version_is_new`]).
    pub fn version_is_new(m: &str) -> (res: bool)
        ensures
            res == spec_version_is_new(m@),
    {
        let n = Self::version_numbers(m);
        if n.len() < 3 {
            return false;
        }
        let (a, b, c) = NEW_VERSION_THRESHOLD;
        n[0] > a || (n[0] == a && (n[1] > b || (n[1] == b && n[2] >= c)))
    }

    /// Whether a table row is of a new song (see [`spec_row_is_new_from`]).
    pub fn row_is_new(cells: &[WikiCell]) -> (res: bool)
        ensures
            res == spec_row_is_new_from(cells_view(cells@), 0),
    {
        let ghost cv = cells_view(cells@);
        let mut i: usize = 0;
        while i < cells.len()
            invariant
                cv == cells_view(cells@),
                i <= cells@.len(),
                spec_row_is_new_from(cv, 0) == spec_row_is_new_from(cv, i as int),
            decreases cells.len() - i,
        {
            match regex_find(VERSION_PATTERN, cells[i].text.as_str()) {
                Some(m) => {
                    return Self::version_is_new(m.as_str());
                },
                None => {},
            }
            i = i + 1;
        }
        false
    }
}

// ---------------------------------------------------------------------------
// Table rows
// ---------------------------------------------------------------------------

/// A song as one row of the wiki table describes it.
#[derive(Debug)]
pub struct WikiEntry {
    pub title: String,
    pub artist: String,
    pub is_new: bool,
    /// Address of the full-size cover picture; empty where there is none.
    pub img_url: String,
}

/// The mathematical value of a [`WikiEntry`].
pub struct WikiEntryView {
    pub title: Seq<char>,
    pub artist: Seq<char>,
    pub is_new: bool,
    pub img_url: Seq<char>,
}

impl View for WikiEntry {
    type V = WikiEntryView;

    open spec fn view(&self) -> WikiEntryView {
        WikiEntryView {
            title: self.title@,
            artist: self.artist@,
            is_new: self.is_new,
            img_url: self.img_url@,
        }
    }
}

/// The values of a sequence of entries.
pub open spec fn entries_view(v: Seq<WikiEntry>) -> Seq<WikiEntryView> {
    v.map_values(|e: WikiEntry| e@)
}

/// The song that a table row describes: a row of three cells or more whose
/// second cell, trimmed, is not empty. The title is that trimmed text, the
/// artist the trimmed text of the third cell, the cover the full-size
/// address of the first picture in the first cell.
pub open spec fn spec_parse_row(cells: Seq<WikiCellView>) -> Option<WikiEntryView> {
    if cells.len() < 3 {
        None
    } else {
        let title = spec_trim(cells[1].text);
        if title.len() == 0 {
            None
        } else {
            Some(
                WikiEntryView {
                    title,
                    artist: spec_trim(cells[2].text),
                    is_new: spec_row_is_new_from(cells, 0),
                    img_url: match cells[0].img_src {
                        Some(src) => spec_full_image_url(src),
                        None => Seq::<char>::empty(),
                    },
                },
            )
        }
    }
}

/// Reads one row of the table.
pub open spec fn spec_row_reader() -> spec_fn(Seq<WikiCellView>) -> Option<WikiEntryView> {
    |cells: Seq<WikiCellView>| spec_parse_row(cells)
}

/// The songs that the wiki page describes, in table order.
pub open spec fn spec_wiki_entries(html: Seq<char>) -> Seq<WikiEntryView> {
    match spec_select_table(html, ROW_SELECTOR@, CELL_SELECTOR@, IMG_SELECTOR@) {
        Some(rows) => rows.filter_map(spec_row_reader()),
        None => Seq::<WikiEntryView>::empty(),
    }
}

/// The cover path that the cache keeps for an entry: where the page finds
/// the downloaded picture, or the default cover where there was no address
/// or the download failed.
pub open spec fn spec_local_cover(e: WikiEntryView, downloaded: bool) -> Seq<char> {
    if e.img_url.len() > 0 && downloaded {
        spec_cover_web_path(e.title, e.img_url)
    } else {
        DEFAULT_COVER@
    }
}

/// Every song read from the wiki has a title that is not empty and neither
/// starts nor ends with whitespace.
pub proof fn lemma_wiki_titles_trimmed(html: Seq<char>)
    ensures
        forall|k: int|
            0 <= k < spec_wiki_entries(html).len() ==> {
                let t = #[trigger] spec_wiki_entries(html)[k].title;
                &&& t.len() > 0
                &&& !spec_is_whitespace(t[0])
                &&& !spec_is_whitespace(t.last())
            },
{
    match spec_select_table(html, ROW_SELECTOR@, CELL_SELECTOR@, IMG_SELECTOR@) {
        Some(rows) => {
            assert forall|k: int| 0 <= k < spec_wiki_entries(html).len() implies {
                let t = #[trigger] spec_wiki_entries(html)[k].title;
                &&& t.len() > 0
                &&& !spec_is_whitespace(t[0])
                &&& !spec_is_whitespace(t.last())
            } by {
                let e = spec_wiki_entries(html)[k];
                assert(rows.filter_map(spec_row_reader()).contains(e));
                rows.lemma_filter_map_contains(spec_row_reader(), e);
                let cells = choose|cells: Seq<WikiCellView>|
                    #[trigger] rows.contains(cells) && spec_row_reader()(cells) == Some(e);
                lemma_trim_idempotent(cells[1].text);
            }
        },
        None => {},
    }
}

impl Scraper {
    /// The song that a table row describes (see [`spec_parse_row`]).
    pub fn parse_row(cells: &[WikiCell]) -> (res: Option<WikiEntry>)
        ensures
            match res {
                Some(e) => spec_parse_row(cells_view(cells@)) == Some(e@),
                None => spec_parse_row(cells_view(cells@)) is None,
            },
    {
        if cells.len() < 3 {
            return None;
        }
        let title = trim(cells[1].text.as_str());
        if title.as_str().is_empty() {
            return None;
        }
        let artist = trim(cells[2].text.as_str());
        let is_new = Self::row_is_new(cells);
        let img_url = match &cells[0].img_src {
            Some(src) => Self::full_image_url(src.as_str()),
            None => String::new(),
        };
        let e = WikiEntry { title, artist, is_new, img_url };
        Some(e)
    }

    /// The songs that a wiki page describes, in table order (see
    /// [`spec_wiki_entries`]).
    pub fn parse_wiki_page(html: &str) -> (res: Vec<WikiEntry>)
        ensures
            entries_view(res@) == spec_wiki_entries(html@),
    {
        let mut res: Vec<WikiEntry> = Vec::new();
        match select_table(html, ROW_SELECTOR, CELL_SELECTOR, IMG_SELECTOR) {
            None => {
                assert(entries_view(res@) =~= Seq::<WikiEntryView>::empty());
                res
            },
            Some(rows) => {
                let ghost tv = table_view(rows@);
                let mut i: usize = 0;
                while i < rows.len()
                    invariant
                        tv == table_view(rows@),
                        i <= rows@.len(),
                        entries_view(res@) == tv.take(i as int).filter_map(spec_row_reader()),
                    decreases rows.len() - i,
                {
                    proof {
                        tv.lemma_filter_map_take_succ(spec_row_reader(), i as int);
                    }
                    match Self::parse_row(rows[i].as_slice()) {
                        Some(e) => {
                            let ghost before = entries_view(res@);
                            res.push(e);
                            assert(entries_view(res@) =~= before + seq![e@]);
                        },
                        None => {},
                    }
                    i = i + 1;
                }
                assert(tv.take(tv.len() as int) =~= tv);
                res
            },
        }
    }

    /// Where a song's cover is fetched from and stored, or `None` where the
    /// entry has no picture address.
    pub fn cover_download_of(entry: &WikiEntry) -> (res: Option<CoverDownload>)
        ensures
            match res {
                Some(d) => entry.img_url@.len() > 0 && d.url@ == entry.img_url@ && d.web_path@
                    == spec_cover_web_path(entry.title@, entry.img_url@) && d.fs_path@
                    == spec_cover_fs_path(entry.title@, entry.img_url@) && spec_directly_inside(
                    d.web_path@,
                    "covers/"@,
                ) && spec_directly_inside(d.fs_path@, "dist/covers/"@) && spec_ascii_sanitised(
                    entry.title@,
                    spec_safe_title(entry.title@),
                ),
                None => entry.img_url@.len() == 0,
            },
    {
        Self::cover_download(entry.title.as_str(), entry.img_url.as_str())
    }

    /// Puts a song of the wiki into the cache, with the cover path that
    /// follows from whether its picture was downloaded (or already stored).
    /// The cover path names a file directly inside `covers/`.
    pub fn add_entry(cache: &mut WikiCache, entry: &WikiEntry, downloaded: bool)
        ensures
            final(cache)@ == old(cache)@.insert(
                entry.title@,
                spec_entry_meta(entry@, downloaded),
            ),
            spec_directly_inside(spec_local_cover(entry@, downloaded), "covers/"@),
            entry.img_url@.len() > 0 ==> spec_ascii_sanitised(
                entry.title@,
                spec_safe_title(entry.title@),
            ),
    {
        let local_cover_path = match Self::cover_download_of(entry) {
            Some(d) => {
                if downloaded {
                    d.web_path
                } else {
                    DEFAULT_COVER.to_owned()
                }
            },
            None => DEFAULT_COVER.to_owned(),
        };
        proof {
            lemma_default_cover_inside();
        }
        cache.insert(
            entry.title.clone(),
            CachedMeta { artist: entry.artist.clone(), local_cover_path, is_new: entry.is_new },
        );
    }

    /// The cache of the songs of the wiki, each with whether its picture was
    /// downloaded (see [`spec_cache_of`]): one entry per title, the last
    /// song of a title winning, every cover path directly inside `covers/`.
    pub fn build_cache(items: &Vec<(WikiEntry, bool)>) -> (res: WikiCache)
        ensures
            res@ == spec_cache_of(items_view(items@)),
            forall|t: Seq<char>|
                #[trigger] res@.contains_key(t) ==> spec_directly_inside(
                    res@[t].local_cover_path,
                    "covers/"@,
                ),
            forall|i: int|
                0 <= i < items@.len() && items@[i].0.img_url@.len() > 0 ==> spec_ascii_sanitised(
                    #[trigger] items@[i].0.title@,
                    spec_safe_title(items@[i].0.title@),
                ),
    {
        let ghost iv = items_view(items@);
        let mut cache = WikiCache::new();
        let mut i: usize = 0;
        while i < items.len()
            invariant
                iv == items_view(items@),
                i <= iv.len(),
                cache@ == spec_cache_of(iv.take(i as int)),
                forall|t: Seq<char>|
                    #[trigger] cache@.contains_key(t) ==> spec_directly_inside(
                        cache@[t].local_cover_path,
                        "covers/"@,
                    ),
                forall|j: int|
                    0 <= j < i && items@[j].0.img_url@.len() > 0 ==> spec_ascii_sanitised(
                        #[trigger] items@[j].0.title@,
                        spec_safe_title(items@[j].0.title@),
                    ),
            decreases items.len() - i,
        {
            let (entry, downloaded) = &items[i];
            Self::add_entry(&mut cache, entry, *downloaded);
            proof {
                let t = iv.take(i + 1);
                assert(t.drop_last() =~= iv.take(i as int));
                assert(t.last() == iv[i as int]);
            }
            i = i + 1;
        }
        assert(iv.take(iv.len() as int) =~= iv);
        cache
    }
}

/// The cover path `covers/default.jpg` names a file directly inside `covers/`.
proof fn lemma_default_cover_inside()
    ensures
        spec_directly_inside(DEFAULT_COVER@, "covers/"@),
{
    reveal_strlit("covers/default.jpg");
    reveal_strlit("covers/");
    let p = DEFAULT_COVER@;
    let d = "covers/"@;
    let name = p.subrange(d.len() as int, p.len() as int);
    assert(p.subrange(0, d.len() as int) =~= d);
    assert(name[7] == '.');
    assert forall|k: int| 0 <= k < name.len() && #[trigger] name[k] == '.' implies k == 7 by {
        assert(name[k] == p[k + 7]);
    }
}

/// What the cache keeps of a song of the wiki, given whether its picture
/// was downloaded.
pub open spec fn spec_entry_meta(e: WikiEntryView, downloaded: bool) -> CachedMetaView {
    CachedMetaView { artist: e.artist, local_cover_path: spec_local_cover(e, downloaded), is_new: e.is_new }
}

/// The values of songs paired with their download results.
pub open spec fn items_view(v: Seq<(WikiEntry, bool)>) -> Seq<(WikiEntryView, bool)> {
    v.map_values(|p: (WikiEntry, bool)| (p.0@, p.1))
}

/// The cache that the songs give, taken in order: each song sets the entry
/// of its title, so a later song of a title wins over an earlier one.
pub open spec fn spec_cache_of(items: Seq<(WikiEntryView, bool)>) -> Map<Seq<char>, CachedMetaView>
    decreases items.len(),
{
    if items.len() == 0 {
        Map::empty()
    } else {
        spec_cache_of(items.drop_last()).insert(
            items.last().0.title,
            spec_entry_meta(items.last().0, items.last().1),
        )
    }
}

/// The cache holds exactly the titles of the songs, and for each title what
/// the last song of that title gives.
pub proof fn lemma_cache_of(items: Seq<(WikiEntryView, bool)>)
    ensures
        forall|t: Seq<char>|
            spec_cache_of(items).contains_key(t) <==> exists|i: int|
                0 <= i < items.len() && #[trigger] items[i].0.title == t,
        forall|i: int|
            0 <= i < items.len() && (forall|j: int|
                i < j < items.len() ==> items[j].0.title != #[trigger] items[i].0.title)
                ==> spec_cache_of(items)[items[i].0.title] == spec_entry_meta(items[i].0, items[i].1),
    decreases items.len(),
{
    if items.len() > 0 {
        let p = items.drop_last();
        lemma_cache_of(p);
        let last = items.last();
        assert(spec_cache_of(items) == spec_cache_of(p).insert(
            last.0.title,
            spec_entry_meta(last.0, last.1),
        ));
        assert forall|t: Seq<char>|
            spec_cache_of(items).contains_key(t) implies exists|i: int|
            0 <= i < items.len() && #[trigger] items[i].0.title == t by {
            if t != last.0.title {
                assert(spec_cache_of(p).contains_key(t));
                let i = choose|i: int| 0 <= i < p.len() && #[trigger] p[i].0.title == t;
                assert(items[i].0.title == t);
            } else {
                assert(items[items.len() - 1].0.title == t);
            }
        }
        assert forall|t: Seq<char>|
            (exists|i: int| 0 <= i < items.len() && #[trigger] items[i].0.title == t) implies spec_cache_of(
            items,
        ).contains_key(t) by {
            let i = choose|i: int| 0 <= i < items.len() && #[trigger] items[i].0.title == t;
            if i < items.len() - 1 {
                assert(p[i].0.title == t);
            }
        }
        assert forall|i: int|
            0 <= i < items.len() && (forall|j: int|
                i < j < items.len() ==> items[j].0.title != #[trigger] items[i].0.title) implies spec_cache_of(
            items,
        )[items[i].0.title] == spec_entry_meta(items[i].0, items[i].1) by {
            if i < items.len() - 1 {
                assert(p[i] == items[i]);
                assert(items[items.len() - 1].0.title != items[i].0.title);
                assert forall|j: int| i < j < p.len() implies p[j].0.title != #[trigger] p[i].0.title by {
                    assert(p[j] == items[j]);
                }
            }
        }
    }
}

} // verus!
