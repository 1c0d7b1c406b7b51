//! The rating formula and the choice of the best records.

use vstd::prelude::*;
use vstd::arithmetic::div_mod::{
    lemma_div_is_ordered, lemma_fundamental_div_mod, lemma_fundamental_div_mod_converse,
};
use vstd::arithmetic::mul::lemma_mul_inequality;
use crate::models::{
    records_view, rows_view, spec_difficulty_from, B50Project, CachedMetaView, CsvRow, CsvRowView,
    Difficulty, ScoreRecord, ScoreRecordView, SongMetadata, SongMetadataView, WikiCache,
};
use crate::scraper::DEFAULT_COVER;

verus! {

/// Computes ratings and the best-records project.
pub struct Calculator;

/// The rating of a play, in hundredths, for a chart level given in
/// millionths and a score out of 1,010,000.
///
/// With `level = level_micro / 1,000,000`, the rating is `level * 10` plus a
/// bonus that rises with slope 1/1500 per point between 1,000,000 and
/// 1,009,000 (reaching 6 there) and with slope 1/250 per point above
/// 1,009,000; below 1,000,000 the rating is `level * 10 * score / 1,000,000`.
/// The value is rounded down to hundredths.
pub open spec fn spec_rating_centi(level_micro: int, score: int) -> int {
    if score >= 1_009_000 {
        (level_micro + 600_000 + 400 * (score - 1_009_000)) / 1000
    } else if score >= 1_000_000 {
        (15 * level_micro + 1000 * (score - 1_000_000)) / 15_000
    } else {
        level_micro * score / 1_000_000_000
    }
}

/// The accuracy of a score in hundredths of a percent: `score / 10000`
/// percent, rounded to two decimals with halves rounded up.
pub open spec fn spec_acc_centi(score: int) -> int {
    (score + 50) / 100
}

/// Scaling the numerator and the denominator by the same positive factor
/// keeps the rounded-down quotient.
proof fn lemma_div_scaled(a: int, k: int, d: int)
    requires
        k > 0,
        d > 0,
    ensures
        (k * a) / (k * d) == a / d,
{
    let q = a / d;
    let r = a % d;
    lemma_fundamental_div_mod(a, d);
    assert(k * a == q * (k * d) + k * r && 0 <= k * r < k * d) by (nonlinear_arith)
        requires
            a == d * q + r,
            0 <= r < d,
            k > 0,
    ;
    lemma_fundamental_div_mod_converse(k * a, k * d, q, k * r);
}

/// Below 1,000,000 points the rating never exceeds the rating at 1,000,000,
/// which is `level * 10`.
proof fn lemma_rating_below_threshold(level_micro: int, s: int)
    requires
        0 <= level_micro,
        0 <= s < 1_000_000,
    ensures
        spec_rating_centi(level_micro, s) <= level_micro / 1000,
        level_micro / 1000 == (15 * level_micro) / 15_000,
{
    lemma_mul_inequality(s, 1_000_000, level_micro);
    lemma_div_is_ordered(level_micro * s, level_micro * 1_000_000, 1_000_000_000);
    lemma_div_scaled(level_micro, 1_000_000, 1000);
    assert(level_micro * 1_000_000 == 1_000_000 * level_micro);
    lemma_div_scaled(level_micro, 15, 1000);
}

/// On a chart of non-negative level, a higher score never gives a lower
/// rating: the three pieces of the formula join without a drop.
pub proof fn lemma_rating_monotone_in_score(level_micro: int, s1: int, s2: int)
    requires
        0 <= level_micro,
        0 <= s1 <= s2,
    ensures
        spec_rating_centi(level_micro, s1) <= spec_rating_centi(level_micro, s2),
{
    let l = level_micro;
    if s2 >= 1_009_000 {
        if s1 >= 1_009_000 {
            lemma_div_is_ordered(
                l + 600_000 + 400 * (s1 - 1_009_000),
                l + 600_000 + 400 * (s2 - 1_009_000),
                1000,
            );
        } else if s1 >= 1_000_000 {
            lemma_div_is_ordered(15 * l + 1000 * (s1 - 1_000_000), 15 * (l + 600_000), 15_000);
            lemma_div_scaled(l + 600_000, 15, 1000);
            lemma_div_is_ordered(l + 600_000, l + 600_000 + 400 * (s2 - 1_009_000), 1000);
        } else {
            lemma_rating_below_threshold(l, s1);
            lemma_div_is_ordered(l, l + 600_000 + 400 * (s2 - 1_009_000), 1000);
        }
    } else if s2 >= 1_000_000 {
        if s1 >= 1_000_000 {
            lemma_div_is_ordered(
                15 * l + 1000 * (s1 - 1_000_000),
                15 * l + 1000 * (s2 - 1_000_000),
                15_000,
            );
        } else {
            lemma_rating_below_threshold(l, s1);
            lemma_div_is_ordered(15 * l, 15 * l + 1000 * (s2 - 1_000_000), 15_000);
        }
    } else {
        lemma_mul_inequality(s1, s2, l);
        lemma_div_is_ordered(l * s1, l * s2, 1_000_000_000);
    }
}

/// For a given score, a chart of higher level never gives a lower rating.
pub proof fn lemma_rating_monotone_in_level(l1: int, l2: int, score: int)
    requires
        l1 <= l2,
        0 <= score,
    ensures
        spec_rating_centi(l1, score) <= spec_rating_centi(l2, score),
{
    if score >= 1_009_000 {
        lemma_div_is_ordered(
            l1 + 600_000 + 400 * (score - 1_009_000),
            l2 + 600_000 + 400 * (score - 1_009_000),
            1000,
        );
    } else if score >= 1_000_000 {
        lemma_div_is_ordered(
            15 * l1 + 1000 * (score - 1_000_000),
            15 * l2 + 1000 * (score - 1_000_000),
            15_000,
        );
    } else {
        lemma_mul_inequality(l1, l2, score);
        lemma_div_is_ordered(l1 * score, l2 * score, 1_000_000_000);
    }
}

/// Rounds `p / d` down, for a positive `d`.
fn floor_div(p: i128, d: i128) -> (res: i128)
    requires
        d > 0,
        p > i128::MIN,
    ensures
        res == p / d,
{
    if p >= 0 {
        p / d
    } else {
        let q = (-p - 1) / d + 1;
        proof {
            let pp = p as int;
            let dd = d as int;
            let m: int = -pp;
            assert(pp / dd == -((m - 1) / dd + 1)) by (nonlinear_arith)
                requires
                    m == -pp,
                    m > 0,
                    dd > 0,
            {
                let q2: int = (m - 1) / dd;
                let r2: int = (m - 1) % dd;
                assert(m - 1 == q2 * dd + r2);
                assert(0 <= r2 < dd);
                assert(pp == (-(q2 + 1)) * dd + (dd - 1 - r2));
                assert(0 <= dd - 1 - r2 < dd);
            }
        }
        -q
    }
}

impl Calculator {
    /// The rating, in hundredths, of a score on a chart whose level is given
    /// in millionths (see [`spec_rating_centi`]).
    pub fn calculate_rating(level_micro: i64, score: u32) -> (res: i64)
        ensures
            res == spec_rating_centi(level_micro as int, score as int),
    {
        let l = level_micro as i128;
        let s = score as i128;
        let r = if score >= 1_009_000 {
            floor_div(l + 600_000 + 400 * (s - 1_009_000), 1000)
        } else if score >= 1_000_000 {
            floor_div(15 * l + 1000 * (s - 1_000_000), 15_000)
        } else {
            assert(i64::MIN * 1_000_000 <= l * s <= i64::MAX * 1_000_000) by (nonlinear_arith)
                requires
                    i64::MIN <= l <= i64::MAX,
                    0 <= s < 1_000_000,
            ;
            floor_div(l * s, 1_000_000_000)
        };
        proof {
            let li = level_micro as int;
            let si = score as int;
            if score >= 1_009_000 {
                lemma_div_is_ordered(i64::MIN as int + 600_000, li + 600_000 + 400 * (si - 1_009_000), 1000);
                lemma_div_is_ordered(li + 600_000 + 400 * (si - 1_009_000), i64::MAX as int + 2_000_000_000_000, 1000);
            } else if score >= 1_000_000 {
                lemma_div_is_ordered(15 * (i64::MIN as int), 15 * li + 1000 * (si - 1_000_000), 15_000);
                lemma_div_is_ordered(15 * li + 1000 * (si - 1_000_000), 15 * (i64::MAX as int) + 9_000_000, 15_000);
            } else {
                lemma_div_is_ordered(i64::MIN * 1_000_000, li * si, 1_000_000_000);
                lemma_div_is_ordered(li * si, i64::MAX * 1_000_000, 1_000_000_000);
            }
        }
        r as i64
    }

    /// The accuracy of a score in hundredths of a percent (see [`spec_acc_centi`]).
    pub fn calculate_acc(score: u32) -> (res: u32)
        ensures
            res == spec_acc_centi(score as int),
    {
        ((score as u64 + 50) / 100) as u32
    }
}

} // verus!

verus! {

/// The name shown for the player.
pub const PLAYER_NAME: &'static str = "Player";

/// The artist shown for a song that the wiki cache does not hold.
pub const UNKNOWN_ARTIST: &'static str = "Unknown Artist";

/// How many records the best-records list keeps.
pub const BEST_COUNT: usize = 50;

/// How long each slide is shown, in seconds.
pub const DISPLAY_DURATION_SEC: u64 = 5;

/// The record that a row of the score export gives, with what the wiki
/// cache knows of its song; `None` for a row without a score.
pub open spec fn spec_build_record(
    row: CsvRowView,
    cache: Map<Seq<char>, CachedMetaView>,
) -> Option<ScoreRecordView> {
    match row.score {
        None => None,
        Some(score) => {
            let known = cache.contains_key(row.title);
            Some(
                ScoreRecordView {
                    song_metadata: SongMetadataView {
                        song_id: row.song_level_id,
                        title: row.title,
                        artist: if known {
                            cache[row.title].artist
                        } else {
                            UNKNOWN_ARTIST@
                        },
                        cover_url: if known {
                            cache[row.title].local_cover_path
                        } else {
                            DEFAULT_COVER@
                        },
                        bilibili_av: None,
                        is_new: known && cache[row.title].is_new,
                    },
                    difficulty: spec_difficulty_from(row.difficulty),
                    level_micro: row.level_micro,
                    score: score as int,
                    acc_centi: spec_acc_centi(score as int),
                    rating_centi: spec_rating_centi(row.level_micro, score as int),
                    comment: None,
                    display_duration_sec: DISPLAY_DURATION_SEC as int,
                },
            )
        },
    }
}

/// Builds the record of one row.
pub open spec fn spec_record_builder(cache: Map<Seq<char>, CachedMetaView>) -> spec_fn(
    CsvRowView,
) -> Option<ScoreRecordView> {
    |row: CsvRowView| spec_build_record(row, cache)
}

/// The records of all rows that have a score, in row order.
pub open spec fn spec_built_records(
    rows: Seq<CsvRowView>,
    cache: Map<Seq<char>, CachedMetaView>,
) -> Seq<ScoreRecordView> {
    rows.filter_map(spec_record_builder(cache))
}

/// The records are ordered from the highest rating to the lowest.
pub open spec fn sorted_by_rating_desc(s: Seq<ScoreRecordView>) -> bool {
    forall|i: int, j: int| 0 <= i < j < s.len() ==> s[i].rating_centi >= s[j].rating_centi
}

/// Selects the records of rating `r`.
pub open spec fn has_rating(r: int) -> spec_fn(ScoreRecordView) -> bool {
    |x: ScoreRecordView| x.rating_centi == r
}

/// `out` is `input` sorted from the highest rating to the lowest, records
/// of equal rating kept in their input order.
pub open spec fn is_stable_rating_sort(out: Seq<ScoreRecordView>, input: Seq<ScoreRecordView>) -> bool {
    &&& out.len() == input.len()
    &&& sorted_by_rating_desc(out)
    &&& forall|r: int| #[trigger] out.filter(has_rating(r)) == input.filter(has_rating(r))
}

/// `out` is the best-records list of `input`: the first [`BEST_COUNT`]
/// records (or all, where there are fewer) of `input` sorted from the
/// highest rating to the lowest, ties in input order.
pub open spec fn is_best_records(out: Seq<ScoreRecordView>, input: Seq<ScoreRecordView>) -> bool {
    exists|full: Seq<ScoreRecordView>|
        #[trigger] is_stable_rating_sort(full, input) && out == full.take(
            if input.len() < BEST_COUNT {
                input.len() as int
            } else {
                BEST_COUNT as int
            },
        )
}

/// Two sequences sorted from the highest rating to the lowest that hold the
/// same records of each rating in the same order are the same sequence.
proof fn lemma_sorted_by_filters_unique(a: Seq<ScoreRecordView>, b: Seq<ScoreRecordView>)
    requires
        sorted_by_rating_desc(a),
        sorted_by_rating_desc(b),
        forall|r: int| #[trigger] a.filter(has_rating(r)) == b.filter(has_rating(r)),
    ensures
        a == b,
    decreases a.len(),
{
    if a.len() == 0 {
        if b.len() > 0 {
            let r = b[0].rating_centi;
            b.lemma_filter_contains(has_rating(r), 0);
            assert(a.filter(has_rating(r)) == b.filter(has_rating(r)));
            assert(a.filter(has_rating(r)).len() == 0);
        }
    } else if b.len() == 0 {
        let r = a[0].rating_centi;
        a.lemma_filter_contains(has_rating(r), 0);
        assert(a.filter(has_rating(r)) == b.filter(has_rating(r)));
        assert(b.filter(has_rating(r)).len() == 0);
    } else {
        let ra = a[0].rating_centi;
        let rb = b[0].rating_centi;
        if ra != rb {
            if ra > rb {
                a.lemma_filter_contains(has_rating(ra), 0);
                assert(b.filter(has_rating(ra)) == a.filter(has_rating(ra)));
                let x = a[0];
                assert(b.filter(has_rating(ra)).contains(x));
                b.lemma_filter_contains_rev(has_rating(ra), x);
                let j = choose|j: int| 0 <= j < b.len() && b[j] == x;
                assert(b[0].rating_centi >= b[j].rating_centi);
            } else {
                b.lemma_filter_contains(has_rating(rb), 0);
                assert(a.filter(has_rating(rb)) == b.filter(has_rating(rb)));
                let x = b[0];
                assert(a.filter(has_rating(rb)).contains(x));
                a.lemma_filter_contains_rev(has_rating(rb), x);
                let j = choose|j: int| 0 <= j < a.len() && a[j] == x;
                assert(a[0].rating_centi >= a[j].rating_centi);
            }
        }
        let a2 = a.drop_first();
        let b2 = b.drop_first();
        assert(a =~= seq![a[0]] + a2);
        assert(b =~= seq![b[0]] + b2);
        a2.lemma_filter_prepend(a[0], has_rating(ra));
        b2.lemma_filter_prepend(b[0], has_rating(ra));
        assert(a.filter(has_rating(ra)) == b.filter(has_rating(ra)));
        assert((seq![a[0]] + a2.filter(has_rating(ra)))[0] == a[0]);
        assert((seq![b[0]] + b2.filter(has_rating(ra)))[0] == b[0]);
        let x = a[0];
        assert(x == b[0]);
        assert forall|r: int| #[trigger] a2.filter(has_rating(r)) == b2.filter(has_rating(r)) by {
            a2.lemma_filter_prepend(x, has_rating(r));
            b2.lemma_filter_prepend(x, has_rating(r));
            assert(a.filter(has_rating(r)) == b.filter(has_rating(r)));
            let pre = if has_rating(r)(x) {
                seq![x]
            } else {
                Seq::<ScoreRecordView>::empty()
            };
            assert((pre + a2.filter(has_rating(r))).skip(pre.len() as int) =~= a2.filter(
                has_rating(r),
            ));
            assert((pre + b2.filter(has_rating(r))).skip(pre.len() as int) =~= b2.filter(
                has_rating(r),
            ));
        }
        assert(sorted_by_rating_desc(a2)) by {
            assert forall|i: int, j: int| 0 <= i < j < a2.len() implies a2[i].rating_centi
                >= a2[j].rating_centi by {
                assert(a2[i] == a[i + 1] && a2[j] == a[j + 1]);
            }
        }
        assert(sorted_by_rating_desc(b2)) by {
            assert forall|i: int, j: int| 0 <= i < j < b2.len() implies b2[i].rating_centi
                >= b2[j].rating_centi by {
                assert(b2[i] == b[i + 1] && b2[j] == b[j + 1]);
            }
        }
        lemma_sorted_by_filters_unique(a2, b2);
    }
}

/// The best-records list of an input is one sequence: any two lists that
/// meet [`is_best_records`] for the same input are equal, so the contracts
/// that state it fix the result.
pub proof fn lemma_best_records_unique(
    out1: Seq<ScoreRecordView>,
    out2: Seq<ScoreRecordView>,
    input: Seq<ScoreRecordView>,
)
    requires
        is_best_records(out1, input),
        is_best_records(out2, input),
    ensures
        out1 == out2,
{
    let n = if input.len() < BEST_COUNT {
        input.len() as int
    } else {
        BEST_COUNT as int
    };
    let f1 = choose|full: Seq<ScoreRecordView>|
        #[trigger] is_stable_rating_sort(full, input) && out1 == full.take(n);
    let f2 = choose|full: Seq<ScoreRecordView>|
        #[trigger] is_stable_rating_sort(full, input) && out2 == full.take(n);
    assert forall|r: int| #[trigger] f1.filter(has_rating(r)) == f2.filter(has_rating(r)) by {
        assert(f1.filter(has_rating(r)) == input.filter(has_rating(r)));
        assert(f2.filter(has_rating(r)) == input.filter(has_rating(r)));
    }
    lemma_sorted_by_filters_unique(f1, f2);
}

/// What the best-records list promises, for every rating `r`: its records
/// of rating `r` are the first records of rating `r` of the input, in input
/// order; and where it leaves out some record of rating `r`, every record it
/// keeps has rating `r` or more.
pub proof fn lemma_best_records_keep_the_best(
    out: Seq<ScoreRecordView>,
    input: Seq<ScoreRecordView>,
    r: int,
)
    requires
        is_best_records(out, input),
    ensures
        out.filter(has_rating(r)) == input.filter(has_rating(r)).take(
            out.filter(has_rating(r)).len() as int,
        ),
        out.filter(has_rating(r)).len() < input.filter(has_rating(r)).len() ==> forall|k: int|
            0 <= k < out.len() ==> #[trigger] out[k].rating_centi >= r,
{
    let full = choose|full: Seq<ScoreRecordView>|
        #[trigger] is_stable_rating_sort(full, input) && out == full.take(
            if input.len() < BEST_COUNT {
                input.len() as int
            } else {
                BEST_COUNT as int
            },
        );
    let f = has_rating(r);
    let n = out.len() as int;
    assert(full.filter(f) == input.filter(f));
    full.lemma_filter_len(f);
    let a = full.take(n);
    let b = full.skip(n);
    assert(full =~= a + b);
    Seq::filter_distributes_over_add(a, b, f);
    assert(a =~= out);
    assert(out.filter(f) =~= (out.filter(f) + b.filter(f)).take(out.filter(f).len() as int));
    if out.filter(f).len() < input.filter(f).len() {
        assert forall|k: int| 0 <= k < out.len() implies #[trigger] out[k].rating_centi >= r by {
            if out[k].rating_centi < r {
                assert forall|j: int| 0 <= j < b.len() implies !f(b[j]) by {
                    assert(b[j] == full[n + j]);
                    assert(full[k] == out[k]);
                    assert(full[n + j].rating_centi <= full[k].rating_centi);
                }
                b.lemma_all_neg_filter_empty(f);
                assert(b.filter(f) =~= Seq::<ScoreRecordView>::empty());
                assert(out.filter(f) + b.filter(f) =~= out.filter(f));
            }
        }
    }
}

/// Inserting `x` at a position before which every rating is higher than
/// that of `x` puts it first among the records of its rating.
proof fn lemma_filter_insert(s: Seq<ScoreRecordView>, p: int, x: ScoreRecordView, r: int)
    requires
        0 <= p <= s.len(),
        forall|k: int| 0 <= k < p ==> s[k].rating_centi > x.rating_centi,
    ensures
        s.insert(p, x).filter(has_rating(r)) == if x.rating_centi == r {
            seq![x] + s.filter(has_rating(r))
        } else {
            s.filter(has_rating(r))
        },
{
    let f = has_rating(r);
    let a = s.take(p);
    let b = s.skip(p);
    assert(s.insert(p, x) =~= a + (seq![x] + b));
    assert(s =~= a + b);
    Seq::filter_distributes_over_add(a, seq![x] + b, f);
    Seq::filter_distributes_over_add(a, b, f);
    b.lemma_filter_prepend(x, f);
    if x.rating_centi == r {
        assert forall|k: int| 0 <= k < a.len() implies !f(a[k]) by {}
        a.lemma_all_neg_filter_empty(f);
        assert(a.filter(f) =~= Seq::<ScoreRecordView>::empty());
    }
}

/// Prepending a record to the input adds it first among its rating.
proof fn lemma_filter_prepend_rating(s: Seq<ScoreRecordView>, x: ScoreRecordView, r: int)
    ensures
        (seq![x] + s).filter(has_rating(r)) == if x.rating_centi == r {
            seq![x] + s.filter(has_rating(r))
        } else {
            s.filter(has_rating(r))
        },
{
    s.lemma_filter_prepend(x, has_rating(r));
    if x.rating_centi != r {
        assert(Seq::<ScoreRecordView>::empty() + s.filter(has_rating(r)) =~= s.filter(has_rating(r)));
    }
}

impl Calculator {
    /// The record of a row of the score export (see [`spec_build_record`]).
    pub fn build_record(row: &CsvRow, cache: &WikiCache) -> (res: Option<ScoreRecord>)
        ensures
            match res {
                Some(r) => spec_build_record(row@, cache@) == Some(r@),
                None => spec_build_record(row@, cache@) is None,
            },
    {
        let score = match row.score {
            Some(s) => s,
            None => {
                return None;
            },
        };
        let acc_centi = Self::calculate_acc(score);
        let rating_centi = Self::calculate_rating(row.level_micro, score);
        let difficulty = Difficulty::from_str(row.difficulty.as_str());
        let (artist, cover_url, is_new) = match cache.get(row.title.as_str()) {
            Some(meta) => (meta.artist.clone(), meta.local_cover_path.clone(), meta.is_new),
            None => (UNKNOWN_ARTIST.to_owned(), DEFAULT_COVER.to_owned(), false),
        };
        let song_level_id = row.song_level_id.clone();
        let title = row.title.clone();
        let level_micro = row.level_micro;
        Some(
            ScoreRecord {
                song_metadata: SongMetadata {
                    song_id: song_level_id,
                    title,
                    artist,
                    cover_url,
                    bilibili_av: None,
                    is_new,
                },
                difficulty,
                level_micro,
                score,
                acc_centi,
                rating_centi,
                comment: None,
                display_duration_sec: DISPLAY_DURATION_SEC,
            },
        )
    }

    /// The records sorted from the highest rating to the lowest, records of
    /// equal rating in their input order.
    pub fn sort_by_rating(records: Vec<ScoreRecord>) -> (res: Vec<ScoreRecord>)
        ensures
            is_stable_rating_sort(records_view(res@), records_view(records@)),
            res@.len() == records@.len(),
    {
        let ghost input = records_view(records@);
        let mut rest = records;
        let mut res: Vec<ScoreRecord> = Vec::new();
        assert(input.skip(input.len() as int) =~= Seq::<ScoreRecordView>::empty());
        assert(records_view(res@) =~= Seq::<ScoreRecordView>::empty());
        assert(input.take(input.len() as int) =~= input);
        while rest.len() > 0
            invariant
                rest@.len() <= input.len(),
                rest@.len() + res@.len() == input.len(),
                records_view(res@).len() == res@.len(),
                records_view(rest@) == input.take(rest@.len() as int),
                is_stable_rating_sort(records_view(res@), input.skip(rest@.len() as int)),
            decreases rest@.len(),
        {
            let ghost n = rest@.len() as int;
            let ghost old_rest = rest@;
            let x = rest.pop().unwrap();
            let mut p: usize = 0;
            while p < res.len() && res[p].rating_centi > x.rating_centi
                invariant
                    p <= res@.len(),
                    forall|k: int| 0 <= k < p ==> res@[k].rating_centi > x.rating_centi,
                decreases res.len() - p,
            {
                p = p + 1;
            }
            let ghost before = records_view(res@);
            let ghost xv = x@;
            assert(xv == input[n - 1]) by {
                assert(old_rest[n - 1] == x);
                assert(records_view(old_rest)[n - 1] == input.take(n)[n - 1]);
            }
            assert(records_view(rest@) =~= input.take(n - 1)) by {
                assert forall|k: int| 0 <= k < n - 1 implies records_view(rest@)[k] == input[k] by {
                    assert(rest@[k] == old_rest[k]);
                    assert(records_view(old_rest)[k] == input.take(n)[k]);
                }
            }
            res.insert(p, x);
            proof {
                assert(records_view(res@) =~= before.insert(p as int, xv));
                assert(input.skip(n - 1) =~= seq![xv] + input.skip(n));
                assert forall|r: int| #[trigger] records_view(res@).filter(has_rating(r))
                    == input.skip(n - 1).filter(has_rating(r)) by {
                    lemma_filter_insert(before, p as int, xv, r);
                    lemma_filter_prepend_rating(input.skip(n), xv, r);
                }
                assert forall|i: int, j: int|
                    0 <= i < j < records_view(res@).len() implies records_view(res@)[i].rating_centi
                    >= records_view(res@)[j].rating_centi by {
                    let v = records_view(res@);
                    if j < p {
                    } else if i < p && j == p {
                    } else if i < p {
                        assert(v[j] == before[j - 1]);
                        if (p as int) < before.len() {
                            assert(before[p as int].rating_centi <= xv.rating_centi);
                        }
                    } else if i == p {
                        assert(v[j] == before[j - 1]);
                        assert(before[p as int].rating_centi <= xv.rating_centi);
                    } else {
                        assert(v[j] == before[j - 1]);
                        assert(v[i] == before[i - 1]);
                    }
                }
            }
        }
        assert(input.skip(0) =~= input);
        res
    }

    /// The best-records list: the records sorted from the highest rating to
    /// the lowest (ties in input order), cut to the first [`BEST_COUNT`].
    pub fn select_best(records: Vec<ScoreRecord>) -> (res: Vec<ScoreRecord>)
        ensures
            is_best_records(records_view(res@), records_view(records@)),
            sorted_by_rating_desc(records_view(res@)),
            res@.len() == if records@.len() < BEST_COUNT {
                records@.len()
            } else {
                BEST_COUNT as nat
            },
    {
        let ghost input = records_view(records@);
        let mut sorted = Self::sort_by_rating(records);
        let ghost full = records_view(sorted@);
        sorted.truncate(BEST_COUNT);
        proof {
            let n = if input.len() < BEST_COUNT {
                input.len() as int
            } else {
                BEST_COUNT as int
            };
            assert(records_view(sorted@) =~= full.take(n));
            assert(is_stable_rating_sort(full, input));
        }
        sorted
    }

    /// The best-records page of the rows of a score export: the records of
    /// the rows that have a score, with what the wiki cache knows of their
    /// songs, cut to the best ones; made on the day `generated_at`.
    pub fn calculate_project(rows: &Vec<CsvRow>, cache: &WikiCache, generated_at: String) -> (res:
        B50Project)
        ensures
            res.player_name@ == PLAYER_NAME@,
            res.generated_at@ == generated_at@,
            is_best_records(records_view(res.records@), spec_built_records(rows_view(rows@), cache@)),
            res.records@.len() == if spec_built_records(rows_view(rows@), cache@).len() < BEST_COUNT {
                spec_built_records(rows_view(rows@), cache@).len()
            } else {
                BEST_COUNT as nat
            },
    {
        let ghost rv = rows_view(rows@);
        let ghost f = spec_record_builder(cache@);
        let mut records: Vec<ScoreRecord> = Vec::new();
        let mut i: usize = 0;
        while i < rows.len()
            invariant
                rv == rows_view(rows@),
                f == spec_record_builder(cache@),
                i <= rows@.len(),
                records_view(records@) == rv.take(i as int).filter_map(f),
            decreases rows.len() - i,
        {
            proof {
                rv.lemma_filter_map_take_succ(f, i as int);
            }
            match Self::build_record(&rows[i], cache) {
                Some(r) => {
                    let ghost before = records_view(records@);
                    records.push(r);
                    assert(records_view(records@) =~= before + seq![r@]);
                },
                None => {},
            }
            i = i + 1;
        }
        assert(rv.take(rv.len() as int) =~= rv);
        let best = Self::select_best(records);
        B50Project { player_name: PLAYER_NAME.to_owned(), generated_at, records: best }
    }
}

} // verus!
