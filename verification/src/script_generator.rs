//! The shell script that turns the captured slides into a video.

use vstd::prelude::*;
use vstd::string::*;
use crate::models::{records_view, B50Project, ScoreRecordView};
use crate::text::{decimal, lemma_decimal_digits, spec_all_digits, spec_decimal, spec_digits_value};

verus! {

/// Writes the video script.
pub struct ScriptGenerator;

/// The script up to the player name.
pub const SCRIPT_HEAD: &'static str = r#"
# Paradigm B50 Render Script
# Generated for "#;

/// The script from the player name to the slide list.
pub const SCRIPT_INTRO: &'static str = r#"
# Note: Since the UI is now a Single Page App, ensure you capture screenshots
# matching the timing or use a screen recorder.
echo "Creating input list..."
rm -f input.txt
"#;

/// The start of the line that lists a slide.
pub const SLIDE_LINE_START: &'static str = "echo \"file 'slide_";

/// The end of the line that lists a slide.
pub const SLIDE_LINE_END: &'static str = ".png'\" >> input.txt\n";

/// The start of the line that gives the duration of a slide.
pub const DURATION_LINE_START: &'static str = "echo \"duration ";

/// The end of the line that gives the duration of a slide.
pub const DURATION_LINE_END: &'static str = "\" >> input.txt\n";

/// The script after the slide list.
pub const SCRIPT_FOOTER: &'static str = r#"
echo "file 'slide_0.png'" >> input.txt
echo "Rendering video..."
ffmpeg -f concat -safe 0 -i input.txt -vsync vfr -pix_fmt yuv420p output_b50.mp4
echo "Done!"
"#;

/// The two lines that list slide `i`, shown for `duration` seconds.
pub open spec fn spec_slide_lines(i: nat, duration: nat) -> Seq<char> {
    SLIDE_LINE_START@ + spec_decimal(i) + SLIDE_LINE_END@ + DURATION_LINE_START@ + spec_decimal(
        duration,
    ) + DURATION_LINE_END@
}

/// The lines that list the slides of the records, in order.
pub open spec fn spec_slide_list(records: Seq<ScoreRecordView>) -> Seq<char>
    decreases records.len(),
{
    if records.len() == 0 {
        Seq::<char>::empty()
    } else {
        spec_slide_list(records.drop_last()) + spec_slide_lines(
            (records.len() - 1) as nat,
            records.last().display_duration_sec as nat,
        )
    }
}

/// The script for a player name and records.
pub open spec fn spec_script(player_name: Seq<char>, records: Seq<ScoreRecordView>) -> Seq<char> {
    SCRIPT_HEAD@ + player_name + SCRIPT_INTRO@ + spec_slide_list(records) + SCRIPT_FOOTER@
}

/// The script is its head, the player name, the introduction, the slide
/// lines of all the records and the footer; with no records there are no
/// slide lines.
pub proof fn lemma_script_shape(player_name: Seq<char>, records: Seq<ScoreRecordView>)
    ensures
        spec_script(player_name, records) == SCRIPT_HEAD@ + player_name + SCRIPT_INTRO@
            + spec_slide_list(records.take(records.len() as int)) + SCRIPT_FOOTER@,
        spec_slide_list(records.take(0)) == Seq::<char>::empty(),
{
    assert(records.take(records.len() as int) =~= records);
    assert(records.take(0) =~= Seq::<ScoreRecordView>::empty());
}

/// Record `i` is slide `i`: the slide lines of the first `i + 1` records
/// are those of the first `i`, then the line that lists the picture
/// `slide_<i>.png`, where `<i>` is written in decimal digits that read back
/// as `i`, then the line with the display duration of record `i`.
pub proof fn lemma_slide_list_entry(records: Seq<ScoreRecordView>, i: int)
    requires
        0 <= i < records.len(),
    ensures
        spec_slide_list(records.take(i + 1)) == spec_slide_list(records.take(i)) + SLIDE_LINE_START@
            + spec_decimal(i as nat) + SLIDE_LINE_END@ + DURATION_LINE_START@ + spec_decimal(
            records[i].display_duration_sec as nat,
        ) + DURATION_LINE_END@,
        spec_all_digits(spec_decimal(i as nat)),
        spec_digits_value(spec_decimal(i as nat)) == i,
{
    let t = records.take(i + 1);
    assert(t.drop_last() =~= records.take(i));
    assert(t.last() == records[i]);
    lemma_decimal_digits(i as nat);
}

impl ScriptGenerator {
    /// The video script of a project (see [`spec_script`]): one slide per
    /// record, each shown for the record's display duration.
    pub fn generate(project: &B50Project) -> (res: String)
        ensures
            res@ == spec_script(project.player_name@, records_view(project.records@)),
    {
        let ghost rv = records_view(project.records@);
        let mut script = SCRIPT_HEAD.to_owned();
        script.append(project.player_name.as_str());
        script.append(SCRIPT_INTRO);
        let ghost head = script@;
        let mut i: usize = 0;
        while i < project.records.len()
            invariant
                rv == records_view(project.records@),
                i <= rv.len(),
                script@ == head + spec_slide_list(rv.take(i as int)),
            decreases project.records.len() - i,
        {
            let index = decimal(i as u64);
            let duration = decimal(project.records[i].display_duration_sec);
            script.append(SLIDE_LINE_START);
            script.append(index.as_str());
            script.append(SLIDE_LINE_END);
            script.append(DURATION_LINE_START);
            script.append(duration.as_str());
            script.append(DURATION_LINE_END);
            proof {
                let t = rv.take(i + 1);
                assert(t.drop_last() =~= rv.take(i as int));
                assert(t.last() == rv[i as int]);
            }
            i = i + 1;
        }
        assert(rv.take(rv.len() as int) =~= rv);
        script.append(SCRIPT_FOOTER);
        script
    }
}

} // verus!
