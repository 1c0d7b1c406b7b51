//! The names and page scripts of the slide capture: one picture per record,
//! taken after the page has shown that record.

use vstd::prelude::*;
use vstd::string::*;
use crate::text::{decimal, lemma_decimal_digits, spec_all_digits, spec_decimal, spec_digits_value};

verus! {

/// Names the slide pictures and the scripts that show each slide.
pub struct SlideCapture;

/// The script that tells how many records the page holds.
pub const RECORD_COUNT_SCRIPT: &'static str = "(function(){ return (typeof records !== 'undefined' && Array.isArray(records)) ? records.length : 0; })()";

/// The script that tells whether the cover of the shown slide has loaded.
pub const COVER_LOADED_SCRIPT: &'static str = "(function(){ const img = document.getElementById('detail-cover'); return !img || img.complete; })()";

/// The script that shows a slide, up to its number.
pub const SHOW_SCRIPT_START: &'static str = "(function(){ if(typeof render === 'function') { try { render(";

/// The script that shows a slide, between the two places of its number.
pub const SHOW_SCRIPT_MIDDLE: &'static str = "); } catch(e){} } else { var el = document.getElementById('item-";

/// The script that shows a slide, after its number.
pub const SHOW_SCRIPT_END: &'static str = "'); if(el) el.scrollIntoView({behavior:'auto', block:'center'}); } return true; })();";

/// The file name of the picture of slide `i`.
pub open spec fn spec_slide_file_name(i: nat) -> Seq<char> {
    "slide_"@ + spec_decimal(i) + ".png"@
}

/// The picture name of slide `i` is `slide_`, then the number `i` written in
/// decimal digits (read back, the digits give `i` again), then `.png`.
pub proof fn lemma_slide_file_name_digits(i: nat)
    ensures
        ({
            let name = spec_slide_file_name(i);
            let digits = name.subrange(6, name.len() - 4);
            &&& name.len() >= 11
            &&& name.subrange(0, 6) == "slide_"@
            &&& name.subrange(name.len() - 4, name.len() as int) == ".png"@
            &&& spec_all_digits(digits)
            &&& spec_digits_value(digits) == i
        }),
{
    reveal_strlit("slide_");
    reveal_strlit(".png");
    lemma_decimal_digits(i);
    let d = spec_decimal(i);
    let name = spec_slide_file_name(i);
    assert(name.subrange(6, name.len() - 4) =~= d);
    assert(name.subrange(0, 6) =~= "slide_"@);
    assert(name.subrange(name.len() - 4, name.len() as int) =~= ".png"@);
}

/// Two different slides never share a picture name, so no picture
/// overwrites another.
pub proof fn lemma_slide_file_name_injective(i: nat, j: nat)
    requires
        spec_slide_file_name(i) == spec_slide_file_name(j),
    ensures
        i == j,
{
    lemma_slide_file_name_digits(i);
    lemma_slide_file_name_digits(j);
}

/// The script that shows slide `i`: it renders the slide where the page
/// offers `render`, else scrolls its list item into view.
pub open spec fn spec_show_slide_script(i: nat) -> Seq<char> {
    SHOW_SCRIPT_START@ + spec_decimal(i) + SHOW_SCRIPT_MIDDLE@ + spec_decimal(i) + SHOW_SCRIPT_END@
}

impl SlideCapture {
    /// The file name of the picture of slide `i` (see [`spec_slide_file_name`]).
    pub fn slide_file_name(i: u64) -> (res: String)
        ensures
            res@ == spec_slide_file_name(i as nat),
    {
        let mut s = "slide_".to_owned();
        let d = decimal(i);
        s.append(d.as_str());
        s.append(".png");
        s
    }

    /// The script that shows slide `i` (see [`spec_show_slide_script`]).
    pub fn show_slide_script(i: u64) -> (res: String)
        ensures
            res@ == spec_show_slide_script(i as nat),
    {
        let d = decimal(i);
        let mut s = SHOW_SCRIPT_START.to_owned();
        s.append(d.as_str());
        s.append(SHOW_SCRIPT_MIDDLE);
        s.append(d.as_str());
        s.append(SHOW_SCRIPT_END);
        s
    }
}

} // verus!
