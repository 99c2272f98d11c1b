//! What the installer asks of the `console` crate that is not I/O: styled
//! text and measured text width, and the cursor arithmetic built on them.

use vstd::prelude::*;

verus! {

/// An ANSI select-graphic-rendition sequence: ESC, `[`, the code, `m`.
pub open spec fn sgr(code: Seq<char>) -> Seq<char> {
    seq!['\x1b', '['] + code + seq!['m']
}

/// The sequence that resets all attributes.
pub open spec fn sgr_reset() -> Seq<char> {
    sgr(seq!['0'])
}

/// `text` with a foreground colour code set before it and a reset after it.
pub open spec fn painted(code: Seq<char>, text: Seq<char>) -> Seq<char> {
    sgr(code) + text + sgr_reset()
}

/// `text` in black on a white background, as console writes it.
pub open spec fn highlighted(text: Seq<char>) -> Seq<char> {
    sgr(seq!['3', '0']) + sgr(seq!['4', '7']) + text + sgr_reset()
}

/// What `console::measure_text_width` gives for a text: its width in
/// terminal columns, escape sequences left out.
pub uninterp spec fn measured_width(text: Seq<char>) -> usize;

/// `console::colors_enabled`: whether console writes colours to stdout.
/// It reflects the terminal and the environment (`CLICOLOR`,
/// `CLICOLOR_FORCE`) or a setting made earlier in the process, so nothing
/// is claimed of it.
#[verifier::external_body]
pub(crate) fn colours_enabled() -> bool
{
    console::colors_enabled()
}

/// `text` as console writes it with `style` applied and styling forced on
/// or off by `colours`.
pub open spec fn styled(colours: bool, styled_text: Seq<char>, text: Seq<char>) -> Seq<char> {
    if colours { styled_text } else { text }
}

/// `console::Style::new().on_white().black().force_styling(colours)
/// .apply_to(text).to_string()`: with styling forced on, console writes the
/// foreground code (30), then the background code (47), the text and a
/// reset; with it forced off, the bare text.
#[verifier::external_body]
pub(crate) fn paint_black_on_white(text: &str, colours: bool) -> (r: String)
    ensures
        r@ == styled(colours, highlighted(text@), text@),
{
    console::Style::new().on_white().black().force_styling(colours).apply_to(text).to_string()
}

/// `console::Style::new().yellow().force_styling(colours).apply_to(text)
/// .to_string()`: the text in colour 33 and a reset when styling is forced
/// on, the bare text when it is forced off.
#[verifier::external_body]
pub(crate) fn paint_yellow(text: &str, colours: bool) -> (r: String)
    ensures
        r@ == styled(colours, painted(seq!['3', '3'], text@), text@),
{
    console::Style::new().yellow().force_styling(colours).apply_to(text).to_string()
}

/// `console::Style::new().green().force_styling(colours).apply_to(text)
/// .to_string()`: the text in colour 32 and a reset when styling is forced
/// on, the bare text when it is forced off.
#[verifier::external_body]
pub(crate) fn paint_green(text: &str, colours: bool) -> (r: String)
    ensures
        r@ == styled(colours, painted(seq!['3', '2'], text@), text@),
{
    console::Style::new().green().force_styling(colours).apply_to(text).to_string()
}

/// `console::Style::new().red().force_styling(colours).apply_to(text)
/// .to_string()`: the text in colour 31 and a reset when styling is forced
/// on, the bare text when it is forced off.
#[verifier::external_body]
pub(crate) fn paint_red(text: &str, colours: bool) -> (r: String)
    ensures
        r@ == styled(colours, painted(seq!['3', '1'], text@), text@),
{
    console::Style::new().red().force_styling(colours).apply_to(text).to_string()
}

/// `console::measure_text_width`; its result is named by `measured_width`.
#[verifier::external_body]
fn measure_text_width(text: &str) -> (w: usize)
    ensures
        w == measured_width(text@),
{
    console::measure_text_width(text)
}

/// The width of `text` in terminal columns as console measures it.
pub fn text_width(text: &str) -> (w: usize)
    ensures
        w == measured_width(text@),
{
    measure_text_width(text)
}

/// How many rows the cursor goes back up after a line of `width_used`
/// columns was written on a terminal `term_width` columns wide.
pub open spec fn rewind_rows(width_used: nat, term_width: nat) -> nat {
    width_used / (term_width + 1) + 1
}

/// The rows to move the cursor up over a drawn line: the used width
/// divided by one more than the terminal width, plus one.
pub fn rows_to_rewind(width_used: usize, term_width: u16) -> (r: usize)
    requires
        width_used < usize::MAX || term_width > 0,
    ensures
        r == rewind_rows(width_used as nat, term_width as nat),
{
    let columns: usize = term_width as usize + 1;
    assert(width_used / columns <= width_used) by (nonlinear_arith)
        requires columns >= 1;
    assert(columns >= 2 ==> width_used / columns < usize::MAX) by (nonlinear_arith)
        requires columns >= 1;
    width_used / columns + 1
}

/// The rows that `text` covers on a terminal `term_width` columns wide,
/// measured by console; `None` only where that sum does not fit a `usize`.
pub fn rows_covered(text: &str, term_width: u16) -> (r: Option<usize>)
    ensures
        r == (if measured_width(text@) < usize::MAX || term_width > 0 {
            Some(rewind_rows(measured_width(text@) as nat, term_width as nat) as usize)
        } else {
            None
        }),
{
    let w = measure_text_width(text);
    if w < usize::MAX || term_width > 0 {
        Some(rows_to_rewind(w, term_width))
    } else {
        None
    }
}

} // verus!
