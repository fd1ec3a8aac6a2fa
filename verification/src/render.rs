//! One frame of the menu: clear the screen, home the cursor, the prompt
//! line, then one line per option with the selected label emphasized. The
//! frame is specified character by character, so a repaint is a pure
//! function of the prompt, the labels and the selected label.

use vstd::prelude::*;
use vstd::string::StringExecFns;
use vstd::slice::slice_index_get;

use crate::options::OptionItem;
use crate::options::labels_of;

verus! {

/// The clear-entire-screen escape sequence.
pub open spec fn esc_clear_all() -> Seq<char> {
    "\u{1b}[2J"@
}

/// The move-cursor-to-top-left escape sequence.
pub open spec fn esc_goto_origin() -> Seq<char> {
    "\u{1b}[1;1H"@
}

/// The hide-cursor escape sequence.
pub open spec fn esc_hide_cursor() -> Seq<char> {
    "\u{1b}[?25l"@
}

/// The foreground color that emphasizes the selected option.
pub open spec fn esc_fg_highlight() -> Seq<char> {
    "\u{1b}[38;5;10m"@
}

/// The reset-foreground-color escape sequence.
pub open spec fn esc_fg_reset() -> Seq<char> {
    "\u{1b}[39m"@
}

/// Relies on `termion::clear::All`'s `AsRef<str>` form: the clear-screen
/// escape sequence, a fixed string.
#[verifier::external_body]
fn clear_all_code() -> (r: &'static str)
    ensures
        r@ == esc_clear_all(),
{
    termion::clear::All.as_ref()
}

/// Relies on `termion::cursor::Goto`'s `String` form: the one-based
/// cursor-position escape sequence for the given column and row.
#[verifier::external_body]
fn goto_code(x: u16, y: u16) -> (r: String)
    requires
        x == 1,
        y == 1,
    ensures
        r@ == esc_goto_origin(),
{
    String::from(termion::cursor::Goto(x, y))
}

/// Relies on `termion::color::LightGreen::fg_str`: the high-intensity green
/// foreground escape sequence, a fixed string.
#[verifier::external_body]
fn highlight_code() -> (r: &'static str)
    ensures
        r@ == esc_fg_highlight(),
{
    termion::color::LightGreen.fg_str()
}

/// Relies on `termion::color::Reset::fg_str`: the reset-foreground escape
/// sequence, a fixed string.
#[verifier::external_body]
fn reset_code() -> (r: &'static str)
    ensures
        r@ == esc_fg_reset(),
{
    termion::color::Reset.fg_str()
}

/// One option's line: its color prefix (emphasis when its label is the
/// selected one, reset otherwise), the label, a raw-mode line ending, and a
/// color reset.
pub open spec fn option_line(label: Seq<char>, selected: Seq<char>) -> Seq<char> {
    (if label == selected {
        esc_fg_highlight()
    } else {
        esc_fg_reset()
    }) + label + "\r\n"@ + esc_fg_reset()
}

/// The option lines of a frame, in list order.
pub open spec fn option_lines(labels: Seq<Seq<char>>, selected: Seq<char>) -> Seq<char>
    decreases labels.len(),
{
    if labels.len() == 0 {
        Seq::empty()
    } else {
        option_lines(labels.drop_last(), selected) + option_line(labels.last(), selected)
    }
}

/// One full repaint: clear the screen, home the cursor, the prompt line,
/// the option lines, and a closing line ending.
pub open spec fn frame_of(question: Seq<char>, labels: Seq<Seq<char>>, selected: Seq<char>) -> Seq<
    char,
> {
    esc_clear_all() + esc_goto_origin() + question + "\r\n"@ + option_lines(labels, selected)
        + "\r\n"@
}

/// Render one frame. The result is exactly [`frame_of`] of the prompt, the
/// option labels and the selected label, so identical state yields an
/// identical frame.
pub fn render_frame<T>(question: &str, options: &[OptionItem<T>], selected: &String) -> (r: String)
    ensures
        r@ == frame_of(question@, labels_of(options@), selected@),
{
    let mut out: String = String::new();
    out.append(clear_all_code());
    out.append(goto_code(1, 1).as_str());
    out.append(question);
    out.append("\r\n");
    let ghost head: Seq<char> = esc_clear_all() + esc_goto_origin() + question@ + "\r\n"@;
    proof {
        assert(out@ =~= head);
    }
    let n: usize = options.len();
    let mut i: usize = 0;
    while i < n
        invariant
            i <= n,
            n == options@.len(),
            out@ == head + option_lines(labels_of(options@).take(i as int), selected@),
        decreases n - i,
    {
        let opt = slice_index_get(options, i);
        if opt.name == *selected {
            out.append(highlight_code());
        } else {
            out.append(reset_code());
        }
        out.append(opt.name.as_str());
        out.append("\r\n");
        out.append(reset_code());
        proof {
            let lbs = labels_of(options@);
            assert(lbs.take(i + 1).drop_last() =~= lbs.take(i as int));
            assert(lbs.take(i + 1).last() == lbs[i as int]);
            assert(lbs[i as int] == options@[i as int].name@);
            assert(out@ =~= head + option_lines(lbs.take(i + 1), selected@));
        }
        i = i + 1;
    }
    out.append("\r\n");
    proof {
        assert(labels_of(options@).take(n as int) =~= labels_of(options@));
        assert(out@ =~= frame_of(question@, labels_of(options@), selected@));
    }
    out
}

/// A repaint is a pure function of the prompt, the labels and the selected
/// label: identical state yields a character-identical frame.
pub proof fn lemma_render_deterministic(
    q1: Seq<char>,
    l1: Seq<Seq<char>>,
    s1: Seq<char>,
    q2: Seq<char>,
    l2: Seq<Seq<char>>,
    s2: Seq<char>,
)
    requires
        q1 == q2,
        l1 == l2,
        s1 == s2,
    ensures
        frame_of(q1, l1, s1) == frame_of(q2, l2, s2),
{
}

} // verus!
