//! The terminal device as the menu sees it: errors the interaction can end
//! with, and a scripted stand-in for the device that records every state
//! change, so that the session's guard behavior is checked for every exit
//! path.

use vstd::prelude::*;

verus! {

/// Why an interaction ended without a selection.
#[derive(Clone, Copy, Debug, PartialEq, Eq, Structural)]
pub enum MenuError {
    /// Raw mode could not be entered: no controlling terminal, or the
    /// platform call failed.
    TerminalUnavailable,
    /// The key-event stream ended before a confirming key was pressed.
    InputClosed,
    /// The caller supplied an empty option list.
    InvalidArgument,
    /// The output stream failed during a repaint.
    WriteFailure,
}

/// A scripted terminal device: it tracks raw mode and cursor visibility,
/// records everything written, and can be told to refuse raw mode or to fail
/// after a fixed number of writes, so that every exit path of the menu can be
/// driven and checked.
pub struct TermDouble {
    /// Whether entering raw mode succeeds on this device.
    pub raw_available: bool,
    /// Whether the device is currently in raw mode.
    pub raw_mode: bool,
    /// Whether the text cursor is currently hidden.
    pub cursor_hidden: bool,
    /// Everything written to the device, in order.
    pub out: String,
    /// How many more writes succeed; `None` means writes never fail.
    pub writes_left: Option<usize>,
}

impl TermDouble {
    /// The budget admits `n` more writes.
    pub open spec fn can_write(self, n: int) -> bool {
        match self.writes_left {
            None => true,
            Some(k) => n <= k,
        }
    }

    /// A working terminal: raw mode available, cursor visible, no write ever
    /// fails.
    pub fn new() -> (t: TermDouble)
        ensures
            t.raw_available,
            !t.raw_mode,
            !t.cursor_hidden,
            t.out@ == Seq::<char>::empty(),
            t.writes_left is None,
    {
        TermDouble {
            raw_available: true,
            raw_mode: false,
            cursor_hidden: false,
            out: String::new(),
            writes_left: None,
        }
    }

    /// A device without a controlling terminal: entering raw mode fails.
    pub fn unavailable() -> (t: TermDouble)
        ensures
            !t.raw_available,
            !t.raw_mode,
            !t.cursor_hidden,
            t.out@ == Seq::<char>::empty(),
            t.writes_left is None,
    {
        TermDouble {
            raw_available: false,
            raw_mode: false,
            cursor_hidden: false,
            out: String::new(),
            writes_left: None,
        }
    }

    /// A terminal whose output stream breaks after `n` successful writes.
    pub fn failing_after(n: usize) -> (t: TermDouble)
        ensures
            t.raw_available,
            !t.raw_mode,
            !t.cursor_hidden,
            t.out@ == Seq::<char>::empty(),
            t.writes_left == Some(n),
    {
        TermDouble {
            raw_available: true,
            raw_mode: false,
            cursor_hidden: false,
            out: String::new(),
            writes_left: Some(n),
        }
    }

    /// Switch the device into raw mode; fails exactly when the device has no
    /// raw mode to offer, and then changes nothing.
    pub fn enter_raw_mode(&mut self) -> (r: Result<(), MenuError>)
        requires
            !old(self).raw_mode,
        ensures
            r is Ok <==> old(self).raw_available,
            r is Err ==> r == Result::<(), MenuError>::Err(MenuError::TerminalUnavailable),
            final(self).raw_mode == old(self).raw_available,
            final(self).raw_available == old(self).raw_available,
            final(self).cursor_hidden == old(self).cursor_hidden,
            final(self).out == old(self).out,
            final(self).writes_left == old(self).writes_left,
    {
        if self.raw_available {
            self.raw_mode = true;
            Ok(())
        } else {
            Err(MenuError::TerminalUnavailable)
        }
    }

    /// The guard's unconditional exit step, at the lowest device level:
    /// leave raw mode and show the cursor again. It never fails and writes
    /// nothing to the output stream.
    pub fn restore(&mut self)
        ensures
            !final(self).raw_mode,
            !final(self).cursor_hidden,
            final(self).raw_available == old(self).raw_available,
            final(self).out == old(self).out,
            final(self).writes_left == old(self).writes_left,
    {
        self.raw_mode = false;
        self.cursor_hidden = false;
    }

    /// One write to the output stream: appends `s` and spends one unit of
    /// the write budget, or fails with `WriteFailure` leaving the device
    /// unchanged.
    pub fn write_str(&mut self, s: &str) -> (r: Result<(), MenuError>)
        ensures
            r is Ok <==> old(self).can_write(1),
            r is Err ==> r == Result::<(), MenuError>::Err(MenuError::WriteFailure),
            r is Ok ==> final(self).out@ == old(self).out@ + s@,
            r is Ok ==> final(self).writes_left == spec_budget_minus(old(self).writes_left, 1),
            r is Err ==> final(self).out == old(self).out && final(self).writes_left == old(
                self,
            ).writes_left,
            final(self).raw_available == old(self).raw_available,
            final(self).raw_mode == old(self).raw_mode,
            final(self).cursor_hidden == old(self).cursor_hidden,
    {
        match self.writes_left {
            None => {
                self.out.append(s);
                Ok(())
            },
            Some(k) => {
                if k >= 1 {
                    self.out.append(s);
                    self.writes_left = Some(k - 1);
                    Ok(())
                } else {
                    Err(MenuError::WriteFailure)
                }
            },
        }
    }

    /// One write that hides the cursor: appends the hide escape sequence and
    /// marks the cursor hidden, under the same budget as every other write.
    pub fn hide_cursor(&mut self) -> (r: Result<(), MenuError>)
        ensures
            r is Ok <==> old(self).can_write(1),
            r is Err ==> r == Result::<(), MenuError>::Err(MenuError::WriteFailure),
            r is Ok ==> final(self).out@ == old(self).out@ + crate::render::esc_hide_cursor(),
            r is Ok ==> final(self).writes_left == spec_budget_minus(old(self).writes_left, 1),
            r is Ok ==> final(self).cursor_hidden,
            r is Err ==> final(self).out == old(self).out && final(self).writes_left == old(
                self,
            ).writes_left && final(self).cursor_hidden == old(self).cursor_hidden,
            final(self).raw_available == old(self).raw_available,
            final(self).raw_mode == old(self).raw_mode,
    {
        let r = self.write_str("\u{1b}[?25l");
        if r.is_ok() {
            self.cursor_hidden = true;
        }
        r
    }
}

/// The write budget after `n` successful writes.
pub open spec fn spec_budget_minus(b: Option<usize>, n: int) -> Option<usize> {
    match b {
        None => None,
        Some(k) => Some((k - n) as usize),
    }
}

} // verus!
