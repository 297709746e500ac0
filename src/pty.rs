use vstd::prelude::*;

verus! {

/// A message for the thread that writes to the PTY.
pub enum PtyEvent {
    /// Bytes typed by the user.
    Input(Vec<u8>),
    /// The terminal's new size in cells.
    Resize { cols: u16, rows: u16 },
}

/// The process group that SIGWINCH goes to: the terminal's foreground group
/// where the query found one, else the shell's own group.
pub fn signal_target(foreground: i32, shell_pgid: i32) -> (r: i32)
    ensures
        r == (if foreground > 0 {
            foreground
        } else {
            shell_pgid
        }),
{
    if foreground > 0 {
        foreground
    } else {
        shell_pgid
    }
}

/// The window size to report for a grid of `cols` x `rows`, each clamped to
/// what the kernel's 16-bit fields hold.
pub fn winsize_of(cols: usize, rows: usize) -> (r: (u16, u16))
    ensures
        r.0 as int == (if cols > 0xffff {
            0xffff
        } else {
            cols as int
        }),
        r.1 as int == (if rows > 0xffff {
            0xffff
        } else {
            rows as int
        }),
{
    let c: u16 = if cols > 0xffff {
        0xffff
    } else {
        cols as u16
    };
    let r: u16 = if rows > 0xffff {
        0xffff
    } else {
        rows as u16
    };
    (c, r)
}

} // verus!
