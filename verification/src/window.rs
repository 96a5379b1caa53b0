//! Window handles and the commands the library asks the platform to carry out.
use vstd::prelude::*;
use std::collections::VecDeque;
use crate::rect::Rect;

verus! {

/// A window, known by the handle the platform gave it. Two windows are equal
/// exactly when their handles are.
#[derive(Clone, Copy, Debug, PartialEq, Eq, Structural)]
pub struct Window {
    pub hwnd: isize,
}

/// A presentation request for the windowing platform. The library only
/// decides which requests are due and in which order; the caller performs
/// them.
#[derive(Clone, Copy, Debug, PartialEq, Eq, Structural)]
pub enum PlatformCommand {
    /// Take the window off the screen.
    Hide(isize),
    /// Put the window back on the screen.
    Restore(isize),
    /// Let the window fill the screen.
    Maximize(isize),
    /// End the window's maximized presentation.
    Unmaximize(isize),
    /// Give the window the input focus; the flag says whether the pointer
    /// follows.
    Focus(isize, bool),
    /// Move the window to the rectangle; the flag says whether it goes to
    /// the top of the stacking order.
    SetPosition(isize, Rect, bool),
}

/// What the platform reports of one window's executable: the window's handle
/// and the name of the program that owns it.
#[derive(Debug)]
pub struct WindowExe {
    pub hwnd: isize,
    pub exe: String,
}

/// Whether some window of the sequence has the handle `hwnd`.
pub open spec fn has_handle(windows: Seq<Window>, hwnd: isize) -> bool {
    exists|i: int| 0 <= i < windows.len() && (#[trigger] windows[i]).hwnd == hwnd
}

/// The command that hides each window of the sequence, in order.
pub open spec fn hide_all(windows: Seq<Window>) -> Seq<PlatformCommand> {
    Seq::new(windows.len(), |i: int| PlatformCommand::Hide(windows[i].hwnd))
}

/// The command that restores each window of the sequence, in order.
pub open spec fn restore_all(windows: Seq<Window>) -> Seq<PlatformCommand> {
    Seq::new(windows.len(), |i: int| PlatformCommand::Restore(windows[i].hwnd))
}

/// Whether `i` is the first index at which a window with the handle `hwnd`
/// occurs.
pub open spec fn is_first_idx_of(windows: Seq<Window>, hwnd: isize, i: int) -> bool {
    &&& 0 <= i < windows.len()
    &&& windows[i].hwnd == hwnd
    &&& forall|j: int| 0 <= j < i ==> (#[trigger] windows[j]).hwnd != hwnd
}

/// Whether `i` is the last index at which a window with the handle `hwnd`
/// occurs.
pub open spec fn is_last_idx_of(windows: Seq<Window>, hwnd: isize, i: int) -> bool {
    &&& 0 <= i < windows.len()
    &&& windows[i].hwnd == hwnd
    &&& forall|j: int| i < j < windows.len() ==> (#[trigger] windows[j]).hwnd != hwnd
}

/// The first index at which `hwnd` occurs; meaningful when it occurs at all.
pub open spec fn first_idx_of(windows: Seq<Window>, hwnd: isize) -> int {
    choose|i: int| is_first_idx_of(windows, hwnd, i)
}

/// The last index at which `hwnd` occurs; meaningful when it occurs at all.
pub open spec fn last_idx_of(windows: Seq<Window>, hwnd: isize) -> int {
    choose|i: int| is_last_idx_of(windows, hwnd, i)
}

/// The windows that remain when every window with the handle `hwnd` leaves.
pub open spec fn without_handle(windows: Seq<Window>, hwnd: isize) -> Seq<Window> {
    windows.filter(|w: Window| w.hwnd != hwnd)
}

/// The first occurrence of a handle is unique.
pub proof fn lemma_first_idx_of(windows: Seq<Window>, hwnd: isize, i: int)
    requires
        is_first_idx_of(windows, hwnd, i),
    ensures
        first_idx_of(windows, hwnd) == i,
        has_handle(windows, hwnd),
{
    let k = first_idx_of(windows, hwnd);
    assert(is_first_idx_of(windows, hwnd, k));
    if k < i {
        assert(windows[k].hwnd != hwnd);
    }
    if i < k {
        assert(windows[i].hwnd != hwnd);
    }
}

/// The last occurrence of a handle is unique.
pub proof fn lemma_last_idx_of(windows: Seq<Window>, hwnd: isize, i: int)
    requires
        is_last_idx_of(windows, hwnd, i),
    ensures
        last_idx_of(windows, hwnd) == i,
        has_handle(windows, hwnd),
{
    let k = last_idx_of(windows, hwnd);
    assert(is_last_idx_of(windows, hwnd, k));
    if k < i {
        assert(windows[i].hwnd != hwnd);
    }
    if i < k {
        assert(windows[k].hwnd != hwnd);
    }
}

/// Whether some window of `windows` has the handle `hwnd`.
pub fn contains_handle(windows: &Vec<Window>, hwnd: isize) -> (r: bool)
    ensures
        r == has_handle(windows@, hwnd),
{
    let mut i: usize = 0;
    while i < windows.len()
        invariant
            i <= windows.len(),
            forall|j: int| 0 <= j < i ==> (#[trigger] windows@[j]).hwnd != hwnd,
        decreases windows.len() - i,
    {
        if windows[i].hwnd == hwnd {
            return true;
        }
        i = i + 1;
    }
    false
}

/// The last index at which a window with the handle `hwnd` occurs.
pub fn last_position(windows: &Vec<Window>, hwnd: isize) -> (r: Option<usize>)
    ensures
        r.is_some() == has_handle(windows@, hwnd),
        r matches Some(i) ==> is_last_idx_of(windows@, hwnd, i as int) && i == last_idx_of(
            windows@,
            hwnd,
        ),
{
    let mut found: Option<usize> = None;
    let mut i: usize = 0;
    while i < windows.len()
        invariant
            i <= windows.len(),
            found.is_none() ==> forall|j: int| 0 <= j < i ==> (#[trigger] windows@[j]).hwnd != hwnd,
            found matches Some(k) ==> k < i && windows@[k as int].hwnd == hwnd && forall|j: int|
                k < j < i ==> (#[trigger] windows@[j]).hwnd != hwnd,
        decreases windows.len() - i,
    {
        if windows[i].hwnd == hwnd {
            found = Some(i);
        }
        i = i + 1;
    }
    proof {
        if let Some(k) = found {
            lemma_last_idx_of(windows@, hwnd, k as int);
        }
    }
    found
}

/// Removes every window with the handle `hwnd`, keeping the others in order.
pub fn remove_handle(windows: &mut Vec<Window>, hwnd: isize)
    ensures
        final(windows)@ == without_handle(old(windows)@, hwnd),
{
    let mut kept: Vec<Window> = Vec::new();
    let mut i: usize = 0;
    while i < windows.len()
        invariant
            i <= windows.len(),
            *windows == *old(windows),
            kept@ == without_handle(windows@.take(i as int), hwnd),
        decreases windows.len() - i,
    {
        let w = windows[i];
        proof {
            assert(windows@.take(i as int + 1).drop_last() =~= windows@.take(i as int));
            reveal(Seq::filter);
        }
        if w.hwnd != hwnd {
            kept.push(w);
        }
        i = i + 1;
    }
    assert(windows@.take(i as int) =~= windows@);
    *windows = kept;
}

/// Whether the reports say that the window `hwnd` belongs to the program
/// `exe`.
pub open spec fn runs_exe(executables: Seq<WindowExe>, hwnd: isize, exe: Seq<char>) -> bool {
    exists|k: int|
        0 <= k < executables.len() && (#[trigger] executables[k]).hwnd == hwnd
            && executables[k].exe@ == exe
}

/// Whether some window of the sequence belongs to the program `exe`.
pub open spec fn any_running(
    windows: Seq<Window>,
    executables: Seq<WindowExe>,
    exe: Seq<char>,
) -> bool {
    exists|i: int|
        0 <= i < windows.len() && runs_exe(executables, (#[trigger] windows[i]).hwnd, exe)
}

/// Whether `i` is the first index of a window that belongs to the program
/// `exe`.
pub open spec fn is_first_running(
    windows: Seq<Window>,
    executables: Seq<WindowExe>,
    exe: Seq<char>,
    i: int,
) -> bool {
    &&& 0 <= i < windows.len()
    &&& runs_exe(executables, windows[i].hwnd, exe)
    &&& forall|j: int| 0 <= j < i ==> !runs_exe(executables, (#[trigger] windows[j]).hwnd, exe)
}

/// The handle of the first window of the sequence that belongs to the
/// program `exe`.
pub open spec fn first_running(
    windows: Seq<Window>,
    executables: Seq<WindowExe>,
    exe: Seq<char>,
) -> Option<isize> {
    if any_running(windows, executables, exe) {
        Some(windows[choose|i: int| is_first_running(windows, executables, exe, i)].hwnd)
    } else {
        None
    }
}

/// The first window that belongs to a program is unique.
pub proof fn lemma_first_running(
    windows: Seq<Window>,
    executables: Seq<WindowExe>,
    exe: Seq<char>,
    i: int,
)
    requires
        is_first_running(windows, executables, exe, i),
    ensures
        first_running(windows, executables, exe) == Some(windows[i].hwnd),
{
    assert(any_running(windows, executables, exe));
    let k = choose|k: int| is_first_running(windows, executables, exe, k);
    assert(is_first_running(windows, executables, exe, k));
    if k < i {
        assert(!runs_exe(executables, windows[k].hwnd, exe));
    }
    if i < k {
        assert(!runs_exe(executables, windows[i].hwnd, exe));
    }
}

/// Whether the reports say that the window `hwnd` belongs to the program
/// `exe`.
pub fn window_runs_exe(executables: &Vec<WindowExe>, hwnd: isize, exe: &String) -> (r: bool)
    ensures
        r == runs_exe(executables@, hwnd, exe@),
{
    let mut k: usize = 0;
    while k < executables.len()
        invariant
            k <= executables.len(),
            forall|j: int|
                0 <= j < k ==> !((#[trigger] executables@[j]).hwnd == hwnd && executables@[j].exe@
                    == exe@),
        decreases executables.len() - k,
    {
        if executables[k].hwnd == hwnd && executables[k].exe == *exe {
            return true;
        }
        k = k + 1;
    }
    false
}

/// The handle of the first window of `windows` that belongs to the program
/// `exe`.
pub fn first_running_window(
    windows: &Vec<Window>,
    executables: &Vec<WindowExe>,
    exe: &String,
) -> (r: Option<isize>)
    ensures
        r == first_running(windows@, executables@, exe@),
{
    let mut i: usize = 0;
    while i < windows.len()
        invariant
            i <= windows.len(),
            forall|j: int|
                0 <= j < i ==> !runs_exe(executables@, (#[trigger] windows@[j]).hwnd, exe@),
        decreases windows.len() - i,
    {
        if window_runs_exe(executables, windows[i].hwnd, exe) {
            proof {
                lemma_first_running(windows@, executables@, exe@, i as int);
            }
            return Some(windows[i].hwnd);
        }
        i = i + 1;
    }
    None
}

/// Appends to `commands` the command that hides each window of `windows`.
pub fn append_hide_all(commands: &mut Vec<PlatformCommand>, windows: &Vec<Window>)
    ensures
        final(commands)@ == old(commands)@ + hide_all(windows@),
{
    let mut i: usize = 0;
    assert(commands@ =~= old(commands)@ + hide_all(windows@).take(0));
    while i < windows.len()
        invariant
            i <= windows.len(),
            commands@ == old(commands)@ + hide_all(windows@).take(i as int),
        decreases windows.len() - i,
    {
        commands.push(PlatformCommand::Hide(windows[i].hwnd));
        i = i + 1;
        assert(commands@ =~= old(commands)@ + hide_all(windows@).take(i as int));
    }
    assert(hide_all(windows@).take(i as int) =~= hide_all(windows@));
}

/// Appends to `commands` the command that restores each window of
/// `windows`.
pub fn append_restore_all(commands: &mut Vec<PlatformCommand>, windows: &Vec<Window>)
    ensures
        final(commands)@ == old(commands)@ + restore_all(windows@),
{
    let mut i: usize = 0;
    assert(commands@ =~= old(commands)@ + restore_all(windows@).take(0));
    while i < windows.len()
        invariant
            i <= windows.len(),
            commands@ == old(commands)@ + restore_all(windows@).take(i as int),
        decreases windows.len() - i,
    {
        commands.push(PlatformCommand::Restore(windows[i].hwnd));
        i = i + 1;
        assert(commands@ =~= old(commands)@ + restore_all(windows@).take(i as int));
    }
    assert(restore_all(windows@).take(i as int) =~= restore_all(windows@));
}

/// The handles of those windows of the sequence that are listed in `stale`,
/// in order.
pub open spec fn stale_among(windows: Seq<Window>, stale: Seq<isize>) -> Seq<isize>
    decreases windows.len(),
{
    if windows.len() == 0 {
        Seq::empty()
    } else {
        let before = stale_among(windows.drop_last(), stale);
        if stale.contains(windows.last().hwnd) {
            before.push(windows.last().hwnd)
        } else {
            before
        }
    }
}

/// The windows that remain when every window whose handle is listed in
/// `hwnds` leaves.
pub open spec fn without_handles(windows: Seq<Window>, hwnds: Seq<isize>) -> Seq<Window> {
    windows.filter(|w: Window| !hwnds.contains(w.hwnd))
}

/// Whether `hwnd` is listed in `hwnds`.
pub fn handle_listed(hwnds: &Vec<isize>, hwnd: isize) -> (r: bool)
    ensures
        r == hwnds@.contains(hwnd),
{
    let mut i: usize = 0;
    while i < hwnds.len()
        invariant
            i <= hwnds.len(),
            forall|j: int| 0 <= j < i ==> hwnds@[j] != hwnd,
        decreases hwnds.len() - i,
    {
        if hwnds[i] == hwnd {
            return true;
        }
        i = i + 1;
    }
    false
}

/// The handles of those windows of `windows` that are listed in `stale`.
pub fn stale_handles(windows: &Vec<Window>, stale: &Vec<isize>) -> (r: Vec<isize>)
    ensures
        r@ == stale_among(windows@, stale@),
        r@.len() <= windows@.len(),
{
    let mut found: Vec<isize> = Vec::new();
    let mut i: usize = 0;
    while i < windows.len()
        invariant
            i <= windows.len(),
            found@ == stale_among(windows@.take(i as int), stale@),
            found@.len() <= i,
        decreases windows.len() - i,
    {
        proof {
            assert(windows@.take(i as int + 1).drop_last() =~= windows@.take(i as int));
        }
        if handle_listed(stale, windows[i].hwnd) {
            found.push(windows[i].hwnd);
        }
        i = i + 1;
    }
    assert(windows@.take(i as int) =~= windows@);
    found
}

/// Removes every window whose handle is listed in `hwnds`, keeping the
/// others in order.
pub fn remove_handles(windows: &mut Vec<Window>, hwnds: &Vec<isize>)
    ensures
        final(windows)@ == without_handles(old(windows)@, hwnds@),
{
    let mut kept: Vec<Window> = Vec::new();
    let mut i: usize = 0;
    while i < windows.len()
        invariant
            i <= windows.len(),
            *windows == *old(windows),
            kept@ == without_handles(windows@.take(i as int), hwnds@),
        decreases windows.len() - i,
    {
        let w = windows[i];
        proof {
            assert(windows@.take(i as int + 1).drop_last() =~= windows@.take(i as int));
            reveal(Seq::filter);
        }
        if !handle_listed(hwnds, w.hwnd) {
            kept.push(w);
        }
        i = i + 1;
    }
    assert(windows@.take(i as int) =~= windows@);
    *windows = kept;
}

/// Whether some window of the ring `windows` has the handle `hwnd`.
pub fn ring_contains_handle(windows: &VecDeque<Window>, hwnd: isize) -> (r: bool)
    ensures
        r == has_handle(windows@, hwnd),
{
    let mut i: usize = 0;
    while i < windows.len()
        invariant
            i <= windows.len(),
            forall|j: int| 0 <= j < i ==> (#[trigger] windows@[j]).hwnd != hwnd,
        decreases windows.len() - i,
    {
        if windows[i].hwnd == hwnd {
            return true;
        }
        i = i + 1;
    }
    false
}

/// The first index at which a window with the handle `hwnd` occurs.
pub fn ring_first_position(windows: &VecDeque<Window>, hwnd: isize) -> (r: Option<usize>)
    ensures
        r.is_some() == has_handle(windows@, hwnd),
        r matches Some(i) ==> is_first_idx_of(windows@, hwnd, i as int) && i == first_idx_of(
            windows@,
            hwnd,
        ),
{
    let mut i: usize = 0;
    while i < windows.len()
        invariant
            i <= windows.len(),
            forall|j: int| 0 <= j < i ==> (#[trigger] windows@[j]).hwnd != hwnd,
        decreases windows.len() - i,
    {
        if windows[i].hwnd == hwnd {
            proof {
                lemma_first_idx_of(windows@, hwnd, i as int);
            }
            return Some(i);
        }
        i = i + 1;
    }
    None
}

/// The last index at which a window with the handle `hwnd` occurs.
pub fn ring_last_position(windows: &VecDeque<Window>, hwnd: isize) -> (r: Option<usize>)
    ensures
        r.is_some() == has_handle(windows@, hwnd),
        r matches Some(i) ==> is_last_idx_of(windows@, hwnd, i as int) && i == last_idx_of(
            windows@,
            hwnd,
        ),
{
    let mut found: Option<usize> = None;
    let mut i: usize = 0;
    while i < windows.len()
        invariant
            i <= windows.len(),
            found.is_none() ==> forall|j: int| 0 <= j < i ==> (#[trigger] windows@[j]).hwnd != hwnd,
            found matches Some(k) ==> k < i && windows@[k as int].hwnd == hwnd && forall|j: int|
                k < j < i ==> (#[trigger] windows@[j]).hwnd != hwnd,
        decreases windows.len() - i,
    {
        if windows[i].hwnd == hwnd {
            found = Some(i);
        }
        i = i + 1;
    }
    proof {
        if let Some(k) = found {
            lemma_last_idx_of(windows@, hwnd, k as int);
        }
    }
    found
}

/// The handle of the first window of the ring `windows` that belongs to the program
/// `exe`.
pub fn ring_first_running_window(
    windows: &VecDeque<Window>,
    executables: &Vec<WindowExe>,
    exe: &String,
) -> (r: Option<isize>)
    ensures
        r == first_running(windows@, executables@, exe@),
{
    let mut i: usize = 0;
    while i < windows.len()
        invariant
            i <= windows.len(),
            forall|j: int|
                0 <= j < i ==> !runs_exe(executables@, (#[trigger] windows@[j]).hwnd, exe@),
        decreases windows.len() - i,
    {
        if window_runs_exe(executables, windows[i].hwnd, exe) {
            proof {
                lemma_first_running(windows@, executables@, exe@, i as int);
            }
            return Some(windows[i].hwnd);
        }
        i = i + 1;
    }
    None
}

/// Appends to `commands` the command that hides each window of the ring `windows`.
pub fn ring_append_hide_all(commands: &mut Vec<PlatformCommand>, windows: &VecDeque<Window>)
    ensures
        final(commands)@ == old(commands)@ + hide_all(windows@),
{
    let mut i: usize = 0;
    assert(commands@ =~= old(commands)@ + hide_all(windows@).take(0));
    while i < windows.len()
        invariant
            i <= windows.len(),
            commands@ == old(commands)@ + hide_all(windows@).take(i as int),
        decreases windows.len() - i,
    {
        commands.push(PlatformCommand::Hide(windows[i].hwnd));
        i = i + 1;
        assert(commands@ =~= old(commands)@ + hide_all(windows@).take(i as int));
    }
    assert(hide_all(windows@).take(i as int) =~= hide_all(windows@));
}

/// Appends to `commands` the command that restores each window of
/// `windows`.
pub fn ring_append_restore_all(commands: &mut Vec<PlatformCommand>, windows: &VecDeque<Window>)
    ensures
        final(commands)@ == old(commands)@ + restore_all(windows@),
{
    let mut i: usize = 0;
    assert(commands@ =~= old(commands)@ + restore_all(windows@).take(0));
    while i < windows.len()
        invariant
            i <= windows.len(),
            commands@ == old(commands)@ + restore_all(windows@).take(i as int),
        decreases windows.len() - i,
    {
        commands.push(PlatformCommand::Restore(windows[i].hwnd));
        i = i + 1;
        assert(commands@ =~= old(commands)@ + restore_all(windows@).take(i as int));
    }
    assert(restore_all(windows@).take(i as int) =~= restore_all(windows@));
}

} // verus!
