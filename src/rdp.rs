//! Remote Desktop client window control: picking the client's window,
//! finding the zoom command in its system menu, centering it, and the polling
//! state machine that sequences these steps.

use crate::text::{
    chars_of, contains_seq, contains_str, decimal, decimal_string, lower_of, lowercase, matches_at,
    occurs_at,
};
use vstd::prelude::*;
use vstd::string::*;

verus! {

/// How long the window is searched for, in milliseconds.
pub const SEARCH_TIMEOUT_MS: u64 = 30000;

/// The pause between two searches, in milliseconds.
pub const POLL_INTERVAL_MS: u64 = 500;

/// The pause between finding the window and using its menu, in milliseconds.
pub const UI_GRACE_MS: u64 = 1500;

/// The pause between zooming and centering, in milliseconds.
pub const RESIZE_SETTLE_MS: u64 = 500;

/// One centered coordinate: half the free space, never negative.
pub open spec fn centered_coord(screen: int, window: int) -> int {
    let d = (screen - window) / 2;
    if d < 0 {
        0
    } else {
        d
    }
}

/// The top-left corner that centers a `window_w` x `window_h` window on a
/// `screen_w` x `screen_h` screen, clamped so that it never lies above or left
/// of the screen.
pub fn center_position(screen_w: i32, screen_h: i32, window_w: i32, window_h: i32) -> (r: (
    i32,
    i32,
))
    ensures
        r.0 == centered_coord(screen_w as int, window_w as int),
        r.1 == centered_coord(screen_h as int, window_h as int),
        window_w >= screen_w && window_h >= screen_h ==> r == (0i32, 0i32),
{
    (center_coord(screen_w, window_w), center_coord(screen_h, window_h))
}

fn center_coord(screen: i32, window: i32) -> (r: i32)
    ensures
        r == centered_coord(screen as int, window as int),
{
    let d: i64 = screen as i64 - window as i64;
    if d <= 0 {
        0
    } else {
        (d / 2) as i32
    }
}

/// A top-level window of the client's class, as enumerated by the host.
pub struct WindowCandidate {
    /// The host's handle of the window.
    pub handle: usize,
    /// The process that owns the window.
    pub process_id: u32,
    /// The window is currently visible.
    pub visible: bool,
}

/// The window belongs to the target process and is visible.
pub open spec fn is_target_window(w: WindowCandidate, process_id: u32) -> bool {
    w.process_id == process_id && w.visible
}

/// The first visible window, in enumeration order, owned by `process_id`.
pub fn find_main_window(windows: &Vec<WindowCandidate>, process_id: u32) -> (r: Option<usize>)
    ensures
        r is None <==> forall|i: int|
            0 <= i < windows@.len() ==> !is_target_window(#[trigger] windows@[i], process_id),
        r matches Some(h) ==> exists|i: int|
            0 <= i < windows@.len() && is_target_window(#[trigger] windows@[i], process_id)
                && windows@[i].handle == h && forall|j: int|
                0 <= j < i ==> !is_target_window(#[trigger] windows@[j], process_id),
{
    let mut i: usize = 0;
    while i < windows.len()
        invariant
            i <= windows@.len(),
            forall|j: int| 0 <= j < i ==> !is_target_window(#[trigger] windows@[j], process_id),
        decreases windows.len() - i,
    {
        if windows[i].process_id == process_id && windows[i].visible {
            return Some(windows[i].handle);
        }
        i = i + 1;
    }
    None
}

/// One entry of a native menu.
pub struct MenuEntry {
    /// Position of the entry in its menu.
    pub index: u32,
    /// The label of the entry.
    pub text: String,
    /// The command the entry posts.
    pub command_id: u32,
    /// The entry opens a submenu.
    pub is_submenu: bool,
}

/// A lower-case label names the zoom submenu, in English or Vietnamese.
pub open spec fn names_zoom(lowered: Seq<char>) -> bool {
    contains_seq(lowered, "zoom"@) || contains_seq(lowered, "thu ph"@)
}

/// Whether an already lower-cased label names the zoom submenu.
pub fn is_zoom_label_folded(lowered: &str) -> (r: bool)
    ensures
        r == names_zoom(lowered@),
{
    contains_str(lowered, "zoom") || contains_str(lowered, "thu ph")
}

/// Whether a label names the zoom submenu, compared case-insensitively.
pub fn is_zoom_label(text: &str) -> (r: bool)
    ensures
        r == names_zoom(lower_of(text@)),
{
    let lowered = lowercase(text);
    is_zoom_label_folded(lowered.as_str())
}

/// The label fragment of a zoom level: its percentage, such as `100%`.
pub open spec fn zoom_target(level: u32) -> Seq<char> {
    decimal(level as nat) + "%"@
}

/// The percentage fragment of a zoom level.
pub fn zoom_target_string(level: u32) -> (r: String)
    ensures
        r@ == zoom_target(level),
{
    let mut s = decimal_string(level as u64);
    s.append("%");
    s
}

/// The character is an ASCII decimal digit.
pub open spec fn is_digit(c: char) -> bool {
    '0' <= c && c <= '9'
}

/// The label holds `target` at a position not preceded by a digit, so that
/// `100%` is found in `Zoom 100%` but not in `1100%`.
pub open spec fn label_has_target(label: Seq<char>, target: Seq<char>) -> bool {
    exists|i: int| occurs_at(label, target, i) && (i == 0 || !is_digit(label[i - 1]))
}

/// Whether the label holds `target` at a position not preceded by a digit.
pub fn label_has_level(label: &str, target: &str) -> (r: bool)
    ensures
        r == label_has_target(label@, target@),
{
    let l = chars_of(label);
    let t = chars_of(target);
    let mut i: usize = 0;
    while i <= l.len()
        invariant
            l@ == label@,
            t@ == target@,
            forall|j: int| 0 <= j < i ==> !(occurs_at(label@, target@, j) && (j == 0 || !is_digit(label@[j - 1]))),
        decreases l.len() + 1 - i,
    {
        let boundary = i == 0 || !('0' <= l[i - 1] && l[i - 1] <= '9');
        if boundary && matches_at(&l, &t, i) {
            return true;
        }
        if i == l.len() {
            assert forall|j: int| !(occurs_at(label@, target@, j) && (j == 0 || !is_digit(label@[j - 1]))) by {
                if j > i {
                    assert(!occurs_at(label@, target@, j));
                }
            }
            return false;
        }
        i = i + 1;
    }
    false
}

/// Entry `j` of submenu `i` is the wanted zoom level under a zoom menu entry.
pub open spec fn zoom_hit(zoom: Seq<bool>, subs: Seq<Seq<Seq<char>>>, target: Seq<char>, i: int, j: int) -> bool {
    0 <= i < zoom.len() && i < subs.len() && zoom[i] && 0 <= j < subs[i].len() && label_has_target(subs[i][j], target)
}

/// Position `(i2, j2)` comes before `(i, j)` in the scan order.
pub open spec fn scanned_before(i2: int, j2: int, i: int, j: int) -> bool {
    i2 < i || (i2 == i && j2 < j)
}

/// The labels of a menu.
pub open spec fn labels_of(entries: Seq<MenuEntry>) -> Seq<Seq<char>> {
    entries.map_values(|e: MenuEntry| e.text@)
}

/// The labels of each submenu.
pub open spec fn sub_labels_of(subs: Seq<Vec<MenuEntry>>) -> Seq<Seq<Seq<char>>> {
    subs.map_values(|v: Vec<MenuEntry>| labels_of(v@))
}

/// Picks the command of the zoom level: scanning the top-level entries in
/// order, and within each entry flagged as the zoom menu its submenu in order,
/// the first submenu entry whose label holds the level's percentage.
pub fn select_zoom_command(zoom: &Vec<bool>, submenus: &Vec<Vec<MenuEntry>>, level: u32) -> (r: Option<u32>)
    requires
        zoom@.len() == submenus@.len(),
    ensures
        r is None <==> forall|i: int, j: int| !zoom_hit(zoom@, sub_labels_of(submenus@), zoom_target(level), i, j),
        r matches Some(c) ==> exists|i: int, j: int|
            zoom_hit(zoom@, sub_labels_of(submenus@), zoom_target(level), i, j)
                && submenus@[i]@[j].command_id == c
                && forall|i2: int, j2: int| scanned_before(i2, j2, i, j) ==> !zoom_hit(zoom@, sub_labels_of(submenus@), zoom_target(level), i2, j2),
{
    let target = zoom_target_string(level);
    let ghost subs = sub_labels_of(submenus@);
    let ghost t = zoom_target(level);
    let mut i: usize = 0;
    while i < zoom.len()
        invariant
            zoom@.len() == submenus@.len(),
            i <= zoom@.len(),
            target@ == t,
            subs == sub_labels_of(submenus@),
            t == zoom_target(level),
            forall|i2: int, j2: int| i2 < i ==> !zoom_hit(zoom@, subs, t, i2, j2),
        decreases zoom.len() - i,
    {
        if zoom[i] {
            let sub = &submenus[i];
            let mut j: usize = 0;
            while j < sub.len()
                invariant
                    zoom@.len() == submenus@.len(),
                    i < zoom@.len(),
                    zoom@[i as int],
                    sub == submenus@[i as int],
                    j <= sub@.len(),
                    target@ == t,
                    subs == sub_labels_of(submenus@),
                    t == zoom_target(level),
                    forall|i2: int, j2: int| i2 < i ==> !zoom_hit(zoom@, subs, t, i2, j2),
                    forall|j2: int| 0 <= j2 < j ==> !zoom_hit(zoom@, subs, t, i as int, j2),
                decreases sub.len() - j,
            {
                assert(subs[i as int][j as int] == sub@[j as int].text@);
                if label_has_level(sub[j].text.as_str(), target.as_str()) {
                    assert(zoom_hit(zoom@, subs, t, i as int, j as int));
                    return Some(sub[j].command_id);
                }
                j = j + 1;
            }
            assert forall|i2: int, j2: int| i2 < i + 1 implies !zoom_hit(zoom@, subs, t, i2, j2) by {
                if i2 == i && zoom_hit(zoom@, subs, t, i2, j2) {
                    assert(subs[i as int].len() == sub@.len());
                }
            }
        }
        i = i + 1;
    }
    None
}

/// Finds the command of a zoom level in a window's system menu: `top` is the
/// menu, `submenus[i]` the submenu of its entry `i` (empty when it has none).
/// Top-level labels are compared case-insensitively.
pub fn find_zoom_command(top: &Vec<MenuEntry>, submenus: &Vec<Vec<MenuEntry>>, level: u32) -> (r: Option<u32>)
    requires
        top@.len() == submenus@.len(),
    ensures
        ({
            let zoom = top@.map_values(|e: MenuEntry| names_zoom(lower_of(e.text@)));
            &&& r is None <==> forall|i: int, j: int| !zoom_hit(zoom, sub_labels_of(submenus@), zoom_target(level), i, j)
            &&& r matches Some(c) ==> exists|i: int, j: int|
                zoom_hit(zoom, sub_labels_of(submenus@), zoom_target(level), i, j)
                    && submenus@[i]@[j].command_id == c
                    && forall|i2: int, j2: int| scanned_before(i2, j2, i, j) ==> !zoom_hit(zoom, sub_labels_of(submenus@), zoom_target(level), i2, j2)
        }),
{
    let mut zoom: Vec<bool> = Vec::new();
    let mut i: usize = 0;
    while i < top.len()
        invariant
            i <= top@.len(),
            zoom@ == top@.subrange(0, i as int).map_values(|e: MenuEntry| names_zoom(lower_of(e.text@))),
        decreases top.len() - i,
    {
        let z = is_zoom_label(top[i].text.as_str());
        zoom.push(z);
        proof {
            assert(zoom@ =~= top@.subrange(0, i + 1).map_values(|e: MenuEntry| names_zoom(lower_of(e.text@))));
        }
        i = i + 1;
    }
    proof {
        assert(top@.subrange(0, i as int) =~= top@);
    }
    select_zoom_command(&zoom, submenus, level)
}

/// Where a zoom attempt stands.
#[derive(PartialEq, Eq, Structural, Clone, Copy, Debug)]
pub enum ZoomPhase {
    /// Polling for the client's window.
    Searching,
    /// The window was found; its zoom menu is about to be used.
    Found,
    /// The zoom command was posted; the window is about to be centered.
    ZoomApplied,
    /// The window was centered: the attempt succeeded.
    Centered,
    /// The window never became ready in time: the attempt ended silently.
    TimedOut,
}

/// What the host reports to the zoom state machine.
#[derive(PartialEq, Eq, Structural, Clone, Copy, Debug)]
pub enum ZoomEvent {
    /// A poll tick, with the time elapsed since the attempt began.
    Tick { elapsed_ms: u64 },
    /// The outcome of a window search.
    WindowSearched { found: bool },
    /// The outcome of posting the zoom command.
    ZoomPosted { posted: bool },
    /// The window was moved to the center.
    WindowCentered,
}

/// What the host is asked to do next.
#[derive(PartialEq, Eq, Structural, Clone, Copy, Debug)]
pub enum ZoomAction {
    /// Search for the target process's window.
    SearchWindow,
    /// Wait this long, then report the next tick.
    Sleep { ms: u64 },
    /// Wait this long, then try to post the zoom command.
    ApplyZoomAfter { ms: u64 },
    /// Wait this long, then center the window.
    CenterAfter { ms: u64 },
    /// The attempt is over.
    Stop,
}

/// The zoom state machine: the next phase and action for a phase and an event.
/// An event that does not belong to the phase ends the attempt where it stands.
pub open spec fn zoom_transition(phase: ZoomPhase, event: ZoomEvent) -> (ZoomPhase, ZoomAction) {
    match (phase, event) {
        (ZoomPhase::Searching, ZoomEvent::Tick { elapsed_ms }) => {
            if elapsed_ms >= SEARCH_TIMEOUT_MS {
                (ZoomPhase::TimedOut, ZoomAction::Stop)
            } else {
                (ZoomPhase::Searching, ZoomAction::SearchWindow)
            }
        },
        (ZoomPhase::Searching, ZoomEvent::WindowSearched { found }) => {
            if found {
                (ZoomPhase::Found, ZoomAction::ApplyZoomAfter { ms: UI_GRACE_MS })
            } else {
                (ZoomPhase::Searching, ZoomAction::Sleep { ms: POLL_INTERVAL_MS })
            }
        },
        (ZoomPhase::Found, ZoomEvent::ZoomPosted { posted }) => {
            if posted {
                (ZoomPhase::ZoomApplied, ZoomAction::CenterAfter { ms: RESIZE_SETTLE_MS })
            } else {
                (ZoomPhase::Searching, ZoomAction::Sleep { ms: POLL_INTERVAL_MS })
            }
        },
        (ZoomPhase::ZoomApplied, ZoomEvent::WindowCentered) => (ZoomPhase::Centered, ZoomAction::Stop),
        _ => (phase, ZoomAction::Stop),
    }
}

/// A zoom attempt for one process; attempts for different processes share nothing.
pub struct ZoomSession {
    pub process_id: u32,
    pub zoom_level: u32,
    pub phase: ZoomPhase,
}

impl ZoomSession {
    /// A new attempt, searching for the window of `process_id`.
    pub fn new(process_id: u32, zoom_level: u32) -> (r: Self)
        ensures
            r.process_id == process_id,
            r.zoom_level == zoom_level,
            r.phase == ZoomPhase::Searching,
    {
        ZoomSession { process_id, zoom_level, phase: ZoomPhase::Searching }
    }

    /// Whether the attempt has ended, successfully or not.
    pub fn is_finished(&self) -> (r: bool)
        ensures
            r == (self.phase == ZoomPhase::Centered || self.phase == ZoomPhase::TimedOut),
    {
        self.phase == ZoomPhase::Centered || self.phase == ZoomPhase::TimedOut
    }

    /// Moves the attempt on by one event and says what to do next.
    pub fn step(&mut self, event: ZoomEvent) -> (r: ZoomAction)
        ensures
            (final(self).phase, r) == zoom_transition(old(self).phase, event),
            final(self).process_id == old(self).process_id,
            final(self).zoom_level == old(self).zoom_level,
    {
        let (phase, action) = match (self.phase, event) {
            (ZoomPhase::Searching, ZoomEvent::Tick { elapsed_ms }) => {
                if elapsed_ms >= SEARCH_TIMEOUT_MS {
                    (ZoomPhase::TimedOut, ZoomAction::Stop)
                } else {
                    (ZoomPhase::Searching, ZoomAction::SearchWindow)
                }
            },
            (ZoomPhase::Searching, ZoomEvent::WindowSearched { found }) => {
                if found {
                    (ZoomPhase::Found, ZoomAction::ApplyZoomAfter { ms: UI_GRACE_MS })
                } else {
                    (ZoomPhase::Searching, ZoomAction::Sleep { ms: POLL_INTERVAL_MS })
                }
            },
            (ZoomPhase::Found, ZoomEvent::ZoomPosted { posted }) => {
                if posted {
                    (ZoomPhase::ZoomApplied, ZoomAction::CenterAfter { ms: RESIZE_SETTLE_MS })
                } else {
                    (ZoomPhase::Searching, ZoomAction::Sleep { ms: POLL_INTERVAL_MS })
                }
            },
            (ZoomPhase::ZoomApplied, ZoomEvent::WindowCentered) => (ZoomPhase::Centered, ZoomAction::Stop),
            _ => (self.phase, ZoomAction::Stop),
        };
        self.phase = phase;
        action
    }
}

} // verus!
