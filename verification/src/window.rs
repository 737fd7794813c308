//! Where the overlay and dashboard windows go, and what the window
//! commands decide before they touch a window.

use vstd::prelude::*;

verus! {

/// Distance in physical pixels from the top of the screen to the overlay.
pub const TOP_OFFSET: i32 = 54;

/// Width in logical pixels that `set_window_height` keeps the overlay at.
pub const OVERLAY_WIDTH: u32 = 800;

/// A `u32` read as an `i32` the way Rust's `as` does: from 2^31 up the
/// value wraps to a negative number.
pub open spec fn wrap_i32(x: u32) -> int {
    if x <= i32::MAX {
        x as int
    } else {
        x as int - 0x1_0000_0000
    }
}

/// Halving that rounds toward zero, as `/ 2` does on `i32`.
pub open spec fn half_toward_zero(v: int) -> int {
    if v >= 0 {
        v / 2
    } else {
        -((-v) / 2)
    }
}

/// Whether a value fits in an `i32`.
pub open spec fn fits_i32(v: int) -> bool {
    i32::MIN <= v <= i32::MAX
}

/// The offset that centres a span of length `inner` in one of length
/// `outer`: `(outer as i32 - inner as i32) / 2`.
pub open spec fn centered_offset(outer: u32, inner: u32) -> int {
    half_toward_zero(wrap_i32(outer) - wrap_i32(inner))
}

/// Computes `centered_offset`; the subtraction must not overflow `i32`.
pub fn centered_coordinate(outer: u32, inner: u32) -> (r: i32)
    requires
        fits_i32(wrap_i32(outer) - wrap_i32(inner)),
    ensures
        r == centered_offset(outer, inner),
{
    let a: i64 = if outer <= 2147483647 { outer as i64 } else { outer as i64 - 4294967296 };
    let b: i64 = if inner <= 2147483647 { inner as i64 } else { inner as i64 - 4294967296 };
    let d: i64 = a - b;
    let h: i64 = if d >= 0 { d / 2 } else { -((-d) / 2) };
    h as i32
}

/// The position that puts a window of width `window_width` at the
/// horizontal centre of a monitor of width `monitor_width`, `y_offset`
/// pixels from the top.
pub fn top_center_position(monitor_width: u32, window_width: u32, y_offset: i32) -> (r: (i32, i32))
    requires
        fits_i32(wrap_i32(monitor_width) - wrap_i32(window_width)),
    ensures
        r.0 == centered_offset(monitor_width, window_width),
        r.1 == y_offset,
{
    (centered_coordinate(monitor_width, window_width), y_offset)
}

/// The position that centres a window on a monitor in both directions.
pub fn center_position(monitor_width: u32, monitor_height: u32, window_width: u32, window_height: u32)
    -> (r: (i32, i32))
    requires
        fits_i32(wrap_i32(monitor_width) - wrap_i32(window_width)),
        fits_i32(wrap_i32(monitor_height) - wrap_i32(window_height)),
    ensures
        r.0 == centered_offset(monitor_width, window_width),
        r.1 == centered_offset(monitor_height, window_height),
{
    (
        centered_coordinate(monitor_width, window_width),
        centered_coordinate(monitor_height, window_height),
    )
}

/// For sizes below 2^31 and a window no larger than the monitor, centring
/// leaves margins on the two sides that differ by at most one pixel (the
/// extra pixel on the far side).
pub proof fn law_centered_margins(outer: u32, inner: u32)
    requires
        outer <= i32::MAX,
        inner <= outer,
    ensures
        0 <= centered_offset(outer, inner),
        outer - inner - centered_offset(outer, inner) == centered_offset(outer, inner)
            || outer - inner - centered_offset(outer, inner) == centered_offset(outer, inner) + 1,
{
}

/// The logical size (width, height) that a resize command asks for.
pub open spec fn spec_logical_size(width: u32, height: u32) -> (u32, u32) {
    (width, height)
}

/// The logical size `set_window_size` gives a window: the requested width
/// and height.
pub fn logical_size(width: u32, height: u32) -> (r: (u32, u32))
    ensures
        r == spec_logical_size(width, height),
        r == (width, height),
{
    (width, height)
}

/// The logical size `set_window_height` gives the overlay: the fixed width
/// and the requested height.
pub fn overlay_size_for_height(height: u32) -> (r: (u32, u32))
    ensures
        r == (OVERLAY_WIDTH, height),
        r == spec_logical_size(OVERLAY_WIDTH, height),
{
    logical_size(OVERLAY_WIDTH, height)
}

/// A resize asks for exactly the requested size, for every width and
/// height.
pub proof fn law_logical_size_is_requested(width: u32, height: u32)
    ensures
        spec_logical_size(width, height).0 == width,
        spec_logical_size(width, height).1 == height,
{
}

/// Setting only the height resizes exactly as setting the size with the
/// overlay's fixed width would.
pub proof fn law_height_is_size_with_fixed_width(height: u32)
    ensures
        (OVERLAY_WIDTH, height) == spec_logical_size(OVERLAY_WIDTH, height),
{
}

/// A direction the overlay can be moved in.
#[derive(Clone, Copy, Debug, PartialEq, Eq, Structural)]
pub enum Direction {
    Up,
    Down,
    Left,
    Right,
}

/// The direction a command names: exactly `up`, `down`, `left` or `right`.
pub open spec fn spec_parse_direction(s: Seq<char>) -> Option<Direction> {
    if s == seq!['u', 'p'] {
        Some(Direction::Up)
    } else if s == seq!['d', 'o', 'w', 'n'] {
        Some(Direction::Down)
    } else if s == seq!['l', 'e', 'f', 't'] {
        Some(Direction::Left)
    } else if s == seq!['r', 'i', 'g', 'h', 't'] {
        Some(Direction::Right)
    } else {
        None
    }
}

/// A position moved `step` pixels in direction `d` (screen y grows downward).
pub open spec fn spec_step(p: (int, int), d: Direction, step: int) -> (int, int) {
    match d {
        Direction::Up => (p.0, p.1 - step),
        Direction::Down => (p.0, p.1 + step),
        Direction::Left => (p.0 - step, p.1),
        Direction::Right => (p.0 + step, p.1),
    }
}

fn chars_equal(a: &Vec<char>, b: &Vec<char>) -> (r: bool)
    ensures
        r == (a@ == b@),
{
    if a.len() != b.len() {
        return false;
    }
    let mut i: usize = 0;
    while i < a.len()
        invariant
            a@.len() == b@.len(),
            i <= a@.len(),
            forall|k: int| 0 <= k < i ==> a@[k] == b@[k],
        decreases a@.len() - i,
    {
        if a[i] != b[i] {
            return false;
        }
        i = i + 1;
    }
    assert(a@ =~= b@);
    true
}

/// Reads a direction name.
pub fn parse_direction(s: &str) -> (r: Option<Direction>)
    ensures
        r == spec_parse_direction(s@),
{
    let c = crate::text::chars_of(s);
    let up: Vec<char> = vec!['u', 'p'];
    let down: Vec<char> = vec!['d', 'o', 'w', 'n'];
    let left: Vec<char> = vec!['l', 'e', 'f', 't'];
    let right: Vec<char> = vec!['r', 'i', 'g', 'h', 't'];
    proof {
        assert(up@ =~= seq!['u', 'p']);
        assert(down@ =~= seq!['d', 'o', 'w', 'n']);
        assert(left@ =~= seq!['l', 'e', 'f', 't']);
        assert(right@ =~= seq!['r', 'i', 'g', 'h', 't']);
    }
    if chars_equal(&c, &up) {
        Some(Direction::Up)
    } else if chars_equal(&c, &down) {
        Some(Direction::Down)
    } else if chars_equal(&c, &left) {
        Some(Direction::Left)
    } else if chars_equal(&c, &right) {
        Some(Direction::Right)
    } else {
        None
    }
}

/// Where `move_window` puts the overlay: an error when there is no main
/// window or the direction is unknown, otherwise the current position moved
/// `step` pixels. The moved coordinate must fit in an `i32`: the
/// command's `i32` arithmetic overflows otherwise.
pub fn move_window_target(position: Option<(i32, i32)>, direction: &str, step: i32) -> (r: Result<
    (i32, i32),
    String,
>)
    requires
        position matches Some(p) ==> (spec_parse_direction(direction@) matches Some(d) ==> fits_i32(
            spec_step((p.0 as int, p.1 as int), d, step as int).0,
        ) && fits_i32(spec_step((p.0 as int, p.1 as int), d, step as int).1)),
    ensures
        match position {
            None => r is Err && r->Err_0@ == "Main window not found"@,
            Some(p) => match spec_parse_direction(direction@) {
                None => r is Err && r->Err_0@ == "Invalid direction: "@ + direction@,
                Some(d) => r is Ok && (r->Ok_0.0 as int, r->Ok_0.1 as int) == spec_step(
                    (p.0 as int, p.1 as int),
                    d,
                    step as int,
                ),
            },
        },
{
    let (x, y) = match position {
        None => {
            return Err(String::from_str("Main window not found"));
        },
        Some(p) => p,
    };
    match parse_direction(direction) {
        Some(Direction::Up) => Ok((x, y - step)),
        Some(Direction::Down) => Ok((x, y + step)),
        Some(Direction::Left) => Ok((x - step, y)),
        Some(Direction::Right) => Ok((x + step, y)),
        None => {
            let mut msg = String::from_str("Invalid direction: ");
            msg.append(direction);
            Err(msg)
        },
    }
}

/// The opposite direction.
pub open spec fn opposite(d: Direction) -> Direction {
    match d {
        Direction::Up => Direction::Down,
        Direction::Down => Direction::Up,
        Direction::Left => Direction::Right,
        Direction::Right => Direction::Left,
    }
}

/// The unit vector of a direction on screen (y grows downward).
pub open spec fn unit_vector(d: Direction) -> (int, int) {
    match d {
        Direction::Up => (0, -1),
        Direction::Down => (0, 1),
        Direction::Left => (-1, 0),
        Direction::Right => (1, 0),
    }
}

/// Absolute value.
pub open spec fn abs_int(v: int) -> int {
    if v < 0 {
        -v
    } else {
        v
    }
}

/// A move shifts the position by exactly `step` times the direction's unit
/// vector, whatever the step: one coordinate changes, by exactly `|step|`
/// pixels, and the other stays.
pub proof fn law_move_is_full_step(p: (int, int), d: Direction, step: int)
    ensures
        spec_step(p, d, step) == (p.0 + step * unit_vector(d).0, p.1 + step * unit_vector(d).1),
        abs_int(spec_step(p, d, step).0 - p.0) + abs_int(spec_step(p, d, step).1 - p.1)
            == abs_int(step),
        spec_step(p, d, step).0 == p.0 || spec_step(p, d, step).1 == p.1,
{
}

/// Moving by a step and then by the same step the opposite way returns the
/// window to where it was.
pub proof fn law_move_back_restores(p: (int, int), d: Direction, step: int)
    ensures
        spec_step(spec_step(p, d, step), opposite(d), step) == p,
{
}

/// Index of the first label equal to `w`.
pub open spec fn first_label_index(labels: Seq<Seq<char>>, w: Seq<char>) -> Option<int>
    decreases labels.len(),
{
    if labels.len() == 0 {
        None
    } else if labels[0] == w {
        Some(0)
    } else {
        match first_label_index(labels.drop_first(), w) {
            Some(i) => Some(i + 1),
            None => None,
        }
    }
}

/// The index of the window to treat as the overlay: the one labelled
/// `main`, else the one labelled `pluely`, else the first one listed.
pub open spec fn spec_main_window_index(labels: Seq<Seq<char>>) -> Option<int> {
    match first_label_index(labels, "main"@) {
        Some(i) => Some(i),
        None => match first_label_index(labels, "pluely"@) {
            Some(i) => Some(i),
            None => if labels.len() > 0 {
                Some(0)
            } else {
                None
            },
        },
    }
}

/// The views of a list of labels.
pub open spec fn labels_view(labels: Seq<String>) -> Seq<Seq<char>> {
    labels.map_values(|l: String| l@)
}

fn first_label_index_exec(labels: &Vec<String>, w: &String) -> (r: Option<usize>)
    ensures
        match r {
            Some(i) => first_label_index(labels_view(labels@), w@) == Some(i as int),
            None => first_label_index(labels_view(labels@), w@) == None::<int>,
        },
{
    let ghost lv = labels_view(labels@);
    let mut i: usize = 0;
    while i < labels.len()
        invariant
            i <= labels@.len(),
            lv == labels_view(labels@),
            forall|k: int| 0 <= k < i ==> lv[k] != w@,
        decreases labels@.len() - i,
    {
        if labels[i] == *w {
            proof {
                lemma_first_label_found(lv, w@, i as int);
            }
            return Some(i);
        }
        i = i + 1;
    }
    proof {
        lemma_first_label_found(lv, w@, lv.len() as int);
    }
    None
}

proof fn lemma_first_label_found(labels: Seq<Seq<char>>, w: Seq<char>, i: int)
    requires
        0 <= i <= labels.len(),
        forall|k: int| 0 <= k < i ==> labels[k] != w,
        i < labels.len() ==> labels[i] == w,
    ensures
        i < labels.len() ==> first_label_index(labels, w) == Some(i),
        i == labels.len() ==> first_label_index(labels, w) == None::<int>,
    decreases labels.len(),
{
    if labels.len() > 0 && i > 0 {
        lemma_first_label_found(labels.drop_first(), w, i - 1);
    }
}

/// Picks the overlay window among the open windows' labels, as
/// `setup_main_window` does.
pub fn main_window_index(labels: &Vec<String>) -> (r: Option<usize>)
    ensures
        match r {
            Some(i) => spec_main_window_index(labels_view(labels@)) == Some(i as int) && i
                < labels@.len(),
            None => spec_main_window_index(labels_view(labels@)) == None::<int>,
        },
{
    let main = String::from_str("main");
    let pluely = String::from_str("pluely");
    match first_label_index_exec(labels, &main) {
        Some(i) => {
            proof {
                lemma_first_label_bound(labels_view(labels@), main@);
            }
            Some(i)
        },
        None => match first_label_index_exec(labels, &pluely) {
            Some(i) => {
                proof {
                    lemma_first_label_bound(labels_view(labels@), pluely@);
                }
                Some(i)
            },
            None => if labels.len() > 0 {
                Some(0)
            } else {
                None
            },
        },
    }
}

proof fn lemma_first_label_bound(labels: Seq<Seq<char>>, w: Seq<char>)
    ensures
        first_label_index(labels, w) matches Some(i) ==> 0 <= i < labels.len() && labels[i] == w,
    decreases labels.len(),
{
    if labels.len() > 0 {
        lemma_first_label_bound(labels.drop_first(), w);
    }
}

/// What to do with the dashboard window.
#[derive(Debug)]
pub enum DashboardAction {
    /// It is visible: hide it.
    Hide,
    /// It exists but is hidden: show it and give it focus.
    ShowAndFocus,
    /// It does not exist yet: create it, show it and give it focus.
    CreateShowAndFocus,
    /// Its visibility could not be read: fail with this message.
    Fail(String),
}

/// Whether `r` is what `toggle_dashboard` decides for the dashboard's
/// state `existing`: create it when missing, hide it when visible, show it
/// when hidden, and fail when its visibility could not be read.
pub open spec fn toggle_decision(existing: Option<Result<bool, String>>, r: DashboardAction) -> bool {
    match existing {
        None => r is CreateShowAndFocus,
        Some(Ok(true)) => r is Hide,
        Some(Ok(false)) => r is ShowAndFocus,
        Some(Err(e)) => r is Fail && r->Fail_0@ == "Failed to check dashboard visibility: "@ + e@,
    }
}

/// Whether the dashboard is visible once `action` has been carried out
/// successfully, when it was `before`.
pub open spec fn visible_after(action: DashboardAction, before: bool) -> bool {
    match action {
        DashboardAction::Hide => false,
        DashboardAction::ShowAndFocus => true,
        DashboardAction::CreateShowAndFocus => true,
        DashboardAction::Fail(_) => before,
    }
}

/// Two successful toggles of an existing dashboard whose visibility could
/// be read both times leave it as visible as it was, and exactly one of
/// them hides it.
pub proof fn law_toggle_twice_restores(
    visible: bool,
    first: DashboardAction,
    second: DashboardAction,
)
    requires
        toggle_decision(Some(Ok(visible)), first),
        toggle_decision(Some(Ok(visible_after(first, visible))), second),
    ensures
        visible_after(second, visible_after(first, visible)) == visible,
        (first is Hide) != (second is Hide),
{
}

/// The decision of `toggle_dashboard`, given whether the dashboard exists
/// and, if so, what asking for its visibility gave (`Ok(visible)` or the
/// error text).
pub fn toggle_dashboard_action(existing: Option<Result<bool, String>>) -> (r: DashboardAction)
    ensures
        toggle_decision(existing, r),
{
    match existing {
        None => DashboardAction::CreateShowAndFocus,
        Some(Ok(true)) => DashboardAction::Hide,
        Some(Ok(false)) => DashboardAction::ShowAndFocus,
        Some(Err(e)) => {
            let mut msg = String::from_str("Failed to check dashboard visibility: ");
            msg.append(e.as_str());
            DashboardAction::Fail(msg)
        },
    }
}

/// The decision of `show_dashboard_window` (and `open_dashboard`): show
/// and focus an existing dashboard, otherwise create it first.
pub fn show_dashboard_action(exists: bool) -> (r: DashboardAction)
    ensures
        exists ==> r is ShowAndFocus,
        !exists ==> r is CreateShowAndFocus,
{
    if exists {
        DashboardAction::ShowAndFocus
    } else {
        DashboardAction::CreateShowAndFocus
    }
}

/// How the dashboard window is built.
#[derive(Debug)]
pub struct DashboardConfig {
    pub label: String,
    pub url: String,
    pub title: String,
    pub centered: bool,
    pub decorations: bool,
    pub width: u32,
    pub height: u32,
    pub min_width: u32,
    pub min_height: u32,
    pub content_protected: bool,
    pub visible: bool,
    /// macOS only: hide the title text and draw the title bar over the content.
    pub overlay_title_bar: bool,
    /// macOS only: where the window buttons sit, in logical pixels.
    pub traffic_light_position: Option<(u32, u32)>,
}

/// The dashboard's settings: a centred, decorated, content-protected
/// window labelled `dashboard` showing `/chats`, at least 800 by 600; on
/// macOS 1200 by 800, shown at once, with an overlaid title bar; elsewhere
/// 800 by 600 and hidden until shown.
pub fn dashboard_window_config(macos: bool) -> (r: DashboardConfig)
    ensures
        r.label@ == "dashboard"@,
        r.url@ == "/chats"@,
        r.title@ == "Pluely - Dashboard"@,
        r.centered && r.decorations && r.content_protected,
        r.min_width == 800 && r.min_height == 600,
        macos ==> r.width == 1200 && r.height == 800 && r.visible && r.overlay_title_bar
            && r.traffic_light_position == Some((14u32, 18u32)),
        !macos ==> r.width == 800 && r.height == 600 && !r.visible && !r.overlay_title_bar
            && r.traffic_light_position == None::<(u32, u32)>,
{
    DashboardConfig {
        label: String::from_str("dashboard"),
        url: String::from_str("/chats"),
        title: String::from_str("Pluely - Dashboard"),
        centered: true,
        decorations: true,
        width: if macos { 1200 } else { 800 },
        height: if macos { 800 } else { 600 },
        min_width: 800,
        min_height: 600,
        content_protected: true,
        visible: macos,
        overlay_title_bar: macos,
        traffic_light_position: if macos { Some((14, 18)) } else { None },
    }
}

} // verus!
