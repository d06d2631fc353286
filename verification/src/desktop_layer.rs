//! Decisions and diagnostics for placing the widget in the desktop layer
//! behind the icons (Windows).
//!
//! The window-system calls themselves (finding the shell windows,
//! reparenting, subclassing the window procedure) are made by the caller;
//! this module holds what they are decided and reported by: which window
//! becomes the parent, which style bits the widget gets, and the text of
//! every diagnostic log line.
use vstd::prelude::*;
use crate::text::{
    append_padded, bool_text, decimal, format_bool, format_decimal, format_hex_padded,
    format_signed, hex_upper, pad_left, signed_decimal,
};

verus! {

// ---------------------------------------------------------------------
// Window-system constants
// ---------------------------------------------------------------------

/// Message that asks the shell's Progman window to create the WorkerW
/// layer behind the desktop icons.
pub const SPAWN_WORKERW: u32 = 0x052C;

pub const SWP_NOSIZE: u32 = 0x0001;
pub const SWP_NOMOVE: u32 = 0x0002;
pub const SWP_NOACTIVATE: u32 = 0x0010;
pub const SWP_FRAMECHANGED: u32 = 0x0020;
pub const SWP_SHOWWINDOW: u32 = 0x0040;
pub const SWP_HIDEWINDOW: u32 = 0x0080;

pub const WS_CHILD: u32 = 0x4000_0000;
pub const WS_POPUP: u32 = 0x8000_0000;

pub const WM_MOVE: u32 = 0x0003;
pub const WM_SIZE: u32 = 0x0005;
pub const WM_ACTIVATE: u32 = 0x0006;
pub const WM_SHOWWINDOW: u32 = 0x0018;
pub const WM_ACTIVATEAPP: u32 = 0x001C;
pub const WM_WINDOWPOSCHANGING: u32 = 0x0046;
pub const WM_WINDOWPOSCHANGED: u32 = 0x0047;
pub const WM_DISPLAYCHANGE: u32 = 0x007E;
pub const WM_NCACTIVATE: u32 = 0x0086;
pub const WM_COMMAND: u32 = 0x0111;
pub const WM_SYSCOMMAND: u32 = 0x0112;

// ---------------------------------------------------------------------
// Reparenting
// ---------------------------------------------------------------------

/// The style a window gets once it is reparented: a child window, no
/// longer a popup, every other style bit as it was.
pub open spec fn child_style_of(previous: u32) -> u32 {
    (previous & !WS_POPUP) | WS_CHILD
}

/// The corrected style for the reparented widget.
pub fn child_window_style(previous: u32) -> (style: u32)
    ensures
        style == child_style_of(previous),
        style & WS_CHILD == WS_CHILD,
        style & WS_POPUP == 0,
        style & !(WS_CHILD | WS_POPUP) == previous & !(WS_CHILD | WS_POPUP),
{
    let style = (previous & !WS_POPUP) | WS_CHILD;
    assert(style & 0x4000_0000u32 == 0x4000_0000u32) by (bit_vector)
        requires
            style == (previous & !0x8000_0000u32) | 0x4000_0000u32,
    ;
    assert(style & 0x8000_0000u32 == 0) by (bit_vector)
        requires
            style == (previous & !0x8000_0000u32) | 0x4000_0000u32,
    ;
    assert(style & !(0x4000_0000u32 | 0x8000_0000u32) == previous & !(0x4000_0000u32
        | 0x8000_0000u32)) by (bit_vector)
        requires
            style == (previous & !0x8000_0000u32) | 0x4000_0000u32,
    ;
    style
}

/// The window the widget is reparented into, and how it was found.
#[derive(Clone, Copy, Debug)]
pub enum ReparentTarget<H> {
    /// A WorkerW next to a Progman that holds the desktop icons itself.
    BesideProgman(H),
    /// The WorkerW next to whichever top-level window holds the icons.
    BesideIconOwner(H),
    /// No separate WorkerW exists: Progman itself.
    Progman(H),
}

impl<H> ReparentTarget<H> {
    /// The window handle this target stands for.
    pub open spec fn handle(self) -> H {
        match self {
            ReparentTarget::BesideProgman(h) => h,
            ReparentTarget::BesideIconOwner(h) => h,
            ReparentTarget::Progman(h) => h,
        }
    }
}

/// Picks the parent for the widget: the WorkerW beside Progman when
/// Progman holds the icons, else the WorkerW beside the window that holds
/// them, else Progman itself.
pub fn choose_reparent_target<H>(progman: H, beside_progman: Option<H>, beside_icon_owner: Option<H>) -> (target: ReparentTarget<H>)
    ensures
        target == (match beside_progman {
            Some(h) => ReparentTarget::BesideProgman(h),
            None => match beside_icon_owner {
                Some(h) => ReparentTarget::BesideIconOwner(h),
                None => ReparentTarget::Progman(progman),
            },
        }),
{
    match beside_progman {
        Some(h) => ReparentTarget::BesideProgman(h),
        None => match beside_icon_owner {
            Some(h) => ReparentTarget::BesideIconOwner(h),
            None => ReparentTarget::Progman(progman),
        },
    }
}

// ---------------------------------------------------------------------
// Log lines
// ---------------------------------------------------------------------

/// A diagnostic line: a fixed tag, the milliseconds since the first line
/// right-aligned in seven columns, and the message.
pub open spec fn log_line_text(elapsed_ms: nat, message: Seq<char>) -> Seq<char> {
    "[Chronon/DesktopLayer]["@ + pad_left(decimal(elapsed_ms), 7, ' ') + "ms] "@ + message
}

/// The line written for `message` at `elapsed_ms` milliseconds.
pub fn log_line(elapsed_ms: u128, message: &str) -> (line: String)
    ensures
        line@ == log_line_text(elapsed_ms as nat, message@),
{
    let mut line = String::from_str("[Chronon/DesktopLayer][");
    let digits = format_decimal(elapsed_ms);
    append_padded(&mut line, digits.as_str(), 7, ' ');
    line.append("ms] ");
    line.append(message);
    line
}

// ---------------------------------------------------------------------
// SWP_ flags
// ---------------------------------------------------------------------

/// `parts` joined with `|` between them.
pub open spec fn join_bar(parts: Seq<Seq<char>>) -> Seq<char>
    decreases parts.len(),
{
    if parts.len() == 0 {
        seq![]
    } else if parts.len() == 1 {
        parts[0]
    } else {
        join_bar(parts.drop_last()) + seq!['|'] + parts.last()
    }
}

pub open spec fn add_if(parts: Seq<Seq<char>>, set: bool, name: Seq<char>) -> Seq<Seq<char>> {
    if set {
        parts.push(name)
    } else {
        parts
    }
}

/// The names of the flags that are set, in the order they are reported.
pub open spec fn swp_flag_names(flags: u32) -> Seq<Seq<char>> {
    let p0 = Seq::<Seq<char>>::empty();
    let p1 = add_if(p0, flags & SWP_HIDEWINDOW != 0, "HIDEWINDOW"@);
    let p2 = add_if(p1, flags & SWP_SHOWWINDOW != 0, "SHOWWINDOW"@);
    let p3 = add_if(p2, flags & SWP_NOACTIVATE != 0, "NOACTIVATE"@);
    let p4 = add_if(p3, flags & SWP_NOMOVE != 0, "NOMOVE"@);
    let p5 = add_if(p4, flags & SWP_NOSIZE != 0, "NOSIZE"@);
    add_if(p5, flags & SWP_FRAMECHANGED != 0, "FRAMECHANGED"@)
}

/// Nothing when no reported flag is set, otherwise ` [` + the names
/// joined by `|` + `]`.
pub open spec fn swp_flags_text(flags: u32) -> Seq<char> {
    let names = swp_flag_names(flags);
    if names.len() == 0 {
        seq![]
    } else {
        " ["@ + join_bar(names) + "]"@
    }
}

/// The reported `SWP_` flags, in the order they are listed, with their
/// Win32 names.
pub open spec fn win32_swp_flags() -> Seq<(u32, Seq<char>)> {
    seq![
        (0x0080u32, "HIDEWINDOW"@),
        (0x0040u32, "SHOWWINDOW"@),
        (0x0010u32, "NOACTIVATE"@),
        (0x0002u32, "NOMOVE"@),
        (0x0001u32, "NOSIZE"@),
        (0x0020u32, "FRAMECHANGED"@),
    ]
}

/// Any flags combined with a reported flag's bit report that flag's Win32
/// name, and a flag word holding just one reported bit is reported as
/// that name alone; no two reported flags share a name.
pub proof fn lemma_swp_flag_names(flags: u32, k: int, m: int)
    requires
        0 <= k < 6,
        0 <= m < 6,
    ensures
        flags & win32_swp_flags()[k].0 != 0 ==> swp_flag_names(flags).contains(win32_swp_flags()[k].1),
        swp_flags_text(win32_swp_flags()[k].0) == " ["@ + win32_swp_flags()[k].1 + "]"@,
        k != m ==> win32_swp_flags()[k].1 != win32_swp_flags()[m].1,
{
    reveal_strlit("HIDEWINDOW");
    reveal_strlit("SHOWWINDOW");
    reveal_strlit("NOACTIVATE");
    reveal_strlit("NOMOVE");
    reveal_strlit("NOSIZE");
    reveal_strlit("FRAMECHANGED");
    let t = win32_swp_flags();
    assert(t[0].1.len() == 10 && t[0].1[0] == 'H');
    assert(t[1].1.len() == 10 && t[1].1[0] == 'S');
    assert(t[2].1.len() == 10 && t[2].1[0] == 'N');
    assert(t[3].1.len() == 6 && t[3].1[2] == 'M');
    assert(t[4].1.len() == 6 && t[4].1[2] == 'S');
    assert(t[5].1.len() == 12);
    let bit = t[k].0;
    assert(0x80u32 & 0x80u32 != 0 && 0x80u32 & 0x40u32 == 0 && 0x80u32 & 0x10u32 == 0 && 0x80u32 & 0x02u32 == 0 && 0x80u32 & 0x01u32 == 0 && 0x80u32 & 0x20u32 == 0) by (bit_vector);
    assert(0x40u32 & 0x80u32 == 0 && 0x40u32 & 0x40u32 != 0 && 0x40u32 & 0x10u32 == 0 && 0x40u32 & 0x02u32 == 0 && 0x40u32 & 0x01u32 == 0 && 0x40u32 & 0x20u32 == 0) by (bit_vector);
    assert(0x10u32 & 0x80u32 == 0 && 0x10u32 & 0x40u32 == 0 && 0x10u32 & 0x10u32 != 0 && 0x10u32 & 0x02u32 == 0 && 0x10u32 & 0x01u32 == 0 && 0x10u32 & 0x20u32 == 0) by (bit_vector);
    assert(0x02u32 & 0x80u32 == 0 && 0x02u32 & 0x40u32 == 0 && 0x02u32 & 0x10u32 == 0 && 0x02u32 & 0x02u32 != 0 && 0x02u32 & 0x01u32 == 0 && 0x02u32 & 0x20u32 == 0) by (bit_vector);
    assert(0x01u32 & 0x80u32 == 0 && 0x01u32 & 0x40u32 == 0 && 0x01u32 & 0x10u32 == 0 && 0x01u32 & 0x02u32 == 0 && 0x01u32 & 0x01u32 != 0 && 0x01u32 & 0x20u32 == 0) by (bit_vector);
    assert(0x20u32 & 0x80u32 == 0 && 0x20u32 & 0x40u32 == 0 && 0x20u32 & 0x10u32 == 0 && 0x20u32 & 0x02u32 == 0 && 0x20u32 & 0x01u32 == 0 && 0x20u32 & 0x20u32 != 0) by (bit_vector);
    let names = swp_flag_names(bit);
    assert(names =~= seq![t[k].1]);
    assert(join_bar(names) == t[k].1);
    if flags & bit != 0 {
        let p0 = Seq::<Seq<char>>::empty();
        let p1 = add_if(p0, flags & SWP_HIDEWINDOW != 0, "HIDEWINDOW"@);
        let p2 = add_if(p1, flags & SWP_SHOWWINDOW != 0, "SHOWWINDOW"@);
        let p3 = add_if(p2, flags & SWP_NOACTIVATE != 0, "NOACTIVATE"@);
        let p4 = add_if(p3, flags & SWP_NOMOVE != 0, "NOMOVE"@);
        let p5 = add_if(p4, flags & SWP_NOSIZE != 0, "NOSIZE"@);
        let p6 = add_if(p5, flags & SWP_FRAMECHANGED != 0, "FRAMECHANGED"@);
        assert(p6 == swp_flag_names(flags));
        if k == 0 {
            assert(p1.contains(t[0].1)) by { assert(p1[p1.len() - 1] == t[0].1); }
            assert(p6.contains(t[0].1)) by { lemma_add_if_keeps(p1, p2, p3, p4, p5, p6, t[0].1); }
        } else if k == 1 {
            assert(p2[p2.len() - 1] == t[1].1);
            assert(p6.contains(t[1].1)) by { lemma_add_if_keeps(p2, p2, p3, p4, p5, p6, t[1].1); }
        } else if k == 2 {
            assert(p3[p3.len() - 1] == t[2].1);
            assert(p6.contains(t[2].1)) by { lemma_add_if_keeps(p3, p3, p3, p4, p5, p6, t[2].1); }
        } else if k == 3 {
            assert(p4[p4.len() - 1] == t[3].1);
            assert(p6.contains(t[3].1)) by { lemma_add_if_keeps(p4, p4, p4, p4, p5, p6, t[3].1); }
        } else if k == 4 {
            assert(p5[p5.len() - 1] == t[4].1);
            assert(p6.contains(t[4].1)) by { lemma_add_if_keeps(p5, p5, p5, p5, p5, p6, t[4].1); }
        } else {
            assert(p6[p6.len() - 1] == t[5].1);
        }
    }
}

/// Names already listed stay listed as more flags are added.
proof fn lemma_add_if_keeps(
    a: Seq<Seq<char>>,
    b: Seq<Seq<char>>,
    c: Seq<Seq<char>>,
    d: Seq<Seq<char>>,
    e: Seq<Seq<char>>,
    f: Seq<Seq<char>>,
    name: Seq<char>,
)
    requires
        a.contains(name),
        b == a || exists|x: Seq<char>| b == a.push(x),
        c == b || exists|x: Seq<char>| c == b.push(x),
        d == c || exists|x: Seq<char>| d == c.push(x),
        e == d || exists|x: Seq<char>| e == d.push(x),
        f == e || exists|x: Seq<char>| f == e.push(x),
    ensures
        f.contains(name),
{
    let i = choose|i: int| 0 <= i < a.len() && a[i] == name;
    assert(b[i] == name);
    assert(c[i] == name);
    assert(d[i] == name);
    assert(e[i] == name);
    assert(f[i] == name);
}

/// The flag text is empty exactly when none of the six reported flags is
/// set.
pub proof fn lemma_swp_text_empty(flags: u32)
    ensures
        swp_flags_text(flags).len() == 0 <==> flags & 0xF3 == 0,
{
    assert(flags & 0xF3 == 0 <==> (flags & 0x80 == 0 && flags & 0x40 == 0 && flags & 0x10 == 0
        && flags & 0x02 == 0 && flags & 0x01 == 0 && flags & 0x20 == 0)) by (bit_vector);
    reveal_strlit(" [");
    let names = swp_flag_names(flags);
    if names.len() != 0 {
        assert((" ["@ + join_bar(names) + "]"@).len() >= 2);
    }
}

fn add_flag_name(joined: &mut String, Ghost(parts): Ghost<Seq<Seq<char>>>, first: bool, set: bool, name: &str)
    requires
        old(joined)@ == join_bar(parts),
        first == (parts.len() == 0),
    ensures
        final(joined)@ == join_bar(add_if(parts, set, name@)),
{
    if set {
        let ghost next = parts.push(name@);
        assert(next.drop_last() =~= parts);
        if !first {
            joined.append("|");
            proof {
                reveal_strlit("|");
            }
        }
        joined.append(name);
        assert(joined@ =~= join_bar(next));
    }
}

/// Names the SWP_ flags that matter when watching the widget being hidden,
/// shown, moved or re-stacked.
pub fn decode_swp_flags(flags: u32) -> (text: String)
    ensures
        text@ == swp_flags_text(flags),
{
    let mut joined = String::new();
    let ghost p0 = Seq::<Seq<char>>::empty();
    assert(joined@ =~= join_bar(p0));
    let set = flags & SWP_HIDEWINDOW != 0;
    add_flag_name(&mut joined, Ghost(p0), true, set, "HIDEWINDOW");
    let ghost p1 = add_if(p0, set, "HIDEWINDOW"@);
    let mut count: usize = if set { 1 } else { 0 };

    let set = flags & SWP_SHOWWINDOW != 0;
    add_flag_name(&mut joined, Ghost(p1), count == 0, set, "SHOWWINDOW");
    let ghost p2 = add_if(p1, set, "SHOWWINDOW"@);
    if set {
        count = count + 1;
    }
    let set = flags & SWP_NOACTIVATE != 0;
    add_flag_name(&mut joined, Ghost(p2), count == 0, set, "NOACTIVATE");
    let ghost p3 = add_if(p2, set, "NOACTIVATE"@);
    if set {
        count = count + 1;
    }
    let set = flags & SWP_NOMOVE != 0;
    add_flag_name(&mut joined, Ghost(p3), count == 0, set, "NOMOVE");
    let ghost p4 = add_if(p3, set, "NOMOVE"@);
    if set {
        count = count + 1;
    }
    let set = flags & SWP_NOSIZE != 0;
    add_flag_name(&mut joined, Ghost(p4), count == 0, set, "NOSIZE");
    let ghost p5 = add_if(p4, set, "NOSIZE"@);
    if set {
        count = count + 1;
    }
    let set = flags & SWP_FRAMECHANGED != 0;
    add_flag_name(&mut joined, Ghost(p5), count == 0, set, "FRAMECHANGED");
    let ghost p6 = add_if(p5, set, "FRAMECHANGED"@);
    if set {
        count = count + 1;
    }
    assert(p6 == swp_flag_names(flags));
    assert(count == p6.len());
    if count == 0 {
        String::new()
    } else {
        let mut text = String::from_str(" [");
        text.append(joined.as_str());
        text.append("]");
        text
    }
}


// ---------------------------------------------------------------------
// Window messages
// ---------------------------------------------------------------------

/// The fields of a `WINDOWPOS` that the log reports; `insert_after` is the
/// already-formatted handle of the window it is placed after.
#[derive(Clone, Debug)]
pub struct WindowPosFields {
    pub x: i32,
    pub y: i32,
    pub cx: i32,
    pub cy: i32,
    pub insert_after: String,
    pub flags: u32,
}

/// Low 16 bits of a packed pair.
pub open spec fn low_word(raw: u32) -> u32 {
    raw & 0xFFFF
}

/// High 16 bits of a packed pair.
pub open spec fn high_word(raw: u32) -> u32 {
    (raw >> 16) & 0xFFFF
}

/// Why a window is being shown or hidden (the `lParam` of `WM_SHOWWINDOW`).
pub open spec fn show_reason_text(lparam: isize) -> Seq<char> {
    if lparam == 0 {
        "ShowWindow/CreateWindow call by the app itself"@
    } else if lparam == 1 {
        "SW_PARENTCLOSING"@
    } else if lparam == 2 {
        "SW_OTHERZOOM"@
    } else if lparam == 3 {
        "SW_PARENTOPENING"@
    } else if lparam == 4 {
        "SW_OTHERUNZOOM"@
    } else {
        "unknown ("@ + signed_decimal(lparam as int) + ")"@
    }
}

pub open spec fn show_window_text(wparam: usize, lparam: isize) -> Seq<char> {
    "WM_SHOWWINDOW      being_shown="@ + bool_text(wparam != 0) + " reason="@ + show_reason_text(lparam)
}

pub open spec fn window_pos_text(changing: bool, pos: WindowPosFields) -> Seq<char> {
    (if changing {
        "WM_WINDOWPOSCHANGING"@
    } else {
        "WM_WINDOWPOSCHANGED "@
    }) + "  x="@ + signed_decimal(pos.x as int) + " y="@ + signed_decimal(pos.y as int) + " cx="@
        + signed_decimal(pos.cx as int) + " cy="@ + signed_decimal(pos.cy as int) + " insertAfter="@
        + pos.insert_after@ + " flags=0x"@ + pad_left(hex_upper(pos.flags as nat), 8, '0')
        + swp_flags_text(pos.flags)
}

/// How a window was resized (the `wParam` of `WM_SIZE`).
pub open spec fn size_kind_text(kind: u32) -> Seq<char> {
    if kind == 0 {
        "SIZE_RESTORED"@
    } else if kind == 1 {
        "SIZE_MINIMIZED"@
    } else if kind == 2 {
        "SIZE_MAXIMIZED"@
    } else if kind == 3 {
        "SIZE_MAXSHOW"@
    } else if kind == 4 {
        "SIZE_MAXHIDE"@
    } else {
        "unknown"@
    }
}

pub open spec fn size_text(wparam: usize, lparam: isize) -> Seq<char> {
    let raw = lparam as u32;
    "WM_SIZE            "@ + size_kind_text(wparam as u32) + " ("@ + decimal(low_word(raw) as nat)
        + "x"@ + decimal(high_word(raw) as nat) + ")"@
}

/// The system command, with its low four bits masked off.
pub open spec fn sys_command_of(wparam: usize) -> u32 {
    (wparam as u32) & 0xFFF0
}

pub open spec fn sys_command_name(cmd: u32) -> Seq<char> {
    if cmd == 0xF020 {
        "SC_MINIMIZE"@
    } else if cmd == 0xF120 {
        "SC_RESTORE"@
    } else if cmd == 0xF030 {
        "SC_MAXIMIZE"@
    } else if cmd == 0xF060 {
        "SC_CLOSE"@
    } else if cmd == 0xF010 {
        "SC_MOVE"@
    } else if cmd == 0xF000 {
        "SC_SIZE"@
    } else {
        "other"@
    }
}

pub open spec fn sys_command_text(wparam: usize) -> Seq<char> {
    let cmd = sys_command_of(wparam);
    "WM_SYSCOMMAND      "@ + sys_command_name(cmd) + " (0x"@ + pad_left(hex_upper(cmd as nat), 4, '0')
        + ")"@
}

pub open spec fn command_text(wparam: usize, lparam: isize) -> Seq<char> {
    let w = wparam as u32;
    "WM_COMMAND         notify=0x"@ + pad_left(hex_upper((w >> 16) as nat), 4, '0') + " id="@
        + decimal((w & 0xFFFF) as nat) + " lparam=0x"@ + pad_left(hex_upper((lparam as usize) as nat), 8, '0')
}

pub open spec fn display_change_text(wparam: usize, lparam: isize) -> Seq<char> {
    let raw = lparam as u32;
    "WM_DISPLAYCHANGE   "@ + decimal(low_word(raw) as nat) + "x"@ + decimal(high_word(raw) as nat)
        + " @ "@ + decimal(wparam as nat) + "bpp"@
}

/// Whether a window is being activated (the low word of `WM_ACTIVATE`'s
/// `wParam`).
pub open spec fn activation_state_text(state: u32) -> Seq<char> {
    if state == 0 {
        "WA_INACTIVE"@
    } else if state == 1 {
        "WA_ACTIVE"@
    } else if state == 2 {
        "WA_CLICKACTIVE"@
    } else {
        "unknown"@
    }
}

pub open spec fn activate_text(wparam: usize) -> Seq<char> {
    let w = wparam as u32;
    "WM_ACTIVATE        "@ + activation_state_text(w & 0xFFFF) + " other_window_minimized="@
        + bool_text((w >> 16) != 0)
}

pub open spec fn nc_activate_text(wparam: usize) -> Seq<char> {
    "WM_NCACTIVATE      active="@ + bool_text(wparam != 0)
}

pub open spec fn activate_app_text(wparam: usize, lparam: isize) -> Seq<char> {
    "WM_ACTIVATEAPP     activated="@ + bool_text(wparam != 0) + " other_thread_id="@
        + signed_decimal(lparam as int)
}

pub open spec fn move_text(lparam: isize) -> Seq<char> {
    let raw = lparam as u32;
    "WM_MOVE            x="@ + signed_decimal((low_word(raw) as i16) as int) + " y="@
        + signed_decimal((high_word(raw) as i16) as int)
}

/// The log line for a window message, if it is one the widget's logger
/// reports. For the two `WINDOWPOS` messages, `pos` is what the message
/// points to, and nothing is logged when it points nowhere.
pub open spec fn message_text(msg: u32, wparam: usize, lparam: isize, pos: Option<WindowPosFields>) -> Option<Seq<char>> {
    if msg == WM_SHOWWINDOW {
        Some(show_window_text(wparam, lparam))
    } else if msg == WM_WINDOWPOSCHANGING || msg == WM_WINDOWPOSCHANGED {
        match pos {
            Some(p) => Some(window_pos_text(msg == WM_WINDOWPOSCHANGING, p)),
            None => None,
        }
    } else if msg == WM_SIZE {
        Some(size_text(wparam, lparam))
    } else if msg == WM_SYSCOMMAND {
        Some(sys_command_text(wparam))
    } else if msg == WM_COMMAND {
        Some(command_text(wparam, lparam))
    } else if msg == WM_DISPLAYCHANGE {
        Some(display_change_text(wparam, lparam))
    } else if msg == WM_ACTIVATE {
        Some(activate_text(wparam))
    } else if msg == WM_NCACTIVATE {
        Some(nc_activate_text(wparam))
    } else if msg == WM_ACTIVATEAPP {
        Some(activate_app_text(wparam, lparam))
    } else if msg == WM_MOVE {
        Some(move_text(lparam))
    } else {
        None
    }
}

/// The names of the size kinds below five, in order: the Win32 `SIZE_`
/// constants zero to four.
pub open spec fn win32_size_kinds() -> Seq<Seq<char>> {
    seq!["SIZE_RESTORED"@, "SIZE_MINIMIZED"@, "SIZE_MAXIMIZED"@, "SIZE_MAXSHOW"@, "SIZE_MAXHIDE"@]
}

/// A `WM_SIZE` line names each size kind below five by its Win32 constant,
/// and no two of them alike, so a restore is never logged as a minimize.
pub proof fn lemma_size_kind_names(a: u32, b: u32)
    requires
        a < 5,
        b < 5,
    ensures
        size_kind_text(a) == win32_size_kinds()[a as int],
        a != b ==> size_kind_text(a) != size_kind_text(b),
{
    reveal_strlit("SIZE_RESTORED");
    reveal_strlit("SIZE_MINIMIZED");
    reveal_strlit("SIZE_MAXIMIZED");
    reveal_strlit("SIZE_MAXSHOW");
    reveal_strlit("SIZE_MAXHIDE");
    let names = win32_size_kinds();
    assert(names[0][5] == 'R');
    assert(names[1][5] == 'M' && names[1][6] == 'I');
    assert(names[2][5] == 'M' && names[2][6] == 'A');
    assert(names[3][8] == 'S');
    assert(names[4][8] == 'H');
    assert(names[0].len() == 13 && names[1].len() == 14 && names[2].len() == 14);
    assert(names[3].len() == 12 && names[4].len() == 12);
}

/// The names of the system commands a `WM_SYSCOMMAND` line reports, with
/// their Win32 `SC_` codes.
pub open spec fn win32_sys_commands() -> Seq<(u32, Seq<char>)> {
    seq![
        (0xF020u32, "SC_MINIMIZE"@),
        (0xF120u32, "SC_RESTORE"@),
        (0xF030u32, "SC_MAXIMIZE"@),
        (0xF060u32, "SC_CLOSE"@),
        (0xF010u32, "SC_MOVE"@),
        (0xF000u32, "SC_SIZE"@),
    ]
}

/// Each known system command is named by its Win32 constant, no two alike
/// and none as `other`.
pub proof fn lemma_sys_command_names(i: int, j: int)
    requires
        0 <= i < 6,
        0 <= j < 6,
    ensures
        sys_command_name(win32_sys_commands()[i].0) == win32_sys_commands()[i].1,
        i != j ==> sys_command_name(win32_sys_commands()[i].0) != sys_command_name(
            win32_sys_commands()[j].0,
        ),
        sys_command_name(win32_sys_commands()[i].0) != "other"@,
{
    reveal_strlit("SC_MINIMIZE");
    reveal_strlit("SC_RESTORE");
    reveal_strlit("SC_MAXIMIZE");
    reveal_strlit("SC_CLOSE");
    reveal_strlit("SC_MOVE");
    reveal_strlit("SC_SIZE");
    reveal_strlit("other");
    let t = win32_sys_commands();
    assert(t[0].1.len() == 11 && t[0].1[4] == 'I');
    assert(t[1].1.len() == 10);
    assert(t[2].1.len() == 11 && t[2].1[4] == 'A');
    assert(t[3].1.len() == 8);
    assert(t[4].1.len() == 7 && t[4].1[3] == 'M');
    assert(t[5].1.len() == 7 && t[5].1[3] == 'S');
    assert("other"@.len() == 5);
}

/// The activation states a `WM_ACTIVATE` line names: the Win32 `WA_`
/// constants zero to two.
pub open spec fn win32_activation_states() -> Seq<Seq<char>> {
    seq!["WA_INACTIVE"@, "WA_ACTIVE"@, "WA_CLICKACTIVE"@]
}

/// Each activation state below three is named by its Win32 constant, no
/// two alike.
pub proof fn lemma_activation_state_names(a: u32, b: u32)
    requires
        a < 3,
        b < 3,
    ensures
        activation_state_text(a) == win32_activation_states()[a as int],
        a != b ==> activation_state_text(a) != activation_state_text(b),
        activation_state_text(a) != "unknown"@,
{
    reveal_strlit("WA_INACTIVE");
    reveal_strlit("WA_ACTIVE");
    reveal_strlit("WA_CLICKACTIVE");
    reveal_strlit("unknown");
    let t = win32_activation_states();
    assert(t[0].len() == 11 && t[1].len() == 9 && t[2].len() == 14);
    assert("unknown"@.len() == 7);
}

/// The reasons a `WM_SHOWWINDOW` line gives for `lParam` zero to four.
pub open spec fn win32_show_reasons() -> Seq<Seq<char>> {
    seq![
        "ShowWindow/CreateWindow call by the app itself"@,
        "SW_PARENTCLOSING"@,
        "SW_OTHERZOOM"@,
        "SW_PARENTOPENING"@,
        "SW_OTHERUNZOOM"@,
    ]
}

/// Each show reason below five is named after its Win32 meaning, no two
/// alike, and any other `lParam` is reported as unknown with its value.
pub proof fn lemma_show_reason_names(a: isize, b: isize)
    requires
        0 <= a < 5,
        0 <= b < 5,
    ensures
        show_reason_text(a) == win32_show_reasons()[a as int],
        a != b ==> show_reason_text(a) != show_reason_text(b),
{
    reveal_strlit("ShowWindow/CreateWindow call by the app itself");
    reveal_strlit("SW_PARENTCLOSING");
    reveal_strlit("SW_OTHERZOOM");
    reveal_strlit("SW_PARENTOPENING");
    reveal_strlit("SW_OTHERUNZOOM");
    let t = win32_show_reasons();
    assert(t[0].len() == 46);
    assert(t[1].len() == 16 && t[1][9] == 'C');
    assert(t[2].len() == 12);
    assert(t[3].len() == 16 && t[3][9] == 'O');
    assert(t[4].len() == 14);
}

fn describe_show_window(wparam: usize, lparam: isize) -> (line: String)
    ensures
        line@ == show_window_text(wparam, lparam),
{
    let mut line = String::from_str("WM_SHOWWINDOW      being_shown=");
    line.append(format_bool(wparam != 0).as_str());
    line.append(" reason=");
    if lparam == 0 {
        line.append("ShowWindow/CreateWindow call by the app itself");
    } else if lparam == 1 {
        line.append("SW_PARENTCLOSING");
    } else if lparam == 2 {
        line.append("SW_OTHERZOOM");
    } else if lparam == 3 {
        line.append("SW_PARENTOPENING");
    } else if lparam == 4 {
        line.append("SW_OTHERUNZOOM");
    } else {
        line.append("unknown (");
        line.append(format_signed(lparam as i64).as_str());
        line.append(")");
    }
    assert(line@ =~= show_window_text(wparam, lparam));
    line
}

fn describe_window_pos(changing: bool, pos: &WindowPosFields) -> (line: String)
    ensures
        line@ == window_pos_text(changing, *pos),
{
    let mut line = if changing {
        String::from_str("WM_WINDOWPOSCHANGING")
    } else {
        String::from_str("WM_WINDOWPOSCHANGED ")
    };
    line.append("  x=");
    line.append(format_signed(pos.x as i64).as_str());
    line.append(" y=");
    line.append(format_signed(pos.y as i64).as_str());
    line.append(" cx=");
    line.append(format_signed(pos.cx as i64).as_str());
    line.append(" cy=");
    line.append(format_signed(pos.cy as i64).as_str());
    line.append(" insertAfter=");
    line.append(pos.insert_after.as_str());
    line.append(" flags=0x");
    line.append(format_hex_padded(pos.flags as u128, 8).as_str());
    line.append(decode_swp_flags(pos.flags).as_str());
    assert(line@ =~= window_pos_text(changing, *pos));
    line
}

fn describe_size(wparam: usize, lparam: isize) -> (line: String)
    ensures
        line@ == size_text(wparam, lparam),
{
    let kind = wparam as u32;
    let mut line = String::from_str("WM_SIZE            ");
    if kind == 0 {
        line.append("SIZE_RESTORED");
    } else if kind == 1 {
        line.append("SIZE_MINIMIZED");
    } else if kind == 2 {
        line.append("SIZE_MAXIMIZED");
    } else if kind == 3 {
        line.append("SIZE_MAXSHOW");
    } else if kind == 4 {
        line.append("SIZE_MAXHIDE");
    } else {
        line.append("unknown");
    }
    let raw = lparam as u32;
    line.append(" (");
    line.append(format_decimal((raw & 0xFFFF) as u128).as_str());
    line.append("x");
    line.append(format_decimal(((raw >> 16) & 0xFFFF) as u128).as_str());
    line.append(")");
    assert(line@ =~= size_text(wparam, lparam));
    line
}

fn describe_sys_command(wparam: usize) -> (line: String)
    ensures
        line@ == sys_command_text(wparam),
{
    let cmd = (wparam as u32) & 0xFFF0;
    let mut line = String::from_str("WM_SYSCOMMAND      ");
    if cmd == 0xF020 {
        line.append("SC_MINIMIZE");
    } else if cmd == 0xF120 {
        line.append("SC_RESTORE");
    } else if cmd == 0xF030 {
        line.append("SC_MAXIMIZE");
    } else if cmd == 0xF060 {
        line.append("SC_CLOSE");
    } else if cmd == 0xF010 {
        line.append("SC_MOVE");
    } else if cmd == 0xF000 {
        line.append("SC_SIZE");
    } else {
        line.append("other");
    }
    line.append(" (0x");
    line.append(format_hex_padded(cmd as u128, 4).as_str());
    line.append(")");
    assert(line@ =~= sys_command_text(wparam));
    line
}

fn describe_command(wparam: usize, lparam: isize) -> (line: String)
    ensures
        line@ == command_text(wparam, lparam),
{
    let w = wparam as u32;
    let mut line = String::from_str("WM_COMMAND         notify=0x");
    line.append(format_hex_padded((w >> 16) as u128, 4).as_str());
    line.append(" id=");
    line.append(format_decimal((w & 0xFFFF) as u128).as_str());
    line.append(" lparam=0x");
    line.append(format_hex_padded((lparam as usize) as u128, 8).as_str());
    assert(line@ =~= command_text(wparam, lparam));
    line
}

fn describe_display_change(wparam: usize, lparam: isize) -> (line: String)
    ensures
        line@ == display_change_text(wparam, lparam),
{
    let raw = lparam as u32;
    let mut line = String::from_str("WM_DISPLAYCHANGE   ");
    line.append(format_decimal((raw & 0xFFFF) as u128).as_str());
    line.append("x");
    line.append(format_decimal(((raw >> 16) & 0xFFFF) as u128).as_str());
    line.append(" @ ");
    line.append(format_decimal(wparam as u128).as_str());
    line.append("bpp");
    assert(line@ =~= display_change_text(wparam, lparam));
    line
}

fn describe_activate(wparam: usize) -> (line: String)
    ensures
        line@ == activate_text(wparam),
{
    let w = wparam as u32;
    let state = w & 0xFFFF;
    let mut line = String::from_str("WM_ACTIVATE        ");
    if state == 0 {
        line.append("WA_INACTIVE");
    } else if state == 1 {
        line.append("WA_ACTIVE");
    } else if state == 2 {
        line.append("WA_CLICKACTIVE");
    } else {
        line.append("unknown");
    }
    line.append(" other_window_minimized=");
    line.append(format_bool((w >> 16) != 0).as_str());
    assert(line@ =~= activate_text(wparam));
    line
}

fn describe_nc_activate(wparam: usize) -> (line: String)
    ensures
        line@ == nc_activate_text(wparam),
{
    let mut line = String::from_str("WM_NCACTIVATE      active=");
    line.append(format_bool(wparam != 0).as_str());
    line
}

fn describe_activate_app(wparam: usize, lparam: isize) -> (line: String)
    ensures
        line@ == activate_app_text(wparam, lparam),
{
    let mut line = String::from_str("WM_ACTIVATEAPP     activated=");
    line.append(format_bool(wparam != 0).as_str());
    line.append(" other_thread_id=");
    line.append(format_signed(lparam as i64).as_str());
    assert(line@ =~= activate_app_text(wparam, lparam));
    line
}

fn describe_move(lparam: isize) -> (line: String)
    ensures
        line@ == move_text(lparam),
{
    let raw = lparam as u32;
    let x = (raw & 0xFFFF) as i16;
    let y = ((raw >> 16) & 0xFFFF) as i16;
    let mut line = String::from_str("WM_MOVE            x=");
    line.append(format_signed(x as i64).as_str());
    line.append(" y=");
    line.append(format_signed(y as i64).as_str());
    assert(line@ =~= move_text(lparam));
    line
}

/// The log line for a window message the widget's logger reports, or
/// `None` for any other message (which is forwarded without a line).
pub fn describe_message(msg: u32, wparam: usize, lparam: isize, pos: Option<WindowPosFields>) -> (line: Option<String>)
    ensures
        line matches Some(l) ==> message_text(msg, wparam, lparam, pos) == Some(l@),
        line is None ==> message_text(msg, wparam, lparam, pos) is None,
{
    if msg == WM_SHOWWINDOW {
        Some(describe_show_window(wparam, lparam))
    } else if msg == WM_WINDOWPOSCHANGING || msg == WM_WINDOWPOSCHANGED {
        match pos {
            Some(p) => Some(describe_window_pos(msg == WM_WINDOWPOSCHANGING, &p)),
            None => None,
        }
    } else if msg == WM_SIZE {
        Some(describe_size(wparam, lparam))
    } else if msg == WM_SYSCOMMAND {
        Some(describe_sys_command(wparam))
    } else if msg == WM_COMMAND {
        Some(describe_command(wparam, lparam))
    } else if msg == WM_DISPLAYCHANGE {
        Some(describe_display_change(wparam, lparam))
    } else if msg == WM_ACTIVATE {
        Some(describe_activate(wparam))
    } else if msg == WM_NCACTIVATE {
        Some(describe_nc_activate(wparam))
    } else if msg == WM_ACTIVATEAPP {
        Some(describe_activate_app(wparam, lparam))
    } else if msg == WM_MOVE {
        Some(describe_move(lparam))
    } else {
        None
    }
}

} // verus!
