use chronon::desktop_layer::{
    child_window_style, choose_reparent_target, decode_swp_flags, describe_message, log_line,
    ReparentTarget, WindowPosFields, SPAWN_WORKERW, WM_ACTIVATE, WM_ACTIVATEAPP, WM_COMMAND,
    WM_DISPLAYCHANGE, WM_MOVE, WM_NCACTIVATE, WM_SHOWWINDOW, WM_SIZE, WM_SYSCOMMAND,
    WM_WINDOWPOSCHANGED, WM_WINDOWPOSCHANGING, WS_CHILD, WS_POPUP,
};

#[test]
fn swp_flags_none_reported() {
    assert_eq!(decode_swp_flags(0), "");
    assert_eq!(decode_swp_flags(0x0004 | 0x0008 | 0x0100), "");
}

#[test]
fn swp_flags_single_and_several() {
    assert_eq!(decode_swp_flags(0x0080), " [HIDEWINDOW]");
    assert_eq!(decode_swp_flags(0x0080 | 0x0001), " [HIDEWINDOW|NOSIZE]");
    assert_eq!(decode_swp_flags(0x0002 | 0x0010 | 0x0020), " [NOACTIVATE|NOMOVE|FRAMECHANGED]");
}

#[test]
fn swp_flags_all_in_order() {
    assert_eq!(
        decode_swp_flags(0xFFFF_FFFF),
        " [HIDEWINDOW|SHOWWINDOW|NOACTIVATE|NOMOVE|NOSIZE|FRAMECHANGED]"
    );
}

#[test]
fn child_style_sets_child_clears_popup() {
    assert_eq!(child_window_style(0x80CF_0000), 0x40CF_0000);
    assert_eq!(child_window_style(0), WS_CHILD);
    assert_eq!(child_window_style(0xFFFF_FFFF) & WS_POPUP, 0);
    assert_eq!(child_window_style(0x0000_1234), 0x4000_1234);
}

#[test]
fn reparent_target_preference() {
    assert!(matches!(choose_reparent_target(1, Some(2), Some(3)), ReparentTarget::BesideProgman(2)));
    assert!(matches!(choose_reparent_target(1, None, Some(3)), ReparentTarget::BesideIconOwner(3)));
    assert!(matches!(choose_reparent_target(1, None, None), ReparentTarget::Progman(1)));
}

#[test]
fn spawn_message_value() {
    assert_eq!(SPAWN_WORKERW, 0x052C);
}

#[test]
fn log_line_pads_elapsed_time() {
    assert_eq!(log_line(42, "hello"), "[Chronon/DesktopLayer][     42ms] hello");
    assert_eq!(log_line(12345678, "x"), "[Chronon/DesktopLayer][12345678ms] x");
    let elapsed: u128 = 0;
    assert_eq!(log_line(elapsed, "m"), format!("[Chronon/DesktopLayer][{elapsed:>7}ms] m"));
}

fn line(msg: u32, wparam: usize, lparam: isize) -> Option<String> {
    describe_message(msg, wparam, lparam, None)
}

#[test]
fn show_window_lines() {
    assert_eq!(
        line(WM_SHOWWINDOW, 1, 0).unwrap(),
        "WM_SHOWWINDOW      being_shown=true reason=ShowWindow/CreateWindow call by the app itself"
    );
    assert_eq!(
        line(WM_SHOWWINDOW, 0, 3).unwrap(),
        "WM_SHOWWINDOW      being_shown=false reason=SW_PARENTOPENING"
    );
    assert_eq!(
        line(WM_SHOWWINDOW, 0, -7).unwrap(),
        "WM_SHOWWINDOW      being_shown=false reason=unknown (-7)"
    );
}

#[test]
fn size_line() {
    let lparam = ((600u32 << 16) | 800) as isize;
    assert_eq!(line(WM_SIZE, 1, lparam).unwrap(), "WM_SIZE            SIZE_MINIMIZED (800x600)");
    assert_eq!(line(WM_SIZE, 9, 0).unwrap(), "WM_SIZE            unknown (0x0)");
}

#[test]
fn sys_command_line() {
    assert_eq!(line(WM_SYSCOMMAND, 0xF023, 0).unwrap(), "WM_SYSCOMMAND      SC_MINIMIZE (0xF020)");
    assert_eq!(line(WM_SYSCOMMAND, 0x0012, 0).unwrap(), "WM_SYSCOMMAND      other (0x0010)");
}

#[test]
fn command_line_matches_format() {
    let wparam: usize = (0x0300 << 16) | 42;
    assert_eq!(
        line(WM_COMMAND, wparam, 0x1234).unwrap(),
        "WM_COMMAND         notify=0x0300 id=42 lparam=0x00001234"
    );
    let lparam: isize = -1;
    assert_eq!(
        line(WM_COMMAND, 0, lparam).unwrap(),
        format!("WM_COMMAND         notify=0x0000 id=0 lparam=0x{:08X}", lparam)
    );
}

#[test]
fn display_change_line() {
    let lparam = ((1080u32 << 16) | 1920) as isize;
    assert_eq!(line(WM_DISPLAYCHANGE, 32, lparam).unwrap(), "WM_DISPLAYCHANGE   1920x1080 @ 32bpp");
}

#[test]
fn activation_lines() {
    assert_eq!(
        line(WM_ACTIVATE, (1 << 16) | 2, 0).unwrap(),
        "WM_ACTIVATE        WA_CLICKACTIVE other_window_minimized=true"
    );
    assert_eq!(line(WM_ACTIVATE, 0, 0).unwrap(), "WM_ACTIVATE        WA_INACTIVE other_window_minimized=false");
    assert_eq!(line(WM_NCACTIVATE, 0, 0).unwrap(), "WM_NCACTIVATE      active=false");
    assert_eq!(
        line(WM_ACTIVATEAPP, 1, 1234).unwrap(),
        "WM_ACTIVATEAPP     activated=true other_thread_id=1234"
    );
}

#[test]
fn move_line_has_signed_coordinates() {
    let y = (-5i16) as u16 as u32;
    let lparam = ((y << 16) | 10) as isize;
    assert_eq!(line(WM_MOVE, 0, lparam).unwrap(), "WM_MOVE            x=10 y=-5");
}

#[test]
fn window_pos_lines() {
    let pos = WindowPosFields {
        x: -10,
        y: 20,
        cx: 320,
        cy: 200,
        insert_after: "HWND(0x1)".to_string(),
        flags: 0x0080 | 0x0002,
    };
    assert_eq!(
        describe_message(WM_WINDOWPOSCHANGING, 0, 0, Some(pos.clone())).unwrap(),
        "WM_WINDOWPOSCHANGING  x=-10 y=20 cx=320 cy=200 insertAfter=HWND(0x1) flags=0x00000082 [HIDEWINDOW|NOMOVE]"
    );
    assert_eq!(
        describe_message(WM_WINDOWPOSCHANGED, 0, 0, Some(pos)).unwrap(),
        "WM_WINDOWPOSCHANGED   x=-10 y=20 cx=320 cy=200 insertAfter=HWND(0x1) flags=0x00000082 [HIDEWINDOW|NOMOVE]"
    );
    assert_eq!(describe_message(WM_WINDOWPOSCHANGED, 0, 0, None), None);
}

#[test]
fn other_messages_are_not_logged() {
    assert_eq!(line(0x000F, 0, 0), None);
    assert_eq!(line(0x0010, 1, 1), None);
}
