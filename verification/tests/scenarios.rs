use cascade::entities::Command;
use cascade::entities::Direction;
use cascade::entities::Gesture;
use cascade::entities::Id;
use cascade::entities::WindowInfo;
use cascade::geometry::Point;
use cascade::geometry::Rectangle;
use cascade::geometry::Size;
use cascade::pointer::PointerAction;
use cascade::pointer::PointerEvent;
use cascade::state::WindowManager;

fn zone(left: i32, top: i32, width: i32, height: i32) -> Rectangle {
    Rectangle::new(Point::new(left, top), Size::new(width, height))
}

fn surface(width: i32, height: i32, max_height: i32) -> WindowInfo {
    WindowInfo {
        can_receive_focus: true,
        maximized: false,
        fullscreen: false,
        resizing: false,
        has_parent: false,
        blocked_title: false,
        extents: zone(0, 0, width, height),
        max_width: i32::MAX,
        max_height,
    }
}

fn screen(wm: &WindowManager, window: Id) -> Rectangle {
    let w = wm.get_window(window).expect("window");
    let workspace = wm.get_workspace(w.on_workspace.expect("workspace")).expect("workspace");
    w.screen_extents(workspace.scroll_left())
}

fn motion(x: i32, y: i32) -> PointerEvent {
    PointerEvent { action: PointerAction::Motion, position: Point::new(x, y), over_window: None }
}

#[test]
fn pack_and_center_single_window() {
    let mut wm = WindowManager::new(1, 1);
    let monitor = wm.advise_application_zone_create(zone(0, 0, 1000, 800)).expect("monitor");
    let window = wm.handle_window_ready(surface(400, 600, 600)).expect("window");
    let workspace = wm.get_window(window).unwrap().on_workspace.unwrap();
    assert_eq!(wm.monitor_by_workspace(workspace).unwrap().id, monitor);
    assert_eq!(screen(&wm, window), zone(0, 100, 400, 600));
    assert_eq!(wm.get_workspace(workspace).unwrap().scroll_left(), 0);

    wm.center_window();
    assert_eq!(screen(&wm, window), zone(300, 100, 400, 600));
    assert_eq!(screen(&wm, window).bottom_right(), Point::new(700, 700));
    assert_eq!(wm.get_workspace(workspace).unwrap().scroll_left(), -300);
}

#[test]
fn scroll_to_focus_right() {
    let mut wm = WindowManager::new(1, 1);
    wm.advise_application_zone_create(zone(0, 0, 1000, 800)).expect("monitor");
    let first = wm.handle_window_ready(surface(600, 800, i32::MAX)).unwrap();
    let second = wm.handle_window_ready(surface(600, 800, i32::MAX)).unwrap();
    let third = wm.handle_window_ready(surface(600, 800, i32::MAX)).unwrap();
    let workspace = wm.get_window(first).unwrap().on_workspace.unwrap();
    assert_eq!(wm.get_workspace(workspace).unwrap().windows(), &vec![first, second, third]);

    wm.focus_window(Some(first));
    assert_eq!(wm.get_workspace(workspace).unwrap().scroll_left(), 0);
    wm.focus_window(Some(third));
    assert_eq!(wm.active_window(), Some(third));
    assert_eq!(wm.get_workspace(workspace).unwrap().scroll_left(), 800);
    assert_eq!(screen(&wm, first).left(), -800);
    assert_eq!(screen(&wm, third).left(), 400);
    assert_eq!(screen(&wm, third).right(), 1000);
}

#[test]
fn move_direction_fallback() {
    let mut wm = WindowManager::new(1, 1);
    let left = wm.advise_application_zone_create(zone(0, 0, 1000, 800)).unwrap();
    let right = wm.advise_application_zone_create(zone(1000, 0, 1000, 800)).unwrap();
    let a = wm.handle_window_ready(surface(400, 800, i32::MAX)).unwrap();
    let b = wm.handle_window_ready(surface(400, 800, i32::MAX)).unwrap();
    let from = wm.get_window(a).unwrap().on_workspace.unwrap();
    assert_eq!(wm.monitor_by_workspace(from).unwrap().id, left);

    wm.focus_workspace(wm.get_workspace_at(&Point::new(1500, 10)).unwrap());
    let c = wm.handle_window_ready(surface(400, 800, i32::MAX)).unwrap();
    let to = wm.get_window(c).unwrap().on_workspace.unwrap();
    assert_eq!(wm.monitor_by_workspace(to).unwrap().id, right);

    wm.focus_window(Some(b));
    assert_eq!(wm.get_tiled_window(b, Direction::Right), None);
    wm.move_window(Direction::Right);
    assert_eq!(wm.get_window(b).unwrap().on_workspace, Some(to));
    assert_eq!(wm.get_workspace(to).unwrap().windows(), &vec![b, c]);
    assert_eq!(wm.get_workspace(from).unwrap().windows(), &vec![a]);
    assert_eq!(wm.active_window(), Some(b));
    assert_eq!(wm.active_workspace(), Some(to));
}

#[test]
fn drag_swap() {
    let mut wm = WindowManager::new(1, 1);
    wm.advise_application_zone_create(zone(0, 0, 1000, 800)).unwrap();
    let a = wm.handle_window_ready(surface(400, 800, i32::MAX)).unwrap();
    let b = wm.handle_window_ready(surface(600, 800, i32::MAX)).unwrap();
    let workspace = wm.get_window(a).unwrap().on_workspace.unwrap();
    assert_eq!(screen(&wm, a).left(), 0);
    assert_eq!(screen(&wm, b).left(), 400);

    wm.focus_window(Some(a));
    assert!(wm.handle_request_move(a, true, Point::new(100, 300)));
    assert!(wm.handle_pointer_event(&motion(500, 300)));
    assert_eq!(wm.get_workspace(workspace).unwrap().windows(), &vec![a, b]);
    assert!(wm.handle_pointer_event(&motion(501, 300)));
    assert_eq!(wm.get_workspace(workspace).unwrap().windows(), &vec![b, a]);
    assert_eq!(wm.get_window(b).unwrap().x, 0);
    assert_eq!(wm.get_window(a).unwrap().x, 600);

    let release = PointerEvent {
        action: PointerAction::ButtonUp,
        position: Point::new(501, 300),
        over_window: Some(a),
    };
    assert!(wm.handle_pointer_event(&release));
    assert_eq!(wm.gesture, Gesture::Idle);
    assert_eq!(wm.get_window(a).unwrap().rendered.left(), 600);
}

#[test]
fn cross_monitor_transfer_during_drag() {
    let mut wm = WindowManager::new(1, 1);
    wm.advise_application_zone_create(zone(0, 0, 1000, 800)).unwrap();
    wm.advise_application_zone_create(zone(1000, 0, 1000, 800)).unwrap();
    let a = wm.handle_window_ready(surface(400, 800, i32::MAX)).unwrap();
    let b = wm.handle_window_ready(surface(400, 800, i32::MAX)).unwrap();
    let from = wm.get_window(a).unwrap().on_workspace.unwrap();
    let to = wm.get_workspace_at(&Point::new(1500, 300)).unwrap();
    wm.focus_workspace(to);
    let c = wm.handle_window_ready(surface(400, 800, i32::MAX)).unwrap();
    let d = wm.handle_window_ready(surface(400, 800, i32::MAX)).unwrap();
    assert_eq!(wm.get_workspace(to).unwrap().windows(), &vec![c, d]);
    assert_eq!(wm.get_window(d).unwrap().rendered.left(), 1400);

    wm.focus_window(Some(b));
    assert!(wm.handle_request_move(b, true, Point::new(450, 300)));
    wm.take_commands();
    assert!(wm.handle_pointer_event(&motion(1450, 300)));
    assert_eq!(wm.find_index_by_cursor(from, &Point::new(0, 0)), 0);
    assert_eq!(wm.get_workspace(from).unwrap().windows(), &vec![a]);
    assert_eq!(wm.get_workspace(to).unwrap().windows(), &vec![c, b, d]);
    assert_eq!(wm.get_window(b).unwrap().on_workspace, Some(to));
    assert_eq!(wm.get_window(a).unwrap().x, 0);
    assert_eq!(wm.get_window(d).unwrap().x, 1800);
    assert!(wm.take_commands().contains(&Command::FocusWindow { window: b }));
}

#[test]
fn resize_preset_cycle() {
    let mut wm = WindowManager::new(1, 1);
    wm.advise_application_zone_create(zone(0, 0, 1000, 800)).unwrap();
    let window = wm.handle_window_ready(surface(300, 800, i32::MAX)).unwrap();
    let steps = vec![330_000, 500_000, 660_000];
    let mut widths = Vec::new();
    for _ in 0..4 {
        wm.resize_window(&steps);
        widths.push(wm.get_window(window).unwrap().size.width);
    }
    assert_eq!(widths, vec![330, 500, 660, 330]);
    assert!(wm
        .take_commands()
        .contains(&Command::SetExtents { window, extents: zone(0, 0, 330, 800) }));
}
