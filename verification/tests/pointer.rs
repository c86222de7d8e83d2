use cascade::entities::Command;
use cascade::entities::Gesture;
use cascade::entities::GestureType;
use cascade::entities::WindowEdges;
use cascade::entities::WindowInfo;
use cascade::geometry::Displacement;
use cascade::geometry::Point;
use cascade::geometry::Rectangle;
use cascade::geometry::Size;
use cascade::pointer::resize_extents;
use cascade::pointer::PointerAction;
use cascade::pointer::PointerEvent;
use cascade::state::WindowManager;

fn zone(left: i32, top: i32, width: i32, height: i32) -> Rectangle {
    Rectangle::new(Point::new(left, top), Size::new(width, height))
}

fn surface(width: i32) -> WindowInfo {
    WindowInfo {
        can_receive_focus: true,
        maximized: false,
        fullscreen: false,
        resizing: false,
        has_parent: false,
        blocked_title: false,
        extents: zone(0, 0, width, 800),
        max_width: i32::MAX,
        max_height: i32::MAX,
    }
}

fn event(action: PointerAction, x: i32, y: i32) -> PointerEvent {
    PointerEvent { action, position: Point::new(x, y), over_window: None }
}

fn edges(top: bool, bottom: bool, left: bool, right: bool) -> WindowEdges {
    WindowEdges { top, bottom, left, right }
}

fn one_monitor() -> WindowManager {
    let mut wm = WindowManager::new(1, 1);
    wm.advise_application_zone_create(zone(0, 0, 1000, 800)).expect("monitor");
    wm
}

#[test]
fn gesture_is_granted_to_the_focused_window_only() {
    let mut wm = one_monitor();
    let a = wm.handle_window_ready(surface(400)).unwrap();
    let b = wm.handle_window_ready(surface(400)).unwrap();
    assert!(!wm.handle_request_move(a, false, Point::new(10, 10)));
    assert!(!wm.handle_request_resize(a, false, Point::new(10, 10), edges(false, false, false, true)));
    assert!(!wm.handle_pointer_request(99, true, Point::new(0, 0), edges(false, false, false, false), GestureType::Move));
    assert!(!wm.handle_request_move(b, false, Point::new(10, 10)));
    assert_eq!(wm.gesture, Gesture::Idle);
    assert_eq!(wm.gesture.window(), None);
    assert!(wm.handle_request_move(a, true, Point::new(10, 10)));
    assert_eq!(wm.gesture.window(), Some(a));
    assert!(wm.handle_request_move(b, true, Point::new(450, 30)));
    assert_eq!(wm.gesture.window(), Some(b));
    match wm.gesture {
        Gesture::Move(gesture) => assert_eq!(gesture.drag_anchor, Displacement::new(50, 30)),
        _ => panic!("no move gesture"),
    }
}

#[test]
fn gesture_restores_the_window_first() {
    let mut wm = one_monitor();
    let mut info = surface(400);
    info.maximized = true;
    let a = wm.handle_window_ready(info).unwrap();
    wm.take_commands();
    assert!(wm.handle_request_resize(a, true, Point::new(400, 400), edges(false, false, false, true)));
    assert_eq!(
        wm.take_commands(),
        vec![
            Command::SetMaximized { window: a, maximized: false },
            Command::SetResizing { window: a, resizing: true },
        ]
    );
    let w = wm.get_window(a).unwrap();
    assert!(!w.info.maximized);
    assert!(w.info.resizing);
    match wm.gesture {
        Gesture::Resize(gesture) => {
            assert_eq!(gesture.start_cursor, Point::new(400, 400));
            assert_eq!(gesture.original_extents, zone(0, 0, 400, 800));
        }
        _ => panic!("no resize gesture"),
    }
    assert!(wm.handle_request_move(a, true, Point::new(5, 5)));
    assert!(wm.take_commands().is_empty());
}

#[test]
fn motion_without_gesture_is_passed_on() {
    let mut wm = one_monitor();
    wm.handle_window_ready(surface(400)).unwrap();
    wm.take_commands();
    assert!(!wm.handle_pointer_event(&event(PointerAction::Motion, 10, 10)));
    assert!(!wm.handle_pointer_event(&event(PointerAction::ButtonUp, 10, 10)));
    assert_eq!(wm.old_cursor, Point::new(10, 10));
    assert!(wm.take_commands().is_empty());
}

#[test]
fn press_focuses_the_window_under_the_pointer() {
    let mut wm = one_monitor();
    let a = wm.handle_window_ready(surface(400)).unwrap();
    let b = wm.handle_window_ready(surface(400)).unwrap();
    assert_eq!(wm.active_window(), Some(b));
    let press = PointerEvent {
        action: PointerAction::ButtonDown,
        position: Point::new(10, 300),
        over_window: Some(a),
    };
    assert!(!wm.handle_pointer_event(&press));
    assert_eq!(wm.active_window(), Some(a));
    assert!(!wm.handle_pointer_event(&event(PointerAction::ButtonDown, 10, 300)));
    assert_eq!(wm.active_window(), Some(a));
}

#[test]
fn pointer_over_another_monitor_focuses_its_workspace() {
    let mut wm = one_monitor();
    wm.advise_application_zone_create(zone(1000, 0, 1000, 800)).unwrap();
    assert_eq!(wm.active_workspace(), Some(1));
    assert!(!wm.handle_pointer_event(&event(PointerAction::Motion, 1500, 10)));
    assert_eq!(wm.active_workspace(), Some(2));
    assert!(!wm.handle_pointer_event(&event(PointerAction::Motion, 5000, 10)));
    assert_eq!(wm.active_workspace(), Some(2));
}

#[test]
fn move_in_the_title_bar_band_scrolls() {
    let mut wm = one_monitor();
    let a = wm.handle_window_ready(surface(600)).unwrap();
    let b = wm.handle_window_ready(surface(600)).unwrap();
    assert_eq!(wm.get_workspace(1).unwrap().scroll_left(), 200);
    wm.handle_pointer_event(&event(PointerAction::Motion, 700, 50));
    assert!(wm.handle_request_move(b, true, Point::new(700, 50)));
    assert!(wm.handle_pointer_event(&event(PointerAction::Motion, 690, 99)));
    assert_eq!(wm.get_workspace(1).unwrap().scroll_left(), 210);
    assert_eq!(wm.get_window(a).unwrap().rendered.left(), -210);
    assert_eq!(wm.get_window(b).unwrap().rendered.left(), 390);
    assert!(!wm.get_window(b).unwrap().is_dragged);
    assert!(wm.handle_pointer_event(&event(PointerAction::Motion, 740, 0)));
    assert_eq!(wm.get_workspace(1).unwrap().scroll_left(), 200);
}

#[test]
fn dragged_window_follows_the_pointer() {
    let mut wm = one_monitor();
    let a = wm.handle_window_ready(surface(400)).unwrap();
    assert!(wm.handle_request_move(a, true, Point::new(30, 120)));
    wm.take_commands();
    assert!(wm.handle_pointer_event(&event(PointerAction::Motion, 130, 400)));
    assert_eq!(
        wm.take_commands(),
        vec![Command::MoveTo { window: a, top_left: Point::new(100, 280) }]
    );
    let w = wm.get_window(a).unwrap();
    assert!(w.is_dragged);
    assert_eq!(w.rendered, zone(100, 280, 400, 800));
    assert_eq!((w.x, w.y), (0, 0));

    wm.arrange_windows_workspace(1);
    assert!(wm.take_commands().is_empty());
    wm.arrange_windows_workspace_options(1, true);
    assert_eq!(wm.get_window(a).unwrap().rendered, zone(0, 0, 400, 800));
    assert_eq!(wm.animation_state.running_animations.len(), 1);

    assert!(wm.handle_pointer_event(&event(PointerAction::Motion, 130, 400)));
    assert!(wm.handle_pointer_event(&event(PointerAction::ButtonUp, 130, 400)));
    assert_eq!(wm.gesture, Gesture::Idle);
    let w = wm.get_window(a).unwrap();
    assert!(!w.is_dragged);
    assert_eq!(w.rendered, zone(0, 0, 400, 800));
}

#[test]
fn dragged_window_swaps_to_the_left() {
    let mut wm = one_monitor();
    let a = wm.handle_window_ready(surface(400)).unwrap();
    let b = wm.handle_window_ready(surface(200)).unwrap();
    assert!(wm.handle_request_move(b, true, Point::new(450, 300)));
    assert!(wm.handle_pointer_event(&event(PointerAction::Motion, 300, 300)));
    assert_eq!(wm.get_workspace(1).unwrap().windows(), &vec![a, b]);
    assert!(wm.handle_pointer_event(&event(PointerAction::Motion, 299, 300)));
    assert_eq!(wm.get_workspace(1).unwrap().windows(), &vec![b, a]);
    assert_eq!(wm.get_window(a).unwrap().x, 200);
    assert_eq!(wm.get_window(b).unwrap().x, 0);
}

#[test]
fn resize_extents_by_edge() {
    let original = zone(100, 200, 400, 300);
    let by = Displacement::new(30, -20);
    assert_eq!(resize_extents(&original, &edges(false, false, false, false), by), original);
    assert_eq!(resize_extents(&original, &edges(true, false, false, false), by), zone(100, 180, 400, 320));
    assert_eq!(resize_extents(&original, &edges(false, true, false, false), by), zone(100, 200, 400, 280));
    assert_eq!(resize_extents(&original, &edges(false, false, true, false), by), zone(130, 200, 370, 300));
    assert_eq!(resize_extents(&original, &edges(false, false, false, true), by), zone(100, 200, 430, 300));
    assert_eq!(resize_extents(&original, &edges(true, true, true, true), by), zone(130, 180, 370, 320));
}

#[test]
fn resize_gesture_sets_the_extents() {
    let mut wm = one_monitor();
    let a = wm.handle_window_ready(surface(400)).unwrap();
    let b = wm.handle_window_ready(surface(400)).unwrap();
    wm.focus_window(Some(a));
    assert!(wm.handle_request_resize(a, true, Point::new(400, 400), edges(false, false, false, true)));
    wm.take_commands();
    assert!(wm.handle_pointer_event(&event(PointerAction::Motion, 450, 410)));
    assert_eq!(wm.get_window(a).unwrap().size, Size::new(450, 800));
    assert_eq!(wm.get_window(b).unwrap().x, 450);
    assert_eq!(
        wm.take_commands()[0],
        Command::SetExtents { window: a, extents: zone(0, 0, 450, 800) }
    );
    assert!(wm.handle_pointer_event(&event(PointerAction::Motion, 380, 410)));
    assert_eq!(wm.get_window(a).unwrap().size.width, 380);
    assert!(wm.handle_pointer_event(&event(PointerAction::ButtonUp, 380, 410)));
    assert_eq!(wm.gesture, Gesture::Idle);
}

#[test]
fn resize_from_the_left_scrolls() {
    let mut wm = one_monitor();
    let a = wm.handle_window_ready(surface(400)).unwrap();
    assert!(wm.handle_request_resize(a, true, Point::new(0, 400), edges(false, false, true, false)));
    assert!(wm.handle_pointer_event(&event(PointerAction::Motion, 30, 400)));
    assert_eq!(wm.get_window(a).unwrap().size.width, 370);
    assert_eq!(wm.get_workspace(1).unwrap().scroll_left(), -30);
    assert_eq!(wm.get_window(a).unwrap().rendered, zone(30, 0, 370, 800));
}
