use cascade::entities::Direction;
use cascade::entities::Id;
use cascade::entities::VerticalDirection;
use cascade::entities::WindowEdges;
use cascade::entities::WindowInfo;
use cascade::geometry::Point;
use cascade::geometry::Rectangle;
use cascade::geometry::Size;
use cascade::pointer::PointerAction;
use cascade::pointer::PointerEvent;
use cascade::shortcuts::Keybinding;
use cascade::shortcuts::KeyboardShortcutsConfig;
use cascade::state::WindowManager;
use std::collections::BTreeSet;

fn zone(left: i32, top: i32, width: i32, height: i32) -> Rectangle {
    Rectangle::new(Point::new(left, top), Size::new(width, height))
}

fn surface(width: i32, max_height: i32) -> WindowInfo {
    WindowInfo {
        can_receive_focus: true,
        maximized: false,
        fullscreen: false,
        resizing: false,
        has_parent: false,
        blocked_title: false,
        extents: zone(0, 0, width, 500),
        max_width: i32::MAX,
        max_height,
    }
}

fn distinct(ids: &[Id]) -> bool {
    ids.iter().collect::<BTreeSet<_>>().len() == ids.len()
}

/// Checks the cross-references of the state and what the layout promises.
fn assert_consistent(wm: &WindowManager) {
    let mru_windows: Vec<Id> = wm.mru_windows.iter().into_iter().copied().collect();
    let mru_workspaces = wm.workspace_order();
    assert!(distinct(&mru_windows));
    assert!(distinct(&mru_workspaces));
    assert!(distinct(&wm.windows.iter().map(|w| w.id).collect::<Vec<_>>()));
    assert!(distinct(&wm.workspaces.iter().map(|w| w.id()).collect::<Vec<_>>()));
    assert!(distinct(&wm.monitors.iter().map(|m| m.id).collect::<Vec<_>>()));
    assert!(distinct(&wm.monitors.iter().map(|m| m.workspace).collect::<Vec<_>>()));
    for monitor in &wm.monitors {
        assert!(wm.get_workspace(monitor.workspace).is_some());
    }
    let mut listed = Vec::new();
    for workspace in &wm.workspaces {
        assert!(mru_workspaces.contains(&workspace.id()));
        let windows = workspace.windows().clone();
        let mut in_use: Vec<Id> = workspace.mru_windows().iter().into_iter().copied().collect();
        assert!(distinct(&windows));
        assert_eq!(windows.len(), in_use.len());
        let mut sorted = windows.clone();
        sorted.sort();
        in_use.sort();
        assert_eq!(sorted, in_use);
        for window in &windows {
            assert_eq!(wm.workspace_of(*window), Some(workspace.id()));
            assert!(mru_windows.contains(window));
        }
        listed.extend(windows);
    }
    assert!(distinct(&listed));
    for window in &wm.windows {
        match window.on_workspace {
            Some(workspace) => assert!(wm.get_workspace(workspace).unwrap().has_window(window.id)),
            None => assert!(!listed.contains(&window.id)),
        }
        if let Some(monitor) = wm.monitor_by_window(window.id) {
            if window.is_tiled() {
                assert!(window.size.height <= monitor.extents.height());
                assert!(window.size.height <= window.max_height());
            }
        }
    }
}

/// Checks that the active window of every workspace on a monitor is in
/// view.
fn assert_active_in_view(wm: &WindowManager) {
    for monitor in &wm.monitors {
        let workspace = wm.get_workspace(monitor.workspace).unwrap();
        if let Some(active) = workspace.active_window() {
            let window = wm.get_window(active).unwrap();
            if window.is_tiled() && window.size.width <= monitor.extents.width() {
                let scroll_left = workspace.scroll_left();
                assert!(scroll_left <= window.x - monitor.extents.left());
                assert!(window.x + window.size.width - scroll_left <= monitor.extents.right());
            }
        }
    }
}

fn motion(x: i32, y: i32) -> PointerEvent {
    PointerEvent { action: PointerAction::Motion, position: Point::new(x, y), over_window: None }
}

#[test]
fn consistency_survives_a_session() {
    let config = KeyboardShortcutsConfig::default();
    let mut wm = WindowManager::new(1, 2);
    assert_consistent(&wm);
    wm.advise_application_zone_create(zone(0, 0, 1000, 800)).unwrap();
    wm.advise_application_zone_create(zone(1000, 0, 800, 600)).unwrap();
    assert_consistent(&wm);
    let mut windows = Vec::new();
    for (width, max_height) in [(400, i32::MAX), (600, 500), (300, i32::MAX), (700, 900)] {
        windows.push(wm.handle_window_ready(surface(width, max_height)).unwrap());
        assert_consistent(&wm);
        assert_active_in_view(&wm);
    }
    let mut popup = surface(100, i32::MAX);
    popup.has_parent = true;
    let popup = wm.handle_window_ready(popup).unwrap();
    assert_consistent(&wm);

    for binding in config.bindings().iter().chain(config.bindings().iter()) {
        assert!(wm.handle_key_press(&config, &binding.chord, true));
        assert_consistent(&wm);
        assert_active_in_view(&wm);
    }
    for direction in [Direction::Left, Direction::Left, Direction::Right, Direction::Right] {
        wm.naviate(direction);
        assert_consistent(&wm);
        wm.move_window(direction);
        assert_consistent(&wm);
        assert_active_in_view(&wm);
    }
    for direction in [VerticalDirection::Down, VerticalDirection::Up, VerticalDirection::Down] {
        wm.move_window_vertically(direction);
        assert_consistent(&wm);
        wm.switch_workspace(direction);
        assert_consistent(&wm);
    }

    wm.handle_pointer_event(&motion(200, 300));
    wm.naviate_first();
    let active = wm.active_window().unwrap();
    assert!(wm.handle_request_move(active, true, Point::new(200, 300)));
    for (x, y) in [(250, 300), (900, 300), (1200, 300), (1700, 50), (100, 300), (100, 20)] {
        assert!(wm.handle_pointer_event(&motion(x, y)));
        assert_consistent(&wm);
    }
    let release =
        PointerEvent { action: PointerAction::ButtonUp, position: Point::new(100, 20), over_window: None };
    assert!(wm.handle_pointer_event(&release));
    assert_consistent(&wm);
    assert_active_in_view(&wm);

    let active = wm.active_window().unwrap();
    let edges = WindowEdges { top: true, bottom: false, left: true, right: false };
    assert!(wm.handle_request_resize(active, true, Point::new(10, 10), edges));
    for (x, y) in [(40, 30), (-200, -50), (5000, 5000)] {
        assert!(wm.handle_pointer_event(&motion(x, y)));
        assert_consistent(&wm);
    }
    assert!(wm.handle_pointer_event(&release));
    assert_consistent(&wm);

    wm.advise_application_zone_update(1, zone(0, 0, 1920, 1080));
    assert_consistent(&wm);
    assert_active_in_view(&wm);
    wm.frame(1_000);
    wm.frame(500_000);
    assert_consistent(&wm);
    wm.advise_application_zone_delete(1);
    assert_consistent(&wm);
    wm.advise_delete_window(popup);
    for window in windows {
        wm.advise_delete_window(window);
        assert_consistent(&wm);
        assert_active_in_view(&wm);
    }
    assert!(wm.windows.is_empty());
    assert!(!wm.handle_key_press(&config, &Keybinding::new(0x41), true));
    wm.advise_application_zone_delete(2);
    assert_consistent(&wm);
}

#[test]
fn active_window_stays_in_view() {
    let mut wm = WindowManager::new(1, 1);
    wm.advise_application_zone_create(zone(100, 50, 1000, 800)).unwrap();
    let mut windows = Vec::new();
    for width in [600, 1000, 250, 900, 10] {
        windows.push(wm.handle_window_ready(surface(width, i32::MAX)).unwrap());
    }
    for window in windows.iter().chain(windows.iter().rev()) {
        wm.focus_window(Some(*window));
        assert_eq!(wm.active_window(), Some(*window));
        assert_active_in_view(&wm);
        let w = wm.get_window(*window).unwrap();
        let screen = w.screen_extents(wm.get_workspace(1).unwrap().scroll_left());
        assert!(100 <= screen.left() && screen.right() <= 1100);
        assert_eq!((screen.top(), screen.height()), (50, 800));
    }
}
