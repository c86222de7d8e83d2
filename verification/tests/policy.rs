use cascade::actions::pick_width;
use cascade::entities::Activation;
use cascade::entities::AnimationStatus;
use cascade::entities::Command;
use cascade::entities::Direction;
use cascade::entities::Gesture;
use cascade::entities::Id;
use cascade::entities::IdGenerator;
use cascade::entities::Monitor;
use cascade::entities::VerticalDirection;
use cascade::entities::Window;
use cascade::entities::WindowInfo;
use cascade::entities::WorkspacePosition;
use cascade::focus::monitor_x_position;
use cascade::geometry::Displacement;
use cascade::geometry::Point;
use cascade::geometry::Rectangle;
use cascade::geometry::Size;
use cascade::layout::place;
use cascade::layout::scroll_to;
use cascade::state::WindowManager;
use std::cmp::Ordering;

fn zone(left: i32, top: i32, width: i32, height: i32) -> Rectangle {
    Rectangle::new(Point::new(left, top), Size::new(width, height))
}

fn surface(width: i32, height: i32) -> WindowInfo {
    WindowInfo {
        can_receive_focus: true,
        maximized: false,
        fullscreen: false,
        resizing: false,
        has_parent: false,
        blocked_title: false,
        extents: zone(0, 0, width, height),
        max_width: i32::MAX,
        max_height: i32::MAX,
    }
}

fn one_monitor() -> WindowManager {
    let mut wm = WindowManager::new(1, 1);
    wm.advise_application_zone_create(zone(0, 0, 1000, 800)).expect("monitor");
    wm.take_commands();
    wm
}

fn mru_windows(wm: &WindowManager) -> Vec<Id> {
    wm.mru_windows.iter().into_iter().copied().collect()
}

fn scroll_left(wm: &WindowManager, workspace: Id) -> i32 {
    wm.get_workspace(workspace).unwrap().scroll_left()
}

#[test]
fn new_manager_keeps_workspaces_in_reserve() {
    let wm = WindowManager::new(1, 3);
    assert_eq!(wm.workspaces.len(), 2);
    assert_eq!(wm.workspace_order(), vec![1, 2]);
    assert_eq!(wm.active_workspace(), Some(1));
    assert_eq!(wm.new_window_workspace(), Some(1));
    assert_eq!(wm.active_window(), None);
    assert_eq!(wm.gesture, Gesture::Idle);
    assert_eq!(wm.keyboard_layouts, 3);
    assert_eq!(WindowManager::new(0, 0).workspaces.len(), 2);
    assert_eq!(WindowManager::new(4, 0).workspaces.len(), 5);
}

#[test]
fn every_monitor_gets_a_workspace_of_its_own() {
    let mut wm = WindowManager::new(1, 1);
    let first = wm.advise_application_zone_create(zone(0, 0, 1000, 800));
    let second = wm.advise_application_zone_create(zone(1000, 0, 1000, 800));
    assert_eq!(first, Some(1));
    assert_eq!(second, Some(2));
    assert_eq!(wm.monitors[0].workspace, 1);
    assert_eq!(wm.monitors[1].workspace, 2);
    assert_eq!(wm.workspaces.len(), 3);
    assert_eq!(wm.workspace_order(), vec![1, 2, 3]);
    assert_eq!(wm.monitor_by_workspace(2).map(|m| m.id), Some(2));
    assert_eq!(wm.monitor_by_workspace(3).map(|m| m.id), None);
    assert_eq!(wm.get_workspace_at(&Point::new(999, 0)), Some(1));
    assert_eq!(wm.get_workspace_at(&Point::new(1000, 0)), Some(2));
    assert_eq!(wm.get_workspace_at(&Point::new(2000, 0)), None);
}

#[test]
fn unused_workspace_is_the_most_recent_unbound() {
    let mut wm = WindowManager::new(0, 1);
    assert_eq!(wm.get_or_create_unused_workspace(), Some(1));
    assert_eq!(wm.workspaces.len(), 2);
    wm.advise_application_zone_create(zone(0, 0, 1000, 800));
    assert_eq!(wm.workspaces.len(), 2);
    assert_eq!(wm.get_or_create_unused_workspace(), Some(2));
    assert_eq!(wm.workspaces.len(), 3);
}

fn unbound(wm: &WindowManager) -> usize {
    wm.workspaces.iter().filter(|w| wm.monitor_by_workspace(w.id()).is_none()).count()
}

#[test]
fn reserve_is_kept_without_extra_workspaces() {
    let mut wm = WindowManager::new(0, 1);
    assert!(unbound(&wm) >= 1);
    for (count, left) in [0, 1000, 2000].into_iter().enumerate() {
        let monitor = wm.advise_application_zone_create(zone(left, 0, 1000, 800)).unwrap();
        assert_eq!(wm.monitors.len(), count + 1);
        assert_eq!(unbound(&wm), 1);
        let shown = wm.monitors[count].workspace;
        assert_eq!(wm.monitors[count].id, monitor);
        for earlier in 0..count {
            assert_ne!(wm.monitors[earlier].workspace, shown);
        }
    }
    assert_eq!(wm.active_workspace(), Some(1));
    let below = wm.get_workspace_by_direction(VerticalDirection::Down).expect("a target");
    assert!(wm.monitor_by_workspace(below).is_none());
    wm.switch_workspace(VerticalDirection::Down);
    assert_eq!(wm.active_workspace(), Some(below));
    assert_eq!(unbound(&wm), 1);
}

#[test]
fn reserve_follows_extra_workspaces() {
    for extra in [1usize, 2, 5] {
        let mut wm = WindowManager::new(extra, 1);
        assert_eq!(unbound(&wm), extra + 1);
        wm.advise_application_zone_create(zone(0, 0, 1000, 800)).unwrap();
        assert_eq!(unbound(&wm), extra);
        wm.advise_application_zone_create(zone(1000, 0, 1000, 800)).unwrap();
        assert_eq!(unbound(&wm), extra);
    }
}

#[test]
fn window_under_the_pointer() {
    let mut wm = one_monitor();
    let a = wm.handle_window_ready(surface(400, 800)).unwrap();
    let b = wm.handle_window_ready(surface(400, 800)).unwrap();
    assert_eq!(wm.window_at(&Point::new(10, 10)), Some(a));
    assert_eq!(wm.window_at(&Point::new(400, 799)), Some(b));
    assert_eq!(wm.window_at(&Point::new(800, 10)), None);
    assert_eq!(wm.window_at(&Point::new(10, 800)), None);
    wm.set_window_position(b, Point::new(0, 0));
    assert_eq!(wm.window_at(&Point::new(10, 10)), Some(b));
    wm.focus_window(Some(a));
    wm.set_window_position(b, Point::new(0, 0));
    assert_eq!(wm.window_at(&Point::new(10, 10)), Some(a));
}

#[test]
fn ready_window_is_tiled_and_focused() {
    let mut wm = one_monitor();
    let window = wm.handle_window_ready(surface(400, 300)).unwrap();
    assert_eq!(window, 1);
    let w = *wm.get_window(window).unwrap();
    assert_eq!(w.on_workspace, Some(1));
    assert_eq!((w.x, w.y), (0, 0));
    assert_eq!(w.size, Size::new(400, 800));
    assert_eq!(w.rendered, zone(0, 0, 400, 800));
    assert_eq!(w.rendered_pos(), zone(0, 0, 400, 800));
    assert_eq!(w.rendered_top_left(), Point::new(0, 0));
    assert_eq!(w.rendered_size(), Size::new(400, 800));
    assert_eq!((w.width(), w.height()), (400, 800));
    assert!(w.is_tiled());
    assert_eq!(wm.active_window(), Some(window));
    assert_eq!(mru_windows(&wm), vec![window]);
    assert_eq!(wm.workspace_of(window), Some(1));
    assert_eq!(wm.monitor_by_window(window).map(|m| m.id), Some(1));
    assert_eq!(
        wm.take_commands(),
        vec![
            Command::FocusWindow { window },
            Command::SetExtents { window, extents: zone(0, 0, 400, 800) },
        ]
    );
}

#[test]
fn new_window_goes_after_the_active_one() {
    let mut wm = one_monitor();
    let a = wm.handle_window_ready(surface(100, 800)).unwrap();
    let b = wm.handle_window_ready(surface(100, 800)).unwrap();
    wm.focus_window(Some(a));
    let c = wm.handle_window_ready(surface(100, 800)).unwrap();
    assert_eq!(wm.get_workspace(1).unwrap().windows(), &vec![a, c, b]);
    assert_eq!(mru_windows(&wm), vec![c, a, b]);
    assert_eq!(wm.get_window(b).unwrap().x, 200);
}

#[test]
fn windows_that_are_not_tiled_stay_off_the_workspace() {
    let mut wm = one_monitor();
    let tiled = wm.handle_window_ready(surface(400, 800)).unwrap();
    for change in 0..4 {
        let mut info = surface(200, 200);
        match change {
            0 => info.has_parent = true,
            1 => info.fullscreen = true,
            2 => info.can_receive_focus = false,
            _ => info.blocked_title = true,
        }
        let popup = wm.handle_window_ready(info).unwrap();
        let w = wm.get_window(popup).unwrap();
        assert!(!w.is_tiled());
        assert_eq!(w.has_parent(), change == 0);
        assert_eq!(w.on_workspace, None);
        assert_eq!(w.size, Size::new(200, 200));
    }
    assert_eq!(wm.get_workspace(1).unwrap().windows(), &vec![tiled]);
    assert_eq!(mru_windows(&wm), vec![tiled]);
    assert_eq!(wm.active_window(), Some(tiled));
}

#[test]
fn height_stays_within_zone_and_limit() {
    let mut wm = one_monitor();
    let mut info = surface(400, 900);
    info.max_height = 500;
    let limited = wm.handle_window_ready(info).unwrap();
    let free = wm.handle_window_ready(surface(400, 900)).unwrap();
    let w = wm.get_window(limited).unwrap();
    assert_eq!(w.max_height(), 500);
    assert_eq!(w.max_width(), i32::MAX);
    assert_eq!(w.size.height, 500);
    assert_eq!(w.y, 150);
    assert_eq!(wm.get_window(free).unwrap().size.height, 800);
    assert_eq!(wm.get_window(free).unwrap().y, 0);
}

#[test]
fn place_centres_vertically() {
    let mut ids = IdGenerator::new();
    let mut info = surface(400, 600);
    info.max_height = 601;
    let window = Window::new(&mut ids, info);
    let placed = place(&window, 70, &zone(10, 20, 1000, 800));
    assert_eq!((placed.x, placed.y), (70, 119));
    assert_eq!(placed.size, Size::new(400, 601));
    assert_eq!(placed.rendered, window.rendered);
    assert_eq!(placed.screen_extents(20), zone(50, 119, 400, 601));
}

#[test]
fn scroll_keeps_the_window_in_view() {
    let z = zone(100, 0, 1000, 800);
    assert_eq!(scroll_to(0, &z, 100, 600), 0);
    assert_eq!(scroll_to(0, &z, 500, 600), 0);
    assert_eq!(scroll_to(0, &z, 501, 600), 1);
    assert_eq!(scroll_to(0, &z, 1300, 600), 800);
    assert_eq!(scroll_to(800, &z, 899, 600), 799);
    assert_eq!(scroll_to(800, &z, 900, 600), 800);
    assert_eq!(scroll_to(50, &z, 100, 2000), 0);
    assert_eq!(scroll_to(-50, &z, 100, 2000), 1000);
}

#[test]
fn commit_prefers_an_animation_for_a_move() {
    let mut wm = one_monitor();
    let a = wm.handle_window_ready(surface(600, 800)).unwrap();
    let b = wm.handle_window_ready(surface(600, 800)).unwrap();
    assert_eq!(
        wm.take_commands(),
        vec![Command::FocusWindow { window: a }, Command::FocusWindow { window: b }]
    );
    assert_eq!(scroll_left(&wm, 1), 200);
    assert_eq!(wm.get_window(a).unwrap().rendered.left(), -200);
    assert_eq!(wm.get_window(b).unwrap().rendered.left(), 400);
    assert_eq!(wm.animation_state.running_animations.len(), 2);
    assert_eq!(wm.animation_status(a), AnimationStatus::IsAnimating(Point::new(-200, 0)));
    assert_eq!(wm.get_window(a).unwrap().x(wm.animation_status(a)), -200);
    assert_eq!(wm.get_window(a).unwrap().y(AnimationStatus::Still), 0);
    assert_eq!(wm.animation_state.running_animations[0].duration, 300_000);

    wm.frame(1_000_000);
    assert!(wm.take_commands().is_empty());
    wm.frame(1_150_000);
    assert_eq!(
        wm.take_commands(),
        vec![
            Command::MoveTo { window: a, top_left: Point::new(-200, 0) },
            Command::SetTranslate { window: a, by: Displacement::new(100, 0) },
            Command::MoveTo { window: b, top_left: Point::new(400, 0) },
            Command::SetTranslate { window: b, by: Displacement::new(-200, 0) },
        ]
    );
    wm.frame(1_300_000);
    assert_eq!(
        wm.take_commands(),
        vec![
            Command::SetTranslate { window: a, by: Displacement::new(0, 0) },
            Command::SetTranslate { window: b, by: Displacement::new(0, 0) },
        ]
    );
    assert_eq!(wm.animation_status(a), AnimationStatus::Still);
}

#[test]
fn unbound_workspace_is_not_laid_out() {
    let mut wm = WindowManager::new(1, 1);
    let window = wm.handle_window_ready(surface(400, 300)).unwrap();
    assert_eq!(wm.get_window(window).unwrap().on_workspace, Some(1));
    assert_eq!(wm.get_window(window).unwrap().size, Size::new(400, 300));
    assert_eq!(wm.take_commands(), vec![Command::FocusWindow { window }]);
    wm.arrange_windows();
    wm.ensure_window_visible(window);
    assert!(wm.take_commands().is_empty());

    wm.advise_application_zone_create(zone(0, 0, 1000, 800));
    assert_eq!(wm.get_window(window).unwrap().size, Size::new(400, 800));
}

#[test]
fn configured_window_follows_the_report() {
    let mut wm = one_monitor();
    let a = wm.handle_window_ready(surface(400, 800)).unwrap();
    let b = wm.handle_window_ready(surface(400, 800)).unwrap();
    let mut info = surface(500, 800);
    info.extents = zone(0, 0, 500, 800);
    wm.advise_configured_window(a, info);
    assert_eq!(wm.get_window(a).unwrap().size.width, 500);
    assert_eq!(wm.get_window(b).unwrap().x, 500);
    assert_eq!(wm.get_window(b).unwrap().rendered.left(), 500);
    wm.advise_configured_window(99, info);
}

#[test]
fn deleted_window_leaves_every_list() {
    let mut wm = one_monitor();
    let a = wm.handle_window_ready(surface(400, 800)).unwrap();
    let b = wm.handle_window_ready(surface(400, 800)).unwrap();
    let c = wm.handle_window_ready(surface(400, 800)).unwrap();
    wm.take_commands();
    wm.advise_delete_window(c);
    assert!(wm.get_window(c).is_none());
    assert_eq!(wm.get_workspace(1).unwrap().windows(), &vec![a, b]);
    assert_eq!(mru_windows(&wm), vec![b, a]);
    assert_eq!(wm.active_window(), Some(b));
    assert_eq!(wm.take_commands()[0], Command::FocusWindow { window: b });
    wm.delete_window(a);
    wm.delete_window(b);
    assert_eq!(wm.active_window(), None);
    assert!(wm.windows.is_empty());
    wm.delete_window(b);
}

#[test]
fn focus_makes_the_window_the_most_recent() {
    let mut wm = one_monitor();
    let a = wm.handle_window_ready(surface(400, 800)).unwrap();
    let b = wm.handle_window_ready(surface(400, 800)).unwrap();
    let c = wm.handle_window_ready(surface(400, 800)).unwrap();
    wm.take_commands();
    for window in [a, c, b, b, a] {
        wm.advise_focus_gained(window);
        assert_eq!(wm.active_window(), Some(window));
        assert_eq!(wm.get_workspace(1).unwrap().active_window(), Some(window));
        assert_eq!(wm.take_commands()[0], Command::FocusWindow { window });
    }
    assert_eq!(mru_windows(&wm), vec![a, b, c]);
    wm.focus_window(None);
    assert_eq!(wm.take_commands(), vec![Command::Blur]);
    wm.focus_window(Some(99));
    assert!(wm.take_commands().is_empty());
    assert_eq!(wm.active_window(), Some(a));
    wm.activate_window(c);
    assert_eq!(wm.active_window(), Some(c));
    assert!(wm.take_commands().is_empty());
}

#[test]
fn navigation_can_be_undone() {
    let mut wm = one_monitor();
    let a = wm.handle_window_ready(surface(400, 800)).unwrap();
    let b = wm.handle_window_ready(surface(400, 800)).unwrap();
    let c = wm.handle_window_ready(surface(400, 800)).unwrap();
    for start in [b, c] {
        wm.focus_window(Some(start));
        wm.naviate(Direction::Left);
        assert_ne!(wm.active_window(), Some(start));
        wm.naviate(Direction::Right);
        assert_eq!(wm.active_window(), Some(start));
    }
    assert_eq!(wm.get_tiled_window(b, Direction::Left), Some(a));
    wm.naviate_first();
    assert_eq!(wm.active_window(), Some(a));
    wm.naviate(Direction::Left);
    assert_eq!(wm.active_window(), Some(a));
    wm.naviate_last();
    assert_eq!(wm.active_window(), Some(c));
}

#[test]
fn navigation_crosses_monitors() {
    let mut wm = WindowManager::new(1, 1);
    wm.advise_application_zone_create(zone(500, 0, 1000, 800));
    wm.advise_application_zone_create(zone(-500, 0, 1000, 800));
    let a = wm.handle_window_ready(surface(400, 800)).unwrap();
    wm.focus_workspace(2);
    assert_eq!(wm.active_workspace(), Some(2));
    assert_eq!(wm.take_commands().last(), Some(&Command::Blur));
    let b = wm.handle_window_ready(surface(400, 800)).unwrap();
    let c = wm.handle_window_ready(surface(400, 800)).unwrap();
    assert_eq!(wm.get_workspace(2).unwrap().windows(), &vec![b, c]);

    assert_eq!(wm.get_monitor_by_direction(Direction::Left), None);
    assert_eq!(wm.get_monitor_by_direction(Direction::Right), Some(0));
    wm.focus_window(Some(b));
    wm.naviate(Direction::Left);
    assert_eq!(wm.active_window(), Some(b));
    wm.naviate(Direction::Right);
    assert_eq!(wm.active_window(), Some(c));
    wm.naviate(Direction::Right);
    assert_eq!(wm.active_window(), Some(a));
    assert_eq!(wm.active_workspace(), Some(1));
    assert_eq!(wm.get_monitor_by_direction(Direction::Left), Some(1));
    wm.naviate_monitor(Direction::Left, Activation::FromDirection);
    assert_eq!(wm.active_window(), Some(c));
    wm.focus_window(Some(b));
    wm.naviate_monitor(Direction::Right, Activation::LastActive);
    assert_eq!(wm.active_window(), Some(a));
    wm.naviate_monitor(Direction::Left, Activation::LastActive);
    assert_eq!(wm.active_window(), Some(b));
    wm.navigate_monitor(Direction::Right, WorkspacePosition::Coordinate(Point::new(0, 0)));
    assert_eq!(wm.active_window(), Some(a));
}

#[test]
fn entry_position_depends_on_the_direction() {
    assert_eq!(Activation::LastActive.position(Direction::Left), WorkspacePosition::ActiveWindow);
    assert_eq!(Activation::LastActive.position(Direction::Right), WorkspacePosition::ActiveWindow);
    assert_eq!(Activation::FromDirection.position(Direction::Left), WorkspacePosition::End);
    assert_eq!(Activation::FromDirection.position(Direction::Right), WorkspacePosition::Start);
}

#[test]
fn monitors_compare_by_their_left_edge() {
    let mut ids = IdGenerator::new();
    let left = Monitor::new(&mut ids, zone(-5, 0, 10, 10), 1);
    let right = Monitor::new(&mut ids, zone(5, 100, 10, 10), 2);
    let same = Monitor::new(&mut ids, zone(5, 0, 20, 10), 3);
    assert_eq!((left.id, right.id, same.id), (1, 2, 3));
    assert_eq!(monitor_x_position(&&left, &&right), Ordering::Less);
    assert_eq!(monitor_x_position(&&right, &&left), Ordering::Greater);
    assert_eq!(monitor_x_position(&&right, &&same), Ordering::Equal);
}

#[test]
fn insertion_index_by_position() {
    let mut wm = one_monitor();
    let a = wm.handle_window_ready(surface(400, 800)).unwrap();
    let b = wm.handle_window_ready(surface(400, 800)).unwrap();
    wm.focus_window(Some(a));
    assert_eq!(wm.get_insertion_index(1, WorkspacePosition::ActiveWindow), 1);
    assert_eq!(wm.get_insertion_index(1, WorkspacePosition::Start), 0);
    assert_eq!(wm.get_insertion_index(1, WorkspacePosition::End), 2);
    assert_eq!(wm.get_insertion_index(99, WorkspacePosition::End), 0);
    for (x, index) in [(-50, 0), (199, 0), (200, 1), (599, 1), (600, 2), (5000, 2)] {
        let cursor = Point::new(x, 10);
        assert_eq!(wm.find_index_by_cursor(1, &cursor), index);
        assert_eq!(wm.get_insertion_index(1, WorkspacePosition::Coordinate(cursor)), index);
    }
    assert_eq!(wm.get_window_for_entry(1, WorkspacePosition::ActiveWindow), Some(a));
    assert_eq!(wm.get_window_for_entry(1, WorkspacePosition::Start), Some(a));
    assert_eq!(wm.get_window_for_entry(1, WorkspacePosition::End), Some(b));
    let far = WorkspacePosition::Coordinate(Point::new(5000, 0));
    assert_eq!(wm.get_window_for_entry(1, far), Some(b));
    assert_eq!(wm.get_window_for_entry(2, WorkspacePosition::Start), None);
}

#[test]
fn workspace_switch_takes_over_the_monitor() {
    let mut wm = one_monitor();
    let a = wm.handle_window_ready(surface(400, 800)).unwrap();
    assert_eq!(wm.get_workspace_by_direction(VerticalDirection::Up), None);
    assert_eq!(wm.get_workspace_by_direction(VerticalDirection::Down), Some(2));
    wm.take_commands();
    wm.switch_workspace(VerticalDirection::Up);
    assert_eq!(wm.active_workspace(), Some(1));
    wm.switch_workspace(VerticalDirection::Down);
    assert_eq!(wm.active_workspace(), Some(2));
    assert_eq!(wm.monitors[0].workspace, 2);
    assert_eq!(wm.monitor_by_workspace(1).map(|m| m.id), None);
    assert_eq!(wm.take_commands(), vec![Command::Blur]);
    assert_eq!(wm.get_workspace_by_direction(VerticalDirection::Down), Some(1));
    wm.switch_workspace(VerticalDirection::Down);
    assert_eq!(wm.active_workspace(), Some(1));
    assert_eq!(wm.monitors[0].workspace, 1);
    assert_eq!(wm.take_commands()[0], Command::FocusWindow { window: a });
}

#[test]
fn window_moves_to_the_workspace_below() {
    let mut wm = one_monitor();
    let a = wm.handle_window_ready(surface(400, 800)).unwrap();
    let b = wm.handle_window_ready(surface(400, 800)).unwrap();
    wm.move_window_vertically(VerticalDirection::Down);
    assert_eq!(wm.get_window(b).unwrap().on_workspace, Some(2));
    assert_eq!(wm.get_workspace(2).unwrap().windows(), &vec![b]);
    assert_eq!(wm.get_workspace(1).unwrap().windows(), &vec![a]);
    assert_eq!(wm.active_workspace(), Some(2));
    assert_eq!(wm.monitors[0].workspace, 2);
    assert_eq!(wm.active_window(), Some(b));

    wm.move_window_workspace(b, 1, 0);
    assert_eq!(wm.get_workspace(1).unwrap().windows(), &vec![b, a]);
    wm.move_window_workspace(b, 99, 0);
    wm.move_window_workspace(99, 1, 0);
    assert_eq!(wm.get_workspace(1).unwrap().windows(), &vec![b, a]);
    assert_eq!(wm.remove_window_from_workspace(b), Ok(()));
    assert_eq!(wm.remove_window_from_workspace(b), Err(()));
    assert_eq!(wm.get_window(b).unwrap().on_workspace, None);
    wm.move_window_to(b, 1, WorkspacePosition::End);
    assert_eq!(wm.get_workspace(1).unwrap().windows(), &vec![a]);
    wm.attach_window(b, 1, 5);
    assert_eq!(wm.get_workspace(1).unwrap().windows(), &vec![a, b]);
    wm.detach_window(a);
    assert_eq!(wm.get_workspace(1).unwrap().windows(), &vec![b]);
}

#[test]
fn window_moves_within_and_between_monitors() {
    let mut wm = WindowManager::new(1, 1);
    wm.advise_application_zone_create(zone(0, 0, 1000, 800));
    wm.advise_application_zone_create(zone(1000, 0, 1000, 800));
    let a = wm.handle_window_ready(surface(400, 800)).unwrap();
    let b = wm.handle_window_ready(surface(400, 800)).unwrap();
    wm.move_window(Direction::Left);
    assert_eq!(wm.get_workspace(1).unwrap().windows(), &vec![b, a]);
    assert_eq!(wm.get_window(a).unwrap().x, 400);
    wm.move_window(Direction::Left);
    assert_eq!(wm.get_workspace(1).unwrap().windows(), &vec![b, a]);
    wm.move_window_monitor(Direction::Right, Activation::LastActive);
    assert_eq!(wm.get_workspace(2).unwrap().windows(), &vec![b]);
    assert_eq!(wm.get_window(b).unwrap().x, 1000);
    wm.move_window_monitor(Direction::Left, Activation::FromDirection);
    assert_eq!(wm.get_workspace(1).unwrap().windows(), &vec![a, b]);
    wm.move_window_to_monitor(Direction::Right, WorkspacePosition::Start);
    assert_eq!(wm.get_workspace(2).unwrap().windows(), &vec![b]);
}

#[test]
fn zone_update_lays_out_again() {
    let mut wm = one_monitor();
    let a = wm.handle_window_ready(surface(400, 800)).unwrap();
    wm.take_commands();
    wm.advise_application_zone_update(1, zone(50, 30, 900, 700));
    let w = wm.get_window(a).unwrap();
    assert_eq!((w.x, w.y), (50, 30));
    assert_eq!(w.size, Size::new(400, 700));
    assert_eq!(wm.monitors[0].extents, zone(50, 30, 900, 700));
    assert_eq!(scroll_left(&wm, 1), 0);
    assert_eq!(
        wm.take_commands(),
        vec![Command::SetExtents { window: a, extents: zone(50, 30, 400, 700) }]
    );
    wm.advise_application_zone_update(9, zone(0, 0, 1, 1));
    assert!(wm.take_commands().is_empty());
}

#[test]
fn zone_delete_hands_the_recent_workspaces_on() {
    let mut wm = WindowManager::new(1, 1);
    wm.advise_application_zone_create(zone(0, 0, 1000, 800));
    wm.advise_application_zone_create(zone(1000, 0, 1000, 800));
    wm.focus_workspace(2);
    assert_eq!(wm.workspace_order(), vec![2, 1, 3]);
    wm.advise_application_zone_delete(2);
    assert_eq!(wm.monitors.len(), 1);
    assert_eq!(wm.monitors[0].id, 1);
    assert_eq!(wm.monitors[0].workspace, 2);
    assert_eq!(wm.monitor_by_workspace(1).map(|m| m.id), None);
    wm.advise_application_zone_delete(7);
    assert_eq!(wm.monitors.len(), 1);
    wm.advise_application_zone_delete(1);
    assert!(wm.monitors.is_empty());
    assert_eq!(wm.workspaces.len(), 3);
}

#[test]
fn center_window_scrolls_to_the_middle() {
    let mut wm = one_monitor();
    let a = wm.handle_window_ready(surface(300, 800)).unwrap();
    let b = wm.handle_window_ready(surface(301, 800)).unwrap();
    wm.center_window();
    assert_eq!(scroll_left(&wm, 1), 300 + 0 - 0 - 500 + 150);
    assert_eq!(wm.get_window(b).unwrap().rendered.left(), 350);
    assert_eq!(wm.get_window(a).unwrap().rendered.left(), 50);
    wm.center_window();
    assert_eq!(scroll_left(&wm, 1), -50);
}

#[test]
fn resize_picks_the_next_step() {
    assert_eq!(pick_width(&vec![330_000, 500_000, 660_000], 300, 1000), Some(330));
    assert_eq!(pick_width(&vec![330_000, 500_000, 660_000], 330, 1000), Some(500));
    assert_eq!(pick_width(&vec![330_000, 500_000, 660_000], 659, 1000), Some(660));
    assert_eq!(pick_width(&vec![330_000, 500_000, 660_000], 660, 1000), Some(330));
    assert_eq!(pick_width(&vec![333_333], 0, 1920), Some(640));
    assert_eq!(pick_width(&vec![500_000], 10, 101), Some(51));
    assert_eq!(pick_width(&vec![500_000, 250_000], 400, 1000), Some(500));
    assert_eq!(pick_width(&vec![], 300, 1000), None);
    assert_eq!(pick_width(&vec![500_000], 300, 0), None);
    assert_eq!(pick_width(&vec![u32::MAX], 0, i32::MAX), Some(i32::MAX));
}
