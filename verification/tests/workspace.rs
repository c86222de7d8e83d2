use cascade::entities::Direction;
use cascade::entities::IdGenerator;
use cascade::workspace::copy_ids;
use cascade::workspace::find_id;
use cascade::workspace::Workspace;

fn workspace_with(windows: &[u64]) -> Workspace {
    let mut ids = IdGenerator::new();
    let mut workspace = Workspace::new(&mut ids);
    for window in windows {
        let end = workspace.windows().len();
        workspace.add_window(*window, end);
    }
    workspace
}

fn mru(workspace: &Workspace) -> Vec<u64> {
    workspace.mru_windows().iter().into_iter().copied().collect()
}

#[test]
fn id_generator_counts_from_one() {
    let mut ids = IdGenerator::new();
    assert!(!ids.is_exhausted());
    assert_eq!(ids.next_id(), 1);
    assert_eq!(ids.next_id(), 2);
    assert_eq!(ids.next_id(), 3);
}

#[test]
fn new_workspace_is_empty() {
    let mut ids = IdGenerator::new();
    let first = Workspace::new(&mut ids);
    let second = Workspace::new(&mut ids);
    assert_eq!(first.id(), 1);
    assert_eq!(second.id(), 2);
    assert_eq!(first.scroll_left(), 0);
    assert!(first.windows().is_empty());
    assert_eq!(first.active_window(), None);
    assert_eq!(first.index_after_active(), 0);
}

#[test]
fn both_orders_hold_the_same_windows() {
    let mut workspace = workspace_with(&[10, 20, 30]);
    workspace.promote_window(10);
    workspace.remove_window(20);
    workspace.add_window(40, 0);
    workspace.swap_windows(40, 30);
    let mut in_sequence = workspace.windows().clone();
    let mut in_use = mru(&workspace);
    assert_eq!(in_sequence.len(), in_use.len());
    in_sequence.sort();
    in_use.sort();
    assert_eq!(in_sequence, in_use);
    assert_eq!(in_sequence, vec![10, 30, 40]);
}

#[test]
fn add_window_at_index() {
    let mut workspace = workspace_with(&[10, 20]);
    workspace.add_window(30, 1);
    assert_eq!(workspace.windows(), &vec![10, 30, 20]);
    assert_eq!(workspace.active_window(), Some(30));
    assert_eq!(mru(&workspace), vec![30, 20, 10]);
    workspace.add_window(40, 99);
    assert_eq!(workspace.windows(), &vec![10, 30, 20, 40]);
}

#[test]
fn add_window_twice_moves_it() {
    let mut workspace = workspace_with(&[10, 20, 30]);
    workspace.add_window(10, 2);
    assert_eq!(workspace.windows(), &vec![20, 30, 10]);
    assert_eq!(mru(&workspace), vec![10, 30, 20]);
}

#[test]
fn add_then_remove_restores_the_workspace() {
    let mut workspace = workspace_with(&[10, 20, 30]);
    workspace.promote_window(20);
    workspace.set_scroll_left(70);
    let windows = workspace.windows().clone();
    let in_use = mru(&workspace);
    workspace.add_window(99, 1);
    assert!(workspace.has_window(99));
    workspace.remove_window(99);
    assert_eq!(workspace.windows(), &windows);
    assert_eq!(mru(&workspace), in_use);
    assert_eq!(workspace.scroll_left(), 70);
}

#[test]
fn index_after_active_follows_the_active_window() {
    let mut workspace = workspace_with(&[10, 20, 30]);
    assert_eq!(workspace.index_after_active(), 3);
    workspace.promote_window(10);
    assert_eq!(workspace.index_after_active(), 1);
}

#[test]
fn window_by_direction_stops_at_the_ends() {
    let workspace = workspace_with(&[10, 20, 30]);
    assert_eq!(workspace.window_by_direction(20, Direction::Left), Some(10));
    assert_eq!(workspace.window_by_direction(20, Direction::Right), Some(30));
    assert_eq!(workspace.window_by_direction(10, Direction::Left), None);
    assert_eq!(workspace.window_by_direction(30, Direction::Right), None);
    assert_eq!(workspace.window_by_direction(99, Direction::Right), None);
    assert_eq!(workspace.get_window_index(30), Some(2));
    assert_eq!(workspace.get_window_index(99), None);
}

#[test]
fn move_window_swaps_with_the_neighbour() {
    let mut workspace = workspace_with(&[10, 20, 30]);
    assert_eq!(workspace.move_window(20, Direction::Left), Ok(()));
    assert_eq!(workspace.windows(), &vec![20, 10, 30]);
    assert_eq!(workspace.move_window(20, Direction::Left), Err(()));
    assert_eq!(workspace.move_window(30, Direction::Right), Err(()));
    assert_eq!(workspace.move_window(99, Direction::Right), Err(()));
    assert_eq!(workspace.windows(), &vec![20, 10, 30]);
    assert_eq!(workspace.move_window(20, Direction::Right), Ok(()));
    assert_eq!(workspace.windows(), &vec![10, 20, 30]);
}

#[test]
fn swap_windows_ignores_strangers() {
    let mut workspace = workspace_with(&[10, 20, 30]);
    workspace.swap_windows(10, 30);
    assert_eq!(workspace.windows(), &vec![30, 20, 10]);
    workspace.swap_windows(10, 99);
    assert_eq!(workspace.windows(), &vec![30, 20, 10]);
}

#[test]
fn promote_window_ignores_strangers() {
    let mut workspace = workspace_with(&[10, 20]);
    workspace.promote_window(99);
    assert_eq!(mru(&workspace), vec![20, 10]);
    workspace.promote_window(10);
    assert_eq!(mru(&workspace), vec![10, 20]);
    assert_eq!(workspace.windows(), &vec![10, 20]);
}

#[test]
fn find_and_copy_ids() {
    let ids = vec![5u64, 6, 5];
    assert_eq!(find_id(&ids, 5), Some(0));
    assert_eq!(find_id(&ids, 6), Some(1));
    assert_eq!(find_id(&ids, 7), None);
    assert_eq!(copy_ids(&ids), ids);
}
