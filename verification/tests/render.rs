use ike::render::{priority_order, render_order, CameraTarget};

#[test]
fn priority_order_is_stable() {
    assert_eq!(priority_order(&vec![3, -1, 3, 0, -1]), vec![1, 4, 3, 0, 2]);
    assert!(priority_order(&vec![]).is_empty());
}

#[test]
fn main_cameras_wait_for_redraw() {
    let priorities = vec![2, 1, 0];
    let targets = vec![CameraTarget::Main, CameraTarget::Texture, CameraTarget::Main];
    assert_eq!(render_order(&priorities, &targets, &vec![], 7), vec![1]);
    assert_eq!(render_order(&priorities, &targets, &vec![3], 7), vec![1]);
    assert_eq!(render_order(&priorities, &targets, &vec![3, 7], 7), vec![2, 1, 0]);
}

#[test]
fn priority_order_holds_each_camera_once() {
    let priorities = vec![5, -3, 5, 9, 0, -3, 2];
    let mut order = priority_order(&priorities);
    for w in order.windows(2) {
        let (a, b) = (w[0], w[1]);
        assert!(priorities[a] < priorities[b] || (priorities[a] == priorities[b] && a < b));
    }
    order.sort();
    assert_eq!(order, (0..priorities.len()).collect::<Vec<_>>());
}
