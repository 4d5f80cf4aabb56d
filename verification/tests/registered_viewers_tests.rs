use nano_raffle::account::Account;
use nano_raffle::registered_viewers::{RegisteredViewer, ViewerRegistry};

#[test]
fn registered_viewers_empty() {
    let registered_viewers = ViewerRegistry::default();
    assert_eq!(registered_viewers.len(), 0);
}

#[test]
fn register_one_viewer() {
    let mut registered_viewers = ViewerRegistry::default();
    let viewer = RegisteredViewer::new_test_instance();
    registered_viewers.add(viewer.clone());
    assert_eq!(registered_viewers.len(), 1);
    assert_eq!(registered_viewers.list(), vec![viewer]);
}

#[test]
fn register_two_viewers() {
    let mut registered_viewers = ViewerRegistry::default();
    let viewer1 = RegisteredViewer::new_test_instance();
    let viewer2 = RegisteredViewer {
        channel_id: "xxanother_channel".to_owned(),
        ..RegisteredViewer::new_test_instance()
    };
    registered_viewers.add(viewer1.clone());
    registered_viewers.add(viewer2.clone());
    assert_eq!(registered_viewers.len(), 2);
    let list = registered_viewers.list();
    assert_eq!(list.len(), 2);
    assert_eq!(registered_viewers.list(), vec![viewer1, viewer2]);
}

#[test]
fn registered_viewers_replace_old_registration() {
    let mut registered_viewers = ViewerRegistry::default();
    let viewer_old = RegisteredViewer::new_test_instance();
    let viewer_new = RegisteredViewer {
        account: Account::from_u64(99999),
        ..viewer_old.clone()
    };
    registered_viewers.add(viewer_old);
    registered_viewers.add(viewer_new.clone());
    assert_eq!(registered_viewers.len(), 1);
    assert_eq!(registered_viewers.list(), vec![viewer_new]);
}

#[test]
fn return_users_ordered_by_channel_id() {
    let mut registered_viewers = ViewerRegistry::default();
    let viewer_a = RegisteredViewer::new_test_instance_for_channel("a".to_owned());
    let viewer_b = RegisteredViewer::new_test_instance_for_channel("b".to_owned());
    let viewer_c = RegisteredViewer::new_test_instance_for_channel("c".to_owned());
    registered_viewers.add(viewer_c.clone());
    registered_viewers.add(viewer_a.clone());
    registered_viewers.add(viewer_b.clone());
    assert_eq!(
        registered_viewers.list(),
        vec![viewer_a, viewer_b, viewer_c]
    )
}

#[test]
fn registered_viewers_pick_random_one_entry() {
    let mut registered_viewers = ViewerRegistry::default();
    let viewer = RegisteredViewer::new_test_instance_for_channel("a".to_owned());

    registered_viewers.add(viewer.clone());

    assert_eq!(registered_viewers.pick_random(1).unwrap(), viewer);
    assert_eq!(registered_viewers.pick_random(2).unwrap(), viewer);
}

#[test]
fn registered_viewers_pick_random() {
    let mut registered_viewers = ViewerRegistry::default();
    let viewer_a = RegisteredViewer::new_test_instance_for_channel("a".to_owned());
    let viewer_b = RegisteredViewer::new_test_instance_for_channel("b".to_owned());
    let viewer_c = RegisteredViewer::new_test_instance_for_channel("c".to_owned());

    registered_viewers.add(viewer_a.clone());
    registered_viewers.add(viewer_b.clone());
    registered_viewers.add(viewer_c.clone());

    assert_eq!(registered_viewers.pick_random(0).unwrap(), viewer_a);
    assert_eq!(registered_viewers.pick_random(1).unwrap(), viewer_b);
    assert_eq!(registered_viewers.pick_random(2).unwrap(), viewer_c);
    assert_eq!(registered_viewers.pick_random(3).unwrap(), viewer_a);
}
