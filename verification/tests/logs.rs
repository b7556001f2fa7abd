use ardeck_plugin::logs::stale_log_indices;

#[test]
fn oldest_beyond_the_kept_count_are_stale() {
    let times = vec![10, 20, 30, 20];
    assert_eq!(stale_log_indices(&times, 2), vec![0, 1]);
}

#[test]
fn ties_are_broken_towards_the_later_entry() {
    let times = vec![5, 5, 5];
    assert_eq!(stale_log_indices(&times, 1), vec![0, 1]);
}

#[test]
fn keeping_more_than_exist_deletes_nothing() {
    let times = vec![1, 2, 3];
    assert_eq!(stale_log_indices(&times, 5), Vec::<usize>::new());
    assert_eq!(stale_log_indices(&Vec::new(), 0), Vec::<usize>::new());
}

#[test]
fn keeping_none_deletes_all() {
    let times = vec![3, 1, 2];
    assert_eq!(stale_log_indices(&times, 0), vec![0, 1, 2]);
}
