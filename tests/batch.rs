use tachimi::batch::{output_file_name, page_number, BatchTracker};

#[test]
fn cancellation_after_ten_items() {
    let total = 50;
    let mut t = BatchTracker::new(total);
    let mut cancel = false;
    let mut started_after_cancel = 0;
    for _index in 0..total {
        match t.begin_item(cancel) {
            Some(_) => {
                if cancel {
                    started_after_cancel += 1;
                }
                let (completed, _) = t.finish_item("page.psd", Ok(()));
                if completed == 10 {
                    cancel = true;
                }
            }
            None => {}
        }
    }
    assert_eq!(started_after_cancel, 0);
    let r = t.finish(cancel, "out".to_string());
    assert!(r.processed <= 50);
    assert_eq!(r.processed, 10);
    assert_eq!(r.total, 50);
    assert_eq!(r.errors, vec!["処理がキャンセルされました (10/50完了)".to_string()]);
}

#[test]
fn items_in_flight_finish_after_cancellation() {
    let mut t = BatchTracker::new(50);
    for _ in 0..10 {
        t.begin_item(false).unwrap();
        t.finish_item("a.png", Ok(()));
    }
    // three workers had already started when the flag was set
    for _ in 0..3 {
        t.begin_item(false).unwrap();
    }
    assert!(t.begin_item(true).is_none());
    for _ in 0..3 {
        t.finish_item("b.png", Err("broken".to_string()));
    }
    assert_eq!(t.in_progress(), 0);
    let r = t.finish(true, "out".to_string());
    assert_eq!(r.processed, 13);
    assert_eq!(r.errors.len(), 1);
}

#[test]
fn errors_are_logged_and_do_not_stop_the_batch() {
    let mut t = BatchTracker::new(3);
    assert_eq!(t.begin_item(false), Some((0, 1)));
    assert_eq!(t.begin_item(false), Some((0, 2)));
    assert_eq!(t.finish_item("x.psd", Err("bad".to_string())), (1, 1));
    assert_eq!(t.finish_item("y.psd", Ok(())), (2, 0));
    assert_eq!(t.begin_item(false), Some((2, 1)));
    assert_eq!(t.finish_item("z.psd", Ok(())), (3, 0));
    let r = t.finish(false, "dest".to_string());
    assert_eq!(r.processed, 3);
    assert_eq!(r.errors, vec!["x.psd: bad".to_string()]);
    assert_eq!(r.output_folder, "dest");
}

#[test]
fn page_numbers_follow_list_position() {
    assert_eq!(page_number(1, 0), 1);
    assert_eq!(page_number(5, 7), 12);
}

#[test]
fn output_names() {
    assert_eq!(output_file_name("page01.psd"), Some("page01.jpg".to_string()));
    assert_eq!(output_file_name("dir/a.b.png"), Some("a.b.jpg".to_string()));
    assert_eq!(output_file_name(".hidden"), Some(".hidden.jpg".to_string()));
    assert_eq!(output_file_name("noext"), Some("noext.jpg".to_string()));
    assert_eq!(output_file_name(""), None);
    assert_eq!(output_file_name("dir/.."), None);
}

#[test]
fn no_item_starts_beyond_the_batch() {
    let mut t = BatchTracker::new(2);
    assert!(t.begin_item(false).is_some());
    assert!(t.begin_item(false).is_some());
    assert_eq!(t.begin_item(false), None);
    assert_eq!(t.started(), 2);
    t.finish_item("a.psd", Ok(()));
    t.finish_item("b.psd", Ok(()));
    let r = t.finish(false, "out".to_string());
    assert_eq!(r.processed, 2);
    assert!(r.errors.is_empty());
}
