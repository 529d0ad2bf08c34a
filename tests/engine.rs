use workdir::{
    check_dir, chdir_command, delete, fmt_effect, fmt_path, get_invalid_pos_err, l, list,
    remove_entry, restore, save, select, Effect, Error, Warn, CAPACITY,
};

fn list_of(items: &[&str]) -> Vec<String> {
    items.iter().map(|s| s.to_string()).collect()
}

#[test]
fn save_into_empty_list() {
    let mut lines: Vec<String> = Vec::new();
    let path = "/tmp".to_string();
    let effect = save(&mut lines, &path, None).unwrap();
    assert_eq!(effect, Effect::Saved { at: 0 });
    assert_eq!(lines, list_of(&["/tmp"]));
    assert_eq!(fmt_effect(&effect, &path), "[1] /tmp");
}

#[test]
fn save_moves_existing_path_to_front() {
    let mut lines = list_of(&["/a", "/b", "/c"]);
    let path = "/c".to_string();
    let effect = save(&mut lines, &path, Some(1)).unwrap();
    assert_eq!(effect, Effect::Moved { from: 2, to: 0 });
    assert_eq!(lines, list_of(&["/c", "/a", "/b"]));
    assert_eq!(fmt_effect(&effect, &path), "[3] -> [1] /c");
}

#[test]
fn save_moves_existing_path_down() {
    let mut lines = list_of(&["/a", "/b", "/c"]);
    let r = save(&mut lines, &"/a".to_string(), Some(3));
    assert_eq!(r.unwrap(), Effect::Moved { from: 0, to: 2 });
    assert_eq!(lines, list_of(&["/b", "/c", "/a"]));
}

#[test]
fn save_inserts_in_the_middle_and_shifts_the_rest() {
    let mut lines = list_of(&["/a", "/b", "/c"]);
    let r = save(&mut lines, &"/x".to_string(), Some(2));
    assert_eq!(r.unwrap(), Effect::Saved { at: 1 });
    assert_eq!(lines, list_of(&["/a", "/x", "/b", "/c"]));
}

#[test]
fn save_appends_one_past_the_end() {
    let mut lines = list_of(&["/a", "/b"]);
    let r = save(&mut lines, &"/x".to_string(), Some(3));
    assert_eq!(r.unwrap(), Effect::Saved { at: 2 });
    assert_eq!(lines, list_of(&["/a", "/b", "/x"]));
}

#[test]
fn save_new_path_beyond_end_is_invalid() {
    let mut lines = list_of(&["/a", "/b"]);
    let r = save(&mut lines, &"/x".to_string(), Some(4));
    assert!(matches!(r, Err(Error::InvalidPosValue(3, 2))));
    assert_eq!(lines, list_of(&["/a", "/b"]));
}

#[test]
fn move_to_one_past_end_is_invalid() {
    let mut lines = list_of(&["/a", "/b"]);
    let r = save(&mut lines, &"/a".to_string(), Some(3));
    assert!(matches!(r, Err(Error::InvalidPosValue(2, 2))));
    assert_eq!(lines, list_of(&["/a", "/b"]));
}

#[test]
fn save_at_current_position_is_refused() {
    let mut lines = list_of(&["/a", "/b", "/c"]);
    let r = save(&mut lines, &"/b".to_string(), Some(2));
    match r {
        Err(Error::IdenticalPathPos(p)) => assert_eq!(p, "/b"),
        other => panic!("unexpected {:?}", other),
    }
    assert_eq!(lines, list_of(&["/a", "/b", "/c"]));
}

#[test]
fn save_default_position_of_first_entry_is_refused() {
    let mut lines = list_of(&["/a", "/b"]);
    let r = save(&mut lines, &"/a".to_string(), None);
    assert!(matches!(r, Err(Error::IdenticalPathPos(_))));
    assert_eq!(lines, list_of(&["/a", "/b"]));
}

#[test]
fn save_into_full_list_is_refused() {
    let items: Vec<String> = (0..CAPACITY).map(|i| format!("/d{}", i)).collect();
    assert_eq!(items.len(), 19);
    let mut lines = items.clone();
    let r = save(&mut lines, &"/new".to_string(), None);
    assert!(matches!(r, Err(Error::PathLimitReached())));
    assert_eq!(lines, items);
}

#[test]
fn move_within_full_list_is_allowed() {
    let items: Vec<String> = (0..CAPACITY).map(|i| format!("/d{}", i)).collect();
    let mut lines = items.clone();
    let r = save(&mut lines, &"/d5".to_string(), None);
    assert_eq!(r.unwrap(), Effect::Moved { from: 5, to: 0 });
    assert_eq!(lines.len(), CAPACITY);
    assert_eq!(lines[0], "/d5");
    assert_eq!(lines.iter().filter(|l| *l == "/d5").count(), 1);
}

#[test]
fn save_fills_list_to_capacity() {
    let items: Vec<String> = (0..CAPACITY - 1).map(|i| format!("/d{}", i)).collect();
    let mut lines = items.clone();
    let r = save(&mut lines, &"/new".to_string(), None);
    assert_eq!(r.unwrap(), Effect::Saved { at: 0 });
    assert_eq!(lines.len(), CAPACITY);
}

#[test]
fn delete_first_position() {
    let mut lines = list_of(&["/a", "/b"]);
    let removed = delete(&mut lines, Some(1)).unwrap();
    assert_eq!(removed, "/a");
    assert_eq!(lines, list_of(&["/b"]));
    assert_eq!(fmt_path(0, &removed), "[1] /a");
}

#[test]
fn delete_keeps_order_of_the_rest() {
    let mut lines = list_of(&["/a", "/b", "/c", "/d"]);
    let r = delete(&mut lines, Some(3));
    assert_eq!(r.unwrap(), "/c");
    assert_eq!(lines, list_of(&["/a", "/b", "/d"]));
}

#[test]
fn delete_needs_a_position() {
    let mut lines = list_of(&["/a", "/b"]);
    let r = delete(&mut lines, None);
    assert!(matches!(r, Err(Error::NoPosArg())));
    assert_eq!(lines, list_of(&["/a", "/b"]));
}

#[test]
fn delete_beyond_end_is_invalid() {
    let mut lines = list_of(&["/a", "/b"]);
    let r = delete(&mut lines, Some(3));
    assert!(matches!(r, Err(Error::InvalidPosValue(2, 2))));
    assert_eq!(lines, list_of(&["/a", "/b"]));
}

#[test]
fn remove_entry_by_index() {
    let mut lines = list_of(&["/a", "/b", "/c"]);
    assert_eq!(remove_entry(&mut lines, 1).unwrap(), "/b");
    assert_eq!(lines, list_of(&["/a", "/c"]));
    assert!(matches!(remove_entry(&mut lines, 2), Err(Error::InvalidPosValue(2, 2))));
}

#[test]
fn select_resolves_positions() {
    let lines = list_of(&["/a", "/b"]);
    assert_eq!(select(&lines, None).unwrap(), 0);
    assert_eq!(select(&lines, Some(2)).unwrap(), 1);
    assert!(matches!(select(&lines, Some(3)), Err(Error::InvalidPosValue(2, 2))));
    assert!(matches!(select(&Vec::new(), None), Err(Error::InvalidPosValue(0, 0))));
}

#[test]
fn chdir_command_plain_and_verbose() {
    let p = "/some/dir".to_string();
    assert_eq!(chdir_command(&p, false, true).unwrap(), "CHDIR /some/dir");
    assert_eq!(chdir_command(&p, true, true).unwrap(), "CHDIRV /some/dir");
    match chdir_command(&p, false, false) {
        Err(Error::PathIsNotDir(q)) => assert_eq!(q, "/some/dir"),
        other => panic!("unexpected {:?}", other),
    }
}

#[test]
fn restore_existing_directory() {
    let lines = list_of(&["/", "/no/such/dir/anywhere"]);
    assert_eq!(restore(&lines, None, false).unwrap(), "CHDIR /");
    assert_eq!(restore(&lines, Some(1), true).unwrap(), "CHDIRV /");
    assert_eq!(lines, list_of(&["/", "/no/such/dir/anywhere"]));
}

#[test]
fn restore_stale_entry_fails() {
    let lines = list_of(&["/", "/no/such/dir/anywhere"]);
    match restore(&lines, Some(2), false) {
        Err(Error::PathIsNotDir(q)) => assert_eq!(q, "/no/such/dir/anywhere"),
        other => panic!("unexpected {:?}", other),
    }
    assert_eq!(lines.len(), 2);
}

#[test]
fn restore_beyond_end_is_invalid() {
    let lines = list_of(&["/"]);
    assert!(matches!(restore(&lines, Some(2), false), Err(Error::InvalidPosValue(1, 1))));
}

#[test]
fn check_dir_tells_directories_apart() {
    assert!(check_dir(&"/".to_string()).is_ok());
    match check_dir(&"/no/such/dir/anywhere".to_string()) {
        Err(Error::PathIsNotDir(q)) => assert_eq!(q, "/no/such/dir/anywhere"),
        other => panic!("unexpected {:?}", other),
    }
}

#[test]
fn list_longer_than_entries_warns_and_shows_all() {
    let lines = list_of(&["/a", "/b", "/c"]);
    let (rows, warning) = list(&lines, Some(5));
    assert_eq!(rows.len(), 3);
    for (i, row) in rows.iter().enumerate() {
        assert_eq!(row.id, i);
        assert_eq!(row.path, lines[i]);
    }
    assert!(matches!(warning, Some(Warn::InvalidLengthValue(5, 3))));
}

#[test]
fn list_without_length_shows_all() {
    let lines = list_of(&["/a", "/b", "/c"]);
    let (rows, warning) = list(&lines, None);
    assert_eq!(rows.len(), 3);
    assert!(warning.is_none());
}

#[test]
fn list_with_length_cuts_rows() {
    let lines = list_of(&["/", "/no/such/dir/anywhere", "/c"]);
    let (rows, warning) = list(&lines, Some(2));
    assert_eq!(rows.len(), 2);
    assert!(warning.is_none());
    assert!(!rows[0].stale);
    assert!(rows[1].stale);
}

#[test]
fn short_list_shows_at_most_five() {
    let lines: Vec<String> = (0..7).map(|i| format!("/d{}", i)).collect();
    let rows = l(&lines);
    assert_eq!(rows.len(), 5);
    assert_eq!(rows[4].path, "/d4");
    assert_eq!(l(&list_of(&["/a", "/b"])).len(), 2);
    assert_eq!(l(&Vec::new()).len(), 0);
}

#[test]
fn invalid_pos_error_carries_index_and_length() {
    let r: Result<(), Error> = get_invalid_pos_err(4, 2);
    assert!(matches!(r, Err(Error::InvalidPosValue(4, 2))));
}
