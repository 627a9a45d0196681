use mrn::Action;
use mrn::apply_item;
use mrn::Problem;
use mrn::RunOutcome;
use mrn::perform_checked;
use mrn::ExecError;
use mrn::FsOp;
use mrn::MemFs;
use mrn::TransformList;
use mrn::TransformListItem;
use mrn::do_perform;
use mrn::encode_record;
use mrn::resolve_op;

fn item(src: &str, dest: &str, action: Action) -> TransformListItem {
    TransformListItem { src: src.to_string(), dest: dest.to_string(), action }
}

fn single(src: &str, dest: &str, action: Action) -> TransformList {
    TransformList(vec![item(src, dest, action)])
}

#[test]
fn resolve_op_decisions() {
    assert!(matches!(resolve_op(Action::Move, false), FsOp::DirectRename));
    assert!(matches!(resolve_op(Action::Move, true), FsOp::CopyThenDelete));
    assert!(matches!(resolve_op(Action::Copy, false), FsOp::CopyOnly));
    assert!(matches!(resolve_op(Action::Copy, true), FsOp::CopyOnly));
}

#[test]
fn move_round_trip_through_log() {
    let mut fs = MemFs::new();
    fs.write(&"a.txt".to_string(), 7);
    let (res, log) = do_perform(&mut fs, &single("a.txt", "b.txt", Action::Move), false, false, false);
    assert!(res.is_ok());
    assert_eq!(log.len(), 1);
    assert!(!fs.contains_path(&"a.txt".to_string()));
    assert_eq!(fs.content(&"b.txt".to_string()), Some(7));

    let lines: Vec<String> = log.iter().map(encode_record).collect();
    let undo = TransformList::from_undo(&lines).unwrap();
    let (res2, log2) = do_perform(&mut fs, &undo, false, true, false);
    assert!(res2.is_ok());
    assert_eq!(log2.len(), 0);
    assert_eq!(fs.content(&"a.txt".to_string()), Some(7));
    assert!(!fs.contains_path(&"b.txt".to_string()));
}

#[test]
fn copy_round_trip_through_log() {
    let mut fs = MemFs::new();
    fs.write(&"a.txt".to_string(), 9);
    let (res, log) = do_perform(&mut fs, &single("a.txt", "b.txt", Action::Copy), false, false, false);
    assert!(res.is_ok());
    assert_eq!(fs.content(&"a.txt".to_string()), Some(9));
    assert_eq!(fs.content(&"b.txt".to_string()), Some(9));

    let lines: Vec<String> = log.iter().map(encode_record).collect();
    let undo = TransformList::from_undo(&lines).unwrap();
    let (res2, _) = do_perform(&mut fs, &undo, false, true, false);
    assert!(res2.is_ok());
    assert_eq!(fs.content(&"a.txt".to_string()), Some(9));
    assert!(!fs.contains_path(&"b.txt".to_string()));
}

#[test]
fn dry_run_mutates_nothing_and_logs_nothing() {
    let mut fs = MemFs::new();
    fs.write(&"a.txt".to_string(), 1);
    let (res, log) = do_perform(&mut fs, &single("a.txt", "b.txt", Action::Move), true, false, false);
    assert!(res.is_ok());
    assert_eq!(log.len(), 0);
    assert_eq!(fs.content(&"a.txt".to_string()), Some(1));
    assert!(!fs.contains_path(&"b.txt".to_string()));
}

#[test]
fn no_log_applies_but_logs_nothing() {
    let mut fs = MemFs::new();
    fs.write(&"a.txt".to_string(), 1);
    let (res, log) = do_perform(&mut fs, &single("a.txt", "b.txt", Action::Move), false, true, false);
    assert!(res.is_ok());
    assert_eq!(log.len(), 0);
    assert_eq!(fs.content(&"b.txt".to_string()), Some(1));
}

#[test]
fn undo_of_empty_log_changes_nothing() {
    let lines: Vec<String> = vec![];
    let undo = TransformList::from_undo(&lines).unwrap();
    assert_eq!(undo.len(), 0);
    let mut fs = MemFs::new();
    fs.write(&"a.txt".to_string(), 4);
    let (res, log) = do_perform(&mut fs, &undo, false, true, false);
    assert!(res.is_ok());
    assert_eq!(log.len(), 0);
    assert_eq!(fs.content(&"a.txt".to_string()), Some(4));
}

#[test]
fn fallback_move_ends_like_a_rename_and_logs_move() {
    let mut fs = MemFs::new();
    fs.write(&"a.txt".to_string(), 3);
    let (res, log) = do_perform(&mut fs, &single("a.txt", "b.txt", Action::Move), false, false, true);
    assert!(res.is_ok());
    assert!(!fs.contains_path(&"a.txt".to_string()));
    assert_eq!(fs.content(&"b.txt".to_string()), Some(3));
    assert_eq!(log.len(), 1);
    assert!(matches!(log[0].action, Action::Move));
    assert!(encode_record(&log[0]).contains("\"action\":\"move\""));
}

#[test]
fn missing_source_aborts_and_keeps_earlier_log_entries() {
    let mut fs = MemFs::new();
    fs.write(&"a.txt".to_string(), 1);
    let list = TransformList(vec![
        item("a.txt", "b.txt", Action::Move),
        item("ghost.txt", "c.txt", Action::Move),
    ]);
    let (res, log) = do_perform(&mut fs, &list, false, false, false);
    assert_eq!(res.err(), Some(ExecError::MissingSource));
    assert_eq!(log.len(), 1);
    assert_eq!(log[0].src, "a.txt");
    assert_eq!(fs.content(&"b.txt".to_string()), Some(1));
    assert!(!fs.contains_path(&"c.txt".to_string()));
}

#[test]
fn mixed_fallback_run_matches_uniform_run() {
    let mut mixed = MemFs::new();
    mixed.write(&"a.txt".to_string(), 1);
    mixed.write(&"b.txt".to_string(), 2);
    let first = item("a.txt", "c.txt", Action::Move);
    let second = item("b.txt", "d.txt", Action::Move);
    assert!(apply_item(&mut mixed, &first, false));
    assert!(apply_item(&mut mixed, &second, true));

    let mut uniform = MemFs::new();
    uniform.write(&"a.txt".to_string(), 1);
    uniform.write(&"b.txt".to_string(), 2);
    let (res, _) = do_perform(
        &mut uniform,
        &TransformList(vec![first.clone(), second.clone()]),
        false,
        true,
        false,
    );
    assert!(res.is_ok());

    for path in ["a.txt", "b.txt", "c.txt", "d.txt"] {
        assert_eq!(mixed.content(&path.to_string()), uniform.content(&path.to_string()));
    }
}

#[test]
fn flagged_plan_is_refused_before_any_mutation() {
    let mut fs = MemFs::new();
    fs.write(&"a.txt".to_string(), 1);
    fs.write(&"b.txt".to_string(), 2);
    let list = TransformList(vec![
        item("a.txt", "same.txt", Action::Move),
        item("b.txt", "same.txt", Action::Move),
    ]);
    match perform_checked(&mut fs, &list, &vec![], false, false, false) {
        RunOutcome::Refused(problems) => {
            assert_eq!(problems, vec![Some(Problem::Conflict), Some(Problem::Conflict)]);
        }
        RunOutcome::Applied(_, _) => panic!("a conflicting plan must be refused"),
    }
    assert_eq!(fs.content(&"a.txt".to_string()), Some(1));
    assert_eq!(fs.content(&"b.txt".to_string()), Some(2));
    assert!(!fs.contains_path(&"same.txt".to_string()));
}

#[test]
fn clean_plan_is_applied() {
    let mut fs = MemFs::new();
    fs.write(&"a.txt".to_string(), 1);
    let list = single("a.txt", "b.txt", Action::Move);
    match perform_checked(&mut fs, &list, &vec![], false, false, false) {
        RunOutcome::Refused(_) => panic!("a clean plan must run"),
        RunOutcome::Applied(res, log) => {
            assert!(res.is_ok());
            assert_eq!(log.len(), 1);
        }
    }
    assert_eq!(fs.content(&"b.txt".to_string()), Some(1));
}
