use mrn::Action;
use mrn::CompiledPattern;
use mrn::PlanError;
use mrn::Problem;
use mrn::TransformList;
use mrn::TransformListItem;
use mrn::check_list;
use mrn::filter_matching;
use mrn::has_problems;
use mrn::transform_name;

fn item(src: &str, dest: &str, action: Action) -> TransformListItem {
    TransformListItem { src: src.to_string(), dest: dest.to_string(), action }
}

#[test]
fn plan_example_rename() {
    let pat = CompiledPattern::new(r"IMG_(\d+)\.jpg$").unwrap();
    let files = vec!["IMG_042.jpg".to_string()];
    let metas = vec![None];
    let list = TransformList::from_files(&pat, "photo-{{_1}}.jpg", &files, &metas).unwrap();
    assert_eq!(list.0.len(), 1);
    assert_eq!(list.0[0].src, "IMG_042.jpg");
    assert_eq!(list.0[0].dest, "photo-042.jpg");
    assert!(matches!(list.0[0].action, Action::Move));
}

#[test]
fn rendering_is_deterministic() {
    let pat = CompiledPattern::new(r"(\w+)\.(\w+)$").unwrap();
    let src = "notes/file.txt".to_string();
    let meta = None;
    let a = transform_name(&src, &pat, "{{_1}}-{{__n}}.{{_2}}", 5, &meta);
    let b = transform_name(&src, &pat, "{{_1}}-{{__n}}.{{_2}}", 5, &meta);
    assert_eq!(a, b);
    assert_eq!(a, Some("file-5.txt".to_string()));
}

#[test]
fn sequence_index_feeds_rendering() {
    let pat = CompiledPattern::new(r".*").unwrap();
    let files = vec!["a".to_string(), "b".to_string(), "c".to_string()];
    let metas = vec![None, None, None];
    let list = TransformList::from_files(&pat, "f{{__n}}", &files, &metas).unwrap();
    let dests: Vec<&str> = list.0.iter().map(|it| it.dest.as_str()).collect();
    assert_eq!(dests, vec!["f0", "f1", "f2"]);
}

#[test]
fn path_placeholder_carries_source() {
    let pat = CompiledPattern::new(r".*").unwrap();
    let src = "some/dir/x.bin".to_string();
    let r = transform_name(&src, &pat, "{{__self}}.bak", 0, &None);
    assert_eq!(r, Some("some/dir/x.bin.bak".to_string()));
}

#[test]
fn template_syntax_error_aborts_before_files() {
    let pat = CompiledPattern::new(r".*").unwrap();
    let files = vec!["a".to_string()];
    let metas = vec![None];
    let r = TransformList::from_files(&pat, "{{#if}}", &files, &metas);
    assert_eq!(r.err(), Some(PlanError::Template));
}

#[test]
fn missing_capture_group_fails_that_item() {
    let pat = CompiledPattern::new(r"(a)(b)?").unwrap();
    let src = "a".to_string();
    let r = transform_name(&src, &pat, "x-{{_2}}", 0, &None);
    assert_eq!(r, None);
    let files = vec![src];
    let metas = vec![None];
    let r = TransformList::from_files(&pat, "x-{{_2}}", &files, &metas);
    assert_eq!(r.err(), Some(PlanError::Render));
}

#[test]
fn bad_pattern_refused() {
    assert!(CompiledPattern::new(r"(unclosed").is_none());
}

#[test]
fn metadata_absence_renders_as_absent_value() {
    let pat = CompiledPattern::new(r".*").unwrap();
    let src = "no-such-block.bin".to_string();
    let r = transform_name(&src, &pat, "m{{__exif}}e", 0, &None);
    assert_eq!(r, Some("me".to_string()));
}

#[test]
fn metadata_block_feeds_rendering() {
    let pat = CompiledPattern::new(r".*").unwrap();
    let src = "shot.jpg".to_string();
    let meta = Some(vec![("Model".to_string(), "X100".to_string())]);
    let r = transform_name(&src, &pat, "{{__exif.Model}}-{{__self}}", 1, &meta);
    assert_eq!(r, Some("X100-shot.jpg".to_string()));
}

#[test]
fn uppercase_filter_applies_to_a_capture_group() {
    let pat = CompiledPattern::new(r"([a-z]+)\.txt$").unwrap();
    let src = "notes.txt".to_string();
    let r = transform_name(&src, &pat, "{{uppercase _1}}.txt", 0, &None);
    assert_eq!(r, Some("NOTES.txt".to_string()));
}

#[test]
fn lowercase_filter_applies_to_a_capture_group() {
    let pat = CompiledPattern::new(r"([A-Z]+)\.txt$").unwrap();
    let src = "NOTES.txt".to_string();
    let r = transform_name(&src, &pat, "{{lowercase _1}}.txt", 0, &None);
    assert_eq!(r, Some("notes.txt".to_string()));
}

#[test]
fn titlecase_filter_applies_to_a_capture_group() {
    let pat = CompiledPattern::new(r"([a-z ]+)\.txt$").unwrap();
    let src = "my summer notes.txt".to_string();
    let r = transform_name(&src, &pat, "{{titlecase _1}}.txt", 0, &None);
    assert_eq!(r, Some("My Summer Notes.txt".to_string()));
}

#[test]
fn filter_keeps_matching_regular_files_in_order() {
    let pat = CompiledPattern::new(r"\.jpg$").unwrap();
    let entries = vec![
        ("dir".to_string(), false),
        ("dir/a.jpg".to_string(), true),
        ("dir/b.txt".to_string(), true),
        ("dir/c.jpg".to_string(), true),
        ("dir/sub.jpg".to_string(), false),
    ];
    let files = filter_matching(&entries, &pat);
    assert_eq!(files, vec!["dir/a.jpg".to_string(), "dir/c.jpg".to_string()]);
}

#[test]
fn conflict_gate_flags_shared_destination() {
    let list = TransformList(vec![
        item("a.jpg", "same.jpg", Action::Move),
        item("b.jpg", "same.jpg", Action::Move),
    ]);
    let problems = check_list(&list, &vec![]);
    assert_eq!(problems.len(), 2);
    assert_eq!(problems[0], Some(Problem::Conflict));
    assert_eq!(problems[1], Some(Problem::Conflict));
    assert!(has_problems(&problems));
}

#[test]
fn conflict_takes_precedence_over_existing_file() {
    let list = TransformList(vec![
        item("a.jpg", "same.jpg", Action::Move),
        item("b.jpg", "same.jpg", Action::Move),
    ]);
    let existing = vec!["same.jpg".to_string()];
    let problems = check_list(&list, &existing);
    assert_eq!(problems[0], Some(Problem::Conflict));
    assert_eq!(problems[1], Some(Problem::Conflict));
}

#[test]
fn preexisting_destination_flagged() {
    let list = TransformList(vec![item("a.jpg", "taken.jpg", Action::Move)]);
    let existing = vec!["taken.jpg".to_string()];
    let problems = check_list(&list, &existing);
    assert_eq!(problems, vec![Some(Problem::FileExists)]);
    assert!(has_problems(&problems));
}

#[test]
fn destination_that_is_a_planned_source_is_not_flagged() {
    let list = TransformList(vec![
        item("a.jpg", "b.jpg", Action::Move),
        item("b.jpg", "c.jpg", Action::Move),
    ]);
    let existing = vec!["b.jpg".to_string()];
    let problems = check_list(&list, &existing);
    assert_eq!(problems, vec![None, None]);
    assert!(!has_problems(&problems));
}

#[test]
fn reverse_swaps_and_forces_move() {
    let rev = item("a.jpg", "b.jpg", Action::Copy).reverse();
    assert_eq!(rev.src, "b.jpg");
    assert_eq!(rev.dest, "a.jpg");
    assert!(matches!(rev.action, Action::Move));
}
