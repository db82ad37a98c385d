use photo_cull::group::{PhotoFileInfo, PhotoGroupInfo};
use photo_cull::trash::{move_to_trash, TrashOutcome, TrashRun};

fn file(path: &str) -> PhotoFileInfo {
    PhotoFileInfo {
        name: path.rsplit('/').next().unwrap().to_string(),
        extension: "X".to_string(),
        path: path.to_string(),
        size: 1,
    }
}

fn group(id: &str, jpg: Option<&str>, raw: Option<&str>) -> PhotoGroupInfo {
    PhotoGroupInfo {
        id: id.to_string(),
        jpg: jpg.map(file),
        raw: raw.map(file),
        status: "UNMARKED".to_string(),
        exif: None,
    }
}

fn run_all(groups: &Vec<PhotoGroupInfo>, outcomes: Vec<TrashOutcome>) -> Result<Vec<String>, String> {
    let mut run = move_to_trash(groups);
    for outcome in outcomes {
        assert!(run.pending().is_some());
        run.record(outcome);
    }
    assert_eq!(run.pending(), None);
    run.finish()
}

#[test]
fn move_to_trash_asks_for_the_jpeg_then_the_raw_file_of_each_group() {
    let groups = vec![
        group("a", Some("/p/a.jpg"), Some("/p/a.arw")),
        group("b", None, Some("/p/b.arw")),
        group("c", None, None),
        group("d", Some("/p/d.jpg"), None),
    ];
    let run = move_to_trash(&groups);
    assert_eq!(
        run,
        TrashRun {
            targets: vec!["/p/a.jpg".to_string(), "/p/a.arw".to_string(), "/p/b.arw".to_string(), "/p/d.jpg".to_string()],
            cursor: 0,
            moved: vec![],
            failed: vec![],
        }
    );
    assert_eq!(run.pending(), Some(&"/p/a.jpg".to_string()));
}

#[test]
fn a_member_that_is_gone_is_passed_over() {
    let groups = vec![group("IMG_01", Some("/p/IMG_01.JPG"), Some("/p/IMG_01.ARW"))];
    let mut run = move_to_trash(&groups);
    assert_eq!(run.pending(), Some(&"/p/IMG_01.JPG".to_string()));
    run.record(TrashOutcome::Moved);
    assert_eq!(run.pending(), Some(&"/p/IMG_01.ARW".to_string()));
    run.record(TrashOutcome::Missing);
    assert_eq!(run.pending(), None);
    assert_eq!(run.failed, Vec::<String>::new());
    assert_eq!(run.finish(), Ok(vec!["/p/IMG_01.JPG".to_string()]));
}

#[test]
fn all_files_moved() {
    let groups = vec![group("a", Some("/p/a.jpg"), Some("/p/a.arw")), group("b", Some("/p/b.jpg"), None)];
    assert_eq!(
        run_all(&groups, vec![TrashOutcome::Moved, TrashOutcome::Moved, TrashOutcome::Moved]),
        Ok(vec!["/p/a.jpg".to_string(), "/p/a.arw".to_string(), "/p/b.jpg".to_string()])
    );
}

#[test]
fn nothing_to_move() {
    assert_eq!(run_all(&vec![], vec![]), Ok(vec![]));
    assert_eq!(run_all(&vec![group("c", None, None)], vec![]), Ok(vec![]));
    let groups = vec![group("a", Some("/p/a.jpg"), Some("/p/a.arw"))];
    assert_eq!(run_all(&groups, vec![TrashOutcome::Missing, TrashOutcome::Missing]), Ok(vec![]));
}

#[test]
fn one_failure_fails_the_batch_and_the_rest_is_still_moved() {
    let groups = vec![group("a", Some("/p/a.jpg"), Some("/p/a.arw")), group("b", Some("/p/b.jpg"), None)];
    let mut run = move_to_trash(&groups);
    run.record(TrashOutcome::Moved);
    run.record(TrashOutcome::Failed("Permission denied".to_string()));
    assert_eq!(run.pending(), Some(&"/p/b.jpg".to_string()));
    run.record(TrashOutcome::Moved);
    assert_eq!(run.moved, vec!["/p/a.jpg".to_string(), "/p/b.jpg".to_string()]);
    assert!(run.failed[0].contains("/p/a.arw"));
    assert!(run.failed[0].contains("Permission denied"));
    assert_eq!(
        run.finish(),
        Err("Some files failed to move to trash:\nFailed to move /p/a.arw to trash: Permission denied".to_string())
    );
}

#[test]
fn several_failures_are_reported_line_by_line() {
    let groups = vec![group("a", Some("/p/a.jpg"), Some("/p/a.arw")), group("b", Some("/p/b.jpg"), None)];
    let report = run_all(
        &groups,
        vec![
            TrashOutcome::Failed("busy".to_string()),
            TrashOutcome::Missing,
            TrashOutcome::Failed("read-only".to_string()),
        ],
    );
    assert_eq!(
        report,
        Err("Some files failed to move to trash:\nFailed to move /p/a.jpg to trash: busy\nFailed to move /p/b.jpg to trash: read-only".to_string())
    );
}

#[test]
fn outcomes_beyond_the_last_file_change_nothing() {
    let groups = vec![group("a", Some("/p/a.jpg"), None)];
    let mut run = move_to_trash(&groups);
    run.record(TrashOutcome::Moved);
    let done = run.clone();
    run.record(TrashOutcome::Failed("late".to_string()));
    run.record(TrashOutcome::Moved);
    assert_eq!(run, done);
    assert_eq!(run.finish(), Ok(vec!["/p/a.jpg".to_string()]));
}
