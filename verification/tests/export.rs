use photo_cull::export::{
    export_files, parse_mode, parse_operation, Destination, ExportAction, ExportMode, ExportRun,
    Operation, SourceProbe, Transfer,
};
use photo_cull::group::{PhotoFileInfo, PhotoGroupInfo};

fn file(path: &str) -> PhotoFileInfo {
    PhotoFileInfo {
        name: path.rsplit('/').next().unwrap().to_string(),
        extension: "X".to_string(),
        path: path.to_string(),
        size: 1,
    }
}

fn group(id: &str, jpg: Option<&str>, raw: Option<&str>) -> PhotoGroupInfo {
    PhotoGroupInfo {
        id: id.to_string(),
        jpg: jpg.map(file),
        raw: raw.map(file),
        status: "UNMARKED".to_string(),
        exif: None,
    }
}

fn groups() -> Vec<PhotoGroupInfo> {
    vec![
        group("a", Some("/p/a.jpg"), Some("/p/a.arw")),
        group("b", Some("/p/b.jpg"), None),
        group("c", None, Some("/p/c.arw")),
        group("d", None, None),
    ]
}

fn free(path: &str) -> SourceProbe {
    let name = path.rsplit('/').next().unwrap();
    SourceProbe {
        exists: true,
        file_name: Some(name.to_string()),
        destination: format!("/out/{}", name),
        destination_exists: false,
    }
}

fn targets(mode: &str) -> Vec<String> {
    export_files(&groups(), mode, "COPY", Destination::Directory).unwrap().targets
}

// Carries a batch through in which every source is there, every destination
// is free and every transfer succeeds.
fn run_smoothly(mut run: ExportRun) -> (Vec<Transfer>, Result<Vec<String>, String>) {
    let mut transfers = Vec::new();
    loop {
        match run.next_action() {
            ExportAction::Probe(path) => run.on_probe(free(&path)),
            ExportAction::Transfer(transfer) => {
                transfers.push(transfer);
                run.on_transfer(Ok(()));
            }
            ExportAction::Finished => break,
        }
    }
    (transfers, run.finish())
}

#[test]
fn parse_mode_knows_three_names() {
    assert_eq!(parse_mode("JPG"), Some(ExportMode::Jpg));
    assert_eq!(parse_mode("RAW"), Some(ExportMode::Raw));
    assert_eq!(parse_mode("BOTH"), Some(ExportMode::Both));
    for other in ["", "jpg", "Both", "ALL", "JPEG", " RAW", "RAW "] {
        assert_eq!(parse_mode(other), None, "{:?}", other);
    }
}

#[test]
fn parse_operation_knows_two_names() {
    assert_eq!(parse_operation("COPY"), Some(Operation::Copy));
    assert_eq!(parse_operation("MOVE"), Some(Operation::Move));
    for other in ["", "copy", "Move", "LINK", "COPY "] {
        assert_eq!(parse_operation(other), None, "{:?}", other);
    }
}

#[test]
fn the_destination_must_be_a_folder() {
    assert_eq!(
        export_files(&groups(), "BOTH", "COPY", Destination::Missing),
        Err("Destination folder does not exist".to_string())
    );
    assert_eq!(
        export_files(&groups(), "BOTH", "COPY", Destination::NotADirectory),
        Err("Destination path is not a directory".to_string())
    );
    assert_eq!(
        export_files(&groups(), "NONE", "NONE", Destination::Missing),
        Err("Destination folder does not exist".to_string())
    );
}

#[test]
fn the_mode_selects_the_files() {
    assert_eq!(targets("JPG"), vec!["/p/a.jpg", "/p/b.jpg"]);
    assert_eq!(targets("RAW"), vec!["/p/a.arw", "/p/c.arw"]);
    assert_eq!(targets("BOTH"), vec!["/p/a.jpg", "/p/a.arw", "/p/b.jpg", "/p/c.arw"]);
}

#[test]
fn a_batch_starts_with_nothing_done() {
    let run = export_files(&groups(), "JPG", "MOVE", Destination::Directory).unwrap();
    assert_eq!(
        run,
        ExportRun {
            operation: "MOVE".to_string(),
            targets: vec!["/p/a.jpg".to_string(), "/p/b.jpg".to_string()],
            cursor: 0,
            pending: None,
            processed: vec![],
            failed: vec![],
            aborted: None,
        }
    );
    assert_eq!(run.next_action(), ExportAction::Probe("/p/a.jpg".to_string()));
}

#[test]
fn both_with_copy_on_a_group_with_a_jpeg_only_copies_the_jpeg() {
    let only_jpeg = vec![group("IMG_01", Some("/p/IMG_01.JPG"), None)];
    let run = export_files(&only_jpeg, "BOTH", "COPY", Destination::Directory).unwrap();
    assert_eq!(run.targets, vec!["/p/IMG_01.JPG"]);
    assert_eq!(run.failed, Vec::<String>::new());
    let (transfers, report) = run_smoothly(run);
    assert_eq!(
        transfers,
        vec![Transfer {
            operation: Operation::Copy,
            source: "/p/IMG_01.JPG".to_string(),
            file_name: "IMG_01.JPG".to_string(),
            destination: "/out/IMG_01.JPG".to_string(),
        }]
    );
    assert_eq!(report, Ok(vec!["Copied IMG_01.JPG to /out/IMG_01.JPG".to_string()]));
}

#[test]
fn a_batch_of_moves() {
    let run = export_files(&groups(), "RAW", "MOVE", Destination::Directory).unwrap();
    let (transfers, report) = run_smoothly(run);
    assert_eq!(transfers.len(), 2);
    assert_eq!(transfers[0].operation, Operation::Move);
    assert_eq!(transfers[1].source, "/p/c.arw");
    assert_eq!(
        report,
        Ok(vec!["Moved a.arw to /out/a.arw".to_string(), "Moved c.arw to /out/c.arw".to_string()])
    );
}

#[test]
fn a_whole_batch_reports_one_line_for_each_file_in_order() {
    let run = export_files(&groups(), "BOTH", "COPY", Destination::Directory).unwrap();
    let (transfers, report) = run_smoothly(run);
    assert_eq!(transfers.len(), 4);
    assert_eq!(
        report,
        Ok(vec![
            "Copied a.jpg to /out/a.jpg".to_string(),
            "Copied a.arw to /out/a.arw".to_string(),
            "Copied b.jpg to /out/b.jpg".to_string(),
            "Copied c.arw to /out/c.arw".to_string(),
        ])
    );
}

#[test]
fn a_whole_batch_with_one_file_that_fails_is_no_success() {
    let mut run = export_files(&groups(), "RAW", "MOVE", Destination::Directory).unwrap();
    run.on_probe(free("/p/a.arw"));
    run.on_transfer(Ok(()));
    run.on_probe(free("/p/c.arw"));
    run.on_transfer(Err("Permission denied (os error 13)".to_string()));
    assert_eq!(run.next_action(), ExportAction::Finished);
    assert_eq!(run.processed, vec!["Moved a.arw to /out/a.arw"]);
    assert_eq!(
        run.finish(),
        Err("Export completed with errors:\nFailed to move /p/c.arw to /out/c.arw: Permission denied (os error 13)\n\nSuccessfully processed 1 files".to_string())
    );
}

#[test]
fn export_never_overwrites() {
    let photo = vec![group("photo", Some("/p/photo.jpg"), None)];
    let mut run = export_files(&photo, "JPG", "COPY", Destination::Directory).unwrap();
    assert_eq!(run.next_action(), ExportAction::Probe("/p/photo.jpg".to_string()));
    run.on_probe(SourceProbe {
        exists: true,
        file_name: Some("photo.jpg".to_string()),
        destination: "/dest/photo.jpg".to_string(),
        destination_exists: true,
    });
    assert_eq!(run.next_action(), ExportAction::Finished);
    assert_eq!(run.pending, None);
    assert_eq!(run.processed, Vec::<String>::new());
    assert_eq!(run.failed, vec!["Destination file already exists: /dest/photo.jpg"]);
    assert_eq!(
        run.finish(),
        Err("Export completed with errors:\nDestination file already exists: /dest/photo.jpg\n\nSuccessfully processed 0 files".to_string())
    );
}

#[test]
fn a_source_that_is_gone_is_a_failure_of_the_file() {
    let mut run = export_files(&groups(), "JPG", "COPY", Destination::Directory).unwrap();
    let mut gone = free("/p/a.jpg");
    gone.exists = false;
    run.on_probe(gone);
    assert_eq!(run.next_action(), ExportAction::Probe("/p/b.jpg".to_string()));
    run.on_probe(free("/p/b.jpg"));
    run.on_transfer(Ok(()));
    assert_eq!(run.next_action(), ExportAction::Finished);
    assert_eq!(
        run.finish(),
        Err("Export completed with errors:\nSource file not found: /p/a.jpg\n\nSuccessfully processed 1 files".to_string())
    );
}

#[test]
fn a_transfer_that_fails_is_a_failure_of_the_file() {
    let mut copy = export_files(&groups(), "JPG", "COPY", Destination::Directory).unwrap();
    copy.on_probe(free("/p/a.jpg"));
    copy.on_transfer(Err("No space left on device".to_string()));
    assert_eq!(
        copy.failed,
        vec!["Failed to copy /p/a.jpg to /out/a.jpg: No space left on device"]
    );
    assert!(copy.failed[0].contains("/p/a.jpg"));
    assert!(copy.failed[0].contains("/out/a.jpg"));
    assert!(copy.failed[0].contains("No space left on device"));
    assert_eq!(copy.next_action(), ExportAction::Probe("/p/b.jpg".to_string()));
    let mut moving = export_files(&groups(), "JPG", "MOVE", Destination::Directory).unwrap();
    moving.on_probe(free("/p/a.jpg"));
    moving.on_transfer(Err("Cross-device link".to_string()));
    assert_eq!(moving.failed, vec!["Failed to move /p/a.jpg to /out/a.jpg: Cross-device link"]);
}

#[test]
fn failures_are_reported_together_with_the_number_of_files_that_arrived() {
    let mut run = export_files(&groups(), "BOTH", "COPY", Destination::Directory).unwrap();
    run.on_probe(free("/p/a.jpg"));
    run.on_transfer(Ok(()));
    let mut taken = free("/p/a.arw");
    taken.destination_exists = true;
    run.on_probe(taken);
    run.on_probe(free("/p/b.jpg"));
    run.on_transfer(Err("denied".to_string()));
    run.on_probe(free("/p/c.arw"));
    run.on_transfer(Ok(()));
    assert_eq!(run.next_action(), ExportAction::Finished);
    assert_eq!(
        run.finish(),
        Err("Export completed with errors:\nDestination file already exists: /out/a.arw\nFailed to copy /p/b.jpg to /out/b.jpg: denied\n\nSuccessfully processed 2 files".to_string())
    );
}

#[test]
fn nothing_selected_is_nothing_exported() {
    let raw_only = vec![group("c", None, Some("/p/c.arw")), group("d", None, None)];
    let run = export_files(&raw_only, "JPG", "COPY", Destination::Directory).unwrap();
    assert_eq!(run.next_action(), ExportAction::Finished);
    assert_eq!(run.finish(), Err("No files were exported".to_string()));
    let none = export_files(&vec![], "BOTH", "MOVE", Destination::Directory).unwrap();
    assert_eq!(none.finish(), Err("No files were exported".to_string()));
}

#[test]
fn a_mode_that_is_not_known_fails_every_group() {
    let run = export_files(&groups(), "ALL", "COPY", Destination::Directory).unwrap();
    assert_eq!(run.targets, Vec::<String>::new());
    assert_eq!(run.next_action(), ExportAction::Finished);
    assert_eq!(
        run.finish(),
        Err("Export completed with errors:\nUnknown export mode: ALL\nUnknown export mode: ALL\nUnknown export mode: ALL\nUnknown export mode: ALL\n\nSuccessfully processed 0 files".to_string())
    );
    let none = export_files(&vec![], "ALL", "COPY", Destination::Directory).unwrap();
    assert_eq!(none.finish(), Err("No files were exported".to_string()));
}

#[test]
fn an_operation_that_is_not_known_fails_every_file_that_could_go() {
    let mut run = export_files(&groups(), "JPG", "LINK", Destination::Directory).unwrap();
    run.on_probe(free("/p/a.jpg"));
    assert_eq!(run.pending, None);
    let mut gone = free("/p/b.jpg");
    gone.exists = false;
    run.on_probe(gone);
    assert_eq!(run.next_action(), ExportAction::Finished);
    assert_eq!(
        run.finish(),
        Err("Export completed with errors:\nUnknown operation: LINK\nSource file not found: /p/b.jpg\n\nSuccessfully processed 0 files".to_string())
    );
}

#[test]
fn a_source_without_file_name_ends_the_batch() {
    let odd = vec![group("a", Some("/p/a.jpg"), None), group("up", Some("/p/.."), None), group("z", Some("/p/z.jpg"), None)];
    let mut run = export_files(&odd, "JPG", "COPY", Destination::Directory).unwrap();
    run.on_probe(free("/p/a.jpg"));
    run.on_transfer(Ok(()));
    assert_eq!(run.next_action(), ExportAction::Probe("/p/..".to_string()));
    run.on_probe(SourceProbe {
        exists: true,
        file_name: None,
        destination: "".to_string(),
        destination_exists: false,
    });
    assert_eq!(run.next_action(), ExportAction::Finished);
    assert_eq!(run.processed, vec!["Copied a.jpg to /out/a.jpg"]);
    assert_eq!(run.finish(), Err("Invalid file name: /p/..".to_string()));
}

#[test]
fn what_was_not_asked_for_changes_nothing() {
    let mut run = export_files(&groups(), "JPG", "COPY", Destination::Directory).unwrap();
    let start = run.clone();
    run.on_transfer(Ok(()));
    run.on_transfer(Err("x".to_string()));
    assert_eq!(run, start);
    run.on_probe(free("/p/a.jpg"));
    let waiting = run.clone();
    assert!(matches!(run.next_action(), ExportAction::Transfer(_)));
    run.on_probe(free("/p/b.jpg"));
    assert_eq!(run, waiting);
    let (_, _) = run_smoothly(run.clone());
    let mut done = run;
    done.on_transfer(Ok(()));
    done.on_probe(free("/p/b.jpg"));
    done.on_transfer(Ok(()));
    let finished = done.clone();
    done.on_probe(free("/p/zzz.jpg"));
    done.on_transfer(Ok(()));
    assert_eq!(done, finished);
    assert_eq!(done.processed.len(), 2);
}
