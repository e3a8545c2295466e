use hse_eco_bot::archive::{ARCHIVE_ROOT, Feed, Timestamp};
use hse_eco_bot::command::{Command, Context, Response};
use hse_eco_bot::db::{AccessTask, TaskAction, TaskEvent};
use hse_eco_bot::ids::{DirectoryId, FullDirectoryId, FullNoteId, NoteId, ProviderId};
use hse_eco_bot::kb::{FormattedText, ItemRef, Note, ProviderError, ProviderUserContext};
use hse_eco_bot::store::DbProvider;
use hse_eco_bot::tree::Tree;
use hse_eco_bot::user::Permissions;

fn note(text: &str) -> Note {
    Note {
        text: FormattedText {
            raw_text: String::from(text),
        },
    }
}

fn everyone() -> ProviderUserContext {
    ProviderUserContext {
        permissions: Permissions::all(),
    }
}

fn nobody() -> ProviderUserContext {
    ProviderUserContext {
        permissions: Permissions::default(),
    }
}

fn feedback_feed() -> Feed {
    let mut audience = Permissions::default();
    audience.receive_feedback = true;
    Feed {
        name: String::from("feedback"),
        description: String::from("Обратная связь"),
        audience,
    }
}

fn make_tree() -> Tree {
    Tree::new(DbProvider::new(), vec![feedback_feed()], Vec::new()).unwrap().0
}

fn dir(p: u64, d: u64) -> FullDirectoryId {
    FullDirectoryId {
        provider: ProviderId(p),
        directory: DirectoryId(d),
    }
}

fn names(tree: &Tree, uctx: ProviderUserContext, d: FullDirectoryId) -> Vec<String> {
    tree.read_directory(uctx, d)
        .unwrap()
        .children
        .into_iter()
        .map(|x| x.0)
        .collect()
}

#[test]
fn new_tree_mounts_archive_under_root() {
    let (tree, registry) = Tree::new(DbProvider::new(), vec![feedback_feed()], Vec::new()).unwrap();
    assert_eq!(registry.len(), 2);
    assert_eq!(registry[0], (String::from("db"), ProviderId(0)));
    assert_eq!(registry[1], (String::from("newsletter-archive"), ProviderId(1)));
    assert_eq!(names(&tree, everyone(), dir(0, 0)), vec![String::from("Архив рассылок")]);
}

#[test]
fn new_tree_reuses_existing_archive_directory() {
    let mut db = DbProvider::new();
    db.assign_id(ProviderId(0));
    let existing = db.create_directory(DirectoryId(0), "Архив рассылок").unwrap();
    let tree = Tree::new(db, vec![feedback_feed()], Vec::new()).unwrap().0;
    let listing = tree.read_directory(everyone(), dir(0, 0)).unwrap();
    assert_eq!(listing.children.len(), 1);
    assert_eq!(listing.children[0].1, ItemRef::Directory(existing));
}

#[test]
fn mount_point_lists_mounted_root() {
    let mut tree = make_tree();
    let mount = match tree.read_directory(everyone(), dir(0, 0)).unwrap().children[0].1 {
        ItemRef::Directory(d) => d.full(),
        ItemRef::Note(_) => panic!("archive directory is a note"),
    };
    tree.store_issue(
        ProviderId(1),
        "feedback",
        note("hello"),
        Timestamp { year: 2024, month: 1, day: 2, hour: 3, minute: 4, second: 5 },
    )
    .unwrap();
    let via_mount = names(&tree, everyone(), mount);
    let via_root = names(&tree, everyone(), dir(1, ARCHIVE_ROOT));
    assert_eq!(via_mount, via_root);
    assert_eq!(via_mount, vec![String::from("Обратная связь")]);
    assert_eq!(tree.directory_parent(dir(1, ARCHIVE_ROOT)), Ok(Some(dir(0, 0))));
    assert_eq!(tree.directory_parent(mount), Ok(Some(dir(0, 0))));
    assert_eq!(tree.directory_name(dir(1, ARCHIVE_ROOT)).unwrap().as_deref(), Some("Архив рассылок"));
    assert_eq!(tree.directory_parent(dir(0, 0)), Ok(None));
}

#[test]
fn archive_lists_issues_by_time_and_number() {
    let mut tree = make_tree();
    let id = tree
        .store_issue(
            ProviderId(1),
            "feedback",
            note("hello"),
            Timestamp { year: 2024, month: 1, day: 2, hour: 3, minute: 4, second: 5 },
        )
        .unwrap();
    assert_eq!(id, NoteId(1));
    assert_eq!(names(&tree, everyone(), dir(1, 0)), vec![String::from("2024-01-02 03:04:05 (№ 1)")]);
    let issue = FullNoteId {
        provider: ProviderId(1),
        note: id,
    };
    assert_eq!(tree.read_note(everyone(), issue), Ok(note("hello")));
    assert_eq!(tree.note_parent(issue), Ok(dir(1, 0)));
    assert_eq!(tree.note_name(issue).unwrap(), "2024-01-02 03:04:05 (№ 1)");
}

#[test]
fn archive_hides_what_a_user_may_not_see() {
    let mut tree = make_tree();
    let id = tree
        .store_issue(
            ProviderId(1),
            "feedback",
            note("secret"),
            Timestamp { year: 2023, month: 12, day: 31, hour: 23, minute: 59, second: 0 },
        )
        .unwrap();
    assert!(names(&tree, nobody(), dir(1, ARCHIVE_ROOT)).is_empty());
    assert_eq!(
        tree.read_directory(nobody(), dir(1, 0)).map(|_| ()),
        Err(ProviderError::PermissionDenied)
    );
    let issue = FullNoteId {
        provider: ProviderId(1),
        note: id,
    };
    assert_eq!(tree.read_note(nobody(), issue), Err(ProviderError::PermissionDenied));
}

#[test]
fn archive_refuses_writes() {
    let mut tree = make_tree();
    assert_eq!(
        tree.create_directory(dir(1, ARCHIVE_ROOT), "x").map(|_| ()),
        Err(ProviderError::OperationNotSupported)
    );
    assert_eq!(
        tree.delete_directory(dir(1, 0)),
        Err(ProviderError::OperationNotSupported)
    );
}

#[test]
fn mount_point_cannot_be_renamed_moved_or_deleted() {
    let mut tree = make_tree();
    let mount = match tree.read_directory(everyone(), dir(0, 0)).unwrap().children[0].1 {
        ItemRef::Directory(d) => d.full(),
        ItemRef::Note(_) => panic!("archive directory is a note"),
    };
    let foo = tree.create_directory(dir(0, 0), "foo").unwrap().full();
    assert_eq!(tree.rename_directory(mount, "x"), Err(ProviderError::OperationNotSupported));
    assert_eq!(tree.move_directory(mount, foo), Err(ProviderError::OperationNotSupported));
    assert_eq!(tree.delete_directory(mount), Err(ProviderError::OperationNotSupported));
}

#[test]
fn cross_provider_move_is_refused() {
    let mut tree = make_tree();
    let foo = tree.create_directory(dir(0, 0), "foo").unwrap().full();
    let before = names(&tree, everyone(), dir(0, 0));
    assert_eq!(
        tree.move_directory(foo, dir(1, ARCHIVE_ROOT)),
        Err(ProviderError::CrossProviderMove)
    );
    let n = tree.create_note(foo, "n", note("N")).unwrap().full();
    assert_eq!(tree.move_note(n, dir(1, 0)), Err(ProviderError::CrossProviderMove));
    assert_eq!(names(&tree, everyone(), dir(0, 0)), before);
}

#[test]
fn unknown_provider_is_reported() {
    let tree = make_tree();
    assert_eq!(
        tree.make_directory_ref(ProviderId(7), DirectoryId(0)),
        Err(ProviderError::NoSuchProvider(ProviderId(7)))
    );
    assert_eq!(
        tree.make_note_ref(ProviderId(7), NoteId(0)),
        Err(ProviderError::NoSuchProvider(ProviderId(7)))
    );
    assert_eq!(
        tree.read_directory(everyone(), dir(9, 0)).map(|_| ()),
        Err(ProviderError::NoSuchProvider(ProviderId(9)))
    );
    assert_eq!(tree.root_directory(), (ProviderId(0), DirectoryId(0)));
}

#[test]
fn example_scenario_moves_and_loop() {
    let mut tree = Tree::new(DbProvider::new(), Vec::new(), Vec::new()).unwrap().0;
    let root = dir(0, 0);
    let archive_dir = String::from("Архив рассылок");
    let foo = tree.create_directory(root, "foo").unwrap().full();
    let bar = tree.create_directory(root, "bar").unwrap().full();
    let baz = tree.create_directory(bar, "baz").unwrap().full();
    assert_eq!(tree.move_directory(baz, root), Ok(()));
    let mut listed = names(&tree, everyone(), root);
    listed.retain(|n| *n != archive_dir);
    assert_eq!(listed, vec![String::from("foo"), String::from("bar"), String::from("baz")]);
    assert!(names(&tree, everyone(), bar).is_empty());
    assert_eq!(tree.directory_parent(baz), Ok(Some(root)));
    assert_eq!(tree.move_directory(baz, bar), Ok(()));
    assert_eq!(tree.move_directory(bar, baz), Err(ProviderError::WouldCreateLoop));
    assert_eq!(tree.directory_parent(bar), Ok(Some(root)));
    assert_eq!(tree.move_directory(foo, foo), Err(ProviderError::WouldCreateLoop));
}

#[test]
fn moving_into_a_descendant_changes_nothing() {
    let mut p = DbProvider::new();
    p.assign_id(ProviderId(0));
    let a = p.create_directory(DirectoryId(0), "a").unwrap();
    let b = p.create_directory(a.id, "b").unwrap();
    let c = p.create_directory(b.id, "c").unwrap();
    assert_eq!(p.move_directory(a.id, c.id), Err(ProviderError::WouldCreateLoop));
    assert_eq!(p.get_directory_parent(a.id), Ok(Some(DirectoryId(0))));
    assert_eq!(p.get_directory_parent(c.id), Ok(Some(b.id)));
}

#[test]
fn listing_after_create_has_one_new_child() {
    let mut p = DbProvider::new();
    p.assign_id(ProviderId(0));
    let before = p.read_directory(DirectoryId(0)).unwrap().children.len();
    p.create_directory(DirectoryId(0), "foo").unwrap();
    p.create_note(DirectoryId(0), note("x"), "aaa").unwrap();
    let after = p.read_directory(DirectoryId(0)).unwrap().children;
    assert_eq!(after.len(), before + 2);
    assert_eq!(after.iter().filter(|c| c.0 == "foo").count(), 1);
    assert_eq!(after.iter().filter(|c| c.0 == "aaa").count(), 1);
    assert_eq!(
        p.create_directory(DirectoryId(0), "foo").map(|_| ()),
        Err(ProviderError::TargetNameAlreadyExists(String::from("foo")))
    );
    assert_eq!(p.read_directory(DirectoryId(0)).unwrap().children.len(), before + 2);
}

#[test]
fn a_directory_and_a_note_may_share_a_name() {
    let mut p = DbProvider::new();
    p.assign_id(ProviderId(0));
    p.create_directory(DirectoryId(0), "same").unwrap();
    assert!(p.create_note(DirectoryId(0), note("x"), "same").is_ok());
}

#[test]
fn delete_directory_removes_everything_below() {
    let mut p = DbProvider::new();
    p.assign_id(ProviderId(0));
    let a = p.create_directory(DirectoryId(0), "a").unwrap();
    let b = p.create_directory(a.id, "b").unwrap();
    let keep = p.create_directory(DirectoryId(0), "keep").unwrap();
    let n = p.create_note(b.id, note("deep"), "n").unwrap();
    let m = p.create_note(keep.id, note("kept"), "m").unwrap();
    p.delete_directory(a.id).unwrap();
    assert_eq!(p.read_note(n.id), Err(ProviderError::NoSuchNote(n.id)));
    assert_eq!(p.get_directory_parent(b.id), Err(ProviderError::NoSuchDirectory(b.id)));
    assert_eq!(
        p.read_directory(a.id).map(|_| ()),
        Err(ProviderError::NoSuchDirectory(a.id))
    );
    assert_eq!(p.read_note(m.id), Ok(note("kept")));
    let listing = p.read_directory(DirectoryId(0)).unwrap().children;
    assert_eq!(listing.len(), 1);
    assert_eq!(listing[0].0, "keep");
}

#[test]
fn unknown_items_are_reported() {
    let mut p = DbProvider::new();
    p.assign_id(ProviderId(0));
    assert_eq!(
        p.create_directory(DirectoryId(5), "x").map(|_| ()),
        Err(ProviderError::NoSuchDirectory(DirectoryId(5)))
    );
    assert_eq!(p.rename_note(NoteId(3), "x"), Err(ProviderError::NoSuchNote(NoteId(3))));
    assert_eq!(p.update_note(NoteId(3), note("x")), Err(ProviderError::NoSuchNote(NoteId(3))));
    assert_eq!(p.delete_note(NoteId(3)), Err(ProviderError::NoSuchNote(NoteId(3))));
    let a = p.create_directory(DirectoryId(0), "a").unwrap();
    assert_eq!(
        p.move_directory(a.id, DirectoryId(99)),
        Err(ProviderError::NoSuchDirectory(DirectoryId(99)))
    );
}

#[test]
fn update_note_replaces_text() {
    let mut p = DbProvider::new();
    p.assign_id(ProviderId(0));
    let n = p.create_note(DirectoryId(0), note("old"), "n").unwrap();
    p.update_note(n.id, note("new")).unwrap();
    assert_eq!(p.read_note(n.id), Ok(note("new")));
    assert_eq!(p.get_note_name(n.id).unwrap(), "n");
    assert_eq!(p.get_note_parent(n.id), Ok(DirectoryId(0)));
}

#[test]
fn commands_are_answered_one_by_one_in_order() {
    let mut task = AccessTask::new(make_tree());
    let root = dir(0, 0);
    let commands = vec![
        Command::CreateDirectory { destination: root, name: String::from("foo") },
        Command::CreateDirectory { destination: root, name: String::from("foo") },
        Command::ReadDirectory { uctx: everyone(), directory: root },
    ];
    let mut replies = Vec::new();
    for c in commands {
        match task.on_event(TaskEvent::Received(c)) {
            TaskAction::Reply(r) => replies.push(r),
            TaskAction::Stop => panic!("task stopped early"),
        }
    }
    assert_eq!(replies.len(), 3);
    assert!(matches!(replies[0], Response::DirectoryCreated(Ok(_))));
    assert!(matches!(
        &replies[1],
        Response::DirectoryCreated(Err(ProviderError::TargetNameAlreadyExists(n))) if n == "foo"
    ));
    match &replies[2] {
        Response::Listing(Ok(d)) => {
            assert_eq!(d.directories.len(), 2);
            assert_eq!(d.directories[1].0, "foo");
            assert!(d.notes.is_empty());
        }
        _ => panic!("listing expected"),
    }
    assert!(matches!(task.on_event(TaskEvent::Closed), TaskAction::Stop));
    assert!(!task.is_running());
    assert!(matches!(
        task.on_event(TaskEvent::Received(Command::RootDirectory)),
        TaskAction::Stop
    ));
}

#[test]
fn context_runs_note_commands() {
    let mut ctx = Context::new(make_tree());
    let root = dir(0, 0);
    let created = match ctx.execute(Command::CreateNote {
        destination: root,
        name: String::from("n"),
        content: note("text"),
    }) {
        Response::NoteCreated(Ok(n)) => n.full(),
        _ => panic!("note expected"),
    };
    assert!(matches!(
        ctx.execute(Command::RenameNote { note: created, new_name: String::from("m") }),
        Response::Done(Ok(()))
    ));
    match ctx.execute(Command::NoteName { note: created }) {
        Response::NoteName(Ok(n)) => assert_eq!(n, "m"),
        _ => panic!("name expected"),
    }
    match ctx.execute(Command::ReadNote { uctx: everyone(), note: created }) {
        Response::Note(Ok(n)) => assert_eq!(n, note("text")),
        _ => panic!("note expected"),
    }
    assert!(matches!(
        ctx.execute(Command::DeleteNote { note: created }),
        Response::Done(Ok(()))
    ));
    assert!(matches!(
        ctx.execute(Command::DeleteNote { note: created }),
        Response::Done(Err(ProviderError::NoSuchNote(_)))
    ));
}

#[test]
fn references_forward_to_the_tree() {
    let mut tree = make_tree();
    let root = tree.root_directory_ref();
    let docs = root.create_directory(&mut tree, "docs").unwrap();
    let n = docs.create_note(&mut tree, note("body"), "readme").unwrap();
    assert_eq!(n.name(&tree).unwrap(), "readme");
    assert_eq!(n.read(&tree, everyone()), Ok(note("body")));
    n.write(&mut tree, note("new body")).unwrap();
    assert_eq!(n.read(&tree, everyone()), Ok(note("new body")));
    assert_eq!(n.parent(&tree), Ok(docs.full()));
    n.rename(&mut tree, "README").unwrap();
    n.move_to(&mut tree, DirectoryId(0)).unwrap();
    assert_eq!(n.parent(&tree), Ok(dir(0, 0)));
    assert_eq!(docs.parent(&tree), Ok(Some(dir(0, 0))));
    assert_eq!(docs.name(&tree).unwrap().as_deref(), Some("docs"));
    docs.rename(&mut tree, "papers").unwrap();
    let sub = docs.create_directory(&mut tree, "sub").unwrap();
    sub.move_to(&mut tree, DirectoryId(0)).unwrap();
    assert_eq!(sub.parent(&tree), Ok(Some(dir(0, 0))));
    n.delete(&mut tree).unwrap();
    sub.delete(&mut tree).unwrap();
    docs.mount_here(&mut tree, ProviderId(1)).unwrap();
    let listed: Vec<String> = docs
        .read(&tree, everyone())
        .unwrap()
        .children
        .into_iter()
        .map(|c| c.0)
        .collect();
    assert_eq!(listed, vec![String::from("Обратная связь")]);
    assert_eq!(
        tree.add_mount_point(dir(1, ARCHIVE_ROOT), ProviderId(0)),
        Err(ProviderError::OperationNotSupported)
    );
}

use hse_eco_bot::archive::ArchiveEntry;
use hse_eco_bot::kb::{name_in_listing, note_name_in_listing};
use hse_eco_bot::store::{DirRow, NoteRow};

fn row(id: u64, parent: u64, name: &str) -> DirRow {
    DirRow {
        id,
        parent,
        name: String::from(name),
    }
}

#[test]
fn stored_tables_with_a_parent_cycle_are_refused() {
    let cyclic = vec![row(1, 2, "a"), row(2, 1, "b")];
    assert!(matches!(
        DbProvider::from_rows(cyclic, Vec::new()),
        Err(ProviderError::Corrupt { .. })
    ));
    let self_parent = vec![row(3, 3, "c")];
    assert!(matches!(
        DbProvider::from_rows(self_parent, Vec::new()),
        Err(ProviderError::Corrupt { .. })
    ));
    let dangling = vec![row(1, 9, "a")];
    assert!(matches!(
        DbProvider::from_rows(dangling, Vec::new()),
        Err(ProviderError::Corrupt { .. })
    ));
    let twins = vec![row(1, 0, "a"), row(2, 0, "a")];
    assert!(matches!(
        DbProvider::from_rows(twins, Vec::new()),
        Err(ProviderError::Corrupt { .. })
    ));
}

#[test]
fn stored_tables_load_with_their_ids() {
    let dirs = vec![row(2, 5, "b"), row(5, 0, "a")];
    let notes = vec![NoteRow {
        id: 7,
        parent: 2,
        name: String::from("n"),
        content: String::from("text"),
    }];
    let mut p = DbProvider::from_rows(dirs, notes).unwrap();
    p.assign_id(ProviderId(0));
    assert_eq!(p.get_directory_parent(DirectoryId(2)), Ok(Some(DirectoryId(5))));
    assert_eq!(p.read_note(NoteId(7)), Ok(note("text")));
    let created = p.create_directory(DirectoryId(0), "c").unwrap();
    assert_eq!(created.id, DirectoryId(6));
    assert_eq!(p.move_directory(DirectoryId(5), DirectoryId(2)), Err(ProviderError::WouldCreateLoop));
    assert_eq!(p.move_directory(DirectoryId(2), DirectoryId(6)), Ok(()));
}

#[test]
fn provider_refuses_to_list_a_mount_point() {
    let mut p = DbProvider::new();
    p.assign_id(ProviderId(0));
    let d = p.create_directory(DirectoryId(0), "m").unwrap();
    p.add_mount_point(d.id, ProviderId(1)).unwrap();
    assert_eq!(
        p.read_directory(d.id).map(|_| ()),
        Err(ProviderError::OperationNotSupported)
    );
}

#[test]
fn names_are_found_in_listings() {
    let mut tree = Tree::with_store(DbProvider::new());
    let root = tree.root_directory_ref();
    let d = root.create_directory(&mut tree, "dir").unwrap();
    let n = root.create_note(&mut tree, note("x"), "note").unwrap();
    let listing = root.read(&tree, everyone()).unwrap();
    assert_eq!(name_in_listing(&listing, d.id, ProviderId(0)).as_deref(), Some("dir"));
    assert_eq!(note_name_in_listing(&listing, n.id, ProviderId(0)).as_deref(), Some("note"));
    assert_eq!(name_in_listing(&listing, d.id, ProviderId(1)), None);
    assert_eq!(name_in_listing(&listing, DirectoryId(99), ProviderId(0)), None);
}

#[test]
fn new_tree_refuses_bad_issues() {
    let issue = ArchiveEntry {
        id: 0,
        feed: String::from("feedback"),
        content: String::from("x"),
        timestamp: Timestamp { year: 2024, month: 1, day: 1, hour: 0, minute: 0, second: 0 },
    };
    assert!(matches!(
        Tree::new(DbProvider::new(), vec![feedback_feed()], vec![issue]),
        Err(ProviderError::Corrupt { .. })
    ));
}
