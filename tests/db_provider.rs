use hse_eco_bot::kb::{DirectoryRef, FormattedText, ItemRef, Note, ProviderError, ProviderUserContext};
use hse_eco_bot::store::DbProvider;
use hse_eco_bot::tree::Tree;
use hse_eco_bot::user::Permissions;

fn make_tree() -> Tree {
    Tree::with_store(DbProvider::new())
}

fn uctx() -> ProviderUserContext {
    ProviderUserContext {
        permissions: Permissions::all(),
    }
}

fn note(text: &str) -> Note {
    Note {
        text: FormattedText {
            raw_text: String::from(text),
        },
    }
}

fn count_named(tree: &Tree, dir: &DirectoryRef, name: &str) -> usize {
    dir.read(tree, uctx())
        .unwrap()
        .children
        .into_iter()
        .map(|x| x.0)
        .filter(|x| x == name)
        .count()
}

#[test]
fn kb_initially_empty() {
    let tree = make_tree();
    let root = tree.root_directory_ref();
    let dir = root.read(&tree, uctx()).unwrap();
    assert!(dir.children.is_empty(), "KB not empty: {:?}", &dir.children);
}

#[test]
fn note_create_read_delete_ok() {
    let my_note = note("This is a test note");

    let mut tree = make_tree();
    let root = tree.root_directory_ref();
    root.create_note(&mut tree, my_note.clone(), "Test note").unwrap();
    let dir = root.read(&tree, uctx()).unwrap();
    assert_eq!(dir.children.len(), 1);
    assert_eq!(dir.children[0].0, "Test note");
    let note_ref = match dir.children[0].1 {
        ItemRef::Directory(_) => panic!("Created note is a directory"),
        ItemRef::Note(note_ref) => note_ref,
    };
    let read = note_ref.read(&tree, uctx()).unwrap();
    assert_eq!(read, my_note);

    assert_eq!(note_ref.name(&tree).unwrap(), "Test note");

    note_ref.delete(&mut tree).unwrap();

    let dir = root.read(&tree, uctx()).unwrap();
    assert!(dir.children.is_empty(), "KB not empty: {:?}", &dir.children);
}

#[test]
fn root_dir_ok() {
    let mut tree = make_tree();
    let root = tree.root_directory_ref();
    assert_eq!(root.name(&tree).unwrap(), None);
    assert_eq!(root.move_to(&mut tree, root.id()), Err(ProviderError::CannotMoveRoot));
    assert_eq!(root.rename(&mut tree, "New root"), Err(ProviderError::CannotRenameRoot));
    assert_eq!(root.delete(&mut tree), Err(ProviderError::CannotDeleteRoot));
}

#[test]
fn dir_create_rename_delete_ok() {
    let mut tree = make_tree();
    let root = tree.root_directory_ref();
    root.create_directory(&mut tree, "foo").unwrap();
    let dir = root.read(&tree, uctx()).unwrap();
    assert_eq!(dir.children.len(), 1);
    assert_eq!(dir.children[0].0, "foo");
    let dir_ref = match dir.children[0].1 {
        ItemRef::Directory(dir_ref) => dir_ref,
        ItemRef::Note(_) => panic!("Created directory is a note"),
    };
    assert_eq!(dir_ref.name(&tree).unwrap().as_deref(), Some("foo"));

    dir_ref.rename(&mut tree, "bar").unwrap();
    assert_eq!(dir_ref.name(&tree).unwrap().as_deref(), Some("bar"));
    let dir = root.read(&tree, uctx()).unwrap();
    assert_eq!(dir.children.len(), 1);
    assert_eq!(dir.children[0].0, "bar");

    dir_ref.delete(&mut tree).unwrap();
    let dir = root.read(&tree, uctx()).unwrap();
    assert!(dir.children.is_empty());
}

#[test]
fn moves_renames_ok() {
    let mut tree = make_tree();
    let root = tree.root_directory_ref();
    let foo = root.create_directory(&mut tree, "foo").unwrap();
    let bar = root.create_directory(&mut tree, "bar").unwrap();
    let baz = bar.create_directory(&mut tree, "baz").unwrap();
    let aaa = root.create_note(&mut tree, note("AAA"), "aaa").unwrap();
    let bbb = foo.create_note(&mut tree, note("BBB"), "bbb").unwrap();

    aaa.rename(&mut tree, "Aaa").unwrap();
    baz.rename(&mut tree, "quux").unwrap();

    assert_eq!(aaa.name(&tree).unwrap(), "Aaa");
    assert_eq!(baz.name(&tree).unwrap().as_deref(), Some("quux"));

    assert_eq!(count_named(&tree, &root, "Aaa"), 1, "`Aaa` not in root");
    assert_eq!(count_named(&tree, &bar, "quux"), 1, "`quux` not in `bar`");

    let quux = baz;

    quux.move_to(&mut tree, root.id()).unwrap();
    assert_eq!(count_named(&tree, &root, "quux"), 1, "`quux` not in `root`");
    assert_eq!(count_named(&tree, &bar, "quux"), 0, "`quux` in `bar`");

    quux.move_to(&mut tree, bar.id()).unwrap();
    assert_eq!(count_named(&tree, &root, "quux"), 0, "`quux` in `root`");
    assert_eq!(count_named(&tree, &bar, "quux"), 1, "`quux` not in `bar`");

    bbb.move_to(&mut tree, root.id()).unwrap();
    assert_eq!(count_named(&tree, &root, "bbb"), 1, "`bbb` not in root");
    assert_eq!(count_named(&tree, &foo, "bbb"), 0, "`bbb` in `foo`");

    assert_eq!(bar.move_to(&mut tree, quux.id()), Err(ProviderError::WouldCreateLoop));
}

#[test]
fn name_conflicts_ok() {
    let mut tree = make_tree();
    let root = tree.root_directory_ref();
    let foo = root.create_directory(&mut tree, "foo").unwrap();
    let bar = root.create_directory(&mut tree, "bar").unwrap();
    let baz = bar.create_directory(&mut tree, "baz").unwrap();
    let aaa = foo.create_note(&mut tree, note("AAA"), "aaa").unwrap();
    let _bbb = foo.create_note(&mut tree, note("BBB"), "bbb").unwrap();
    let ccc = bar.create_note(&mut tree, note("CCC"), "ccc").unwrap();

    assert_eq!(
        foo.rename(&mut tree, "bar"),
        Err(ProviderError::TargetNameAlreadyExists(String::from("bar"))),
    );

    assert_eq!(
        aaa.rename(&mut tree, "bbb"),
        Err(ProviderError::TargetNameAlreadyExists(String::from("bbb"))),
    );

    baz.rename(&mut tree, "foo").unwrap();
    assert_eq!(
        baz.move_to(&mut tree, root.id()),
        Err(ProviderError::TargetNameAlreadyExists(String::from("foo"))),
    );

    ccc.rename(&mut tree, "bbb").unwrap();
    assert_eq!(
        ccc.move_to(&mut tree, foo.id()),
        Err(ProviderError::TargetNameAlreadyExists(String::from("bbb"))),
    );
}
