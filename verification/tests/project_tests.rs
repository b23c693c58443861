use h2gb::action::project_rename::{
    ActionProjectRename, ActionProjectRenameBackward, ActionProjectRenameForward,
};
use h2gb::action::Action;
use h2gb::error::{ErrorKind, H2Error};
use h2gb::h2project::h2buffer::{H2Buffer, H2Layer};
use h2gb::h2project::H2Project;
use h2gb::record::Record;

fn record() -> Record {
    Record::new(H2Project::new("name", "1.0").unwrap())
}

#[test]
fn test_action() {
    let mut record = record();
    assert_eq!("name", record.target().name());

    record.apply(Action::project_rename("newname")).unwrap();
    assert_eq!("newname", record.target().name());

    record.undo().unwrap();
    assert_eq!("name", record.target().name());

    record.redo().unwrap();
    assert_eq!("newname", record.target().name());
}

#[test]
fn test_name_is_required() {
    let mut record = record();

    assert!(record.apply(Action::project_rename("")).is_err());
    assert_eq!("name", record.target().name());
    assert_eq!(Err(H2Error::EmptyName), record.apply(Action::project_rename("")));
    assert_eq!(ErrorKind::InvalidArgument, H2Error::EmptyName.kind());
    assert_eq!(0, record.cursor());
    assert!(!record.can_undo());
    assert_eq!(Some(H2Error::EmptyName), H2Project::new("", "1.0").err());
}

#[test]
fn test_project_keeps_its_version() {
    let mut record = record();
    record.apply(Action::project_rename("other")).unwrap();
    assert_eq!("1.0", record.target().version());
}

#[test]
fn test_buffer_lifecycle() {
    let mut record = record();
    record.apply(Action::buffer_create_empty("b1", 16, 0x1000)).unwrap();
    {
        let b = record.target().buffer("b1").unwrap();
        assert_eq!(vec![0u8; 16], b.data);
        assert_eq!(0x1000, b.base_address);
        assert_eq!(16, b.len());
        assert!(!b.is_populated());
    }
    assert_eq!(
        Err(H2Error::NameCollision),
        record.apply(Action::buffer_create_empty("b1", 16, 0x1000))
    );
    assert_eq!(ErrorKind::PreconditionViolated, H2Error::NameCollision.kind());
    assert_eq!(1, record.cursor());

    record.apply(Action::buffer_delete("b1")).unwrap();
    assert!(record.target().buffer("b1").is_none());
    assert!(!record.target().buffer_exists("b1"));

    record.undo().unwrap();
    let b = record.target().buffer("b1").unwrap();
    assert_eq!(vec![0u8; 16], b.data);
    assert_eq!(0x1000, b.base_address);

    record.redo().unwrap();
    assert!(record.target().buffer("b1").is_none());
    record.undo().unwrap();
    record.undo().unwrap();
    assert!(record.target().buffer("b1").is_none());
    assert_eq!(0, record.target().buffer_count());
    assert_eq!(Err(H2Error::NothingToUndo), record.undo());
    record.redo().unwrap();
    assert_eq!(1, record.target().buffer_count());
    record.redo().unwrap();
    assert_eq!(0, record.target().buffer_count());
    assert_eq!(Err(H2Error::NothingToRedo), record.redo());
}

#[test]
fn test_create_empty_needs_a_size_and_a_name() {
    let mut record = record();
    assert_eq!(
        Err(H2Error::EmptyBuffer),
        record.apply(Action::buffer_create_empty("b1", 0, 0))
    );
    assert_eq!(Err(H2Error::EmptyName), record.apply(Action::buffer_create_empty("", 4, 0)));
    assert_eq!(Err(H2Error::EmptyName), record.apply(Action::buffer_create_empty("", 0, 0)));
    assert_eq!(0, record.target().buffer_count());
    assert_eq!(0, record.cursor());
}

#[test]
fn test_create_from_bytes() {
    let mut record = record();
    record.apply(Action::buffer_create_from_bytes("b", b"ABCD".to_vec(), 0x80)).unwrap();
    assert_eq!(b"ABCD".to_vec(), record.target().buffer("b").unwrap().data);
    assert_eq!(0x80, record.target().buffer("b").unwrap().base_address);
    assert_eq!(
        Err(H2Error::EmptyBuffer),
        record.apply(Action::buffer_create_from_bytes("c", vec![], 0))
    );
    assert_eq!(
        Err(H2Error::NameCollision),
        record.apply(Action::buffer_create_from_bytes("b", vec![1], 0))
    );
    assert_eq!(
        Err(H2Error::EmptyName),
        record.apply(Action::buffer_create_from_bytes("", vec![1], 0))
    );
    record.undo().unwrap();
    assert!(!record.target().buffer_exists("b"));
    record.redo().unwrap();
    assert_eq!(b"ABCD".to_vec(), record.target().buffer("b").unwrap().data);
    assert_eq!(0x80, record.target().buffer("b").unwrap().base_address);
}

#[test]
fn test_delete_needs_an_unpopulated_buffer() {
    let mut project = H2Project::new("name", "1.0").unwrap();
    let mut buffer = H2Buffer::new(vec![1, 2, 3], 0).unwrap();
    buffer.layers.push(H2Layer::new("layer".to_string(), "b".to_string()));
    assert!(buffer.is_populated());
    project.buffer_insert("b", buffer).unwrap();
    let mut record = Record::new(project);
    assert_eq!(Err(H2Error::BufferPopulated), record.apply(Action::buffer_delete("b")));
    assert!(record.target().buffer_exists("b"));
    assert_eq!(Err(H2Error::NoSuchBuffer), record.apply(Action::buffer_delete("other")));
    assert_eq!(0, record.cursor());
}

#[test]
fn test_apply_twice_and_undo_first_are_refused() {
    let mut project = H2Project::new("name", "1.0").unwrap();
    let mut action = Action::project_rename("newname");
    assert_eq!(Err(H2Error::MissingContext), action.undo(&mut project));
    assert_eq!("name", project.name());
    action.apply(&mut project).unwrap();
    assert_eq!(Err(H2Error::MissingContext), action.apply(&mut project));
    assert_eq!("newname", project.name());
    action.undo(&mut project).unwrap();
    assert_eq!(Err(H2Error::MissingContext), action.undo(&mut project));
    assert_eq!("name", project.name());
    assert_eq!(ErrorKind::MissingContext, H2Error::MissingContext.kind());

    let mut create = Action::buffer_create_empty("b", 4, 0);
    assert_eq!(Err(H2Error::MissingContext), create.undo(&mut project));
    create.apply(&mut project).unwrap();
    assert_eq!(Err(H2Error::MissingContext), create.apply(&mut project));
    let mut delete = Action::buffer_delete("b");
    assert_eq!(Err(H2Error::MissingContext), delete.undo(&mut project));
    delete.apply(&mut project).unwrap();
    assert_eq!(Err(H2Error::MissingContext), delete.apply(&mut project));
    let mut bytes = Action::buffer_create_from_bytes("c", vec![9], 0);
    assert_eq!(Err(H2Error::MissingContext), bytes.undo(&mut project));
    bytes.apply(&mut project).unwrap();
    assert_eq!(Err(H2Error::MissingContext), bytes.apply(&mut project));
}

#[test]
fn test_null_action() {
    let mut record = record();
    record.apply(Action::null()).unwrap();
    assert_eq!(1, record.cursor());
    assert_eq!("name", record.target().name());
    record.undo().unwrap();
    record.redo().unwrap();
    assert_eq!("name", record.target().name());
}

#[test]
fn test_apply_drops_what_could_be_redone() {
    let mut record = record();
    record.apply(Action::project_rename("a")).unwrap();
    record.apply(Action::project_rename("b")).unwrap();
    record.undo().unwrap();
    assert!(record.can_redo());
    // a failing action leaves the log as it is
    assert!(record.apply(Action::project_rename("")).is_err());
    assert!(record.can_redo());
    assert_eq!(1, record.cursor());
    record.apply(Action::project_rename("c")).unwrap();
    assert!(!record.can_redo());
    assert_eq!(2, record.cursor());
    assert_eq!("c", record.target().name());
    record.undo().unwrap();
    assert_eq!("a", record.target().name());
    record.undo().unwrap();
    assert_eq!("name", record.target().name());
}

#[test]
fn test_project_buffers() {
    let mut project = H2Project::new("name", "1.0").unwrap();
    project.buffer_insert("a", H2Buffer::new(vec![1], 0).unwrap()).unwrap();
    project.buffer_insert("b", H2Buffer::new(vec![2], 0).unwrap()).unwrap();
    project.buffer_insert("c", H2Buffer::new(vec![3], 0).unwrap()).unwrap();
    assert_eq!(
        Err(H2Error::NameCollision),
        project.buffer_insert("b", H2Buffer::new(vec![4], 0).unwrap())
    );
    assert_eq!(
        Err(H2Error::EmptyName),
        project.buffer_insert("", H2Buffer::new(vec![4], 0).unwrap())
    );
    assert_eq!(3, project.buffer_count());
    assert_eq!(vec![2], project.buffer_remove("b").unwrap().data);
    assert_eq!(Some(H2Error::NoSuchBuffer), project.buffer_remove("b").err());
    assert_eq!(vec![1], project.buffer("a").unwrap().data);
    assert_eq!(vec![3], project.buffer("c").unwrap().data);
    assert!(project.buffer("b").is_none());
    assert_eq!(Ok("name".to_string()), project.rename("other".to_string()));
    assert_eq!(Err(H2Error::EmptyName), project.rename(String::new()));
    assert_eq!("other", project.name());
}

#[test]
fn test_buffer_mut() {
    let mut project = H2Project::new("name", "1.0").unwrap();
    project.buffer_insert("a", H2Buffer::new(b"4142".to_vec(), 0).unwrap()).unwrap();
    project.buffer_insert("b", H2Buffer::new(b"xy".to_vec(), 0).unwrap()).unwrap();
    assert!(project.buffer_mut("c").is_none());
    {
        let a = project.buffer_mut("a").unwrap();
        a.transform(h2gb::transformation::Transformation::FromHex).unwrap();
        a.rebase(0x10).unwrap();
    }
    assert_eq!(b"AB".to_vec(), project.buffer("a").unwrap().data);
    assert_eq!(0x10, project.buffer("a").unwrap().base_address);
    assert_eq!(b"xy".to_vec(), project.buffer("b").unwrap().data);
    assert_eq!(2, project.buffers().len());
}

#[test]
fn test_slots_are_exclusive() {
    let forward = || Some(ActionProjectRenameForward { new_name: "n".to_string() });
    let backward = || Some(ActionProjectRenameBackward { old_name: "o".to_string() });
    assert_eq!(
        Some(H2Error::CorruptAction),
        ActionProjectRename::from_parts(forward(), backward()).err()
    );
    assert_eq!(Some(H2Error::CorruptAction), ActionProjectRename::from_parts(None, None).err());
    let a = ActionProjectRename::from_parts(forward(), None).unwrap();
    assert!(a.is_pending());
    assert!(!a.is_done());
    let a = ActionProjectRename::from_parts(None, backward()).unwrap();
    assert!(a.is_done());
    let (f, b) = a.into_parts();
    assert!(f.is_none());
    assert_eq!("o", b.unwrap().old_name);

    let mut project = H2Project::new("name", "1.0").unwrap();
    let mut action = Action::project_rename("x");
    assert!(action.is_pending() && !action.is_done());
    action.apply(&mut project).unwrap();
    assert!(action.is_done() && !action.is_pending());
    assert!(action.apply(&mut project).is_err());
    assert!(action.is_done() && !action.is_pending());
    action.undo(&mut project).unwrap();
    assert!(action.is_pending() && !action.is_done());
    let mut failing = Action::project_rename("");
    assert!(failing.apply(&mut project).is_err());
    assert!(failing.is_pending() && !failing.is_done());
}

#[test]
fn test_record_from_parts() {
    let project = || H2Project::new("name", "1.0").unwrap();
    let mut applied = Action::project_rename("x");
    let mut p = project();
    applied.apply(&mut p).unwrap();
    let pending = Action::project_rename("y");
    let mut record = Record::from_parts(p, vec![applied], vec![pending]).unwrap();
    assert_eq!(1, record.cursor());
    assert!(record.can_undo() && record.can_redo());
    record.redo().unwrap();
    assert_eq!("y", record.target().name());
    record.undo().unwrap();
    record.undo().unwrap();
    assert_eq!("name", record.target().name());
    let (p, done, undone) = record.into_parts();
    assert_eq!("name", p.name());
    assert_eq!(0, done.len());
    assert_eq!(2, undone.len());
    // an action in the wrong place is refused
    assert_eq!(
        Some(H2Error::CorruptAction),
        Record::from_parts(project(), vec![Action::project_rename("x")], vec![]).err()
    );
    let mut applied = Action::project_rename("x");
    applied.apply(&mut project()).unwrap();
    assert_eq!(
        Some(H2Error::CorruptAction),
        Record::from_parts(project(), vec![], vec![applied]).err()
    );
}
