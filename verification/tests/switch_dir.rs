use std::cell::RefCell;
use std::rc::Rc;

use contextlib::util::{DirStep, SwitchDir, SwitchDirError};
use contextlib::{with, Context, ContextError, ContextErrorType, ContextResult};

/// The directories of a make-believe process.
struct Disk {
    current: String,
    dirs: Vec<String>,
    changes: u32,
}

impl Disk {
    fn new(current: &str, dirs: &[&str]) -> Rc<RefCell<Disk>> {
        Rc::new(RefCell::new(Disk {
            current: current.to_string(),
            dirs: dirs.iter().map(|d| d.to_string()).collect(),
            changes: 0,
        }))
    }

    fn change_to(&mut self, dir: &str) -> bool {
        self.changes += 1;
        if self.dirs.iter().any(|d| d == dir) {
            self.current = dir.to_string();
            true
        } else {
            false
        }
    }
}

/// Carries out on a `Disk` what a `SwitchDir` decides.
struct DiskSwitch {
    disk: Rc<RefCell<Disk>>,
    switch: SwitchDir,
}

impl DiskSwitch {
    fn new(disk: &Rc<RefCell<Disk>>, dir: &str) -> Result<Self, SwitchDirError> {
        let is_dir = disk.borrow().dirs.iter().any(|d| d == dir);
        let current = Some(disk.borrow().current.clone());
        let switch = SwitchDir::new(dir.to_string(), is_dir, current)?;
        Ok(DiskSwitch { disk: disk.clone(), switch })
    }
}

impl Context for DiskSwitch {
    fn enter(&mut self) -> ContextResult {
        let current = Some(self.disk.borrow().current.clone());
        match self.switch.begin_enter(current) {
            DirStep::Done(outcome) => outcome,
            DirStep::ChangeTo(dir) => {
                let changed = self.disk.borrow_mut().change_to(&dir);
                self.switch.finish_enter(changed)
            }
        }
    }

    fn exit(&mut self, err: &ContextResult) -> bool {
        let back = self.switch.exit_dir();
        let restored = self.disk.borrow_mut().change_to(&back);
        assert!(restored);
        self.switch.finish_exit(restored, err)
    }
}

fn current(disk: &Rc<RefCell<Disk>>) -> String {
    disk.borrow().current.clone()
}

#[test]
fn switch_goes_there_and_back_again() {
    let disk = Disk::new("/home/a", &["/home/a", "/tmp/b"]);
    let mut switch = DiskSwitch::new(&disk, "/tmp/b").unwrap();
    assert_eq!(current(&disk), "/home/a");

    let result = with(&mut switch, |_| {
        assert_eq!(current(&disk), "/tmp/b");
        Ok(())
    });
    assert_eq!(result, Ok(()));
    assert_eq!(current(&disk), "/home/a");
}

#[test]
fn switch_goes_back_after_a_failed_block() {
    let disk = Disk::new("/home/a", &["/home/a", "/tmp/b"]);
    let mut switch = DiskSwitch::new(&disk, "/tmp/b").unwrap();

    let result = with(&mut switch, |_| {
        assert_eq!(current(&disk), "/tmp/b");
        Err(ContextError::new(ContextErrorType::Other, "boom"))
    });
    assert_eq!(result, Err(ContextError::new(ContextErrorType::Other, "boom")));
    assert_eq!(current(&disk), "/home/a");
}

#[test]
fn switch_goes_back_to_where_it_was_entered() {
    let disk = Disk::new("/home/a", &["/home/a", "/tmp/b", "/var/c"]);
    let mut switch = DiskSwitch::new(&disk, "/tmp/b").unwrap();
    // The process moves on between setting the switch up and entering it.
    assert!(disk.borrow_mut().change_to("/var/c"));

    let result = with(&mut switch, |_| {
        assert_eq!(current(&disk), "/tmp/b");
        Ok(())
    });
    assert_eq!(result, Ok(()));
    assert_eq!(current(&disk), "/var/c");
}

#[test]
fn switch_to_the_current_directory_changes_nothing() {
    let disk = Disk::new("/home/a", &["/home/a", "/tmp/b"]);
    let mut switch = DiskSwitch::new(&disk, "/home/a").unwrap();

    assert_eq!(switch.enter(), Ok(()));
    assert_eq!(current(&disk), "/home/a");
    // Entering asked for no change at all.
    assert_eq!(disk.borrow().changes, 0);

    assert!(!switch.exit(&Ok(())));
    assert_eq!(current(&disk), "/home/a");
}

#[test]
fn begin_enter_on_the_target_is_done_at_once() {
    let mut switch =
        SwitchDir::new("/tmp/b".to_string(), true, Some("/home/a".to_string())).unwrap();
    match switch.begin_enter(Some("/tmp/b".to_string())) {
        DirStep::Done(outcome) => assert_eq!(outcome, Ok(())),
        DirStep::ChangeTo(dir) => panic!("asked to change to {}", dir),
    }
    assert_eq!(switch.exit_dir(), "/tmp/b");
}

#[test]
fn begin_enter_elsewhere_asks_for_the_target() {
    let mut switch =
        SwitchDir::new("/tmp/b".to_string(), true, Some("/home/a".to_string())).unwrap();
    assert_eq!(switch.exit_dir(), "/home/a");
    match switch.begin_enter(Some("/var/c".to_string())) {
        DirStep::Done(outcome) => panic!("done with {:?}", outcome),
        DirStep::ChangeTo(dir) => assert_eq!(dir, "/tmp/b"),
    }
    assert_eq!(switch.exit_dir(), "/var/c");
    assert_eq!(switch.finish_enter(true), Ok(()));
    assert!(!switch.finish_exit(true, &Ok(())));
    assert!(!switch.finish_exit(true, &Err(ContextError::new(ContextErrorType::Other, "x"))));
}

#[test]
fn new_refuses_what_is_no_directory() {
    let disk = Disk::new("/home/a", &["/home/a"]);
    match DiskSwitch::new(&disk, "/no/such/dir") {
        Err(SwitchDirError::NotFound(message)) => {
            assert_eq!(message, "Not a directory: /no/such/dir")
        }
        _ => panic!("a directory that does not exist was accepted"),
    }
    // Nothing was touched.
    assert_eq!(current(&disk), "/home/a");
    assert_eq!(disk.borrow().changes, 0);
}

#[test]
fn new_refuses_a_missing_target_before_a_missing_working_directory() {
    match SwitchDir::new("/no/such/dir".to_string(), false, None) {
        Err(SwitchDirError::NotFound(message)) => {
            assert_eq!(message, "Not a directory: /no/such/dir")
        }
        _ => panic!("a directory that does not exist was accepted"),
    }
}

#[test]
fn new_needs_a_working_directory() {
    match SwitchDir::new("/tmp/b".to_string(), true, None) {
        Err(SwitchDirError::NoCurrentDir) => {}
        _ => panic!("set up without a working directory"),
    }
}

#[test]
fn enter_fails_without_a_working_directory() {
    let mut switch =
        SwitchDir::new("/tmp/b".to_string(), true, Some("/home/a".to_string())).unwrap();
    match switch.begin_enter(None) {
        DirStep::Done(outcome) => assert_eq!(
            outcome,
            Err(ContextError::new(
                ContextErrorType::EnterError,
                "Could not get current directory"
            ))
        ),
        DirStep::ChangeTo(dir) => panic!("asked to change to {}", dir),
    }
    // The directory to go back to is the one found at set-up.
    assert_eq!(switch.exit_dir(), "/home/a");
}

#[test]
fn enter_fails_when_the_change_fails() {
    let switch = SwitchDir::new("/tmp/b".to_string(), true, Some("/home/a".to_string())).unwrap();
    assert_eq!(
        switch.finish_enter(false),
        Err(ContextError::new(ContextErrorType::EnterError, "Could not set directory: /tmp/b"))
    );
}

#[test]
fn a_vanished_target_fails_the_scope_without_exit() {
    let disk = Disk::new("/home/a", &["/home/a", "/tmp/b"]);
    let mut switch = DiskSwitch::new(&disk, "/tmp/b").unwrap();
    disk.borrow_mut().dirs.retain(|d| d != "/tmp/b");

    let mut ran = false;
    let result = with(&mut switch, |_| {
        ran = true;
        Ok(())
    });
    assert_eq!(
        result,
        Err(ContextError::new(ContextErrorType::EnterError, "Could not set directory: /tmp/b"))
    );
    assert!(!ran);
    assert_eq!(current(&disk), "/home/a");
    // One change was tried on entry, none on exit.
    assert_eq!(disk.borrow().changes, 1);
}
