use contextlib::{with, Context, ContextError, ContextErrorType, ContextResult};

struct Temp {
    orig: u8,
    val: u8,
}

impl Temp {
    fn new() -> Self {
        Temp { orig: 0, val: 0 }
    }
}

impl Context for Temp {
    fn enter(&mut self) -> ContextResult {
        self.orig = self.val;
        self.val = 42;
        Ok(())
    }

    fn exit(&mut self, _err: &ContextResult) -> bool {
        self.val = self.orig;
        false
    }
}

/// Counts its calls; `enter` fails and `exit` suppresses as told.
struct Probe {
    fail_enter: bool,
    suppress: bool,
    enters: u32,
    exits: u32,
    saw_failure: Option<bool>,
}

impl Probe {
    fn new(fail_enter: bool, suppress: bool) -> Self {
        Probe { fail_enter, suppress, enters: 0, exits: 0, saw_failure: None }
    }
}

impl Context for Probe {
    fn enter(&mut self) -> ContextResult {
        self.enters += 1;
        if self.fail_enter {
            Err(ContextError::new(ContextErrorType::EnterError, "no entry"))
        } else {
            Ok(())
        }
    }

    fn exit(&mut self, err: &ContextResult) -> bool {
        self.exits += 1;
        self.saw_failure = Some(err.is_err());
        self.suppress
    }
}

/// Has no `enter` of its own.
struct Plain {
    exits: u32,
}

impl Context for Plain {
    fn exit(&mut self, _err: &ContextResult) -> bool {
        self.exits += 1;
        false
    }
}

#[test]
fn simple() {
    let mut t = Temp::new();
    assert_eq!(t.val, 0);

    let result = with(&mut t, |t| {
        assert_eq!(t.val, 42);
        Err(ContextError::new(ContextErrorType::Other, "Y U get Err?!"))
    });
    // `exit` did not handle the failure, so it comes back as the block made it.
    match result {
        Ok(()) => panic!("the failure of the block was dropped"),
        Err(err) => {
            assert_eq!(err.kind(), ContextErrorType::Other);
            assert_eq!(err.message(), "Y U get Err?!");
        }
    }
    assert_eq!(t.val, 0);
}

#[test]
fn with_returns_the_success_of_the_block() {
    let mut t = Temp::new();
    let result = with(&mut t, |t| {
        assert_eq!(t.val, 42);
        Ok(())
    });
    assert_eq!(result, Ok(()));
    assert_eq!(t.val, 0);
}

#[test]
fn with_exits_once_after_success() {
    let mut p = Probe::new(false, false);
    let result = with(&mut p, |p| {
        assert_eq!(p.enters, 1);
        assert_eq!(p.exits, 0);
        Ok(())
    });
    assert_eq!(result, Ok(()));
    assert_eq!(p.enters, 1);
    assert_eq!(p.exits, 1);
    assert_eq!(p.saw_failure, Some(false));
}

#[test]
fn with_exits_once_after_failure() {
    let mut p = Probe::new(false, false);
    let result = with(&mut p, |_| Err(ContextError::new(ContextErrorType::Other, "boom")));
    assert_eq!(result, Err(ContextError::new(ContextErrorType::Other, "boom")));
    assert_eq!(p.enters, 1);
    assert_eq!(p.exits, 1);
    assert_eq!(p.saw_failure, Some(true));
}

#[test]
fn with_skips_block_and_exit_when_enter_fails() {
    let mut p = Probe::new(true, true);
    let mut ran = false;
    let result = with(&mut p, |_| {
        ran = true;
        Ok(())
    });
    assert_eq!(result, Err(ContextError::new(ContextErrorType::EnterError, "no entry")));
    assert!(!ran);
    assert_eq!(p.enters, 1);
    assert_eq!(p.exits, 0);
    assert_eq!(p.saw_failure, None);
}

#[test]
fn with_turns_a_handled_failure_into_success() {
    let mut p = Probe::new(false, true);
    let result = with(&mut p, |_| Err(ContextError::new(ContextErrorType::Other, "boom")));
    assert_eq!(result, Ok(()));
    assert_eq!(p.exits, 1);
    assert_eq!(p.saw_failure, Some(true));
}

#[test]
fn with_keeps_success_when_exit_handles_it() {
    let mut p = Probe::new(false, true);
    let result = with(&mut p, |_| Ok(()));
    assert_eq!(result, Ok(()));
    assert_eq!(p.exits, 1);
}

#[test]
fn enter_succeeds_by_default() {
    let mut plain = Plain { exits: 0 };
    assert_eq!(plain.enter(), Ok(()));
    let result = with(&mut plain, |p| {
        assert_eq!(p.exits, 0);
        Ok(())
    });
    assert_eq!(result, Ok(()));
    assert_eq!(plain.exits, 1);
}

#[test]
fn error_keeps_kind_and_message() {
    let kinds = [
        ContextErrorType::EnterError,
        ContextErrorType::IterEnterError,
        ContextErrorType::IterExitError,
        ContextErrorType::Other,
    ];
    for kind in kinds {
        let err = ContextError::new(kind, "what happened");
        assert_eq!(err.kind(), kind);
        assert_eq!(err.message(), "what happened");
        assert_eq!(err.to_string(), "what happened".to_string());
    }
    assert_ne!(
        ContextError::new(ContextErrorType::Other, "a"),
        ContextError::new(ContextErrorType::EnterError, "a")
    );
    assert_ne!(
        ContextError::new(ContextErrorType::Other, "a"),
        ContextError::new(ContextErrorType::Other, "b")
    );
}
