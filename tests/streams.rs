use std::cell::RefCell;
use std::rc::Rc;

use console_hook::guard::SetupGuard;
use console_hook::printer::{Sink, SinkError};
use console_hook::streams::Streams;

#[derive(Clone)]
struct Tagged {
    tag: u32,
    lines: Rc<RefCell<Vec<String>>>,
}

impl Tagged {
    fn new(tag: u32) -> Tagged {
        Tagged { tag, lines: Rc::new(RefCell::new(Vec::new())) }
    }
}

impl Sink for Tagged {
    fn emit(&mut self, text: &str) -> Result<(), SinkError> {
        self.lines.borrow_mut().push(text.to_string());
        Ok(())
    }
}

#[test]
fn init_runs_once() {
    let mut s: Streams<Tagged, Tagged> = Streams::new();
    assert!(s.init(Tagged::new(1), Tagged::new(2)));
    for k in 0..10u32 {
        assert!(!s.init(Tagged::new(10 + k), Tagged::new(20 + k)));
    }
    assert_eq!(s.stdout().unwrap().sink().tag, 1);
    assert_eq!(s.stderr().unwrap().sink().tag, 2);
    assert!(s.stdout().unwrap().is_buffered());
    assert!(s.stderr().unwrap().is_buffered());
}

#[test]
fn guard_claims_once() {
    let mut g = SetupGuard::new();
    assert!(!g.is_done());
    assert!(g.claim());
    assert!(g.is_done());
    assert!(!g.claim());
    assert!(!g.claim());
}

#[test]
fn nothing_installed_writes_nowhere() {
    let mut s: Streams<Tagged, Tagged> = Streams::new();
    assert!(s.write_stdout(b"x\n").is_none());
    assert!(s.flush_stderr().is_none());
    assert!(s.stdout().is_none());
}

#[test]
fn channels_route_to_their_sinks() {
    let out = Tagged::new(1);
    let err = Tagged::new(2);
    let mut s: Streams<Tagged, Tagged> = Streams::new();
    s.hook(out.clone(), err.clone());
    assert_eq!(s.write_stdout(b"out\npart"), Some(Ok(8)));
    assert_eq!(s.write_stderr(b"err\n"), Some(Ok(4)));
    assert_eq!(s.flush_stdout(), Some(Ok(())));
    assert_eq!(*out.lines.borrow(), vec!["out".to_string(), "part".to_string()]);
    assert_eq!(*err.lines.borrow(), vec!["err".to_string()]);
}

#[test]
fn unbuffered_channels_replace_buffered() {
    let first = Tagged::new(1);
    let second = Tagged::new(3);
    let mut s: Streams<Tagged, Tagged> = Streams::new();
    s.set_stdout(first.clone());
    assert_eq!(s.write_stdout(b"kept"), Some(Ok(4)));
    s.set_stdout_unbuffered(second.clone());
    assert_eq!(s.write_stdout(b"now"), Some(Ok(3)));
    assert!(first.lines.borrow().is_empty());
    assert_eq!(*second.lines.borrow(), vec!["now".to_string()]);
    s.set_stderr_unbuffered(Tagged::new(4));
    assert!(!s.stderr().unwrap().is_buffered());
    s.set_stderr(Tagged::new(5));
    assert!(s.stderr().unwrap().is_buffered());
    s.set_panic_hook();
}
