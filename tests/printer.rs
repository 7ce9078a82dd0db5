use std::cell::RefCell;
use std::rc::Rc;

use console_hook::printer::{Printer, Sink, SinkError};

#[derive(Clone)]
struct Recorder {
    lines: Rc<RefCell<Vec<String>>>,
    calls: Rc<RefCell<usize>>,
    failing: Rc<RefCell<bool>>,
}

impl Recorder {
    fn new() -> Recorder {
        Recorder {
            lines: Rc::new(RefCell::new(Vec::new())),
            calls: Rc::new(RefCell::new(0)),
            failing: Rc::new(RefCell::new(false)),
        }
    }

    fn lines(&self) -> Vec<String> {
        self.lines.borrow().clone()
    }

    fn calls(&self) -> usize {
        *self.calls.borrow()
    }

    fn set_failing(&self, f: bool) {
        *self.failing.borrow_mut() = f;
    }
}

impl Sink for Recorder {
    fn emit(&mut self, text: &str) -> Result<(), SinkError> {
        *self.calls.borrow_mut() += 1;
        if *self.failing.borrow() {
            return Err(SinkError);
        }
        self.lines.borrow_mut().push(text.to_string());
        Ok(())
    }
}

#[test]
fn buffered_two_writes_forward_lines() {
    let rec = Recorder::new();
    let mut p = Printer::new(rec.clone(), true);
    assert_eq!(p.write(b"abc\ndef"), Ok(7));
    assert_eq!(rec.lines(), vec!["abc".to_string()]);
    assert_eq!(p.pending_text(), "def");
    assert_eq!(p.write(b"ghi\n"), Ok(4));
    assert_eq!(rec.lines(), vec!["abc".to_string(), "defghi".to_string()]);
    assert_eq!(p.pending_text(), "");
}

#[test]
fn buffered_without_newline_forwards_nothing() {
    let rec = Recorder::new();
    let mut p = Printer::new(rec.clone(), true);
    assert_eq!(p.write(b"partial"), Ok(7));
    assert_eq!(rec.calls(), 0);
    assert_eq!(p.pending_text(), "partial");
}

#[test]
fn buffered_cuts_at_last_newline() {
    let rec = Recorder::new();
    let mut p = Printer::new(rec.clone(), true);
    assert_eq!(p.write(b"a\nb\nc"), Ok(5));
    assert_eq!(rec.lines(), vec!["a\nb".to_string()]);
    assert_eq!(p.pending_text(), "c");
}

#[test]
fn chunks_reassemble_after_flush() {
    let input = "first line\nsecond\n\nthird without end";
    let bytes = input.as_bytes();
    for step in 1..=bytes.len() {
        let rec = Recorder::new();
        let mut p = Printer::new(rec.clone(), true);
        let mut cuts = 0usize;
        for chunk in bytes.chunks(step) {
            assert_eq!(p.write(chunk), Ok(chunk.len()));
            cuts += 1;
        }
        assert!(cuts > 0);
        let written = rec.lines().len();
        assert_eq!(p.flush(), Ok(()));
        let lines = rec.lines();
        let mut rebuilt = String::new();
        for (k, line) in lines.iter().enumerate() {
            rebuilt.push_str(line);
            if k < written {
                rebuilt.push('\n');
            }
        }
        assert_eq!(rebuilt, input);
        assert_eq!(lines.last().unwrap(), "third without end");
    }
}

#[test]
fn unbuffered_forwards_everything() {
    let rec = Recorder::new();
    let mut p = Printer::new(rec.clone(), false);
    assert_eq!(p.write(b"one\ntwo"), Ok(7));
    assert_eq!(p.pending_text(), "");
    assert_eq!(p.write(b"\n"), Ok(1));
    assert_eq!(p.pending_text(), "");
    assert_eq!(rec.lines(), vec!["one\ntwo".to_string(), "\n".to_string()]);
}

#[test]
fn flush_on_empty_calls_nothing() {
    let rec = Recorder::new();
    let mut p = Printer::new(rec.clone(), true);
    assert_eq!(p.flush(), Ok(()));
    assert_eq!(rec.calls(), 0);
    assert_eq!(p.write(b"x\n"), Ok(2));
    assert_eq!(rec.calls(), 1);
    assert_eq!(p.flush(), Ok(()));
    assert_eq!(rec.calls(), 1);
}

#[test]
fn flush_forwards_partial_line() {
    let rec = Recorder::new();
    let mut p = Printer::new(rec.clone(), true);
    assert_eq!(p.write(b"tail"), Ok(4));
    assert_eq!(p.flush(), Ok(()));
    assert_eq!(rec.lines(), vec!["tail".to_string()]);
    assert_eq!(p.pending_text(), "");
}

#[test]
fn failed_write_keeps_everything() {
    let rec = Recorder::new();
    let mut p = Printer::new(rec.clone(), true);
    assert_eq!(p.write(b"abc"), Ok(3));
    rec.set_failing(true);
    assert_eq!(p.write(b"d\nef"), Err(SinkError));
    assert_eq!(rec.calls(), 1);
    assert_eq!(p.pending_text(), "abcd\nef");
    rec.set_failing(false);
    assert_eq!(p.flush(), Ok(()));
    assert_eq!(rec.lines(), vec!["abcd\nef".to_string()]);
}

#[test]
fn failed_unbuffered_write_keeps_everything() {
    let rec = Recorder::new();
    rec.set_failing(true);
    let mut p = Printer::new(rec.clone(), false);
    assert_eq!(p.write(b"12"), Err(SinkError));
    assert_eq!(p.write(b"34"), Err(SinkError));
    assert_eq!(p.pending_text(), "1234");
    rec.set_failing(false);
    assert_eq!(p.write(b"5"), Ok(1));
    assert_eq!(rec.lines(), vec!["12345".to_string()]);
}

#[test]
fn failed_flush_keeps_buffer() {
    let rec = Recorder::new();
    let mut p = Printer::new(rec.clone(), true);
    assert_eq!(p.write(b"left"), Ok(4));
    rec.set_failing(true);
    assert_eq!(p.flush(), Err(SinkError));
    assert_eq!(p.pending_text(), "left");
}

#[test]
fn invalid_bytes_are_replaced() {
    let rec = Recorder::new();
    let mut p = Printer::new(rec.clone(), true);
    assert_eq!(p.write(&[b'a', 0xff, b'b', b'\n']), Ok(4));
    assert_eq!(rec.lines(), vec!["a\u{FFFD}b".to_string()]);
}

#[test]
fn multibyte_text_passes_through() {
    let rec = Recorder::new();
    let mut p = Printer::new(rec.clone(), true);
    let text = "héllo wörld\nüber";
    assert_eq!(p.write(text.as_bytes()), Ok(text.len()));
    assert_eq!(rec.lines(), vec!["héllo wörld".to_string()]);
    assert_eq!(p.pending_text(), "über");
}

#[test]
fn empty_write_in_buffered_mode() {
    let rec = Recorder::new();
    let mut p = Printer::new(rec.clone(), true);
    assert_eq!(p.write(b""), Ok(0));
    assert_eq!(rec.calls(), 0);
    assert!(p.is_buffered());
}

#[test]
fn unbuffered_second_write_forwards_lines() {
    let rec = Recorder::new();
    let mut p = Printer::new(rec.clone(), false);
    assert_eq!(p.write(b"x"), Ok(1));
    assert_eq!(p.write(b"a\nb\n"), Ok(4));
    assert_eq!(rec.lines(), vec!["x".to_string(), "a\nb\n".to_string()]);
    assert_eq!(p.pending_text(), "");
}

#[test]
fn flush_on_fresh_unbuffered_calls_nothing() {
    let rec = Recorder::new();
    let mut p = Printer::new(rec.clone(), false);
    assert_eq!(p.flush(), Ok(()));
    assert_eq!(p.flush(), Ok(()));
    assert_eq!(rec.calls(), 0);
    assert_eq!(p.pending_text(), "");
}
