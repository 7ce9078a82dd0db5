use vstd::prelude::*;

verus! {

/// The characters that lossy UTF-8 decoding gives for a byte sequence: valid
/// sequences decode to their characters, each invalid one to U+FFFD.
pub uninterp spec fn lossy_text(b: Seq<u8>) -> Seq<char>;

/// Relies on `String::from_utf8_lossy`: it never fails, its result depends on
/// the bytes alone, no bytes decode to no characters, and valid UTF-8 decodes
/// to the characters it encodes.
#[verifier::external_body]
fn decode_lossy(b: &[u8]) -> (r: Vec<char>)
    ensures
        r@ == lossy_text(b@),
        b@.len() == 0 ==> r@.len() == 0,
        vstd::utf8::valid_utf8(b@) ==> r@ == vstd::utf8::decode_utf8(b@),
{
    String::from_utf8_lossy(b).chars().collect()
}

/// Relies on `String`'s `FromIterator<&char>`: the string holds the given
/// characters in order.
#[verifier::external_body]
pub(crate) fn text_of(cs: &[char]) -> (r: String)
    ensures
        r@ == cs@,
{
    cs.iter().collect()
}

/// The one kind of error: the sink could not forward a piece of text.
#[derive(Debug, Clone, Copy, PartialEq, Eq, Structural)]
pub struct SinkError;

/// What the sink answered to one call, with the text it was handed.
pub type SinkCall = (Seq<char>, Result<(), SinkError>);

/// A destination for complete pieces of text, implemented by the program
/// that owns the output (a host console, a log). The writer's contracts are
/// proved for every sink that keeps `emit`'s promise; an implementation
/// outside verified code is trusted to keep it.
pub trait Sink {
    /// Every call of `emit` so far, in order: the text handed over and the
    /// answer given. A verified implementation defines it; the default only
    /// lets unverified implementations leave it out, and proofs about a
    /// generic sink never rely on it.
    closed spec fn calls(&self) -> Seq<SinkCall> {
        Seq::empty()
    }

    /// Forwards one complete piece of text; the call and its answer are
    /// recorded.
    fn emit(&mut self, text: &str) -> (r: Result<(), SinkError>)
        ensures
            final(self).calls() == old(self).calls().push((text@, r)),
    ;
}

/// Index of the last newline of `s`, or -1 when it holds none.
pub open spec fn last_newline(s: Seq<char>) -> int
    decreases s.len(),
{
    if s.len() == 0 {
        -1
    } else if s.last() == '\n' {
        s.len() - 1
    } else {
        last_newline(s.drop_last())
    }
}

/// What a write forwards once the buffer holds `buf`: in buffered mode the
/// text before the last newline, if there is one; otherwise all of it.
pub open spec fn forwarded(buf: Seq<char>, buffered: bool) -> Option<Seq<char>> {
    if !buffered {
        Some(buf)
    } else if last_newline(buf) >= 0 {
        Some(buf.take(last_newline(buf)))
    } else {
        None
    }
}

/// What a successful write keeps of `buf`: in buffered mode the text after
/// the last newline (all of it when there is none); otherwise nothing.
pub open spec fn retained(buf: Seq<char>, buffered: bool) -> Seq<char> {
    if !buffered {
        Seq::empty()
    } else if last_newline(buf) >= 0 {
        buf.skip(last_newline(buf) + 1)
    } else {
        buf
    }
}

/// The text taken out of a buffer by a forwarded piece: the piece, then the
/// newline at which it was cut when it is a line.
pub open spec fn piece_text(p: (Seq<char>, bool)) -> Seq<char> {
    if p.1 {
        p.0.push('\n')
    } else {
        p.0
    }
}

/// The text that a sequence of forwarded pieces stands for, in order.
pub open spec fn stream(log: Seq<(Seq<char>, bool)>) -> Seq<char>
    decreases log.len(),
{
    if log.len() == 0 {
        Seq::empty()
    } else {
        stream(log.drop_last()) + piece_text(log.last())
    }
}

/// Logging one more piece extends the stream by that piece's text.
pub proof fn lemma_stream_push(log: Seq<(Seq<char>, bool)>, p: (Seq<char>, bool))
    ensures
        stream(log.push(p)) == stream(log) + piece_text(p),
{
    assert(log.push(p).drop_last() =~= log);
}

/// The last newline of `s` is at `i` when `s[i]` is one and none follows it.
pub proof fn lemma_last_newline_at(s: Seq<char>, i: int)
    requires
        0 <= i < s.len(),
        s[i] == '\n',
        forall|j: int| i < j < s.len() ==> s[j] != '\n',
    ensures
        last_newline(s) == i,
    decreases s.len(),
{
    if s.last() != '\n' {
        lemma_last_newline_at(s.drop_last(), i);
    }
}

/// A last newline found is one, and within `s`.
pub proof fn lemma_last_newline_is_newline(s: Seq<char>)
    ensures
        -1 <= last_newline(s) < s.len(),
        last_newline(s) >= 0 ==> s[last_newline(s)] == '\n',
        forall|j: int| last_newline(s) < j < s.len() ==> s[j] != '\n',
    decreases s.len(),
{
    if s.len() > 0 && s.last() != '\n' {
        lemma_last_newline_is_newline(s.drop_last());
        assert forall|j: int| last_newline(s) < j < s.len() implies s[j] != '\n' by {
            if j < s.len() - 1 {
                assert(s[j] == s.drop_last()[j]);
            }
        }
    }
}

/// `s` has no last newline when it holds none.
pub proof fn lemma_last_newline_none(s: Seq<char>)
    requires
        forall|j: int| 0 <= j < s.len() ==> s[j] != '\n',
    ensures
        last_newline(s) == -1,
    decreases s.len(),
{
    if s.len() > 0 {
        lemma_last_newline_none(s.drop_last());
    }
}

/// The texts of the calls that the sink accepted, in order.
pub open spec fn accepted(calls: Seq<SinkCall>) -> Seq<Seq<char>>
    decreases calls.len(),
{
    if calls.len() == 0 {
        Seq::empty()
    } else if calls.last().1 is Ok {
        accepted(calls.drop_last()).push(calls.last().0)
    } else {
        accepted(calls.drop_last())
    }
}

/// The texts of logged pieces, in order.
pub open spec fn texts(log: Seq<(Seq<char>, bool)>) -> Seq<Seq<char>> {
    log.map_values(|p: (Seq<char>, bool)| p.0)
}

/// One more call on top of those after `origin` adds its text to what was
/// accepted exactly when the sink accepted it.
pub proof fn lemma_accepted_push(calls: Seq<SinkCall>, origin: int, x: SinkCall)
    requires
        0 <= origin <= calls.len(),
    ensures
        accepted(calls.push(x).skip(origin)) == if x.1 is Ok {
            accepted(calls.skip(origin)).push(x.0)
        } else {
            accepted(calls.skip(origin))
        },
{
    assert(calls.push(x).skip(origin) =~= calls.skip(origin).push(x));
    assert(calls.skip(origin).push(x).drop_last() =~= calls.skip(origin));
}

/// A writer that turns a stream of byte chunks into pieces of text for a sink.
pub struct Printer<S: Sink> {
    print_fn: S,
    buffer: Vec<char>,
    is_buffered: bool,
    received: Ghost<Seq<char>>,
    log: Ghost<Seq<(Seq<char>, bool)>>,
    origin: Ghost<nat>,
}

impl<S: Sink> Printer<S> {
    /// The text decoded so far and not yet forwarded.
    pub closed spec fn pending(&self) -> Seq<char> {
        self.buffer@
    }

    /// Whether the writer forwards whole lines only.
    pub closed spec fn buffered(&self) -> bool {
        self.is_buffered
    }

    /// All text decoded from the chunks written so far.
    pub closed spec fn received(&self) -> Seq<char> {
        self.received@
    }

    /// The pieces this writer handed to the sink and the sink accepted, in
    /// order, each marked with whether it was cut at a newline.
    pub closed spec fn log(&self) -> Seq<(Seq<char>, bool)> {
        self.log@
    }

    /// The sink the writer forwards to.
    pub closed spec fn sink_spec(&self) -> S {
        self.print_fn
    }

    /// Every call of the sink so far, with its answer.
    pub open spec fn sink_calls(&self) -> Seq<SinkCall> {
        self.sink_spec().calls()
    }

    /// How many calls the sink had received when the writer was made.
    pub closed spec fn origin(&self) -> nat {
        self.origin@
    }

    /// Nothing is lost or forwarded twice: the accepted pieces, then the
    /// buffer, make up exactly the text received; and the pieces logged are
    /// exactly the texts the sink accepted since the writer was made.
    pub open spec fn wf(&self) -> bool {
        &&& stream(self.log()) + self.pending() == self.received()
        &&& self.origin() <= self.sink_calls().len()
        &&& accepted(self.sink_calls().skip(self.origin() as int)) == texts(self.log())
    }

    /// What a write of `buf` that returned `r` leaves. The chunk is decoded
    /// and appended. When `forwarded` gives no piece, the sink is not called
    /// and the write succeeds. Otherwise the sink is called once, with that
    /// piece: if it accepts, the write succeeds, the piece is logged (cut at a
    /// newline in buffered mode) and the buffer keeps what `retained` gives;
    /// if it fails, its error is returned and the buffer keeps everything.
    pub open spec fn wrote(
        pre: Self,
        post: Self,
        buf: Seq<u8>,
        r: Result<usize, SinkError>,
    ) -> bool {
        let whole = pre.pending() + lossy_text(buf);
        &&& post.wf()
        &&& post.buffered() == pre.buffered()
        &&& post.origin() == pre.origin()
        &&& post.received() == pre.received() + lossy_text(buf)
        &&& match forwarded(whole, pre.buffered()) {
            None => {
                &&& r == Ok::<usize, SinkError>(buf.len() as usize)
                &&& post.sink_spec() == pre.sink_spec()
                &&& post.pending() == whole
                &&& post.log() == pre.log()
            },
            Some(t) => {
                &&& post.sink_calls() == pre.sink_calls().push((t, post.sink_calls().last().1))
                &&& match post.sink_calls().last().1 {
                    Ok(_) => {
                        &&& r == Ok::<usize, SinkError>(buf.len() as usize)
                        &&& post.pending() == retained(whole, pre.buffered())
                        &&& post.log() == pre.log().push((t, pre.buffered()))
                    },
                    Err(e) => {
                        &&& r == Err::<usize, SinkError>(e)
                        &&& post.pending() == whole
                        &&& post.log() == pre.log()
                    },
                }
            },
        }
    }

    /// What a flush that returned `r` leaves. On an empty buffer it succeeds
    /// and changes nothing: the sink is not called. Otherwise the sink is
    /// called once, with the whole buffer: if it accepts, the flush succeeds,
    /// the buffer is logged and emptied; if it fails, its error is returned
    /// and the buffer is kept.
    pub open spec fn flushed(pre: Self, post: Self, r: Result<(), SinkError>) -> bool {
        &&& post.wf()
        &&& (pre.pending().len() == 0 ==> r == Ok::<(), SinkError>(()) && post == pre)
        &&& (pre.pending().len() > 0 ==> {
            &&& post.buffered() == pre.buffered()
            &&& post.origin() == pre.origin()
            &&& post.received() == pre.received()
            &&& post.sink_calls() == pre.sink_calls().push(
                (pre.pending(), post.sink_calls().last().1),
            )
            &&& match post.sink_calls().last().1 {
                Ok(_) => {
                    &&& r == Ok::<(), SinkError>(())
                    &&& post.pending().len() == 0
                    &&& post.log() == pre.log().push((pre.pending(), false))
                },
                Err(e) => {
                    &&& r == Err::<(), SinkError>(e)
                    &&& post.pending() == pre.pending()
                    &&& post.log() == pre.log()
                },
            }
        })
    }

    /// A writer over `print_fn` with an empty buffer.
    pub fn new(print_fn: S, is_buffered: bool) -> (r: Printer<S>)
        ensures
            r.wf(),
            r.buffered() == is_buffered,
            r.pending() == Seq::<char>::empty(),
            r.received() == Seq::<char>::empty(),
            r.log() == Seq::<(Seq<char>, bool)>::empty(),
            r.sink_spec() == print_fn,
    {
        let r = Printer {
            print_fn,
            buffer: Vec::new(),
            is_buffered,
            received: Ghost(Seq::empty()),
            log: Ghost(Seq::empty()),
            origin: Ghost(print_fn.calls().len()),
        };
        assert(r.print_fn.calls().skip(r.origin@ as int) =~= Seq::<SinkCall>::empty());
        assert(texts(r.log@) =~= Seq::<Seq<char>>::empty());
        assert(stream(r.log@) + r.buffer@ =~= r.received@);
        r
    }

    /// The sink.
    pub fn sink(&self) -> (r: &S)
        ensures
            *r == self.sink_spec(),
    {
        &self.print_fn
    }

    /// Whether the writer forwards whole lines only.
    pub fn is_buffered(&self) -> (r: bool)
        ensures
            r == self.buffered(),
    {
        self.is_buffered
    }

    /// The text decoded so far and not yet forwarded.
    pub fn pending_text(&self) -> (r: String)
        ensures
            r@ == self.pending(),
    {
        text_of(self.buffer.as_slice())
    }

    /// Position of the last newline in the buffer.
    fn rfind_newline(&self) -> (r: Option<usize>)
        ensures
            match r {
                Some(i) => i < self.pending().len() && last_newline(self.pending()) == i as int,
                None => last_newline(self.pending()) == -1,
            },
    {
        let mut i: usize = self.buffer.len();
        while i > 0
            invariant
                i <= self.buffer@.len(),
                forall|j: int| i <= j < self.buffer@.len() ==> self.buffer@[j] != '\n',
            decreases i,
        {
            if self.buffer[i - 1] == '\n' {
                proof {
                    lemma_last_newline_at(self.buffer@, i - 1);
                }
                return Some(i - 1);
            }
            i = i - 1;
        }
        proof {
            lemma_last_newline_none(self.buffer@);
        }
        None
    }

    /// Decodes `buf` lossily and appends it to the buffer; then forwards to
    /// the sink what `forwarded` gives for the new buffer, keeping what
    /// `retained` gives. A sink error is handed back with the buffer holding
    /// everything received and not yet forwarded.
    pub fn write(&mut self, buf: &[u8]) -> (r: Result<usize, SinkError>)
        requires
            old(self).wf(),
        ensures
            Self::wrote(*old(self), *final(self), buf@, r),
    {
        let mut decoded = decode_lossy(buf);
        self.buffer.append(&mut decoded);
        self.received = Ghost(self.received@ + lossy_text(buf@));
        let ghost whole = self.buffer@;
        assert(stream(self.log@) + self.buffer@ =~= self.received@);
        if !self.is_buffered {
            let text = text_of(self.buffer.as_slice());
            let ghost calls0 = self.print_fn.calls();
            let answer = self.print_fn.emit(text.as_str());
            proof {
                lemma_accepted_push(calls0, self.origin@ as int, (text@, answer));
            }
            match answer {
                Ok(()) => {},
                Err(e) => {
                    return Err(e);
                },
            }
            proof {
                lemma_stream_push(self.log@, (whole, false));
            }
            assert(texts(self.log@.push((whole, false))) =~= texts(self.log@).push(whole));
            self.log = Ghost(self.log@.push((whole, false)));
            self.buffer.clear();
            assert(stream(self.log@) + self.buffer@ =~= self.received@);
        } else {
            match self.rfind_newline() {
                None => {},
                Some(i) => {
                    proof {
                        lemma_last_newline_is_newline(whole);
                    }
                    let n: usize = self.buffer.len();
                    assert(i < n);
                    let mut rest = self.buffer.split_off(i + 1);
                    self.buffer.truncate(i);
                    let text = text_of(self.buffer.as_slice());
                    assert(text@ =~= whole.take(i as int));
                    let ghost calls0 = self.print_fn.calls();
                    let answer = self.print_fn.emit(text.as_str());
                    proof {
                        lemma_accepted_push(calls0, self.origin@ as int, (text@, answer));
                    }
                    match answer {
                        Ok(()) => {},
                        Err(e) => {
                            self.buffer.push('\n');
                            self.buffer.append(&mut rest);
                            assert(self.buffer@ =~= whole);
                            return Err(e);
                        },
                    }
                    let ghost first = self.buffer@;
                    assert(first =~= whole.take(i as int));
                    assert(rest@ =~= whole.skip(i + 1));
                    assert(first.push('\n') + rest@ =~= whole);
                    proof {
                        lemma_stream_push(self.log@, (first, true));
                    }
                    assert(texts(self.log@.push((first, true))) =~= texts(self.log@).push(first));
                    self.log = Ghost(self.log@.push((first, true)));
                    self.buffer = rest;
                    assert(stream(self.log@) + self.buffer@ =~= self.received@);
                },
            }
        }
        Ok(buf.len())
    }

    /// Forwards the whole buffer to the sink and empties it; does nothing,
    /// and calls nothing, when the buffer is empty.
    pub fn flush(&mut self) -> (r: Result<(), SinkError>)
        requires
            old(self).wf(),
        ensures
            Self::flushed(*old(self), *final(self), r),
    {
        if self.buffer.len() > 0 {
            let ghost whole = self.buffer@;
            let text = text_of(self.buffer.as_slice());
            let ghost calls0 = self.print_fn.calls();
            let answer = self.print_fn.emit(text.as_str());
            proof {
                lemma_accepted_push(calls0, self.origin@ as int, (text@, answer));
            }
            match answer {
                Ok(()) => {},
                Err(e) => {
                    return Err(e);
                },
            }
            proof {
                lemma_stream_push(self.log@, (whole, false));
            }
            assert(texts(self.log@.push((whole, false))) =~= texts(self.log@).push(whole));
            self.log = Ghost(self.log@.push((whole, false)));
            self.buffer.clear();
            assert(stream(self.log@) + self.buffer@ =~= self.received@);
        }
        Ok(())
    }
}

/// The text that lossy decoding gives for each chunk, in order.
pub open spec fn decoded_all(chunks: Seq<Seq<u8>>) -> Seq<char>
    decreases chunks.len(),
{
    if chunks.len() == 0 {
        Seq::empty()
    } else {
        decoded_all(chunks.drop_last()) + lossy_text(chunks.last())
    }
}

/// Writes of any chunks to a fresh writer, each of which may succeed or fail,
/// then one successful flush: the texts the sink accepted from the writer are
/// the logged pieces, and those pieces, each line followed by the newline it
/// was cut at, are exactly the decoded chunks, in order.
pub proof fn lemma_chunks_reassemble<S: Sink>(
    states: Seq<Printer<S>>,
    chunks: Seq<Seq<u8>>,
    results: Seq<Result<usize, SinkError>>,
    last: Printer<S>,
    flush_result: Result<(), SinkError>,
)
    requires
        states.len() == chunks.len() + 1,
        results.len() == chunks.len(),
        states[0].wf(),
        states[0].received().len() == 0,
        forall|i: int|
            0 <= i < chunks.len() ==> Printer::wrote(
                #[trigger] states[i],
                states[i + 1],
                chunks[i],
                results[i],
            ),
        Printer::flushed(states.last(), last, flush_result),
        flush_result is Ok,
    ensures
        stream(last.log()) == decoded_all(chunks),
        accepted(last.sink_calls().skip(states[0].origin() as int)) == texts(last.log()),
{
    let n = chunks.len() as int;
    lemma_received_prefix(states, chunks, results, n);
    assert(chunks.take(n) =~= chunks);
    assert(last.origin() == states[0].origin());
    assert(last.received() == states[n].received());
    assert(last.pending().len() == 0);
    assert(stream(last.log()) + last.pending() =~= stream(last.log()));
}

proof fn lemma_received_prefix<S: Sink>(
    states: Seq<Printer<S>>,
    chunks: Seq<Seq<u8>>,
    results: Seq<Result<usize, SinkError>>,
    k: int,
)
    requires
        states.len() == chunks.len() + 1,
        results.len() == chunks.len(),
        states[0].received().len() == 0,
        forall|i: int|
            0 <= i < chunks.len() ==> Printer::wrote(
                #[trigger] states[i],
                states[i + 1],
                chunks[i],
                results[i],
            ),
        0 <= k <= chunks.len(),
    ensures
        states[k].received() == decoded_all(chunks.take(k)),
        states[k].origin() == states[0].origin(),
    decreases k,
{
    if k == 0 {
        assert(states[0].received() =~= Seq::<char>::empty());
    } else {
        lemma_received_prefix(states, chunks, results, k - 1);
        assert(Printer::wrote(states[k - 1], states[k], chunks[k - 1], results[k - 1]));
        assert(chunks.take(k).drop_last() =~= chunks.take(k - 1));
    }
}

/// A write that fails keeps the chunk: a flush that then succeeds hands the
/// sink the text pending before the write followed by the decoded chunk.
pub proof fn lemma_failed_write_kept<S: Sink>(
    before: Printer<S>,
    after: Printer<S>,
    retried: Printer<S>,
    buf: Seq<u8>,
    write_result: Result<usize, SinkError>,
    flush_result: Result<(), SinkError>,
)
    requires
        before.wf(),
        Printer::wrote(before, after, buf, write_result),
        write_result is Err,
        Printer::flushed(after, retried, flush_result),
        flush_result is Ok,
    ensures
        after.pending() == before.pending() + lossy_text(buf),
        after.pending().len() > 0 ==> {
            &&& retried.sink_calls().last().0 == before.pending() + lossy_text(buf)
            &&& retried.sink_calls().last().1 is Ok
            &&& retried.log() == before.log().push((before.pending() + lossy_text(buf), false))
            &&& retried.pending().len() == 0
        },
{
    if after.pending().len() > 0 {
        assert(retried.sink_calls().last().1 is Ok);
    }
}

/// In buffered mode a write cuts its buffer at the last newline: the piece
/// forwarded, that newline and the text kept make up the buffer, and the text
/// kept holds no newline; with no newline nothing is forwarded.
pub proof fn lemma_buffered_cut(buf: Seq<char>)
    ensures
        forall|j: int|
            0 <= j < retained(buf, true).len() ==> #[trigger] retained(buf, true)[j] != '\n',
        match forwarded(buf, true) {
            Some(t) => t.push('\n') + retained(buf, true) == buf,
            None => forall|j: int| 0 <= j < buf.len() ==> buf[j] != '\n',
        },
{
    lemma_last_newline_is_newline(buf);
    let i = last_newline(buf);
    if i >= 0 {
        assert(buf.take(i).push('\n') + buf.skip(i + 1) =~= buf);
        assert forall|j: int| 0 <= j < retained(buf, true).len() implies #[trigger] retained(
            buf,
            true,
        )[j] != '\n' by {
            assert(retained(buf, true)[j] == buf[i + 1 + j]);
        }
    } else {
        assert forall|j: int| 0 <= j < buf.len() implies buf[j] != '\n' by {}
    }
}

/// In unbuffered mode every write calls the sink once with everything
/// pending, the new chunk included, newlines and all; when the sink accepts,
/// the buffer is left empty.
pub proof fn lemma_unbuffered_forwards_all<S: Sink>(
    before: Printer<S>,
    after: Printer<S>,
    buf: Seq<u8>,
    r: Result<usize, SinkError>,
)
    requires
        !before.buffered(),
        Printer::wrote(before, after, buf, r),
    ensures
        after.sink_calls().len() == before.sink_calls().len() + 1,
        after.sink_calls().last().0 == before.pending() + lossy_text(buf),
        after.sink_calls().last().1 is Ok ==> {
            &&& r == Ok::<usize, SinkError>(buf.len() as usize)
            &&& after.pending().len() == 0
            &&& after.log() == before.log().push((before.pending() + lossy_text(buf), false))
        },
{
}

} // verus!
