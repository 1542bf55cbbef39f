use vstd::prelude::*;

verus! {

/// An output stream that captures what is written to it.
#[derive(Debug)]
pub struct MockStream {
    captured: Vec<u8>,
}

impl MockStream {
    /// What was written to the stream.
    pub closed spec fn view(&self) -> Seq<u8> {
        self.captured@
    }

    /// A stream with nothing written to it.
    pub fn new() -> (result: MockStream)
        ensures
            result.view() == Seq::<u8>::empty(),
    {
        MockStream { captured: Vec::new() }
    }

    /// Writes bytes to the stream.
    pub fn write(&mut self, chunk: &Vec<u8>)
        ensures
            final(self).view() == old(self).view() + chunk@,
    {
        let mut i: usize = 0;
        while i < chunk.len()
            invariant
                i <= chunk.len(),
                self.view() == old(self).view() + chunk@.subrange(0, i as int),
            decreases chunk.len() - i,
        {
            self.captured.push(chunk[i]);
            i += 1;
            assert(self.view() =~= old(self).view() + chunk@.subrange(0, i as int));
        }
        assert(chunk@.subrange(0, chunk@.len() as int) =~= chunk@);
    }

    /// What was written to the stream, as text, which it has to be.
    pub fn get_captured_stream(&self) -> (result: String)
        requires
            vstd::utf8::valid_utf8(self.view()),
        ensures
            result@ == vstd::utf8::decode_utf8(self.view()),
    {
        crate::text::utf8_lossy_string(&self.captured)
    }
}

/// Where the output of scriptkeeper goes: the process's own streams, with
/// the path of the scriptkeeper executable that mock executables run; or,
/// in tests, streams that capture it.
#[derive(Debug)]
pub enum Context {
    Context { scriptkeeper_executable: String },
    TestContext { stdout: MockStream, stderr: MockStream },
}

impl Context {
    /// A context whose streams capture what is written to them.
    pub fn new_mock() -> (result: Context)
        ensures
            result matches Context::TestContext { stdout, stderr } && stdout.view() == Seq::<u8>::empty()
                && stderr.view() == Seq::<u8>::empty(),
    {
        Context::TestContext { stdout: MockStream::new(), stderr: MockStream::new() }
    }

    /// Writes to stdout: a test context captures the bytes (`false`); any
    /// other leaves them to be written to the process's stdout (`true`).
    pub fn write_stdout(&mut self, chunk: &Vec<u8>) -> (passed_on: bool)
        ensures
            match *old(self) {
                Context::TestContext { stdout, stderr } => !passed_on && (*final(self) matches Context::TestContext {
                    stdout: s,
                    stderr: e,
                } && s.view() == stdout.view() + chunk@ && e == stderr),
                Context::Context { .. } => passed_on && *final(self) == *old(self),
            },
            wrote(*old(self), *final(self), chunk@, true),
    {
        match self {
            Context::TestContext { stdout, .. } => {
                stdout.write(chunk);
                false
            },
            Context::Context { .. } => true,
        }
    }

    /// Writes to stderr: a test context captures the bytes (`false`); any
    /// other leaves them to be written to the process's stderr (`true`).
    pub fn write_stderr(&mut self, chunk: &Vec<u8>) -> (passed_on: bool)
        ensures
            match *old(self) {
                Context::TestContext { stdout, stderr } => !passed_on && (*final(self) matches Context::TestContext {
                    stdout: s,
                    stderr: e,
                } && e.view() == stderr.view() + chunk@ && s == stdout),
                Context::Context { .. } => passed_on && *final(self) == *old(self),
            },
            wrote(*old(self), *final(self), chunk@, false),
    {
        match self {
            Context::TestContext { stderr, .. } => {
                stderr.write(chunk);
                false
            },
            Context::Context { .. } => true,
        }
    }

    /// What was written to stdout, as text; only a test context captures
    /// it.
    pub fn get_captured_stdout(&self) -> (result: String)
        requires
            self matches Context::TestContext { stdout, .. } && vstd::utf8::valid_utf8(stdout.view()),
        ensures
            self matches Context::TestContext { stdout, .. } && result@ == vstd::utf8::decode_utf8(stdout.view()),
    {
        match self {
            Context::TestContext { stdout, .. } => stdout.get_captured_stream(),
            Context::Context { .. } => String::new(),
        }
    }

    /// What was written to stderr, as text; only a test context captures
    /// it.
    pub fn get_captured_stderr(&self) -> (result: String)
        requires
            self matches Context::TestContext { stderr, .. } && vstd::utf8::valid_utf8(stderr.view()),
        ensures
            self matches Context::TestContext { stderr, .. } && result@ == vstd::utf8::decode_utf8(stderr.view()),
    {
        match self {
            Context::TestContext { stderr, .. } => stderr.get_captured_stream(),
            Context::Context { .. } => String::new(),
        }
    }
}


/// What a context has captured of stdout (`true`) or stderr (`false`);
/// nothing for a context that does not capture.
pub open spec fn captured(context: Context, to_stdout: bool) -> Seq<u8> {
    match context {
        Context::TestContext { stdout, stderr } => if to_stdout {
            stdout.view()
        } else {
            stderr.view()
        },
        Context::Context { .. } => seq![],
    }
}

/// Whether `after` is `before` once `chunk` was written to stdout (`true`)
/// or stderr (`false`).
pub open spec fn wrote(before: Context, after: Context, chunk: Seq<u8>, to_stdout: bool) -> bool {
    match before {
        Context::TestContext { .. } => {
            &&& after is TestContext
            &&& captured(after, to_stdout) == captured(before, to_stdout) + chunk
            &&& captured(after, !to_stdout) == captured(before, !to_stdout)
        },
        Context::Context { .. } => after == before,
    }
}

/// The chunks written to one of the streams, one after the other.
pub open spec fn written_to(chunks: Seq<Seq<u8>>, to_stdout: Seq<bool>, stream: bool) -> Seq<u8>
    decreases chunks.len(),
{
    if chunks.len() == 0 {
        seq![]
    } else {
        written_to(chunks.drop_last(), to_stdout.drop_last(), stream) + if to_stdout.last() == stream {
            chunks.last()
        } else {
            seq![]
        }
    }
}

/// Whether `contexts[i + 1]` is `contexts[i]` once `chunks[i]` was written
/// to the stream that `to_stdout[i]` names.
pub open spec fn wrote_in_turn(contexts: Seq<Context>, chunks: Seq<Seq<u8>>, to_stdout: Seq<bool>, i: int) -> bool {
    wrote(contexts[i], contexts[i + 1], chunks[i], to_stdout[i])
}

/// A mock context that has seen any number of writes has captured, for
/// each stream, exactly the chunks written to it, one after the other.
pub proof fn lemma_captured_output(contexts: Seq<Context>, chunks: Seq<Seq<u8>>, to_stdout: Seq<bool>)
    requires
        contexts.len() == chunks.len() + 1,
        to_stdout.len() == chunks.len(),
        contexts[0] is TestContext,
        captured(contexts[0], true) == Seq::<u8>::empty(),
        captured(contexts[0], false) == Seq::<u8>::empty(),
        forall|i: int| 0 <= i < chunks.len() ==> #[trigger] wrote_in_turn(contexts, chunks, to_stdout, i),
    ensures
        contexts.last() is TestContext,
        captured(contexts.last(), true) == written_to(chunks, to_stdout, true),
        captured(contexts.last(), false) == written_to(chunks, to_stdout, false),
    decreases chunks.len(),
{
    if chunks.len() > 0 {
        let n = chunks.len() - 1;
        let first = contexts.drop_last();
        let earlier = chunks.drop_last();
        let targets = to_stdout.drop_last();
        assert forall|i: int| 0 <= i < earlier.len() implies #[trigger] wrote_in_turn(first, earlier, targets, i) by {
            assert(wrote_in_turn(contexts, chunks, to_stdout, i));
        }
        lemma_captured_output(first, earlier, targets);
        assert(wrote_in_turn(contexts, chunks, to_stdout, n));
        assert(first.last() == contexts[n]);
        if to_stdout[n] {
            assert(captured(contexts.last(), false) =~= written_to(chunks, to_stdout, false));
        } else {
            assert(captured(contexts.last(), true) =~= written_to(chunks, to_stdout, true));
        }
    } else {
        assert(written_to(chunks, to_stdout, true) =~= Seq::<u8>::empty());
    }
}

} // verus!
