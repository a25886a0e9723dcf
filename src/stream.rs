//! Capture of a worker's two output streams: one collector per stream turns
//! each line into a live event and keeps the stream's full text; the two
//! collectors are handed over by value once drained and combined with the
//! exit status into the run's result.

use vstd::prelude::*;

verus! {

/// One of the two output streams of a child process.
#[derive(Debug, Clone, Copy, PartialEq, Eq, Structural)]
pub enum StreamKind {
    Stdout,
    Stderr,
}

pub open spec fn stream_name(k: StreamKind) -> Seq<char> {
    match k {
        StreamKind::Stdout => "stdout"@,
        StreamKind::Stderr => "stderr"@,
    }
}

impl StreamKind {
    /// The stream's name as it appears in live events.
    pub fn name(&self) -> (r: String)
        ensures
            r@ == stream_name(*self),
    {
        match self {
            StreamKind::Stdout => String::from_str("stdout"),
            StreamKind::Stderr => String::from_str("stderr"),
        }
    }
}

/// The label put on events read from `source`: stderr lines are relabelled as
/// stdout when the caller wants one merged visual stream.
pub open spec fn event_label(source: StreamKind, merge_into_stdout: bool) -> StreamKind {
    if merge_into_stdout {
        StreamKind::Stdout
    } else {
        source
    }
}

/// The text a stream accumulates from its lines: each line followed by a
/// line break.
pub open spec fn accumulated(lines: Seq<Seq<char>>) -> Seq<char> {
    lines.map_values(|l: Seq<char>| l + seq!['\n']).flatten()
}

/// Reading one more line extends the accumulated text by that line and a
/// line break.
pub proof fn lemma_accumulated_push(lines: Seq<Seq<char>>, line: Seq<char>)
    ensures
        accumulated(lines.push(line)) == accumulated(lines) + line + seq!['\n'],
{
    let m = lines.map_values(|l: Seq<char>| l + seq!['\n']);
    assert(lines.push(line).map_values(|l: Seq<char>| l + seq!['\n']) =~= m.push(line + seq!['\n']));
    m.lemma_flatten_push(line + seq!['\n']);
    assert(accumulated(lines) + line + seq!['\n'] =~= m.flatten() + (line + seq!['\n']));
}

/// One live line event.
#[derive(Debug, Clone)]
pub struct WorkerLogEvent {
    pub stream: StreamKind,
    pub line: String,
    pub stores: Vec<String>,
}

/// The reading side of one output stream. It owns its accumulation buffer
/// until the stream is drained.
pub struct LineCollector {
    source: StreamKind,
    label: StreamKind,
    stores: Vec<String>,
    buffer: String,
    lines: Ghost<Seq<Seq<char>>>,
    emitted: Ghost<Seq<(StreamKind, Seq<char>)>>,
}

impl LineCollector {
    /// The text collected so far.
    pub closed spec fn text(&self) -> Seq<char> {
        self.buffer@
    }

    /// The lines read so far, in order.
    pub closed spec fn lines(&self) -> Seq<Seq<char>> {
        self.lines@
    }

    /// The events handed out so far, as (label, line) pairs, in order.
    pub closed spec fn emitted(&self) -> Seq<(StreamKind, Seq<char>)> {
        self.emitted@
    }

    /// The stream this collector reads.
    pub closed spec fn source(&self) -> StreamKind {
        self.source
    }

    /// The label put on this collector's events.
    pub closed spec fn label(&self) -> StreamKind {
        self.label
    }

    /// The store selection carried by this collector's events.
    pub closed spec fn stores(&self) -> Seq<Seq<char>> {
        self.stores.deep_view()
    }

    pub open spec fn wf(&self) -> bool {
        &&& self.text() == accumulated(self.lines())
        &&& self.emitted() == self.lines().map_values(|l: Seq<char>| (self.label(), l))
    }

    /// A collector for `source` whose events carry the store selection
    /// `stores`.
    pub fn new(source: StreamKind, merge_into_stdout: bool, stores: Vec<String>) -> (c: Self)
        ensures
            c.wf(),
            c.source() == source,
            c.label() == event_label(source, merge_into_stdout),
            c.stores() == stores.deep_view(),
            c.lines() == Seq::<Seq<char>>::empty(),
    {
        let label = if merge_into_stdout {
            StreamKind::Stdout
        } else {
            source
        };
        let c = LineCollector {
            source,
            label,
            stores,
            buffer: String::new(),
            lines: Ghost(Seq::empty()),
            emitted: Ghost(Seq::empty()),
        };
        assert(c.emitted@ =~= c.lines@.map_values(|l: Seq<char>| (c.label, l)));
        assert(accumulated(c.lines@) =~= Seq::<char>::empty());
        c
    }

    /// Takes one line (without its line break): returns the event to emit for
    /// it and appends the line and a line break to the stream's text.
    pub fn on_line(&mut self, line: String) -> (ev: WorkerLogEvent)
        requires
            old(self).wf(),
        ensures
            final(self).wf(),
            final(self).lines() == old(self).lines().push(line@),
            final(self).emitted() == old(self).emitted().push((old(self).label(), line@)),
            final(self).text() == old(self).text() + line@ + seq!['\n'],
            final(self).source() == old(self).source(),
            final(self).label() == old(self).label(),
            final(self).stores() == old(self).stores(),
            ev.stream == old(self).label(),
            ev.line@ == line@,
            ev.stores.deep_view() == old(self).stores(),
    {
        let ghost old_lines = self.lines@;
        self.buffer.append(line.as_str());
        self.buffer.append("\n");
        proof {
            reveal_strlit("\n");
            lemma_accumulated_push(old_lines, line@);
            self.lines = Ghost(old_lines.push(line@));
            self.emitted = Ghost(self.emitted@.push((self.label, line@)));
            assert(self.emitted@ =~= self.lines@.map_values(|l: Seq<char>| (self.label, l)));
            assert(self.buffer@ == accumulated(self.lines@));
            assert(self.emitted() == self.lines().map_values(|l: Seq<char>| (self.label(), l)));
        }
        let stores = self.stores.clone();
        WorkerLogEvent { stream: self.label, line, stores }
    }

    /// Hands over the collected text once the stream is drained.
    pub fn into_text(self) -> (r: String)
        ensures
            r@ == self.text(),
    {
        self.buffer
    }
}

/// The aggregate result of one worker run.
#[derive(Debug, Clone)]
pub struct RunWorkerResult {
    pub status: String,
    pub exit_code: Option<i32>,
    pub stdout: String,
    pub stderr: String,
}

/// A run succeeded exactly when the process reported exit code zero.
pub open spec fn run_status(exit_code: Option<i32>) -> Seq<char> {
    if exit_code == Some(0i32) {
        "ok"@
    } else {
        "fail"@
    }
}

/// Builds the run's result from the two drained collectors and the exit code
/// the process reported (none when it was ended by a signal).
pub fn finish_run(stdout: LineCollector, stderr: LineCollector, exit_code: Option<i32>) -> (r:
    RunWorkerResult)
    ensures
        r.status@ == run_status(exit_code),
        r.exit_code == exit_code,
        r.stdout@ == stdout.text(),
        r.stderr@ == stderr.text(),
{
    let status = match exit_code {
        Some(0i32) => String::from_str("ok"),
        _ => String::from_str("fail"),
    };
    RunWorkerResult {
        status,
        exit_code,
        stdout: stdout.into_text(),
        stderr: stderr.into_text(),
    }
}

/// For a worker that wrote lines on stdout and on stderr, the two collectors
/// fed those lines have emitted exactly one event per line: stdout events for
/// the stdout lines and stderr events for the stderr lines, each in the lines'
/// original order; and each stream's text is its lines, each followed by a
/// line break.
pub proof fn lemma_multiplexed_streams(out: LineCollector, err: LineCollector)
    requires
        out.wf(),
        err.wf(),
        out.label() == StreamKind::Stdout,
        err.label() == StreamKind::Stderr,
    ensures
        out.emitted().len() == out.lines().len(),
        err.emitted().len() == err.lines().len(),
        forall|i: int|
            0 <= i < out.lines().len() ==> #[trigger] out.emitted()[i] == (
                StreamKind::Stdout,
                out.lines()[i],
            ),
        forall|i: int|
            0 <= i < err.lines().len() ==> #[trigger] err.emitted()[i] == (
                StreamKind::Stderr,
                err.lines()[i],
            ),
        out.text() == out.lines().map_values(|l: Seq<char>| l + seq!['\n']).flatten(),
        err.text() == err.lines().map_values(|l: Seq<char>| l + seq!['\n']).flatten(),
{
}

} // verus!
