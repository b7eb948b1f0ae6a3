//! Text-mode display driver, screen-cell model and test-report protocol of a
//! small freestanding kernel.
use vstd::prelude::*;
use vstd::string::StringExecFns;

pub mod vga_buffer;

verus! {

/// Exit codes understood by the emulator's debug-exit device.
#[derive(Debug, Clone, Copy, PartialEq, Eq, Structural)]
pub enum QemuExitCode {
    Success,
    Failed,
}

impl QemuExitCode {
    /// The 4-byte value written to the debug-exit port.
    pub open spec fn code(self) -> u32 {
        match self {
            QemuExitCode::Success => 0x10,
            QemuExitCode::Failed => 0x11,
        }
    }

    /// The 4-byte value written to the debug-exit port.
    pub fn value(self) -> (r: u32)
        ensures
            r == self.code(),
    {
        match self {
            QemuExitCode::Success => 0x10,
            QemuExitCode::Failed => 0x11,
        }
    }
}

/// A test that the harness can run.
pub trait Testable {
    fn run(&self);
}

/// What the harness reports after running the current test.
pub enum TestEvent {
    /// The test returned normally.
    Passed,
    /// The test terminated abnormally, with this description.
    Panicked(String),
}

/// What the harness must do next.
#[derive(Debug, Clone, Copy, PartialEq, Eq, Structural)]
pub enum NextStep {
    /// Run the test at this index.
    RunTest(usize),
    /// Signal the end of the run on the debug-exit device.
    Exit(QemuExitCode),
}

/// The text of one decimal digit.
pub open spec fn digit_text(d: nat) -> Seq<char> {
    if d == 0 {
        "0"@
    } else if d == 1 {
        "1"@
    } else if d == 2 {
        "2"@
    } else if d == 3 {
        "3"@
    } else if d == 4 {
        "4"@
    } else if d == 5 {
        "5"@
    } else if d == 6 {
        "6"@
    } else if d == 7 {
        "7"@
    } else if d == 8 {
        "8"@
    } else {
        "9"@
    }
}

/// The decimal digits of `n`, most significant first.
pub open spec fn decimal(n: nat) -> Seq<char>
    decreases n,
{
    if n < 10 {
        digit_text(n)
    } else {
        decimal(n / 10) + digit_text(n % 10)
    }
}

fn digit_str(d: usize) -> (r: &'static str)
    requires
        d < 10,
    ensures
        r@ == digit_text(d as nat),
{
    if d == 0 {
        "0"
    } else if d == 1 {
        "1"
    } else if d == 2 {
        "2"
    } else if d == 3 {
        "3"
    } else if d == 4 {
        "4"
    } else if d == 5 {
        "5"
    } else if d == 6 {
        "6"
    } else if d == 7 {
        "7"
    } else if d == 8 {
        "8"
    } else {
        "9"
    }
}

/// The decimal text of `n`.
pub fn decimal_string(n: usize) -> (r: String)
    ensures
        r@ == decimal(n as nat),
    decreases n,
{
    if n < 10 {
        String::from_str(digit_str(n))
    } else {
        let mut s = decimal_string(n / 10);
        s.append(digit_str(n % 10));
        s
    }
}


/// The line that opens a run of `n` tests.
pub open spec fn header(n: nat) -> Seq<char> {
    "Running "@ + decimal(n) + " tests\n"@
}

/// The text written before a test runs.
pub open spec fn announce(name: Seq<char>) -> Seq<char> {
    name + "...\t"@
}

/// The marker written after a test returns normally.
pub open spec fn ok_marker() -> Seq<char> {
    "[ok]\n"@
}

/// The text written when a test terminates abnormally.
pub open spec fn failure_report(description: Seq<char>) -> Seq<char> {
    "[failed]\n\nError: "@ + description + "\n"@
}

/// The state of a run: the test names in order, the index of the running
/// test, and the exit code once the run has ended.
pub type RunState = (Seq<Seq<char>>, nat, Option<QemuExitCode>);

/// A test event as a value: `None` for a normal return, `Some(d)` for an
/// abnormal termination described by `d`.
pub open spec fn outcome(e: TestEvent) -> Option<Seq<char>> {
    match e {
        TestEvent::Passed => None,
        TestEvent::Panicked(d) => Some(d@),
    }
}

/// Output, new state and next step of one event.
pub open spec fn step(st: RunState, e: Option<Seq<char>>) -> (Seq<char>, RunState, NextStep) {
    match st.2 {
        Some(code) => (Seq::empty(), st, NextStep::Exit(code)),
        None => match e {
            Some(d) => (
                failure_report(d),
                (st.0, st.1, Some(QemuExitCode::Failed)),
                NextStep::Exit(QemuExitCode::Failed),
            ),
            None => if st.1 + 1 < st.0.len() {
                (
                    ok_marker() + announce(st.0[st.1 + 1 as int]),
                    (st.0, st.1 + 1, None),
                    NextStep::RunTest((st.1 + 1) as usize),
                )
            } else {
                (
                    ok_marker(),
                    (st.0, st.1, Some(QemuExitCode::Success)),
                    NextStep::Exit(QemuExitCode::Success),
                )
            },
        },
    }
}

/// Output and state after a sequence of events.
pub open spec fn run_events(st: RunState, events: Seq<Option<Seq<char>>>) -> (Seq<char>, RunState)
    decreases events.len(),
{
    if events.len() == 0 {
        (Seq::empty(), st)
    } else {
        let before = run_events(st, events.drop_last());
        let last = step(before.1, events.last());
        (before.0 + last.0, last.1)
    }
}

/// Output, state and first step when a run of `names` starts.
pub open spec fn start_spec(names: Seq<Seq<char>>) -> (Seq<char>, RunState, NextStep) {
    if names.len() == 0 {
        (header(0), (names, 0, Some(QemuExitCode::Success)), NextStep::Exit(QemuExitCode::Success))
    } else {
        (header(names.len()) + announce(names[0]), (names, 0, None), NextStep::RunTest(0))
    }
}

/// The run of the tests `names`, one at a time, in order.
pub struct TestRun {
    names: Vec<String>,
    next: usize,
    exit: Option<QemuExitCode>,
}

impl View for TestRun {
    type V = RunState;

    closed spec fn view(&self) -> RunState {
        (self.names@.map_values(|s: String| s@), self.next as nat, self.exit)
    }
}

impl TestRun {
    /// While the run goes on, the running test is one of the names.
    pub closed spec fn wf(&self) -> bool {
        self.exit.is_none() ==> self.next < self.names@.len()
    }

    /// Starts a run of the tests `names`: returns the run, the text to write
    /// and the first step.
    pub fn start(names: Vec<String>) -> (r: (TestRun, String, NextStep))
        ensures
            r.0.wf(),
            r.0@ == start_spec(names@.map_values(|s: String| s@)).1,
            r.1@ == start_spec(names@.map_values(|s: String| s@)).0,
            r.2 == start_spec(names@.map_values(|s: String| s@)).2,
    {
        let n = names.len();
        let mut out = String::from_str("Running ");
        let count = decimal_string(n);
        out.append(count.as_str());
        out.append(" tests\n");
        if n == 0 {
            (TestRun { names, next: 0, exit: Some(QemuExitCode::Success) }, out, NextStep::Exit(QemuExitCode::Success))
        } else {
            out.append(names[0].as_str());
            out.append("...\t");
            (TestRun { names, next: 0, exit: None }, out, NextStep::RunTest(0))
        }
    }

    /// The exit code, once the run has ended.
    pub fn exit_code(&self) -> (r: Option<QemuExitCode>)
        ensures
            r == self@.2,
    {
        self.exit
    }
}

/// Takes the event that ended the running test and returns the text to write
/// on the serial line and the next step: after a normal return the marker
/// `[ok]` and the next test, or the success exit after the last one; after an
/// abnormal termination the failure report and the failure exit, so that no
/// later test runs. Once the run has ended nothing more is written.
pub fn test_runner(run: &mut TestRun, event: TestEvent) -> (r: (String, NextStep))
    requires
        old(run).wf(),
    ensures
        final(run).wf(),
        r.0@ == step(old(run)@, outcome(event)).0,
        final(run)@ == step(old(run)@, outcome(event)).1,
        r.1 == step(old(run)@, outcome(event)).2,
{
    match run.exit {
        Some(code) => (String::new(), NextStep::Exit(code)),
        None => match event {
            TestEvent::Panicked(description) => {
                let mut out = String::from_str("[failed]\n\nError: ");
                out.append(description.as_str());
                out.append("\n");
                run.exit = Some(QemuExitCode::Failed);
                (out, NextStep::Exit(QemuExitCode::Failed))
            },
            TestEvent::Passed => {
                let mut out = String::from_str("[ok]\n");
                let n = run.names.len();
                assert(run.next < n);
                if run.next < n - 1 {
                    run.next = run.next + 1;
                    out.append(run.names[run.next].as_str());
                    out.append("...\t");
                    (out, NextStep::RunTest(run.next))
                } else {
                    run.exit = Some(QemuExitCode::Success);
                    (out, NextStep::Exit(QemuExitCode::Success))
                }
            },
        },
    }
}


/// One announcement and `[ok]` marker for each of the first `k` tests, in order.
pub open spec fn ok_lines(names: Seq<Seq<char>>, k: nat) -> Seq<char>
    decreases k,
{
    if k == 0 {
        Seq::empty()
    } else {
        ok_lines(names, (k - 1) as nat) + announce(names[k - 1]) + ok_marker()
    }
}

/// `k` normal returns.
pub open spec fn passes(k: nat) -> Seq<Option<Seq<char>>> {
    Seq::new(k, |i: int| None)
}

proof fn lemma_pass_prefix(names: Seq<Seq<char>>, k: nat)
    requires
        k < names.len(),
    ensures
        run_events(start_spec(names).1, passes(k)).1 == (names, k, None::<QemuExitCode>),
        start_spec(names).0 + run_events(start_spec(names).1, passes(k)).0
            == header(names.len()) + ok_lines(names, k) + announce(names[k as int]),
        k + 1 < names.len() ==> step(run_events(start_spec(names).1, passes(k)).1, None).2
            == NextStep::RunTest((k + 1) as usize),
    decreases k,
{
    let s0 = start_spec(names);
    if k == 0 {
        assert(passes(0) =~= Seq::<Option<Seq<char>>>::empty());
        assert(s0.0 + Seq::<char>::empty() =~= header(names.len()) + Seq::<char>::empty() + announce(names[0]));
    } else {
        lemma_pass_prefix(names, (k - 1) as nat);
        assert(passes(k).drop_last() =~= passes((k - 1) as nat));
        let before = run_events(s0.1, passes((k - 1) as nat));
        assert(s0.0 + (before.0 + (ok_marker() + announce(names[k as int])))
            =~= header(names.len()) + ok_lines(names, (k - 1) as nat) + announce(names[k - 1])
                + ok_marker() + announce(names[k as int]));
    }
}

/// When every test returns normally, the run writes its header, then for each
/// test in order its announcement and the `[ok]` marker, runs each test after
/// the one before, and ends with the success exit.
pub proof fn lemma_all_pass(names: Seq<Seq<char>>)
    ensures
        start_spec(names).0 + run_events(start_spec(names).1, passes(names.len())).0
            == header(names.len()) + ok_lines(names, names.len()),
        run_events(start_spec(names).1, passes(names.len())).1.2 == Some(QemuExitCode::Success),
        names.len() == 0 ==> start_spec(names).2 == NextStep::Exit(QemuExitCode::Success),
        names.len() > 0 ==> start_spec(names).2 == NextStep::RunTest(0),
        forall|k: nat| k + 1 < names.len() ==> #[trigger] step(run_events(start_spec(names).1, passes(k)).1, None).2
            == NextStep::RunTest((k + 1) as usize),
        names.len() > 0 ==> step(run_events(start_spec(names).1, passes((names.len() - 1) as nat)).1, None).2
            == NextStep::Exit(QemuExitCode::Success),
{
    let n = names.len();
    let s0 = start_spec(names);
    assert forall|k: nat| k + 1 < names.len() implies #[trigger] step(run_events(s0.1, passes(k)).1, None).2
        == NextStep::RunTest((k + 1) as usize) by {
        lemma_pass_prefix(names, k);
    }
    if n == 0 {
        assert(passes(0) =~= Seq::<Option<Seq<char>>>::empty());
        assert(s0.0 + Seq::<char>::empty() =~= header(0) + Seq::<char>::empty());
    } else {
        lemma_pass_prefix(names, (n - 1) as nat);
        assert(passes(n).drop_last() =~= passes((n - 1) as nat));
        let before = run_events(s0.1, passes((n - 1) as nat));
        assert(s0.0 + (before.0 + ok_marker()) =~= header(n) + ok_lines(names, (n - 1) as nat)
            + announce(names[n - 1]) + ok_marker());
    }
}


/// An abnormal termination writes the failure report and the failure exit;
/// from then on no event writes anything or runs another test.
pub proof fn lemma_failure_ends_run(st: RunState, description: Seq<char>, later: Seq<Option<Seq<char>>>)
    requires
        st.2.is_none(),
    ensures
        step(st, Some(description)).0 == failure_report(description),
        step(st, Some(description)).2 == NextStep::Exit(QemuExitCode::Failed),
        run_events(step(st, Some(description)).1, later) == (Seq::<char>::empty(), step(st, Some(description)).1),
        forall|e: Option<Seq<char>>| #[trigger] step(run_events(step(st, Some(description)).1, later).1, e).2
            == NextStep::Exit(QemuExitCode::Failed),
    decreases later.len(),
{
    if later.len() > 0 {
        lemma_failure_ends_run(st, description, later.drop_last());
        assert(Seq::<char>::empty() + Seq::<char>::empty() =~= Seq::<char>::empty());
    }
}

} // verus!
