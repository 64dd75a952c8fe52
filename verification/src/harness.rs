//! Test harness and exit signal.
//!
//! A harness run walks a build-time-registered, ordered list of test
//! cases: it reports the count over the serial channel, then for each
//! case its display name followed by `[ok]`, and finally writes the
//! success code to the exit-signal port. A case whose invocation faults
//! hands control to the test-build fault handler instead: one `[failed]`
//! report with the fault description, the failure code on the port, and
//! no later case is ever invoked.
//!
//! The whole observable behavior of a run — serial reports and the port
//! write, in order — is modelled as one sequence of [`Report`] values,
//! so that what the host sees is a single pinned-down timeline.

use vstd::prelude::*;

verus! {

use crate::serial::DebugChannel;
use crate::serial::dec_rep;

/// Value written to the exit-signal port for a fully passing run.
pub const EXIT_SUCCESS: u32 = 0x10;

/// Value written to the exit-signal port when a test case faults.
pub const EXIT_FAILED: u32 = 0x11;

/// The two codes the hosting emulator's exit-signal device understands.
#[derive(Clone, Copy, Debug, PartialEq, Eq, Structural)]
pub enum QemuExitCode {
    Success,
    Failed,
}

impl QemuExitCode {
    /// The 32-bit value this code puts on the exit-signal port.
    pub open spec fn spec_code(self) -> u32 {
        match self {
            QemuExitCode::Success => EXIT_SUCCESS,
            QemuExitCode::Failed => EXIT_FAILED,
        }
    }

    /// The 32-bit value this code puts on the exit-signal port.
    pub fn code(self) -> (value: u32)
        ensures
            value == self.spec_code(),
    {
        match self {
            QemuExitCode::Success => EXIT_SUCCESS,
            QemuExitCode::Failed => EXIT_FAILED,
        }
    }
}

/// The exit-signal port as the hosting emulator sees it: every 32-bit
/// value written to it, in order. The first write terminates the
/// hosting process, so a run performs at most one.
pub struct ExitPort {
    /// Every value written to the port so far, in order.
    pub writes: Vec<u32>,
}

impl ExitPort {
    /// The port before anything was written to it.
    pub fn new() -> (port: ExitPort)
        ensures
            port.writes@ == Seq::<u32>::empty(),
    {
        ExitPort { writes: Vec::new() }
    }
}

/// Write an exit code to the exit-signal port, terminating the hosting
/// process.
pub fn exit_qemu(port: &mut ExitPort, exit_code: QemuExitCode)
    ensures
        final(port).writes@ == old(port).writes@.push(exit_code.spec_code()),
{
    let value = exit_code.code();
    port.writes.push(value);
}

/// How one invocation of a test case ended: a normal return, or an
/// unrecoverable fault with its description.
#[derive(Debug)]
pub enum TestOutcome {
    Pass,
    Fault(String),
}

/// A zero-argument runnable test case with a derived display name.
///
/// Which outcome an invocation produces, and under which name it is
/// reported, are fixed properties of the case; `run` and `name` are
/// bound to them.
pub trait Testable {
    /// The display name under which the case is reported.
    spec fn spec_name(&self) -> Seq<char>;

    /// Whether an invocation of the case returns normally.
    spec fn spec_passes(&self) -> bool;

    /// The fault description when an invocation does not return
    /// normally.
    spec fn spec_fault(&self) -> Seq<char>;

    /// The display name of the case.
    fn name(&self) -> (s: String)
        ensures
            s@ == self.spec_name(),
    ;

    /// Invoke the case with no arguments and report how it ended.
    fn run(&self) -> (outcome: TestOutcome)
        ensures
            outcome is Pass <==> self.spec_passes(),
            outcome is Fault ==> outcome->0@ == self.spec_fault(),
    ;
}

/// One observable step of a harness run, either a serial report or the
/// exit-signal write that ends the run.
pub ghost enum Report {
    /// The opening count of registered cases.
    Count(nat),
    /// The display name of the case about to be invoked.
    Name(Seq<char>),
    /// The case returned normally.
    Passed,
    /// The case faulted, with the fault description.
    Failed(Seq<char>),
    /// The 32-bit write on the exit-signal port.
    Exit(u32),
}

/// What one report puts on the serial channel; the exit-signal write is
/// not serial traffic.
pub open spec fn render_report(r: Report) -> Seq<char> {
    match r {
        Report::Count(n) => "Running "@ + dec_rep(n) + " tests\n"@,
        Report::Name(name) => name + "...\t"@,
        Report::Passed => "[ok]\n"@,
        Report::Failed(msg) => "[failed]\n\n"@ + "Error: "@ + msg + "\n\n"@,
        Report::Exit(_) => Seq::<char>::empty(),
    }
}

/// The serial traffic of a report sequence, in order.
pub open spec fn render_reports(rs: Seq<Report>) -> Seq<char>
    decreases rs.len(),
{
    if rs.len() == 0 {
        Seq::<char>::empty()
    } else {
        render_report(rs[0]) + render_reports(rs.drop_first())
    }
}

/// The per-case reports of a run, first case first: name and `[ok]` for
/// each passing case, and for the first faulting case its name, the
/// `[failed]` report and the failure exit write — nothing after it. A
/// run through the whole list ends with the success exit write.
pub open spec fn test_reports<T: Testable>(tests: Seq<T>) -> Seq<Report>
    decreases tests.len(),
{
    if tests.len() == 0 {
        seq![Report::Exit(EXIT_SUCCESS)]
    } else if tests[0].spec_passes() {
        seq![Report::Name(tests[0].spec_name()), Report::Passed] + test_reports(
            tests.drop_first(),
        )
    } else {
        seq![
            Report::Name(tests[0].spec_name()),
            Report::Failed(tests[0].spec_fault()),
            Report::Exit(EXIT_FAILED),
        ]
    }
}

/// The whole observable timeline of a run: the opening count, then the
/// per-case reports.
pub open spec fn harness_reports<T: Testable>(tests: Seq<T>) -> Seq<Report> {
    seq![Report::Count(tests.len())] + test_reports(tests)
}

/// The code a run puts on the exit-signal port: success exactly when
/// every registered case passes.
pub open spec fn harness_exit<T: Testable>(tests: Seq<T>) -> u32 {
    if forall|i: int| 0 <= i < tests.len() ==> tests[i].spec_passes() {
        EXIT_SUCCESS
    } else {
        EXIT_FAILED
    }
}

/// The reports of a run of passing cases only, without any exit write.
pub open spec fn passed_reports<T: Testable>(tests: Seq<T>) -> Seq<Report>
    decreases tests.len(),
{
    if tests.len() == 0 {
        Seq::<Report>::empty()
    } else {
        seq![Report::Name(tests[0].spec_name()), Report::Passed] + passed_reports(
            tests.drop_first(),
        )
    }
}

/// Serial traffic splits over report concatenation.
pub proof fn lemma_render_concat(a: Seq<Report>, b: Seq<Report>)
    ensures
        render_reports(a + b) == render_reports(a) + render_reports(b),
    decreases a.len(),
{
    if a.len() == 0 {
        assert(a + b =~= b);
        assert(render_reports(a) + render_reports(b) =~= render_reports(b));
    } else {
        assert((a + b)[0] == a[0]);
        assert((a + b).drop_first() =~= a.drop_first() + b);
        lemma_render_concat(a.drop_first(), b);
        assert(render_report(a[0]) + (render_reports(a.drop_first()) + render_reports(b))
            =~= (render_report(a[0]) + render_reports(a.drop_first())) + render_reports(b));
        assert(a.len() > 0 ==> render_reports(a) == render_report(a[0]) + render_reports(
            a.drop_first(),
        ));
    }
}

/// Adding one passing case at the end adds its two reports at the end.
pub proof fn lemma_passed_reports_snoc<T: Testable>(tests: Seq<T>, t: T)
    requires
        t.spec_passes(),
    ensures
        passed_reports(tests.push(t)) == passed_reports(tests) + seq![
            Report::Name(t.spec_name()),
            Report::Passed,
        ],
    decreases tests.len(),
{
    if tests.len() == 0 {
        assert(tests.push(t)[0] == t);
        assert(tests.push(t).drop_first() =~= Seq::<T>::empty());
        assert(passed_reports(Seq::<T>::empty()) == Seq::<Report>::empty());
        assert(passed_reports(tests.push(t)) =~= passed_reports(tests) + seq![
            Report::Name(t.spec_name()),
            Report::Passed,
        ]);
    } else {
        assert(tests.push(t)[0] == tests[0]);
        assert(tests.push(t).drop_first() =~= tests.drop_first().push(t));
        lemma_passed_reports_snoc(tests.drop_first(), t);
        assert(passed_reports(tests.push(t)) =~= passed_reports(tests) + seq![
            Report::Name(t.spec_name()),
            Report::Passed,
        ]);
    }
}

/// A run whose first `k` cases pass splits into their reports followed
/// by the reports of the rest of the list.
pub proof fn lemma_test_reports_split<T: Testable>(tests: Seq<T>, k: int)
    requires
        0 <= k <= tests.len(),
        forall|j: int| 0 <= j < k ==> tests[j].spec_passes(),
    ensures
        test_reports(tests) == passed_reports(tests.take(k)) + test_reports(tests.skip(k)),
    decreases k,
{
    if k == 0 {
        assert(tests.take(0) =~= Seq::<T>::empty());
        assert(tests.skip(0) =~= tests);
        assert(passed_reports(Seq::<T>::empty()) + test_reports(tests) =~= test_reports(tests));
    } else {
        assert(tests[0].spec_passes());
        lemma_test_reports_split(tests.drop_first(), k - 1);
        assert(tests.take(k)[0] == tests[0]);
        assert(tests.take(k).drop_first() =~= tests.drop_first().take(k - 1));
        assert(tests.skip(k) =~= tests.drop_first().skip(k - 1));
        assert(forall|j: int|
            0 <= j < k - 1 ==> #[trigger] tests.drop_first()[j].spec_passes());
        assert(test_reports(tests) == seq![
            Report::Name(tests[0].spec_name()),
            Report::Passed,
        ] + test_reports(tests.drop_first()));
        assert(seq![Report::Name(tests[0].spec_name()), Report::Passed] + (passed_reports(
            tests.drop_first().take(k - 1),
        ) + test_reports(tests.drop_first().skip(k - 1))) =~= (seq![
            Report::Name(tests[0].spec_name()),
            Report::Passed,
        ] + passed_reports(tests.drop_first().take(k - 1))) + test_reports(
            tests.drop_first().skip(k - 1),
        ));
        assert(passed_reports(tests.take(k)) == seq![
            Report::Name(tests[0].spec_name()),
            Report::Passed,
        ] + passed_reports(tests.take(k).drop_first()));
    }
}

/// Test-build fault handler: report the fault description behind a
/// `[failed]` marker over the serial channel, then put the failure code
/// on the exit-signal port. Control never returns to the faulting case;
/// the caller's run is over.
pub fn test_panic_handler(serial: &mut DebugChannel, port: &mut ExitPort, info: &str)
    ensures
        final(serial).transmitted@ == old(serial).transmitted@ + render_report(
            Report::Failed(info@),
        ),
        final(port).writes@ == old(port).writes@.push(EXIT_FAILED),
{
    serial.serial_println("[failed]\n");
    serial.serial_print("Error: ");
    serial.serial_print(info);
    serial.serial_print("\n\n");
    proof {
        reveal_strlit("[failed]\n");
        reveal_strlit("[failed]\n\n");
        reveal_strlit("\n");
        assert("[failed]\n"@ + "\n"@ =~= "[failed]\n\n"@);
        assert(final(serial).transmitted@ =~= old(serial).transmitted@ + render_report(
            Report::Failed(info@),
        ));
    }
    exit_qemu(port, QemuExitCode::Failed);
}

/// Rendering a one-report sequence is rendering the report.
pub proof fn lemma_render_one(r: Report)
    ensures
        render_reports(seq![r]) == render_report(r),
{
    assert(seq![r].drop_first() =~= Seq::<Report>::empty());
    assert(render_reports(Seq::<Report>::empty()) == Seq::<char>::empty());
    assert(render_reports(seq![r]) =~= render_report(r));
}

/// Rendering a two-report sequence concatenates the two renderings.
pub proof fn lemma_render_two(a: Report, b: Report)
    ensures
        render_reports(seq![a, b]) == render_report(a) + render_report(b),
{
    assert(seq![a, b].drop_first() =~= seq![b]);
    lemma_render_one(b);
    assert(render_reports(seq![a, b]) =~= render_report(a) + render_report(b));
}

/// Rendering a three-report sequence concatenates the three renderings.
pub proof fn lemma_render_three(a: Report, b: Report, c: Report)
    ensures
        render_reports(seq![a, b, c]) == render_report(a) + render_report(b) + render_report(c),
{
    assert(seq![a, b, c].drop_first() =~= seq![b, c]);
    lemma_render_two(b, c);
    assert(render_reports(seq![a, b, c]) =~= render_report(a) + render_report(b) + render_report(
        c,
    ));
}

/// Run every registered case in order, reporting over the serial
/// channel, and end the run through the exit-signal port: the success
/// code after the last `[ok]`, or the failure code as soon as a case
/// faults — later cases are then never invoked.
pub fn test_runner<T: Testable>(tests: &Vec<T>, serial: &mut DebugChannel, port: &mut ExitPort)
    ensures
        final(serial).transmitted@ == old(serial).transmitted@ + render_reports(
            harness_reports(tests@),
        ),
        final(port).writes@ == old(port).writes@.push(harness_exit(tests@)),
{
    let ghost whole = old(serial).transmitted@;
    let n = tests.len();
    serial.serial_print("Running ");
    serial.serial_print_number(n);
    serial.serial_print(" tests\n");
    let ghost base = whole + render_report(Report::Count(tests@.len()));
    proof {
        assert(serial.transmitted@ =~= base);
        assert(tests@.take(0) =~= Seq::<T>::empty());
        assert(passed_reports(Seq::<T>::empty()) == Seq::<Report>::empty());
        assert(base + render_reports(Seq::<Report>::empty()) =~= base);
    }
    let mut i: usize = 0;
    while i < n
        invariant
            n == tests@.len(),
            i <= n,
            base == whole + render_report(Report::Count(tests@.len())),
            whole == old(serial).transmitted@,
            forall|j: int| 0 <= j < i ==> tests@[j].spec_passes(),
            port.writes@ == old(port).writes@,
            serial.transmitted@ == base + render_reports(passed_reports(tests@.take(i as int))),
        decreases n - i,
    {
        let t = &tests[i];
        let name = t.name();
        serial.serial_print(name.as_str());
        serial.serial_print("...\t");
        let outcome = t.run();
        match outcome {
            TestOutcome::Pass => {
                serial.serial_println("[ok]");
                proof {
                    reveal_strlit("[ok]");
                    reveal_strlit("[ok]\n");
                    reveal_strlit("\n");
                    assert("[ok]"@ + "\n"@ =~= "[ok]\n"@);
                    let done = passed_reports(tests@.take(i as int));
                    let two = seq![Report::Name(tests@[i as int].spec_name()), Report::Passed];
                    assert(tests@.take(i + 1) =~= tests@.take(i as int).push(tests@[i as int]));
                    lemma_passed_reports_snoc(tests@.take(i as int), tests@[i as int]);
                    lemma_render_concat(done, two);
                    lemma_render_two(two[0], two[1]);
                    assert(serial.transmitted@ =~= base + render_reports(
                        passed_reports(tests@.take(i + 1)),
                    ));
                }
            },
            TestOutcome::Fault(message) => {
                test_panic_handler(serial, port, message.as_str());
                proof {
                    let done = passed_reports(tests@.take(i as int));
                    let ti = tests@[i as int];
                    assert(!ti.spec_passes());
                    lemma_test_reports_split(tests@, i as int);
                    assert(tests@.skip(i as int)[0] == ti);
                    let tail = seq![
                        Report::Name(ti.spec_name()),
                        Report::Failed(ti.spec_fault()),
                        Report::Exit(EXIT_FAILED),
                    ];
                    assert(test_reports(tests@.skip(i as int)) == tail);
                    lemma_render_concat(done, tail);
                    lemma_render_three(tail[0], tail[1], tail[2]);
                    lemma_render_concat(seq![Report::Count(tests@.len())], test_reports(tests@));
                    lemma_render_one(Report::Count(tests@.len()));
                    assert(message@ == ti.spec_fault());
                    assert(serial.transmitted@ =~= whole + render_reports(
                        harness_reports(tests@),
                    ));
                    assert(harness_exit(tests@) == EXIT_FAILED);
                }
                return;
            },
        }
        i = i + 1;
    }
    proof {
        assert(tests@.take(n as int) =~= tests@);
        lemma_test_reports_split(tests@, n as int);
        assert(tests@.skip(n as int) =~= Seq::<T>::empty());
        lemma_render_concat(passed_reports(tests@), seq![Report::Exit(EXIT_SUCCESS)]);
        lemma_render_one(Report::Exit(EXIT_SUCCESS));
        lemma_render_concat(seq![Report::Count(tests@.len())], test_reports(tests@));
        lemma_render_one(Report::Count(tests@.len()));
        assert(serial.transmitted@ =~= whole + render_reports(harness_reports(tests@)));
        assert(harness_exit(tests@) == EXIT_SUCCESS);
    }
    exit_qemu(port, QemuExitCode::Success);
}

/// How many `[ok]` reports a timeline holds.
pub open spec fn count_passed(rs: Seq<Report>) -> int
    decreases rs.len(),
{
    if rs.len() == 0 {
        0int
    } else {
        (if rs[0] is Passed {
            1int
        } else {
            0int
        }) + count_passed(rs.drop_first())
    }
}

/// How many `[failed]` reports a timeline holds.
pub open spec fn count_failed(rs: Seq<Report>) -> int
    decreases rs.len(),
{
    if rs.len() == 0 {
        0int
    } else {
        (if rs[0] is Failed {
            1int
        } else {
            0int
        }) + count_failed(rs.drop_first())
    }
}

/// How many exit-signal writes a timeline holds.
pub open spec fn count_exit(rs: Seq<Report>) -> int
    decreases rs.len(),
{
    if rs.len() == 0 {
        0int
    } else {
        (if rs[0] is Exit {
            1int
        } else {
            0int
        }) + count_exit(rs.drop_first())
    }
}

/// All three counters split over concatenation.
pub proof fn lemma_counts_concat(a: Seq<Report>, b: Seq<Report>)
    ensures
        count_passed(a + b) == count_passed(a) + count_passed(b),
        count_failed(a + b) == count_failed(a) + count_failed(b),
        count_exit(a + b) == count_exit(a) + count_exit(b),
    decreases a.len(),
{
    if a.len() == 0 {
        assert(a + b =~= b);
    } else {
        assert((a + b)[0] == a[0]);
        assert((a + b).drop_first() =~= a.drop_first() + b);
        lemma_counts_concat(a.drop_first(), b);
    }
}

/// The counters on a one-report timeline.
pub proof fn lemma_counts_one(r: Report)
    ensures
        count_passed(seq![r]) == (if r is Passed {
            1int
        } else {
            0int
        }),
        count_failed(seq![r]) == (if r is Failed {
            1int
        } else {
            0int
        }),
        count_exit(seq![r]) == (if r is Exit {
            1int
        } else {
            0int
        }),
{
    assert(seq![r].drop_first() =~= Seq::<Report>::empty());
    assert(count_passed(Seq::<Report>::empty()) == 0);
    assert(count_failed(Seq::<Report>::empty()) == 0);
    assert(count_exit(Seq::<Report>::empty()) == 0);
}

/// The counters on a two-report timeline.
pub proof fn lemma_counts_two(a: Report, b: Report)
    ensures
        count_passed(seq![a, b]) == count_passed(seq![a]) + count_passed(seq![b]),
        count_failed(seq![a, b]) == count_failed(seq![a]) + count_failed(seq![b]),
        count_exit(seq![a, b]) == count_exit(seq![a]) + count_exit(seq![b]),
{
    assert(seq![a, b].drop_first() =~= seq![b]);
    lemma_counts_one(a);
    lemma_counts_one(b);
}

/// The counters on a three-report timeline.
pub proof fn lemma_counts_three(a: Report, b: Report, c: Report)
    ensures
        count_passed(seq![a, b, c]) == count_passed(seq![a]) + count_passed(seq![b])
            + count_passed(seq![c]),
        count_failed(seq![a, b, c]) == count_failed(seq![a]) + count_failed(seq![b])
            + count_failed(seq![c]),
        count_exit(seq![a, b, c]) == count_exit(seq![a]) + count_exit(seq![b]) + count_exit(
            seq![c],
        ),
{
    assert(seq![a, b, c].drop_first() =~= seq![b, c]);
    lemma_counts_two(b, c);
    lemma_counts_one(a);
    lemma_counts_one(b);
    lemma_counts_one(c);
}

/// A list of passing cases yields one `[ok]` per case and neither a
/// `[failed]` report nor an exit write.
pub proof fn lemma_counts_passed_reports<T: Testable>(tests: Seq<T>)
    ensures
        passed_reports(tests).len() == 2 * tests.len(),
        count_passed(passed_reports(tests)) == tests.len(),
        count_failed(passed_reports(tests)) == 0,
        count_exit(passed_reports(tests)) == 0,
    decreases tests.len(),
{
    if tests.len() == 0 {
    } else {
        lemma_counts_passed_reports(tests.drop_first());
        let two = seq![Report::Name(tests[0].spec_name()), Report::Passed];
        lemma_counts_concat(two, passed_reports(tests.drop_first()));
        assert(two.drop_first() =~= seq![Report::Passed]);
        lemma_counts_one(Report::Passed);
    }
}

/// Law: a run over passing cases only reports `[ok]` once per case,
/// reports no failure, and writes the exit-signal port exactly once —
/// the success code, as the last step of the whole timeline.
pub proof fn lemma_run_all_pass<T: Testable>(tests: Seq<T>)
    requires
        forall|i: int| 0 <= i < tests.len() ==> tests[i].spec_passes(),
    ensures
        count_passed(harness_reports(tests)) == tests.len(),
        count_failed(harness_reports(tests)) == 0,
        count_exit(harness_reports(tests)) == 1,
        harness_reports(tests).len() == 2 * tests.len() + 2,
        harness_reports(tests).last() == Report::Exit(EXIT_SUCCESS),
        harness_exit(tests) == EXIT_SUCCESS,
{
    lemma_test_reports_split(tests, tests.len() as int);
    assert(tests.take(tests.len() as int) =~= tests);
    assert(tests.skip(tests.len() as int) =~= Seq::<T>::empty());
    lemma_counts_passed_reports(tests);
    lemma_counts_concat(passed_reports(tests), seq![Report::Exit(EXIT_SUCCESS)]);
    lemma_counts_one(Report::Exit(EXIT_SUCCESS));
    let count = seq![Report::Count(tests.len())];
    lemma_counts_concat(count, test_reports(tests));
    lemma_counts_one(Report::Count(tests.len()));
    let hr = harness_reports(tests);
    assert(hr.len() == 2 * tests.len() + 2);
    assert(hr.last() == (passed_reports(tests) + seq![Report::Exit(EXIT_SUCCESS)])[2 * tests.len()
        as int]);
    assert(hr.last() == Report::Exit(EXIT_SUCCESS));
}

/// Law: when the first faulting case is case `k` (counting from zero),
/// the run reports `[ok]` exactly `k` times, then one `[failed]`, then
/// writes the failure code as the one exit write and last step; the
/// cases after `k` contribute nothing — the timeline equals that of the
/// list cut right after `k`.
pub proof fn lemma_run_first_fault<T: Testable>(tests: Seq<T>, k: int)
    requires
        0 <= k < tests.len(),
        forall|j: int| 0 <= j < k ==> tests[j].spec_passes(),
        !tests[k].spec_passes(),
    ensures
        count_passed(harness_reports(tests)) == k,
        count_failed(harness_reports(tests)) == 1,
        count_exit(harness_reports(tests)) == 1,
        harness_reports(tests).len() == 2 * k + 4,
        harness_reports(tests).last() == Report::Exit(EXIT_FAILED),
        harness_exit(tests) == EXIT_FAILED,
        test_reports(tests) == test_reports(tests.take(k + 1)),
{
    lemma_test_reports_split(tests, k);
    assert(tests.skip(k)[0] == tests[k]);
    let tail = seq![
        Report::Name(tests[k].spec_name()),
        Report::Failed(tests[k].spec_fault()),
        Report::Exit(EXIT_FAILED),
    ];
    assert(test_reports(tests.skip(k)) == tail);
    lemma_counts_passed_reports(tests.take(k));
    assert(tests.take(k).len() == k);
    lemma_counts_concat(passed_reports(tests.take(k)), tail);
    lemma_counts_three(tail[0], tail[1], tail[2]);
    lemma_counts_one(tail[0]);
    lemma_counts_one(tail[1]);
    lemma_counts_one(tail[2]);
    let count = seq![Report::Count(tests.len())];
    lemma_counts_concat(count, test_reports(tests));
    lemma_counts_one(Report::Count(tests.len()));
    let hr = harness_reports(tests);
    assert(hr.len() == 2 * k + 4);
    assert(hr.last() == (passed_reports(tests.take(k)) + tail)[2 * k + 2]);
    assert(hr.last() == tail[2]);
    assert(harness_exit(tests) == EXIT_FAILED);
    lemma_test_reports_split(tests.take(k + 1), k);
    assert(tests.take(k + 1).take(k) =~= tests.take(k));
    assert(tests.take(k + 1).skip(k) =~= seq![tests[k]]);
    assert(seq![tests[k]][0] == tests[k]);
    assert(test_reports(seq![tests[k]]) == tail);
}

/// The simplest registered case: checks that one equals one.
pub fn trivial_assertion() {
    assert(1int == 1int);
}

/// [`Testable`] wrapper around [`trivial_assertion`].
pub struct TrivialAssertion;

impl Testable for TrivialAssertion {
    open spec fn spec_name(&self) -> Seq<char> {
        "trivial_assertion"@
    }

    open spec fn spec_passes(&self) -> bool {
        true
    }

    open spec fn spec_fault(&self) -> Seq<char> {
        Seq::<char>::empty()
    }

    fn name(&self) -> (s: String) {
        "trivial_assertion".to_owned()
    }

    fn run(&self) -> (outcome: TestOutcome) {
        trivial_assertion();
        TestOutcome::Pass
    }
}

/// A registered case as the harness sees it: a display name together
/// with how its invocation ends — a normal return, or a fault carrying
/// a description that the fault handler will report.
pub enum TestCase {
    Passing { name: String },
    Faulting { name: String, message: String },
}

impl Testable for TestCase {
    open spec fn spec_name(&self) -> Seq<char> {
        match self {
            TestCase::Passing { name } => name@,
            TestCase::Faulting { name, .. } => name@,
        }
    }

    open spec fn spec_passes(&self) -> bool {
        self is Passing
    }

    open spec fn spec_fault(&self) -> Seq<char> {
        match self {
            TestCase::Passing { .. } => Seq::<char>::empty(),
            TestCase::Faulting { message, .. } => message@,
        }
    }

    fn name(&self) -> (s: String) {
        match self {
            TestCase::Passing { name } => name.clone(),
            TestCase::Faulting { name, .. } => name.clone(),
        }
    }

    fn run(&self) -> (outcome: TestOutcome) {
        match self {
            TestCase::Passing { .. } => TestOutcome::Pass,
            TestCase::Faulting { message, .. } => TestOutcome::Fault(message.clone()),
        }
    }
}

} // verus!
