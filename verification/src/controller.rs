//! The older flow's orchestration: one controller owns the debounce
//! heuristic, the ordered action list and the diagnostic log.
//!
//! On a notification the controller logs the symptom, consults the
//! heuristic, and — only on escalation — runs every action in order,
//! logging each failure and going on, so the final kill always runs.

use vstd::prelude::*;

use crate::clock::strftime_ok;
use crate::clock::format_now;
use crate::err::Error;
use crate::err::spec_error_message;
use crate::heap::stats::Stats;
use crate::heap::stats::spec_stats_table;
use crate::jmx::ManagementFactory;
use crate::jmx::MemoryPoolMXBean;
use crate::output::LineView;
use crate::output::OutputLine;
use crate::output::SIGKILL;
use crate::output::SIGQUIT;
use crate::output::spec_lines;
use crate::parameters::ParametersView;
use crate::parms::AgentParameters;
use crate::parms::spec_parse_agent_parameters;
use crate::poolstats::PoolStats;
use crate::poolstats::spec_pool_stats_report;
use crate::threshold::Threshold;
use crate::threshold::spec_count_since;
use crate::threshold::spec_threshold_message;

verus! {

/// The exhaustion flag bit for a failed heap allocation.
pub const RESOURCE_EXHAUSTED_JAVA_HEAP: i32 = 2;

/// The exhaustion flag bit for an out-of-memory error about to be thrown.
pub const RESOURCE_EXHAUSTED_OOM_ERROR: i32 = 1;

/// The symptom wording appended to the logged notification line.
pub open spec fn spec_symptom(flags: i32) -> Seq<char> {
    let heap = flags & RESOURCE_EXHAUSTED_JAVA_HEAP == RESOURCE_EXHAUSTED_JAVA_HEAP;
    let threads = crate::spec_threads_exhausted(flags);
    if heap && threads {
        ": the JVM was unable to allocate memory from the heap and create a thread"@
    } else if heap {
        ": the JVM was unable to allocate memory from the heap"@
    } else if threads {
        ": the JVM was unable to create a thread"@
    } else {
        ""@
    }
}

/// The wording of the symptom carried by a notification's flags.
pub fn resource_exhaustion_symptom(resource_exhaustion_flags: i32) -> (r: String)
    ensures
        r@ == spec_symptom(resource_exhaustion_flags),
{
    let heap = resource_exhaustion_flags & RESOURCE_EXHAUSTED_JAVA_HEAP
        == RESOURCE_EXHAUSTED_JAVA_HEAP;
    let threads = crate::is_threads_exhausted(resource_exhaustion_flags);
    if heap && threads {
        String::from_str(": the JVM was unable to allocate memory from the heap and create a thread")
    } else if heap {
        String::from_str(": the JVM was unable to allocate memory from the heap")
    } else if threads {
        String::from_str(": the JVM was unable to create a thread")
    } else {
        String::from_str("")
    }
}

/// The older flow's traversal callback body: an object whose class tag
/// was assigned gets its signature's row bumped; an unassigned tag is
/// ignored.
pub fn record_visit(
    tagger: &crate::heap::tagger::Tagger,
    stats: &mut Stats,
    class_tag: i64,
    size: i64,
)
    requires
        tagger.wf(),
    ensures
        1 <= class_tag <= tagger.sigs().len() ==> final(stats).entries()
            == crate::heap::stats::spec_record(
            old(stats).entries(),
            tagger.sigs()[class_tag - 1],
            size as int,
        ) && final(stats).max_entries() == old(stats).max_entries(),
        !(1 <= class_tag <= tagger.sigs().len()) ==> *final(stats) == *old(stats),
{
    match tagger.class_signature(class_tag) {
        Some(sig) => {
            stats.recordObject(sig, size);
        },
        None => {},
    }
}

/// What the binding layer gathered from the host for one escalation of
/// the older flow.
pub struct ControllerSession {
    pub factory: ManagementFactory,
    pub heap_stats: Stats,
}

/// One diagnostic action of the older action set.
pub enum ControllerAction {
    HeapHistogram,
    HeapDump { path: String },
    PoolStats(PoolStats),
    Kill { signal: i32 },
}

/// The mathematical shape of one older action.
pub enum ControllerActionView {
    HeapHistogram,
    HeapDump { path: Seq<char> },
    PoolStats,
    Kill { signal: int },
}

impl View for ControllerAction {
    type V = ControllerActionView;

    open spec fn view(&self) -> ControllerActionView {
        match self {
            ControllerAction::HeapHistogram => ControllerActionView::HeapHistogram,
            ControllerAction::HeapDump { path } => ControllerActionView::HeapDump { path: path@ },
            ControllerAction::PoolStats(_) => ControllerActionView::PoolStats,
            ControllerAction::Kill { signal } => ControllerActionView::Kill {
                signal: *signal as int,
            },
        }
    }
}

/// The older action set a configuration asks for, in order.
pub open spec fn spec_controller_actions_for(p: ParametersView) -> Seq<ControllerActionView> {
    (if p.print_heap_histogram {
        seq![ControllerActionView::HeapHistogram]
    } else {
        Seq::<ControllerActionView>::empty()
    }) + (match p.heap_dump_path {
        Some(path) => seq![ControllerActionView::HeapDump { path }],
        None => Seq::<ControllerActionView>::empty(),
    }) + (if p.print_memory_usage {
        seq![ControllerActionView::PoolStats]
    } else {
        Seq::<ControllerActionView>::empty()
    }) + seq![
        ControllerActionView::Kill { signal: SIGQUIT as int },
        ControllerActionView::Kill { signal: SIGKILL as int },
    ]
}

/// What a successful heap dump of the older flow asks for.
pub open spec fn spec_controller_dump_lines(resolved: Seq<char>) -> Seq<LineView> {
    seq![
        LineView::DumpRequest(resolved),
        LineView::Stdout("\nHeapdump written to \""@ + resolved + "\"\n"@),
    ]
}

/// What one older action contributes: its output lines on success with
/// nothing logged, or no output and one logged error line.  Only a
/// successful heap dump is clock-dependent; its two lines are pinned
/// relative to the request's path.
pub open spec fn spec_controller_action_ok(
    a: ControllerActionView,
    flags: i32,
    session: ControllerSession,
    out: Seq<LineView>,
    log: Seq<char>,
) -> bool {
    match a {
        ControllerActionView::HeapHistogram => out == seq![
            LineView::Stdout(spec_stats_table(session.heap_stats.spec_kept())),
        ] && log == Seq::<char>::empty(),
        ControllerActionView::HeapDump { path } => {
            if crate::spec_threads_exhausted(flags) {
                out == Seq::<LineView>::empty() && log == "ERROR: "@ + "HeapDump"@
                    + " action failed: "@ + "cannot "@ + "generate a heap dump"@
                    + " since the JVM is unable to create a thread"@ + "\n"@
            } else if !strftime_ok(path) {
                out == Seq::<LineView>::empty() && log == "ERROR: "@ + "HeapDump"@
                    + " action failed: "@ + "failed to resolve heap dump path "@ + path
                    + ": parse error"@ + "\n"@
            } else {
                out.len() == 2 && (match out[0] {
                    LineView::DumpRequest(p) => out == spec_controller_dump_lines(p),
                    _ => false,
                }) && log == Seq::<char>::empty()
            }
        },
        ControllerActionView::PoolStats => {
            if crate::spec_threads_exhausted(flags) {
                out == Seq::<LineView>::empty() && log == "ERROR: "@ + "PoolStats"@
                    + " action failed: "@ + "cannot "@ + "determine memory usage statistics"@
                    + " since the JVM is unable to create a thread"@ + "\n"@
            } else {
                out == seq![
                    LineView::Stdout(
                        spec_pool_stats_report(
                            session.factory.memory.heap,
                            session.factory.memory.non_heap,
                            session.factory.pools@.map_values(|p: MemoryPoolMXBean| p@),
                        ),
                    ),
                ] && log == Seq::<char>::empty()
            }
        },
        ControllerActionView::Kill { signal } => out == seq![
            LineView::Stderr("\njvmkill killing current process\n"@),
            LineView::Signal { signal, delay: false },
        ] && log == Seq::<char>::empty(),
    }
}

/// Everything one notification guarantees of the controller, from state
/// `c0` to state `c1` with effects `r`: the heuristic records the
/// notification, the progress message comes first, and on escalation
/// each action contributes its segment in order, its failures logged —
/// otherwise only the symptom (and, with the out-of-memory bit, the
/// host's imminent error) is logged.
pub open spec fn spec_on_oom_post(
    c0: AgentController,
    c1: AgentController,
    flags: i32,
    session: ControllerSession,
    r: Seq<OutputLine>,
) -> bool {
    &&& c1.wf()
    &&& c1.action_views() == c0.action_views()
    &&& c1.heuristic().wf()
    &&& c1.heuristic().count_threshold() == c0.heuristic().count_threshold()
    &&& c1.heuristic().window_millis() == c0.heuristic().window_millis()
    &&& ({
        let h0 = c0.heuristic();
        let h1 = c1.heuristic();
        let now = h1.events()[h0.cursor()];
        let count = spec_count_since(h1.events(), now - h0.window_millis());
        let escalated = count > h0.count_threshold();
        let symptom_line = "\nResource exhaustion event"@ + spec_symptom(flags) + ".\n"@;
        &&& h1.events() == h0.events().update(h0.cursor(), now)
        &&& r.len() >= 1
        &&& r[0]@ == LineView::Stderr(spec_threshold_message(count, h0.count_threshold()) + "\n"@)
        &&& (if escalated {
            exists|outsegs: Seq<Seq<LineView>>, logsegs: Seq<Seq<char>>|
                {
                    &&& outsegs.len() == c0.action_views().len()
                    &&& logsegs.len() == c0.action_views().len()
                    &&& (forall|i: int|
                        0 <= i < outsegs.len() ==> spec_controller_action_ok(
                            c0.action_views()[i],
                            flags,
                            session,
                            #[trigger] outsegs[i],
                            #[trigger] logsegs[i],
                        ))
                    &&& spec_lines(r).subrange(1, r.len() as int) == outsegs.flatten()
                    &&& c1.log() == c0.log() + symptom_line + logsegs.flatten()
                }
        } else {
            &&& spec_lines(r).len() == 1
            &&& c1.log() == c0.log() + symptom_line + (if flags & RESOURCE_EXHAUSTED_OOM_ERROR
                == RESOURCE_EXHAUSTED_OOM_ERROR {
                "\nThe JVM is about to throw a java.lang.OutOfMemoryError.\n"@
            } else {
                Seq::<char>::empty()
            })
        })
    })
}

/// The older flow's controller.
pub struct AgentController {
    heuristic: Threshold,
    actions: Vec<ControllerAction>,
    log: String,
}

impl AgentController {
    /// The debounce heuristic.
    pub closed spec fn heuristic(&self) -> Threshold {
        self.heuristic
    }

    /// The ordered action list.
    pub closed spec fn action_views(&self) -> Seq<ControllerActionView> {
        self.actions@.map_values(|a: ControllerAction| a@)
    }

    /// The diagnostic log written so far.
    pub closed spec fn log(&self) -> Seq<char> {
        self.log@
    }

    /// The heuristic is well formed and every hint table is in place.
    pub closed spec fn wf(&self) -> bool {
        &&& self.heuristic.wf()
        &&& self.heuristic.window_millis() >= 0
        &&& (forall|i: int|
            0 <= i < self.actions@.len() ==> (match #[trigger] self.actions@[i] {
                ControllerAction::PoolStats(p) => p.wf(),
                _ => true,
            }))
    }

    /// Builds the controller from the startup option string.  The parsed
    /// thresholds must leave room for the ring's extra slot and for the
    /// window in milliseconds.
    pub fn new(options: Option<&str>) -> (r: Result<AgentController, Error>)
        requires
            match options {
                None => true,
                Some(s) => (match spec_parse_agent_parameters(s@) {
                    Ok(v) => v.count_threshold < usize::MAX && 0 <= v.time_threshold
                        && 1000 * v.time_threshold <= i64::MAX,
                    Err(_) => true,
                }),
            },
        ensures
            match r {
                Ok(c) => c.wf() && c.log().len() == 0 && (match options {
                    None => c.action_views() == spec_controller_actions_for(
                        crate::parameters::spec_default_parameters(),
                    ) && c.heuristic().count_threshold() == 0 && c.heuristic().window_millis()
                        == 1000,
                    Some(s) => (match spec_parse_agent_parameters(s@) {
                        Ok(v) => c.action_views() == spec_controller_actions_for(v)
                            && c.heuristic().count_threshold() == v.count_threshold
                            && c.heuristic().window_millis() == 1000 * v.time_threshold,
                        Err(_) => false,
                    }),
                }),
                Err(e) => (match options {
                    None => false,
                    Some(s) => (match (spec_parse_agent_parameters(s@), e) {
                        (Err(m), Error::Parse(msg)) => msg@ == m,
                        _ => false,
                    }),
                }),
            },
    {
        let parms = match AgentParameters::parseParameters(options) {
            Ok(p) => p,
            Err(e) => {
                return Err(e);
            },
        };
        let heuristic = Threshold::new(parms.count_threshold, parms.time_threshold as i64);
        let mut actions: Vec<ControllerAction> = Vec::new();
        if parms.print_heap_histogram {
            actions.push(ControllerAction::HeapHistogram);
        }
        match &parms.heap_dump_path {
            Some(path) => {
                actions.push(ControllerAction::HeapDump { path: path.clone() });
            },
            None => {},
        }
        if parms.print_memory_usage {
            actions.push(ControllerAction::PoolStats(PoolStats::new()));
        }
        actions.push(ControllerAction::Kill { signal: SIGQUIT });
        actions.push(ControllerAction::Kill { signal: SIGKILL });
        let r = AgentController { heuristic, actions, log: String::new() };
        proof {
            assert(r.action_views() =~= spec_controller_actions_for(
                match options {
                    None => crate::parameters::spec_default_parameters(),
                    Some(s) => spec_parse_agent_parameters(s@)->Ok_0,
                },
            ));
        }
        Ok(r)
    }

    /// A controller assembled from parts, for driving the orchestration
    /// directly.
    pub fn test_new(heuristic: Threshold, actions: Vec<ControllerAction>, log: String) -> (r:
        AgentController)
        requires
            heuristic.wf(),
            heuristic.window_millis() >= 0,
            forall|i: int|
                0 <= i < actions@.len() ==> (match #[trigger] actions@[i] {
                    ControllerAction::PoolStats(p) => p.wf(),
                    _ => true,
                }),
        ensures
            r.wf(),
            r.heuristic() == heuristic,
            r.action_views() == actions@.map_values(|a: ControllerAction| a@),
            r.log() == log@,
    {
        AgentController { heuristic, actions, log }
    }

    /// The diagnostic log written so far.
    pub fn output(&self) -> (r: String)
        ensures
            r@ == self.log(),
    {
        self.log.clone()
    }

    /// Appends one action's failure to the log.
    fn log_error(&mut self, name: &str, e: &Error)
        ensures
            final(self).heuristic() == old(self).heuristic(),
            final(self).action_views() == old(self).action_views(),
            final(self).wf() == old(self).wf(),
            final(self).log() == old(self).log() + ("ERROR: "@ + name@ + " action failed: "@
                + spec_error_message(*e) + "\n"@),
    {
        let mut line = String::from_str("ERROR: ");
        line.append(name);
        line.append(" action failed: ");
        line.append(e.message().as_str());
        line.append("\n");
        self.log.append(line.as_str());
        proof {
            assert(self.log@ =~= old(self).log() + ("ERROR: "@ + name@ + " action failed: "@
                + spec_error_message(*e) + "\n"@));
        }
    }

    /// Runs one older action, appending either its effects to the output
    /// or its failure to the log.  The returned ghost pair names the
    /// contributed output segment and log segment.
    fn run_action(&mut self, which: usize, flags: i32, session: &ControllerSession, out: &mut Vec<
        OutputLine,
    >) -> (g: Ghost<(Seq<LineView>, Seq<char>)>)
        requires
            old(self).wf(),
            which < old(self).action_views().len(),
        ensures
            final(self).wf(),
            final(self).heuristic() == old(self).heuristic(),
            final(self).action_views() == old(self).action_views(),
            spec_controller_action_ok(
                old(self).action_views()[which as int],
                flags,
                *session,
                g@.0,
                g@.1,
            ),
            spec_lines(final(out)@) == spec_lines(old(out)@) + g@.0,
            final(self).log() == old(self).log() + g@.1,
    {
        let ghost pre_out = spec_lines(out@);
        proof {
            assert(old(self).action_views()[which as int] == self.actions@[which as int]@);
            assert(match self.actions@[which as int] {
                ControllerAction::PoolStats(p) => p.wf(),
                _ => true,
            });
        }
        match &self.actions[which] {
            ControllerAction::HeapHistogram => {
                out.push(OutputLine::Stdout(session.heap_stats.print()));
                proof {
                    assert(spec_lines(out@) =~= pre_out + seq![out@.last()@]);
                    assert(self.log@ =~= old(self).log() + Seq::<char>::empty());
                    assert(spec_controller_action_ok(
                        old(self).action_views()[which as int],
                        flags,
                        *session,
                        seq![out@.last()@],
                        Seq::<char>::empty(),
                    ));
                }
                Ghost((seq![out@.last()@], Seq::<char>::empty()))
            },
            ControllerAction::Kill { signal } => {
                let sig = *signal;
                out.push(
                    OutputLine::Stderr(String::from_str("\njvmkill killing current process\n")),
                );
                out.push(OutputLine::Signal { signal: sig, delay: false });
                proof {
                    assert(spec_lines(out@) =~= pre_out + seq![
                        out@[out@.len() - 2]@,
                        out@.last()@,
                    ]);
                    assert(self.log@ =~= old(self).log() + Seq::<char>::empty());
                    assert(spec_controller_action_ok(
                        old(self).action_views()[which as int],
                        flags,
                        *session,
                        seq![out@[out@.len() - 2]@, out@.last()@],
                        Seq::<char>::empty(),
                    ));
                }
                Ghost((seq![out@[out@.len() - 2]@, out@.last()@], Seq::<char>::empty()))
            },
            ControllerAction::PoolStats(_) => {
                let p = match &self.actions[which] {
                    ControllerAction::PoolStats(p) => p,
                    _ => {
                        proof {
                            assert(false);
                        }
                        return Ghost((Seq::<LineView>::empty(), Seq::<char>::empty()));
                    },
                };
                match p.on_oom(&session.factory, flags) {
                    Ok(report) => {
                        out.push(OutputLine::Stdout(report));
                        proof {
                            assert(spec_lines(out@) =~= pre_out + seq![out@.last()@]);
                            assert(self.log@ =~= old(self).log() + Seq::<char>::empty());
                        }
                        Ghost((seq![out@.last()@], Seq::<char>::empty()))
                    },
                    Err(e) => {
                        self.log_error("PoolStats", &e);
                        proof {
                            assert(spec_lines(out@) =~= pre_out + Seq::<LineView>::empty());
                            let m5 = "ERROR: "@ + "PoolStats"@ + " action failed: "@
                                + spec_error_message(e) + "\n"@;
                            let m7 = "ERROR: "@ + "PoolStats"@ + " action failed: "@ + "cannot "@
                                + "determine memory usage statistics"@
                                + " since the JVM is unable to create a thread"@ + "\n"@;
                            assert(spec_error_message(e) =~= "cannot "@
                                + "determine memory usage statistics"@
                                + " since the JVM is unable to create a thread"@);
                            assert(m5 =~= m7);
                            assert(spec_controller_action_ok(
                                old(self).action_views()[which as int],
                                flags,
                                *session,
                                Seq::<LineView>::empty(),
                                m5,
                            ));
                        }
                        Ghost(
                            (
                                Seq::<LineView>::empty(),
                                "ERROR: "@ + "PoolStats"@ + " action failed: "@
                                    + spec_error_message(e) + "\n"@,
                            ),
                        )
                    },
                }
            },
            ControllerAction::HeapDump { path } => {
                if crate::is_threads_exhausted(flags) {
                    let e = Error::ActionUnavailableOnThreadExhaustion(
                        String::from_str("generate a heap dump"),
                    );
                    self.log_error("HeapDump", &e);
                    proof {
                        assert(spec_lines(out@) =~= pre_out + Seq::<LineView>::empty());
                        let m5 = "ERROR: "@ + "HeapDump"@ + " action failed: "@
                            + spec_error_message(e) + "\n"@;
                        let m7 = "ERROR: "@ + "HeapDump"@ + " action failed: "@ + "cannot "@
                            + "generate a heap dump"@
                            + " since the JVM is unable to create a thread"@ + "\n"@;
                        assert(spec_error_message(e) =~= "cannot "@ + "generate a heap dump"@
                            + " since the JVM is unable to create a thread"@);
                        assert(m5 =~= m7);
                        assert(spec_controller_action_ok(
                            old(self).action_views()[which as int],
                            flags,
                            *session,
                            Seq::<LineView>::empty(),
                            m5,
                        ));
                    }
                    Ghost(
                        (
                            Seq::<LineView>::empty(),
                            "ERROR: "@ + "HeapDump"@ + " action failed: "@ + spec_error_message(e)
                                + "\n"@,
                        ),
                    )
                } else {
                    match format_now(path.as_str()) {
                        Some(resolved) => {
                            out.push(OutputLine::DumpRequest(resolved.clone()));
                            let announce = String::from_str("\nHeapdump written to \"");
                            let announce = announce.concat(resolved.as_str());
                            let announce = announce.concat("\"\n");
                            out.push(OutputLine::Stdout(announce));
                            proof {
                                assert(spec_lines(out@) =~= pre_out + spec_controller_dump_lines(
                                    resolved@,
                                ));
                                assert(self.log@ =~= old(self).log() + Seq::<char>::empty());
                            }
                            Ghost((spec_controller_dump_lines(resolved@), Seq::<char>::empty()))
                        },
                        None => {
                            let m = String::from_str("failed to resolve heap dump path ");
                            let e = Error::Parse(m.concat(path.as_str()));
                            self.log_error("HeapDump", &e);
                            proof {
                                assert(spec_lines(out@) =~= pre_out + Seq::<LineView>::empty());
                                let m5 = "ERROR: "@ + "HeapDump"@ + " action failed: "@
                                    + spec_error_message(e) + "\n"@;
                                let m7 = "ERROR: "@ + "HeapDump"@ + " action failed: "@
                                    + "failed to resolve heap dump path "@ + path@
                                    + ": parse error"@ + "\n"@;
                                assert(spec_error_message(e) =~= "failed to resolve heap dump path "@
                                    + path@ + ": parse error"@);
                                assert(m5 =~= m7);
                                assert(spec_controller_action_ok(
                                    old(self).action_views()[which as int],
                                    flags,
                                    *session,
                                    Seq::<LineView>::empty(),
                                    m5,
                                ));
                            }
                            Ghost(
                                (
                                    Seq::<LineView>::empty(),
                                    "ERROR: "@ + "HeapDump"@ + " action failed: "@
                                        + spec_error_message(e) + "\n"@,
                                ),
                            )
                        },
                    }
                }
            },
        }
    }

    /// The whole response to one notification: log the symptom, consult
    /// the heuristic, and on escalation run every action in order,
    /// logging failures; on a declined escalation with the out-of-memory
    /// bit set, log that the host is about to raise the error itself.
    /// Returns the requested effects, the heuristic's progress message first.
    pub fn on_oom(&mut self, flags: i32, session: &ControllerSession) -> (r: Vec<OutputLine>)
        requires
            old(self).wf(),
        ensures
            spec_on_oom_post(*old(self), *final(self), flags, *session, r@),
    {
        self.log.append("\nResource exhaustion event");
        self.log.append(resource_exhaustion_symptom(flags).as_str());
        self.log.append(".\n");
        let ghost log_base = self.log@;
        proof {
            assert(log_base =~= old(self).log() + ("\nResource exhaustion event"@ + spec_symptom(
                flags,
            ) + ".\n"@));
        }
        let (escalate, progress) = self.heuristic.on_oom();
        let ghost h1 = self.heuristic();
        let mut out: Vec<OutputLine> = Vec::new();
        let mut first = progress;
        first.append("\n");
        out.push(OutputLine::Stderr(first));
        let ghost first_view = out@[0]@;
        if escalate {
            let ghost mut outsegs: Seq<Seq<LineView>> = Seq::empty();
            let ghost mut logsegs: Seq<Seq<char>> = Seq::empty();
            let n = self.actions.len();
            let mut i: usize = 0;
            proof {
                assert(outsegs.flatten() =~= Seq::<LineView>::empty());
                assert(logsegs.flatten() =~= Seq::<char>::empty());
                assert(spec_lines(out@).subrange(1, out@.len() as int) =~= Seq::<
                    LineView,
                >::empty());
                assert(self.log@ =~= log_base + Seq::<char>::empty());
            }
            while i < n
                invariant
                    i <= n,
                    self.wf(),
                    n == self.action_views().len(),
                    self.action_views() == old(self).action_views(),
                    self.heuristic() == h1,
                    outsegs.len() == i,
                    logsegs.len() == i,
                    forall|j: int|
                        0 <= j < i ==> spec_controller_action_ok(
                            self.action_views()[j],
                            flags,
                            *session,
                            #[trigger] outsegs[j],
                            #[trigger] logsegs[j],
                        ),
                    out@.len() >= 1,
                    out@[0]@ == first_view,
                    spec_lines(out@).subrange(1, out@.len() as int) == outsegs.flatten(),
                    self.log@ == log_base + logsegs.flatten(),
                decreases n - i,
            {
                let ghost pre_lines = spec_lines(out@);
                let ghost pre_log = self.log@;
                let g = self.run_action(i, flags, session, &mut out);
                proof {
                    let seg = g@.0;
                    let logseg = g@.1;
                    let prev_out = outsegs;
                    let prev_log = logsegs;
                    outsegs = outsegs.push(seg);
                    logsegs = logsegs.push(logseg);
                    prev_out.lemma_flatten_push(seg);
                    prev_log.lemma_flatten_push(logseg);
                    assert(spec_lines(out@) == pre_lines + seg);
                    assert(out@.len() == pre_lines.len() + seg.len());
                    assert(spec_lines(out@).subrange(1, out@.len() as int) =~= pre_lines.subrange(
                        1,
                        pre_lines.len() as int,
                    ) + seg);
                    assert(log_base + prev_log.flatten() + logseg =~= log_base + (prev_log.flatten()
                        + logseg));
                    assert(spec_lines(out@)[0] == out@[0]@);
                    assert(spec_lines(out@)[0] == pre_lines[0]);
                    assert(pre_lines[0] == first_view);
                }
                i = i + 1;
            }
            proof {
                let s_out = outsegs;
                let s_log = logsegs;
                assert(s_out.len() == old(self).action_views().len() && s_log.len() == old(
                    self,
                ).action_views().len() && (forall|j: int|
                    0 <= j < s_out.len() ==> spec_controller_action_ok(
                        old(self).action_views()[j],
                        flags,
                        *session,
                        #[trigger] s_out[j],
                        #[trigger] s_log[j],
                    )) && spec_lines(out@).subrange(1, out@.len() as int) == s_out.flatten()
                    && final(self).log() == old(self).log() + ("\nResource exhaustion event"@
                    + spec_symptom(flags) + ".\n"@) + s_log.flatten());
            }
        } else if flags & RESOURCE_EXHAUSTED_OOM_ERROR == RESOURCE_EXHAUSTED_OOM_ERROR {
            self.log.append("\nThe JVM is about to throw a java.lang.OutOfMemoryError.\n");
            proof {
                assert(spec_lines(out@).len() == 1);
            }
        } else {
            proof {
                assert(spec_lines(out@).len() == 1);
                assert(self.log@ =~= log_base + Seq::<char>::empty());
            }
        }
        out
    }
}

/// The kill actions always stand last in the older action set, whatever
/// the configuration enables: the host's thread-dump signal, then the
/// unconditional kill.
pub proof fn lemma_controller_kill_always_last(p: ParametersView)
    ensures
        spec_controller_actions_for(p).len() >= 2,
        spec_controller_actions_for(p).last() == (ControllerActionView::Kill {
            signal: SIGKILL as int,
        }),
        spec_controller_actions_for(p)[spec_controller_actions_for(p).len() - 2]
            == (ControllerActionView::Kill { signal: SIGQUIT as int }),
{
    let a = spec_controller_actions_for(p);
    assert(a.last() == (ControllerActionView::Kill { signal: SIGKILL as int }));
    assert(a[a.len() - 2] == (ControllerActionView::Kill { signal: SIGQUIT as int }));
}

/// An escalated notification whose last action is a kill action ends,
/// whatever the earlier actions produced or logged, with that kill
/// signal as its very last requested effect.
pub proof fn lemma_controller_ends_in_kill(
    avs: Seq<ControllerActionView>,
    flags: i32,
    session: ControllerSession,
    outsegs: Seq<Seq<LineView>>,
    logsegs: Seq<Seq<char>>,
    signal: int,
)
    requires
        outsegs.len() == avs.len(),
        logsegs.len() == avs.len(),
        avs.len() >= 1,
        avs.last() == (ControllerActionView::Kill { signal }),
        forall|i: int|
            0 <= i < avs.len() ==> spec_controller_action_ok(
                avs[i],
                flags,
                session,
                #[trigger] outsegs[i],
                #[trigger] logsegs[i],
            ),
    ensures
        outsegs.flatten().len() >= 1,
        outsegs.flatten().last() == (LineView::Signal { signal, delay: false }),
{
    let last = outsegs.last();
    assert(spec_controller_action_ok(
        avs[avs.len() - 1],
        flags,
        session,
        outsegs[outsegs.len() - 1],
        logsegs[logsegs.len() - 1],
    ));
    outsegs.drop_last().lemma_flatten_push(last);
    assert(outsegs.drop_last().push(last) =~= outsegs);
    assert(outsegs.flatten() == outsegs.drop_last().flatten() + last);
    assert(outsegs.flatten().last() == last.last());
}

/// The process-wide slot the older flow keeps its controller in.
pub struct AgentContext {
    ac: Option<AgentController>,
}

impl AgentContext {
    /// The controller held, if any.
    pub closed spec fn controller(&self) -> Option<AgentController> {
        self.ac
    }

    /// An empty slot.
    pub fn new() -> (r: AgentContext)
        ensures
            r.controller() is None,
    {
        AgentContext { ac: None }
    }

    /// Puts a controller into the slot.
    pub fn set(&mut self, a: AgentController)
        ensures
            final(self).controller() == Some(a),
    {
        self.ac = Some(a);
    }

    /// Forwards a notification to the held controller, which handles it
    /// exactly as `AgentController::on_oom` guarantees; an empty slot
    /// requests nothing and stays empty.
    pub fn on_oom(&mut self, flags: i32, session: &ControllerSession) -> (r: Vec<OutputLine>)
        requires
            match old(self).controller() {
                Some(c) => c.wf(),
                None => true,
            },
        ensures
            old(self).controller() is None ==> final(self).controller() is None && r@.len() == 0,
            old(self).controller() is Some ==> final(self).controller() is Some
                && spec_on_oom_post(
                old(self).controller()->0,
                final(self).controller()->0,
                flags,
                *session,
                r@,
            ),
    {
        match &mut self.ac {
            Some(a) => a.on_oom(flags, session),
            None => Vec::new(),
        }
    }
}

} // verus!
