//! The ordered action pipeline of the newer flow.
//!
//! Built once from the configuration: the optional histogram, the
//! optional memory report, the thread dump, the optional heap dump, and
//! always the kill action last.  Every action runs in order whatever
//! happened before it; a failed action contributes its error line and the
//! pipeline goes on, so the kill action always runs.

use vstd::prelude::*;

use crate::action::heap_dump::HeapDump;
use crate::action::heap_dump::spec_heap_dump_lines;
use crate::action::heap_histogram::HeapHistogram;
use crate::action::heap_histogram::spec_format_rows;
use crate::action::heap_histogram::spec_histogram_lines;
use crate::action::kill::Kill;
use crate::action::kill::spec_kill_lines;
use crate::action::memory_pools::MemoryPools;
use crate::action::memory_pools::spec_memory_pools_lines;
use crate::action::thread_dump::ThreadDump;
use crate::action::thread_dump::spec_thread_dump_lines;
use crate::clock::strftime_ok;
use crate::err::Error;
use crate::heap::contents::Contents;
use crate::heap::stats::spec_keep;
use crate::heap::types::Types;
use crate::jmx::ManagementFactory;
use crate::jmx::MemoryPoolMXBean;
use crate::output::LineView;
use crate::output::OutputLine;
use crate::output::spec_lines;
use crate::parameters::Parameters;
use crate::parameters::ParametersView;

verus! {

/// One diagnostic action of the pipeline.
pub enum Action {
    HeapHistogram(HeapHistogram),
    MemoryPools(MemoryPools),
    ThreadDump(ThreadDump),
    HeapDump(HeapDump),
    Kill(Kill),
}

/// The mathematical shape of one action.
pub enum ActionView {
    HeapHistogram { max_entries: int },
    MemoryPools,
    ThreadDump { signal: int, delay: bool },
    HeapDump { path: Seq<char> },
    Kill { signal: int, delay: bool },
}

impl View for Action {
    type V = ActionView;

    open spec fn view(&self) -> ActionView {
        match self {
            Action::HeapHistogram(a) => ActionView::HeapHistogram {
                max_entries: a.max_entries as int,
            },
            Action::MemoryPools(_) => ActionView::MemoryPools,
            Action::ThreadDump(a) => ActionView::ThreadDump {
                signal: a.signal.signal as int,
                delay: a.signal.delay,
            },
            Action::HeapDump(a) => ActionView::HeapDump { path: a.path@ },
            Action::Kill(a) => ActionView::Kill {
                signal: a.signal.signal as int,
                delay: a.signal.delay,
            },
        }
    }
}

/// The views of a list of actions.
pub open spec fn spec_action_views(v: Seq<Action>) -> Seq<ActionView> {
    v.map_values(|a: Action| a@)
}

/// The pipeline a configuration asks for, in order.
pub open spec fn spec_actions_for(p: ParametersView) -> Seq<ActionView> {
    (if p.print_heap_histogram {
        seq![ActionView::HeapHistogram { max_entries: p.heap_histogram_max_entries }]
    } else {
        Seq::<ActionView>::empty()
    }) + (if p.print_memory_usage {
        seq![ActionView::MemoryPools]
    } else {
        Seq::<ActionView>::empty()
    }) + seq![
        ActionView::ThreadDump { signal: crate::output::SIGQUIT as int, delay: true },
    ] + (match p.heap_dump_path {
        Some(path) => seq![ActionView::HeapDump { path }],
        None => Seq::<ActionView>::empty(),
    }) + seq![ActionView::Kill { signal: crate::output::SIGKILL as int, delay: false }]
}

/// What the binding layer gathered from the host for one escalation.
pub struct Session {
    pub factory: ManagementFactory,
    pub types: Types,
    pub contents: Contents,
}

/// What one action contributes to the pipeline's output.  Every case is
/// pinned except a successful heap dump, whose resolved path depends on
/// the clock; there the three lines are pinned relative to the request's
/// path.
pub open spec fn spec_action_ok(
    a: ActionView,
    flags: i32,
    session: Session,
    out: Seq<LineView>,
) -> bool {
    match a {
        ActionView::HeapHistogram { max_entries } => {
            let kept = session.contents.ordered().subrange(
                0,
                spec_keep(session.contents.ordered().len() as int, max_entries),
            );
            match spec_format_rows(session.types.sigs(), kept) {
                Ok(fr) => out == spec_histogram_lines(fr),
                Err(m) => out == seq![
                    LineView::Stderr("ERROR: HeapHistogram failed: "@ + m + "\n"@),
                ],
            }
        },
        ActionView::MemoryPools => {
            if crate::spec_threads_exhausted(flags) {
                out == seq![
                    LineView::Stderr(
                        "cannot dump memory pools since the JVM is unable to create a thread\n"@,
                    ),
                ]
            } else {
                out == spec_memory_pools_lines(
                    session.factory.memory.heap,
                    session.factory.memory.non_heap,
                    session.factory.pools@.map_values(|p: MemoryPoolMXBean| p@),
                )
            }
        },
        ActionView::ThreadDump { signal, delay } => out == spec_thread_dump_lines(signal, delay),
        ActionView::HeapDump { path } => {
            if crate::spec_threads_exhausted(flags) {
                out == seq![
                    LineView::Stderr(
                        "cannot create heap dump since the JVM is unable to create a thread\n"@,
                    ),
                ]
            } else if !strftime_ok(path) {
                out == seq![
                    LineView::Stderr(
                        "ERROR: HeapDump failed: "@ + "failed to resolve heap dump path "@ + path
                            + ": parse error"@ + "\n"@,
                    ),
                ]
            } else {
                out.len() == 3 && (match out[1] {
                    LineView::DumpRequest(p) => out == spec_heap_dump_lines(p),
                    _ => false,
                })
            }
        },
        ActionView::Kill { signal, delay } => out == spec_kill_lines(signal, delay),
    }
}

/// The pipeline: the ordered, immutable action list.
pub struct Actions {
    pub actions: Vec<Action>,
}

impl Actions {
    /// Assembles the pipeline the configuration asks for.
    pub fn new(parameters: &Parameters) -> (r: Actions)
        ensures
            spec_action_views(r.actions@) == spec_actions_for(parameters@),
    {
        let mut actions: Vec<Action> = Vec::new();
        if parameters.print_heap_histogram {
            actions.push(
                Action::HeapHistogram(HeapHistogram::new(parameters.heap_histogram_max_entries)),
            );
        }
        if parameters.print_memory_usage {
            actions.push(Action::MemoryPools(MemoryPools::new()));
        }
        actions.push(Action::ThreadDump(ThreadDump::new()));
        match &parameters.heap_dump_path {
            Some(p) => {
                actions.push(Action::HeapDump(HeapDump::new(p.clone())));
            },
            None => {},
        }
        actions.push(Action::Kill(Kill::new()));
        proof {
            assert(spec_action_views(actions@) =~= spec_actions_for(parameters@));
        }
        Actions { actions }
    }

    /// Runs one action against the session.
    fn run_action(a: &Action, flags: i32, session: &Session) -> (seg: Vec<OutputLine>)
        ensures
            spec_action_ok(a@, flags, *session, spec_lines(seg@)),
    {
        match a {
            Action::HeapHistogram(h) => {
                match h.execute(&session.types, &session.contents) {
                    Ok(lines) => lines,
                    Err(e) => {
                        let mut m = String::from_str("ERROR: HeapHistogram failed: ");
                        m.append(e.message().as_str());
                        m.append("\n");
                        let mut seg: Vec<OutputLine> = Vec::new();
                        seg.push(OutputLine::Stderr(m));
                        proof {
                            assert(spec_lines(seg@) =~= seq![seg@[0]@]);
                        }
                        seg
                    },
                }
            },
            Action::MemoryPools(p) => {
                match p.execute(flags, &session.factory) {
                    Ok(lines) => lines,
                    Err(e) => {
                        let mut m = e.message();
                        m.append("\n");
                        proof {
                            reveal_strlit("cannot ");
                            reveal_strlit("dump memory pools");
                            reveal_strlit(" since the JVM is unable to create a thread");
                            reveal_strlit("\n");
                            reveal_strlit(
                                "cannot dump memory pools since the JVM is unable to create a thread\n",
                            );
                            assert(m@
                                =~= "cannot dump memory pools since the JVM is unable to create a thread\n"@);
                        }
                        let mut seg: Vec<OutputLine> = Vec::new();
                        seg.push(OutputLine::Stderr(m));
                        proof {
                            assert(spec_lines(seg@) =~= seq![seg@[0]@]);
                        }
                        seg
                    },
                }
            },
            Action::ThreadDump(t) => t.execute(),
            Action::HeapDump(h) => {
                match h.execute(flags) {
                    Ok(lines) => lines,
                    Err(e) => {
                        let line = match &e {
                            Error::ActionUnavailableOnThreadExhaustion(_) => {
                                let mut m = e.message();
                                m.append("\n");
                                proof {
                                    reveal_strlit("cannot ");
                                    reveal_strlit("create heap dump");
                                    reveal_strlit(" since the JVM is unable to create a thread");
                                    reveal_strlit("\n");
                                    reveal_strlit(
                                        "cannot create heap dump since the JVM is unable to create a thread\n",
                                    );
                                    assert(m@
                                        =~= "cannot create heap dump since the JVM is unable to create a thread\n"@);
                                }
                                m
                            },
                            _ => {
                                let mut m = String::from_str("ERROR: HeapDump failed: ");
                                m.append(e.message().as_str());
                                m.append("\n");
                                proof {
                                    assert(m@ =~= "ERROR: HeapDump failed: "@
                                        + "failed to resolve heap dump path "@ + (match a@ {
                                        ActionView::HeapDump { path } => path,
                                        _ => Seq::<char>::empty(),
                                    }) + ": parse error"@ + "\n"@);
                                }
                                m
                            },
                        };
                        let mut seg: Vec<OutputLine> = Vec::new();
                        seg.push(OutputLine::Stderr(line));
                        proof {
                            assert(spec_lines(seg@) =~= seq![seg@[0]@]);
                        }
                        seg
                    },
                }
            },
            Action::Kill(k) => k.execute(),
        }
    }

    /// Runs every action in order against one session and hands back the
    /// requested effects: each action's contribution in turn, the kill
    /// action's last.
    pub fn execute(&self, flags: i32, session: &Session) -> (r: Vec<OutputLine>)
        ensures
            exists|segs: Seq<Seq<LineView>>|
                {
                    &&& segs.len() == self.actions@.len()
                    &&& (forall|i: int|
                        0 <= i < segs.len() ==> spec_action_ok(
                            self.actions@[i]@,
                            flags,
                            *session,
                            #[trigger] segs[i],
                        ))
                    &&& spec_lines(r@) == segs.flatten()
                },
    {
        let mut lines: Vec<OutputLine> = Vec::new();
        let ghost mut segs: Seq<Seq<LineView>> = Seq::empty();
        let n = self.actions.len();
        let mut i: usize = 0;
        proof {
            assert(segs.flatten() =~= Seq::<LineView>::empty());
            assert(spec_lines(lines@) =~= Seq::<LineView>::empty());
        }
        while i < n
            invariant
                i <= n,
                n == self.actions@.len(),
                segs.len() == i,
                forall|j: int|
                    0 <= j < i ==> spec_action_ok(
                        self.actions@[j]@,
                        flags,
                        *session,
                        #[trigger] segs[j],
                    ),
                spec_lines(lines@) == segs.flatten(),
            decreases n - i,
        {
            let mut seg = Self::run_action(&self.actions[i], flags, session);
            proof {
                let prev = segs;
                segs = segs.push(spec_lines(seg@));
                prev.lemma_flatten_push(spec_lines(seg@));
                assert(spec_lines(lines@ + seg@) =~= spec_lines(lines@) + spec_lines(seg@));
            }
            lines.append(&mut seg);
            i = i + 1;
        }
        proof {
            let s = segs;
            assert(s.len() == self.actions@.len() && (forall|j: int|
                0 <= j < s.len() ==> spec_action_ok(
                    self.actions@[j]@,
                    flags,
                    *session,
                    #[trigger] s[j],
                )) && spec_lines(lines@) == s.flatten());
        }
        lines
    }
}

/// The kill action always stands last in the pipeline, whatever the
/// configuration enables.
pub proof fn lemma_kill_always_last(p: ParametersView)
    ensures
        spec_actions_for(p).len() >= 2,
        spec_actions_for(p).last() == (ActionView::Kill {
            signal: crate::output::SIGKILL as int,
            delay: false,
        }),
{
    let a = spec_actions_for(p);
    assert(a.last() == (ActionView::Kill { signal: crate::output::SIGKILL as int, delay: false }));
}

/// While the host cannot create threads, a memory-dependent action
/// contributes exactly its refusal on standard error: no dump request and
/// no host data reach its output.
pub proof fn lemma_memory_actions_refuse(
    a: ActionView,
    flags: i32,
    session: Session,
    out: Seq<LineView>,
)
    requires
        crate::spec_threads_exhausted(flags),
        a is MemoryPools || a is HeapDump,
        spec_action_ok(a, flags, session, out),
    ensures
        out.len() == 1,
        out[0] is Stderr,
        forall|i: int| 0 <= i < out.len() ==> !(#[trigger] out[i] is DumpRequest),
{
}

/// A pipeline whose last action is the kill action ends, whatever the
/// earlier actions produced, with the kill signal as its very last
/// requested effect.
pub proof fn lemma_pipeline_ends_in_kill(
    avs: Seq<ActionView>,
    flags: i32,
    session: Session,
    segs: Seq<Seq<LineView>>,
)
    requires
        segs.len() == avs.len(),
        avs.len() >= 1,
        avs.last() == (ActionView::Kill { signal: crate::output::SIGKILL as int, delay: false }),
        forall|i: int|
            0 <= i < segs.len() ==> spec_action_ok(avs[i], flags, session, #[trigger] segs[i]),
    ensures
        segs.flatten().len() >= 1,
        segs.flatten().last() == (LineView::Signal {
            signal: crate::output::SIGKILL as int,
            delay: false,
        }),
{
    let last = segs.last();
    assert(spec_action_ok(avs[segs.len() - 1], flags, session, segs[segs.len() - 1]));
    assert(last == spec_kill_lines(crate::output::SIGKILL as int, false));
    segs.drop_last().lemma_flatten_push(last);
    assert(segs.drop_last().push(last) =~= segs);
    assert(segs.flatten() == segs.drop_last().flatten() + last);
    assert(segs.flatten().last() == last.last());
}

} // verus!
