use vstd::prelude::*;
use crate::command::{command_views, failure_view, CommandView, DockerCommand, Stage};
use crate::config::Tuggy;
use crate::error::{TuggyError, TuggyErrorView};
use crate::inspect::{
    no_platforms_message, platforms_from_inspect_output, platforms_of_lines,
    BUILDX_AVAILABLE_PLATFORMS_PATTERN,
};
use crate::pattern::{regex_error_text, regex_is_valid, Pattern};
use crate::platform::{sort_of, views, PlatformView, PLATFORM_PATTERN};
use crate::text::lines;
use crate::command::string_views;

verus! {

// ---------------------------------------------------------------------------
// Events and actions
// ---------------------------------------------------------------------------

/// How a Docker command that the caller ran turned out.
#[derive(Debug)]
pub enum Outcome {
    /// It exited successfully; its standard output.
    Succeeded(String),
    /// It ran and exited unsuccessfully.
    Unsuccessful,
    /// It could not be run, or what it wrote could not be read; the error to
    /// report.
    Failed(TuggyError),
}

/// The mathematical value of an outcome.
pub enum OutcomeView {
    Succeeded(Seq<char>),
    Unsuccessful,
    Failed(TuggyErrorView),
}

impl View for Outcome {
    type V = OutcomeView;

    open spec fn view(&self) -> OutcomeView {
        match self {
            Outcome::Succeeded(out) => OutcomeView::Succeeded(out@),
            Outcome::Unsuccessful => OutcomeView::Unsuccessful,
            Outcome::Failed(e) => OutcomeView::Failed(e@),
        }
    }
}

/// What the caller does next.
#[derive(Debug)]
pub enum Action {
    /// Run this command and report its outcome.
    Run(DockerCommand),
    /// The operation is over, with this result.
    Finish(Result<(), TuggyError>),
}

/// The mathematical value of an action.
pub enum ActionView {
    Run(CommandView),
    Finish(Result<(), TuggyErrorView>),
}

impl View for Action {
    type V = ActionView;

    open spec fn view(&self) -> ActionView {
        match self {
            Action::Run(c) => ActionView::Run(c@),
            Action::Finish(Ok(())) => ActionView::Finish(Ok(())),
            Action::Finish(Err(e)) => ActionView::Finish(Err(e@)),
        }
    }
}

// ---------------------------------------------------------------------------
// Running commands one after the other
// ---------------------------------------------------------------------------

/// Commands run in order, stopping at the first that fails.
#[derive(Debug)]
pub struct Sequence {
    commands: Vec<DockerCommand>,
    next: usize,
    finished: bool,
}

/// The mathematical value of a sequence: its commands, the position of the
/// next one to hand out, and whether it is over.
pub struct SequenceView {
    pub commands: Seq<CommandView>,
    pub next: nat,
    pub finished: bool,
}

impl View for Sequence {
    type V = SequenceView;

    closed spec fn view(&self) -> SequenceView {
        SequenceView {
            commands: command_views(self.commands@),
            next: self.next as nat,
            finished: self.finished,
        }
    }
}

/// Starting the commands `cs`: the first one runs, or, with none, it is over
/// at once.
pub open spec fn sequence_start(cs: Seq<CommandView>) -> (SequenceView, ActionView) {
    if cs.len() == 0 {
        (SequenceView { commands: cs, next: 0, finished: true }, ActionView::Finish(Ok(())))
    } else {
        (SequenceView { commands: cs, next: 1, finished: false }, ActionView::Run(cs[0]))
    }
}

/// After the outcome `o` of the last command handed out: an error ends the
/// sequence with that error; an unsuccessful exit ends it with the failure of
/// that command's stage; a success hands out the next command, or ends the
/// sequence successfully after the last one.
pub open spec fn sequence_next(s: SequenceView, o: OutcomeView) -> (SequenceView, ActionView) {
    if s.finished {
        (s, ActionView::Finish(Ok(())))
    } else {
        match o {
            OutcomeView::Failed(e) => (
                SequenceView { finished: true, ..s },
                ActionView::Finish(Err(e)),
            ),
            OutcomeView::Unsuccessful => (
                SequenceView { finished: true, ..s },
                ActionView::Finish(Err(failure_view(s.commands[s.next - 1].stage))),
            ),
            OutcomeView::Succeeded(_) => if s.next < s.commands.len() {
                (SequenceView { next: s.next + 1, ..s }, ActionView::Run(s.commands[s.next as int]))
            } else {
                (SequenceView { finished: true, ..s }, ActionView::Finish(Ok(())))
            },
        }
    }
}

impl Sequence {
    #[verifier::type_invariant]
    spec fn in_range(self) -> bool {
        &&& self.next <= self.commands@.len()
        &&& !self.finished ==> self.next >= 1
    }

    /// Starts running `commands`.
    pub fn new(commands: Vec<DockerCommand>) -> (r: (Sequence, Action))
        ensures
            (r.0@, r.1@) == sequence_start(command_views(commands@)),
    {
        if commands.len() == 0 {
            (Sequence { commands, next: 0, finished: true }, Action::Finish(Ok(())))
        } else {
            let first = commands[0].duplicate();
            (Sequence { commands, next: 1, finished: false }, Action::Run(first))
        }
    }

    /// Takes the outcome of the command last handed out and says what to do next.
    pub fn step(&mut self, outcome: Outcome) -> (a: Action)
        requires
            !old(self)@.finished,
        ensures
            (final(self)@, a@) == sequence_next(old(self)@, outcome@),
    {
        proof {
            use_type_invariant(&*self);
        }
        match outcome {
            Outcome::Failed(e) => {
                self.finished = true;
                Action::Finish(Err(e))
            },
            Outcome::Unsuccessful => {
                self.finished = true;
                Action::Finish(Err(self.commands[self.next - 1].stage.failure()))
            },
            Outcome::Succeeded(_) => {
                if self.next < self.commands.len() {
                    let c = self.commands[self.next].duplicate();
                    self.next = self.next + 1;
                    Action::Run(c)
                } else {
                    self.finished = true;
                    Action::Finish(Ok(()))
                }
            },
        }
    }

    /// Whether the sequence is over.
    pub fn is_finished(&self) -> (b: bool)
        ensures
            b == self@.finished,
    {
        self.finished
    }
}

/// A failed command ends a sequence with its error: no later command runs.
pub proof fn lemma_sequence_stops_at_failure(s: SequenceView, e: TuggyErrorView)
    requires
        !s.finished,
    ensures
        sequence_next(s, OutcomeView::Failed(e)).0.finished,
        sequence_next(s, OutcomeView::Failed(e)).1 == ActionView::Finish(Err::<(), TuggyErrorView>(e)),
{
}

/// A sequence hands out its commands in order: after a success, the next
/// command handed out is the one after the last.
pub proof fn lemma_sequence_in_order(s: SequenceView, out: Seq<char>)
    requires
        !s.finished,
        s.next < s.commands.len(),
    ensures
        sequence_next(s, OutcomeView::Succeeded(out)).1 == ActionView::Run(s.commands[s.next as int]),
        sequence_next(s, OutcomeView::Succeeded(out)).0.next == s.next + 1,
{
}

/// A command that exits unsuccessfully ends a sequence with the failure of
/// the stage of the command last handed out.
pub proof fn lemma_sequence_reports_failed_exit(s: SequenceView)
    requires
        !s.finished,
        1 <= s.next <= s.commands.len(),
    ensures
        sequence_next(s, OutcomeView::Unsuccessful).0.finished,
        sequence_next(s, OutcomeView::Unsuccessful).1 == ActionView::Finish(
            Err::<(), TuggyErrorView>(failure_view(s.commands[s.next - 1].stage)),
        ),
{
}

/// Whatever command a sequence hands out, first or later, an unsuccessful
/// exit of that command ends the sequence with the failure of its stage.
pub proof fn lemma_sequence_failed_exit_is_stage_failure(
    cs: Seq<CommandView>,
    s: SequenceView,
    o: OutcomeView,
    c: CommandView,
)
    ensures
        sequence_start(cs).1 == ActionView::Run(c) ==> sequence_next(
            sequence_start(cs).0,
            OutcomeView::Unsuccessful,
        ).1 == ActionView::Finish(Err::<(), TuggyErrorView>(failure_view(c.stage))),
        sequence_next(s, o).1 == ActionView::Run(c) ==> sequence_next(
            sequence_next(s, o).0,
            OutcomeView::Unsuccessful,
        ).1 == ActionView::Finish(Err::<(), TuggyErrorView>(failure_view(c.stage))),
{
}

// ---------------------------------------------------------------------------
// A build
// ---------------------------------------------------------------------------

/// Where a build stands.
#[derive(Debug)]
pub enum Phase {
    /// Waiting for the builder to be provisioned.
    Provision,
    /// Waiting for the builder's platforms.
    Inspect,
    /// Running the planned commands.
    Execute(Sequence),
    /// The build is over.
    Over,
}

/// The mathematical value of a phase.
pub enum PhaseView {
    Provision,
    Inspect,
    Execute(SequenceView),
    Over,
}

impl View for Phase {
    type V = PhaseView;

    open spec fn view(&self) -> PhaseView {
        match self {
            Phase::Provision => PhaseView::Provision,
            Phase::Inspect => PhaseView::Inspect,
            Phase::Execute(s) => PhaseView::Execute(s@),
            Phase::Over => PhaseView::Over,
        }
    }
}

/// A build of one image: provision the builder, list its platforms, then
/// run the planned commands, stopping at the first failure.
#[derive(Debug)]
pub struct BuildRun {
    tag: String,
    inspect: Pattern,
    platform: Pattern,
    phase: Phase,
}

/// The mathematical value of a build: the image and the phase.
pub struct BuildRunView {
    pub tag: Seq<char>,
    pub phase: PhaseView,
}

impl View for BuildRun {
    type V = BuildRunView;

    closed spec fn view(&self) -> BuildRunView {
        BuildRunView { tag: self.tag@, phase: self.phase@ }
    }
}

/// The platforms that the `docker buildx inspect` output `out` lists, in
/// platform order, or the message of the error that reading it gives.
pub open spec fn inspected(out: Seq<char>) -> Result<Seq<PlatformView>, Seq<char>> {
    match platforms_of_lines(lines(out)) {
        Err(m) => Err(m),
        Ok(ps) => if ps.len() == 0 {
            Err(no_platforms_message())
        } else {
            Ok(sort_of(ps))
        },
    }
}

/// The phase after a sequence step.
pub open spec fn phase_of(s: SequenceView) -> PhaseView {
    if s.finished {
        PhaseView::Over
    } else {
        PhaseView::Execute(s)
    }
}

/// One step of a build of the image `tag` configured by `t`: from the phase
/// `p` and the outcome `o` of the command last handed out, the next phase,
/// what to do next, and the lines to log. A command that exits unsuccessfully
/// ends the build with the failure of its stage; once the platforms are
/// known, a skip pattern that does not compile ends it with the regex crate's
/// message.
pub open spec fn build_next(t: &Tuggy, tag: Seq<char>, p: PhaseView, o: OutcomeView) -> (
    PhaseView,
    ActionView,
    Seq<Seq<char>>,
) {
    match p {
        PhaseView::Provision => match o {
            OutcomeView::Failed(e) => (PhaseView::Over, ActionView::Finish(Err(e)), seq![]),
            OutcomeView::Unsuccessful => (
                PhaseView::Over,
                ActionView::Finish(Err(failure_view(Stage::CreateBuilder))),
                seq![],
            ),
            OutcomeView::Succeeded(_) => (PhaseView::Inspect, ActionView::Run(t.inspect_builder_view()), seq![]),
        },
        PhaseView::Inspect => match o {
            OutcomeView::Failed(e) => (PhaseView::Over, ActionView::Finish(Err(e)), seq![]),
            OutcomeView::Unsuccessful => (
                PhaseView::Over,
                ActionView::Finish(Err(failure_view(Stage::InspectBuilder))),
                seq![],
            ),
            OutcomeView::Succeeded(out) => match inspected(out) {
                Err(m) => (PhaseView::Over, ActionView::Finish(Err(TuggyErrorView::IOError(m))), seq![]),
                Ok(ps) => if !regex_is_valid(t.skip_source()) {
                    (
                        PhaseView::Over,
                        ActionView::Finish(Err(TuggyErrorView::RegexParseError(regex_error_text(t.skip_source())))),
                        seq![],
                    )
                } else {
                    let notes = if t.logs() {
                        t.selection_notes(ps)
                    } else {
                        seq![]
                    };
                    match t.build_result(tag, ps) {
                        Err(m) => (PhaseView::Over, ActionView::Finish(Err(TuggyErrorView::IOError(m))), notes),
                        Ok(plan) => (phase_of(sequence_start(plan).0), sequence_start(plan).1, notes),
                    }
                },
            },
        },
        PhaseView::Execute(s) => (phase_of(sequence_next(s, o).0), sequence_next(s, o).1, seq![]),
        PhaseView::Over => (PhaseView::Over, ActionView::Finish(Ok(())), seq![]),
    }
}

impl BuildRun {
    #[verifier::type_invariant]
    spec fn patterns(self) -> bool {
        &&& self.inspect@ == BUILDX_AVAILABLE_PLATFORMS_PATTERN@
        &&& self.platform@ == PLATFORM_PATTERN@
        &&& self.phase is Execute ==> !self.phase->Execute_0@.finished
    }

    /// The phase of the build.
    pub fn is_over(&self) -> (b: bool)
        ensures
            b == (self@.phase is Over),
    {
        match self.phase {
            Phase::Over => true,
            _ => false,
        }
    }

    /// Takes the outcome of the command last handed out and says what to do
    /// next, with the lines to log.
    pub fn step(&mut self, t: &Tuggy, outcome: Outcome) -> (r: (Action, Vec<String>))
        requires
            !(old(self)@.phase is Over),
        ensures
            final(self)@.tag == old(self)@.tag,
            (final(self)@.phase, r.0@, string_views(r.1@)) == build_next(
                t,
                old(self)@.tag,
                old(self)@.phase,
                outcome@,
            ),
    {
        proof {
            use_type_invariant(&*self);
        }
        let mut phase = Phase::Over;
        std::mem::swap(&mut phase, &mut self.phase);
        let ghost old_phase = phase@;
        let mut notes: Vec<String> = Vec::new();
        assert(string_views(notes@) =~= seq![]);
        let (next, action) = match phase {
            Phase::Provision => match outcome {
                Outcome::Failed(e) => (Phase::Over, Action::Finish(Err(e))),
                Outcome::Unsuccessful => (Phase::Over, Action::Finish(Err(Stage::CreateBuilder.failure()))),
                Outcome::Succeeded(_) => (Phase::Inspect, Action::Run(t.inspect_builder_command())),
            },
            Phase::Inspect => match outcome {
                Outcome::Failed(e) => (Phase::Over, Action::Finish(Err(e))),
                Outcome::Unsuccessful => (Phase::Over, Action::Finish(Err(Stage::InspectBuilder.failure()))),
                Outcome::Succeeded(out) => {
                    let _ = self.inspect.as_str();
                    let _ = self.platform.as_str();
                    match platforms_from_inspect_output(out.as_str()) {
                        Err(e) => (Phase::Over, Action::Finish(Err(e))),
                        Ok(ps) => {
                            proof {
                                let all = platforms_of_lines(lines(out@))->Ok_0;
                                crate::platform::lemma_sort_of(all, views(ps@));
                            }
                            match t.compiled_skip_pattern() {
                                Err(e) => (Phase::Over, Action::Finish(Err(e))),
                                Ok(skip) => {
                                    if t.debug_enabled() {
                                        notes = t.selection_notes_of(&ps, &skip);
                                    }
                                    match t.build(self.tag.as_str(), &ps, &skip) {
                                        Err(e) => (Phase::Over, Action::Finish(Err(e))),
                                        Ok(plan) => {
                                            let (sq, a) = Sequence::new(plan);
                                            if sq.is_finished() {
                                                (Phase::Over, a)
                                            } else {
                                                (Phase::Execute(sq), a)
                                            }
                                        },
                                    }
                                },
                            }
                        },
                    }
                },
            },
            Phase::Execute(sq) => {
                let mut sq = sq;
                let a = sq.step(outcome);
                if sq.is_finished() {
                    (Phase::Over, a)
                } else {
                    (Phase::Execute(sq), a)
                }
            },
            Phase::Over => (Phase::Over, Action::Finish(Ok(()))),
        };
        self.phase = next;
        (action, notes)
    }
}

impl Tuggy {
    /// Starts a build of the image `tag`: compiles the two patterns that read
    /// the builder's platforms, then provisions the builder. Fails with the
    /// regex crate's error when one of those patterns does not compile. (The
    /// skip pattern is compiled once the platforms are known.)
    pub fn start_build(&self, tag: &str) -> (r: Result<(BuildRun, Action), regex::Error>)
        ensures
            r is Ok <==> (regex_is_valid(BUILDX_AVAILABLE_PLATFORMS_PATTERN@) && regex_is_valid(
                PLATFORM_PATTERN@,
            )),
            r is Ok ==> r->Ok_0.0@ == (BuildRunView { tag: tag@, phase: PhaseView::Provision }),
            r is Ok ==> r->Ok_0.1@ == ActionView::Run(self.create_builder_view()),
    {
        let inspect = match Pattern::new(String::from_str(BUILDX_AVAILABLE_PLATFORMS_PATTERN)) {
            Ok(p) => p,
            Err(e) => {
                return Err(e);
            },
        };
        let platform = match Pattern::new(String::from_str(PLATFORM_PATTERN)) {
            Ok(p) => p,
            Err(e) => {
                return Err(e);
            },
        };
        let run = BuildRun { tag: String::from_str(tag), inspect, platform, phase: Phase::Provision };
        Ok((run, Action::Run(self.ensure_buildx_builder_command())))
    }
}

/// A failed command ends a build with its error, whatever the phase: after a
/// failed provisioning or platform query no build command runs, and after a
/// failed build command no later batch runs.
pub proof fn lemma_build_stops_at_failure(t: &Tuggy, tag: Seq<char>, p: PhaseView, e: TuggyErrorView)
    requires
        !(p is Over),
        p is Execute ==> !p->Execute_0.finished,
    ensures
        build_next(t, tag, p, OutcomeView::Failed(e)).0 == PhaseView::Over,
        build_next(t, tag, p, OutcomeView::Failed(e)).1 == ActionView::Finish(Err::<(), TuggyErrorView>(e)),
{
}

/// Whatever command a build hands out (the provisioning that starts it, the
/// platform query, or a planned command), an unsuccessful exit of that command
/// ends the build with the failure of its stage.
pub proof fn lemma_build_failed_exit_is_stage_failure(
    t: &Tuggy,
    tag: Seq<char>,
    p: PhaseView,
    o: OutcomeView,
    c: CommandView,
)
    ensures
        build_next(t, tag, PhaseView::Provision, OutcomeView::Unsuccessful).0 == PhaseView::Over,
        build_next(t, tag, PhaseView::Provision, OutcomeView::Unsuccessful).1 == ActionView::Finish(
            Err::<(), TuggyErrorView>(failure_view(t.create_builder_view().stage)),
        ),
        build_next(t, tag, p, o).1 == ActionView::Run(c) ==> build_next(
            t,
            tag,
            build_next(t, tag, p, o).0,
            OutcomeView::Unsuccessful,
        ).0 == PhaseView::Over,
        build_next(t, tag, p, o).1 == ActionView::Run(c) ==> build_next(
            t,
            tag,
            build_next(t, tag, p, o).0,
            OutcomeView::Unsuccessful,
        ).1 == ActionView::Finish(Err::<(), TuggyErrorView>(failure_view(c.stage))),
{
}

/// A skip pattern that does not compile ends the build once the builder's
/// platforms are known, with the regex crate's message as a
/// `RegexParseError`: no build command runs.
pub proof fn lemma_invalid_skip_pattern_ends_build(t: &Tuggy, tag: Seq<char>, out: Seq<char>)
    requires
        !regex_is_valid(t.skip_source()),
        inspected(out) is Ok,
    ensures
        build_next(t, tag, PhaseView::Inspect, OutcomeView::Succeeded(out)).0 == PhaseView::Over,
        build_next(t, tag, PhaseView::Inspect, OutcomeView::Succeeded(out)).1 == ActionView::Finish(
            Err::<(), TuggyErrorView>(TuggyErrorView::RegexParseError(regex_error_text(t.skip_source()))),
        ),
{
}

/// Once the builder's platforms are read, the command handed out and every
/// command left to run build or tag the image that the run was started for,
/// whatever the configuration's own `tag` field holds.
pub proof fn lemma_build_uses_run_tag(t: &Tuggy, tag: Seq<char>, out: Seq<char>)
    ensures
        build_next(t, tag, PhaseView::Inspect, OutcomeView::Succeeded(out)).1 is Run ==> t.builds_image(
            build_next(t, tag, PhaseView::Inspect, OutcomeView::Succeeded(out)).1->Run_0,
            tag,
        ),
        build_next(t, tag, PhaseView::Inspect, OutcomeView::Succeeded(out)).0 is Execute ==> forall|k: int|
            0 <= k < build_next(t, tag, PhaseView::Inspect, OutcomeView::Succeeded(out)).0->Execute_0.commands.len()
                ==> t.builds_image(
                #[trigger] build_next(t, tag, PhaseView::Inspect, OutcomeView::Succeeded(out)).0->Execute_0.commands[k],
                tag,
            ),
{
    match inspected(out) {
        Ok(ps) => {
            t.lemma_plan_builds_image(tag, ps);
        },
        Err(_) => {},
    }
}

/// While a build runs its plan, the plan stays as it is, and every command
/// handed out is one of it.
pub proof fn lemma_execute_keeps_plan(t: &Tuggy, tag: Seq<char>, s: SequenceView, o: OutcomeView)
    requires
        !s.finished,
    ensures
        build_next(t, tag, PhaseView::Execute(s), o).0 is Execute ==> build_next(
            t,
            tag,
            PhaseView::Execute(s),
            o,
        ).0->Execute_0.commands == s.commands,
        build_next(t, tag, PhaseView::Execute(s), o).1 is Run ==> exists|k: int|
            0 <= k < s.commands.len() && #[trigger] s.commands[k] == build_next(
                t,
                tag,
                PhaseView::Execute(s),
                o,
            ).1->Run_0,
{
    if build_next(t, tag, PhaseView::Execute(s), o).1 is Run {
        assert(s.commands[s.next as int] == build_next(t, tag, PhaseView::Execute(s), o).1->Run_0);
    }
}

/// An ended build stays ended and runs nothing more.
pub proof fn lemma_build_over_is_final(t: &Tuggy, tag: Seq<char>, o: OutcomeView)
    ensures
        build_next(t, tag, PhaseView::Over, o).0 == PhaseView::Over,
        build_next(t, tag, PhaseView::Over, o).1 is Finish,
{
}

} // verus!
