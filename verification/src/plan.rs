//! The orchestrator's side of a run: the ordered steps of a build action
//! over the selected cases, the listing lines of the enumerate action, and
//! the proof that a build plan restores the working directory it started
//! from. The runner that executes steps performs the filesystem and
//! subprocess work; the order and shape of the steps is decided here.

use vstd::prelude::*;
use crate::cases::{TestCase, CaseView, case_views};

verus! {

/// One step of a build run, to be executed strictly in sequence.
#[derive(Debug)]
pub enum BuildStep {
    /// Record the current working directory and change into the given path.
    Enter { path: String },
    /// Invoke the external build tool for the named case, inside the
    /// directory entered last.
    RunTool { name: String },
    /// Change back to the directory recorded by the matching `Enter`.
    Restore,
}

/// The mathematical value of a `BuildStep`.
#[verifier::ext_equal]
pub enum StepView {
    Enter { path: Seq<char> },
    RunTool { name: Seq<char> },
    Restore,
}

impl View for BuildStep {
    type V = StepView;

    open spec fn view(&self) -> StepView {
        match self {
            BuildStep::Enter { path } => StepView::Enter { path: path@ },
            BuildStep::RunTool { name } => StepView::RunTool { name: name@ },
            BuildStep::Restore => StepView::Restore,
        }
    }
}

/// The views of a sequence of steps.
pub open spec fn step_views(s: Seq<BuildStep>) -> Seq<StepView> {
    s.map_values(|x: BuildStep| x@)
}

/// The working-directory state of the process: the current directory and
/// the stack of directories recorded by `Enter` steps not yet restored.
#[verifier::ext_equal]
pub struct DirState {
    pub cwd: Seq<char>,
    pub saved: Seq<Seq<char>>,
}

/// The effect of one step on the working-directory state.
pub open spec fn step_effect(st: DirState, s: StepView) -> DirState {
    match s {
        StepView::Enter { path } => DirState { cwd: path, saved: st.saved.push(st.cwd) },
        StepView::RunTool { name } => st,
        StepView::Restore => if st.saved.len() > 0 {
            DirState { cwd: st.saved.last(), saved: st.saved.drop_last() }
        } else {
            st
        },
    }
}

/// The state after running a sequence of steps.
pub open spec fn run_steps(st: DirState, steps: Seq<StepView>) -> DirState
    decreases steps.len(),
{
    if steps.len() == 0 {
        st
    } else {
        run_steps(step_effect(st, steps[0]), steps.drop_first())
    }
}

/// The steps of one case: enter its directory, run the tool, change back.
pub open spec fn case_steps(c: CaseView) -> Seq<StepView> {
    seq![
        StepView::Enter { path: c.path },
        StepView::RunTool { name: c.name },
        StepView::Restore,
    ]
}

/// The build plan: each case's steps, strictly in the given order.
pub open spec fn plan_spec(cases: Seq<CaseView>) -> Seq<StepView>
    decreases cases.len(),
{
    if cases.len() == 0 {
        Seq::empty()
    } else {
        case_steps(cases[0]) + plan_spec(cases.drop_first())
    }
}

/// Running steps distributes over concatenation.
proof fn lemma_run_steps_add(st: DirState, a: Seq<StepView>, b: Seq<StepView>)
    ensures
        run_steps(st, a + b) == run_steps(run_steps(st, a), b),
    decreases a.len(),
{
    if a.len() == 0 {
        assert(a + b =~= b);
    } else {
        assert((a + b).drop_first() =~= a.drop_first() + b);
        assert((a + b)[0] == a[0]);
        lemma_run_steps_add(step_effect(st, a[0]), a.drop_first(), b);
    }
}

/// One case's steps leave the working-directory state unchanged.
proof fn lemma_case_steps_restore(st: DirState, c: CaseView)
    ensures
        run_steps(st, case_steps(c)) == st,
{
    let steps = case_steps(c);
    let t1 = steps.drop_first();
    let t2 = t1.drop_first();
    let t3 = t2.drop_first();
    assert(steps[0] == StepView::Enter { path: c.path });
    assert(t1[0] == StepView::RunTool { name: c.name });
    assert(t2[0] == StepView::Restore);
    assert(t3.len() == 0);
    let s1 = step_effect(st, steps[0]);
    let s2 = step_effect(s1, t1[0]);
    let s3 = step_effect(s2, t2[0]);
    assert(run_steps(st, steps) == run_steps(s1, t1));
    assert(run_steps(s1, t1) == run_steps(s2, t2));
    assert(run_steps(s2, t2) == run_steps(s3, t3));
    assert(run_steps(s3, t3) == s3);
    assert(s2 == s1);
    assert(s1.saved.len() > 0);
    assert(s1.saved.last() == st.cwd);
    assert(s1.saved.drop_last() =~= st.saved);
    assert(s3 =~= st);
}

/// Orchestrator isolation: a build plan restores the working-directory
/// state it started from — every entered directory is left again, whatever
/// the cases are.
pub proof fn lemma_plan_restores_dir(st: DirState, cases: Seq<CaseView>)
    ensures
        run_steps(st, plan_spec(cases)) == st,
    decreases cases.len(),
{
    if cases.len() > 0 {
        lemma_run_steps_add(st, case_steps(cases[0]), plan_spec(cases.drop_first()));
        lemma_case_steps_restore(st, cases[0]);
        lemma_plan_restores_dir(st, cases.drop_first());
    }
}

/// Appending a case appends its steps to the plan.
proof fn lemma_plan_snoc(s: Seq<CaseView>, c: CaseView)
    ensures
        plan_spec(s.push(c)) == plan_spec(s) + case_steps(c),
    decreases s.len(),
{
    if s.len() == 0 {
        assert(s.push(c)[0] == c);
        assert(s.push(c).drop_first() =~= Seq::<CaseView>::empty());
        assert(plan_spec(Seq::<CaseView>::empty()) =~= Seq::<StepView>::empty());
        assert(plan_spec(s.push(c)) =~= case_steps(c) + Seq::<StepView>::empty());
        assert(case_steps(c) + Seq::<StepView>::empty() =~= case_steps(c));
        assert(plan_spec(s) =~= Seq::<StepView>::empty());
        assert(plan_spec(s) + case_steps(c) =~= case_steps(c));
    } else {
        assert(s.push(c)[0] == s[0]);
        assert(s.push(c).drop_first() =~= s.drop_first().push(c));
        lemma_plan_snoc(s.drop_first(), c);
        assert(case_steps(s[0]) + (plan_spec(s.drop_first()) + case_steps(c)) =~= (case_steps(s[0])
            + plan_spec(s.drop_first())) + case_steps(c));
    }
}

/// Builds the plan for the selected cases: for each case in order, enter
/// its directory, run the build tool, restore the previous directory.
pub fn build_plan(cases: &Vec<TestCase>) -> (steps: Vec<BuildStep>)
    ensures
        step_views(steps@) == plan_spec(case_views(cases@)),
{
    let mut steps: Vec<BuildStep> = Vec::new();
    proof {
        assert(case_views(cases@).take(0) =~= Seq::<CaseView>::empty());
        assert(step_views(steps@) =~= plan_spec(case_views(cases@).take(0)));
    }
    let mut i: usize = 0;
    while i < cases.len()
        invariant
            i <= cases@.len(),
            step_views(steps@) == plan_spec(case_views(cases@).take(i as int)),
        decreases cases@.len() - i,
    {
        let ghost before: Seq<BuildStep> = steps@;
        let c = &cases[i];
        steps.push(BuildStep::Enter { path: c.path.clone() });
        steps.push(BuildStep::RunTool { name: c.name.clone() });
        steps.push(BuildStep::Restore);
        proof {
            let cv = case_views(cases@);
            assert(step_views(steps@) =~= step_views(before) + case_steps(cv[i as int]));
            assert(cv.take(i as int + 1) =~= cv.take(i as int).push(cv[i as int]));
            lemma_plan_snoc(cv.take(i as int), cv[i as int]);
        }
        i = i + 1;
    }
    proof {
        assert(case_views(cases@).take(cases@.len() as int) =~= case_views(cases@));
    }
    steps
}

/// The two lines the enumerate action prints for a case: the bracketed name
/// and the indented path.
pub open spec fn listing_ok(lines: Seq<Seq<char>>, cases: Seq<CaseView>) -> bool {
    lines.len() == 2 * cases.len() && forall|i: int|
        0 <= i < cases.len() ==> lines[2 * i] == "["@ + (#[trigger] cases[i]).name + "]"@
            && lines[2 * i + 1] == "  - path: "@ + cases[i].path
}

/// Renders the enumerate action's output: two lines per case, in order.
/// This never fails, whatever the cases hold.
pub fn render_listing(cases: &Vec<TestCase>) -> (lines: Vec<String>)
    ensures
        listing_ok(lines@.map_values(|s: String| s@), case_views(cases@)),
{
    let mut lines: Vec<String> = Vec::new();
    let mut i: usize = 0;
    while i < cases.len()
        invariant
            i <= cases@.len(),
            lines@.len() == 2 * i,
            forall|k: int|
                0 <= k < i ==> lines@.map_values(|s: String| s@)[2 * k] == "["@ + (
                #[trigger] case_views(cases@)[k]).name + "]"@ && lines@.map_values(|s: String| s@)[2
                * k + 1] == "  - path: "@ + case_views(cases@)[k].path,
        decreases cases@.len() - i,
    {
        let c = &cases[i];
        let mut l1 = String::from_str("[");
        l1.append(c.name.as_str());
        l1.append("]");
        let mut l2 = String::from_str("  - path: ");
        l2.append(c.path.as_str());
        proof {
            assert(l1@ =~= "["@ + c@.name + "]"@);
            assert(l2@ =~= "  - path: "@ + c@.path);
        }
        lines.push(l1);
        lines.push(l2);
        i = i + 1;
    }
    lines
}

} // verus!
