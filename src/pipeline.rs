use vstd::prelude::*;

use crate::compilers::{
    copy_texts, pipeline_of, stage_result, stage_views, texts, Outcome, Stage, StageView,
};
use crate::lang::Lang;
use crate::path::with_extension;

verus! {

/// Where a compilation stands.
pub enum Status {
    /// Stages remain; the files written so far are given, in order.
    Running(Seq<Seq<char>>),
    /// Every stage succeeded; every file written is given, in order.
    Finished(Seq<Seq<char>>),
    /// A stage failed; its message is given, and no later stage runs. Files
    /// written by earlier stages are neither listed nor removed.
    Failed(Seq<char>),
}

/// Where a compilation of `stages` stands once the programs of its stages
/// ended with `outcomes`, one per stage run, in order. Outcomes reported after
/// the compilation has finished or failed change nothing.
pub open spec fn status(stages: Seq<StageView>, outcomes: Seq<Outcome>) -> Status
    decreases outcomes.len(),
{
    if outcomes.len() == 0 {
        if stages.len() == 0 {
            Status::Finished(Seq::empty())
        } else {
            Status::Running(Seq::empty())
        }
    } else {
        match status(stages, outcomes.drop_last()) {
            Status::Running(made) => match stage_result(stages[made.len() as int], outcomes.last()) {
                Ok(out) => if made.len() + 1 == stages.len() {
                    Status::Finished(made.push(out))
                } else {
                    Status::Running(made.push(out))
                },
                Err(m) => Status::Failed(m),
            },
            done => done,
        }
    }
}

/// What the caller is to do next.
#[derive(Debug, PartialEq, Eq)]
pub enum Action {
    /// Run this stage's program and report how it ended.
    Run(Stage),
    /// Done: these files were written, intermediate ones first, the
    /// executable last.
    Finished(Vec<String>),
    /// Done: a stage failed with this message. Files that earlier stages
    /// wrote stay where they are, and are not listed.
    Failed(String),
}

/// One compilation in progress: its stages, the files they have written,
/// and the failure that ended it, if one did. The caller runs each stage it
/// is handed and reports how it ended.
pub struct Compilation {
    stages: Vec<Stage>,
    made: Vec<String>,
    failure: Option<String>,
    reported: Ghost<Seq<Outcome>>,
}

impl Compilation {
    /// The stages to run, in order.
    pub closed spec fn stages(&self) -> Seq<StageView> {
        stage_views(self.stages@)
    }

    /// The outcomes reported so far, in order.
    pub closed spec fn reported(&self) -> Seq<Outcome> {
        self.reported@
    }

    /// Where the compilation stands.
    pub open spec fn status(&self) -> Status {
        status(self.stages(), self.reported())
    }

    /// The files and failure held agree with the outcomes reported.
    pub closed spec fn wf(&self) -> bool {
        &&& self.made@.len() <= self.stages@.len()
        &&& status(self.stages(), self.reported@) == match self.failure {
            Some(m) => Status::Failed(m@),
            None => if self.made@.len() == self.stages@.len() {
                Status::Finished(texts(self.made@))
            } else {
                Status::Running(texts(self.made@))
            },
        }
    }

    /// A compilation that will run `stages` in order.
    pub fn new(stages: Vec<Stage>) -> (r: Compilation)
        ensures
            r.wf(),
            r.stages() == stage_views(stages@),
            r.reported() == Seq::<Outcome>::empty(),
    {
        let r = Compilation {
            stages,
            made: Vec::new(),
            failure: None,
            reported: Ghost(Seq::empty()),
        };
        assert(texts(r.made@) =~= Seq::empty());
        r
    }

    /// What to do next: run the first stage not yet run, or report the files
    /// written or the failure.
    pub fn next_action(&self) -> (a: Action)
        requires
            self.wf(),
        ensures
            match self.status() {
                Status::Running(made) => a is Run && made.len() < self.stages().len()
                    && a->Run_0@ == self.stages()[made.len() as int],
                Status::Finished(files) => a is Finished && texts(a->Finished_0@) == files,
                Status::Failed(m) => a is Failed && a->Failed_0@ == m,
            },
    {
        match &self.failure {
            Some(m) => Action::Failed(m.clone()),
            None => {
                if self.made.len() == self.stages.len() {
                    Action::Finished(copy_texts(&self.made))
                } else {
                    Action::Run(self.stages[self.made.len()].duplicate())
                }
            },
        }
    }

    /// Records how the program of the stage last handed out ended.
    pub fn report(&mut self, outcome: Outcome)
        requires
            old(self).wf(),
        ensures
            final(self).wf(),
            final(self).stages() == old(self).stages(),
            final(self).reported() == old(self).reported().push(outcome),
    {
        let ghost before = self.reported@;
        let ghost made_before = self.made@;
        if self.failure.is_none() && self.made.len() < self.stages.len() {
            let k = self.made.len();
            match self.stages[k].result(&outcome) {
                Ok(f) => {
                    self.made.push(f);
                    assert(texts(self.made@) =~= texts(made_before).push(f@));
                },
                Err(m) => {
                    self.failure = Some(m);
                },
            }
        }
        self.reported = Ghost(before.push(outcome));
        assert(before.push(outcome).drop_last() =~= before);
    }
}

impl Lang {
    /// A compilation of `infile` into the executable `outfile` in this
    /// language, with no stage run yet.
    pub fn compile(&self, infile: &str, outfile: &str) -> (r: Compilation)
        ensures
            r.wf(),
            r.stages() == pipeline_of(*self, infile@, outfile@),
            r.reported() == Seq::<Outcome>::empty(),
    {
        Compilation::new(self.pipeline(infile, outfile))
    }
}


/// Outcomes reported after a stage failed change nothing.
pub proof fn lemma_failure_is_final(stages: Seq<StageView>, outcomes: Seq<Outcome>, rest: Seq<Outcome>)
    requires
        status(stages, outcomes) is Failed,
    ensures
        status(stages, outcomes + rest) == status(stages, outcomes),
    decreases rest.len(),
{
    if rest.len() == 0 {
        assert(outcomes + rest =~= outcomes);
    } else {
        assert((outcomes + rest).drop_last() =~= outcomes + rest.drop_last());
        lemma_failure_is_final(stages, outcomes, rest.drop_last());
    }
}

/// A compilation in a single-stage language whose one program succeeds has
/// written exactly one file: `outfile`.
pub proof fn lemma_single_stage_success(lang: Lang, infile: Seq<char>, outfile: Seq<char>)
    requires
        pipeline_of(lang, infile, outfile).len() == 1,
    ensures
        status(pipeline_of(lang, infile, outfile), seq![Outcome::Success]) == Status::Finished(
            seq![outfile],
        ),
{
    let p = pipeline_of(lang, infile, outfile);
    assert(seq![Outcome::Success].drop_last() =~= Seq::<Outcome>::empty());
    assert(status(p, Seq::empty()) == Status::Running(Seq::empty()));
    assert(Seq::<Seq<char>>::empty().push(p[0].output) =~= seq![outfile]);
}

/// A compilation in a two-stage language whose programs both succeed has
/// written exactly two files, in stage order: the object file named after
/// `outfile`, then `outfile`.
pub proof fn lemma_two_stage_success(lang: Lang, infile: Seq<char>, outfile: Seq<char>)
    requires
        pipeline_of(lang, infile, outfile).len() == 2,
    ensures
        status(pipeline_of(lang, infile, outfile), seq![Outcome::Success, Outcome::Success])
            == Status::Finished(seq![with_extension(outfile, "o"@), outfile]),
{
    let p = pipeline_of(lang, infile, outfile);
    let once = seq![Outcome::Success];
    assert(seq![Outcome::Success, Outcome::Success].drop_last() =~= once);
    assert(once.drop_last() =~= Seq::<Outcome>::empty());
    assert(status(p, Seq::empty()) == Status::Running(Seq::empty()));
    assert(status(p, once) == Status::Running(seq![with_extension(outfile, "o"@)])) by {
        assert(Seq::<Seq<char>>::empty().push(p[0].output) =~= seq![with_extension(outfile, "o"@)]);
    }
    assert(seq![with_extension(outfile, "o"@)].push(outfile) =~= seq![
        with_extension(outfile, "o"@),
        outfile,
    ]);
}

/// Where the first program of a two-stage compilation fails, the compilation
/// fails with that stage's message, writes no list of files, and runs no
/// later stage, whatever is reported after.
pub proof fn lemma_first_stage_failure(
    lang: Lang,
    infile: Seq<char>,
    outfile: Seq<char>,
    first: Outcome,
    rest: Seq<Outcome>,
)
    requires
        pipeline_of(lang, infile, outfile).len() == 2,
        !(first is Success),
    ensures
        stage_result(pipeline_of(lang, infile, outfile)[0], first) is Err,
        status(pipeline_of(lang, infile, outfile), seq![first] + rest) == Status::Failed(
            stage_result(pipeline_of(lang, infile, outfile)[0], first)->Err_0,
        ),
{
    let p = pipeline_of(lang, infile, outfile);
    assert(seq![first].drop_last() =~= Seq::<Outcome>::empty());
    assert(status(p, Seq::empty()) == Status::Running(Seq::empty()));
    assert(status(p, seq![first]) == Status::Failed(stage_result(p[0], first)->Err_0));
    lemma_failure_is_final(p, seq![first], rest);
}

/// Where the second program of a two-stage compilation fails after the first
/// succeeded, the compilation fails with the second stage's message, which is
/// not the message the first stage would have given.
pub proof fn lemma_second_stage_failure(
    lang: Lang,
    infile: Seq<char>,
    outfile: Seq<char>,
    second: Outcome,
    rest: Seq<Outcome>,
)
    requires
        pipeline_of(lang, infile, outfile).len() == 2,
        !(second is Success),
    ensures
        stage_result(pipeline_of(lang, infile, outfile)[1], second) is Err,
        status(pipeline_of(lang, infile, outfile), seq![Outcome::Success, second] + rest)
            == Status::Failed(stage_result(pipeline_of(lang, infile, outfile)[1], second)->Err_0),
        stage_result(pipeline_of(lang, infile, outfile)[1], second) != stage_result(
            pipeline_of(lang, infile, outfile)[0],
            second,
        ),
{
    let p = pipeline_of(lang, infile, outfile);
    let two = seq![Outcome::Success, second];
    assert(two.drop_last() =~= seq![Outcome::Success]);
    assert(seq![Outcome::Success].drop_last() =~= Seq::<Outcome>::empty());
    assert(status(p, Seq::empty()) == Status::Running(Seq::empty()));
    assert(Seq::<Seq<char>>::empty().push(p[0].output) =~= seq![p[0].output]);
    assert(status(p, seq![Outcome::Success]) == Status::Running(seq![p[0].output]));
    assert(status(p, two) == Status::Failed(stage_result(p[1], second)->Err_0));
    lemma_failure_is_final(p, two, rest);
    reveal_strlit("Failed to assemble infile: ");
    reveal_strlit("Failed to link object file: ");
    reveal_strlit("Failed to execute ");
    reveal_strlit("nasm");
    reveal_strlit("ld");
    match second {
        Outcome::Failure => {
            assert(p[1].failure[10] != p[0].failure[10]);
        },
        Outcome::LaunchFailure(reason) => {
            let m1 = stage_result(p[1], second)->Err_0;
            let m0 = stage_result(p[0], second)->Err_0;
            assert(m1[18] != m0[18]);
        },
        Outcome::Success => {},
    }
}

} // verus!
