use vstd::prelude::*;

use crate::lang::Lang;
use crate::path::{set_extension, with_extension};

verus! {

/// What one external program is asked to do.
pub struct StageView {
    pub program: Seq<char>,
    pub args: Seq<Seq<char>>,
    pub output: Seq<char>,
    pub failure: Seq<char>,
}

/// One external program run within a pipeline: the program, its arguments,
/// the file it writes, and the message that reports its failure.
#[derive(Debug, PartialEq, Eq)]
pub struct Stage {
    pub program: String,
    pub args: Vec<String>,
    pub output: String,
    pub failure: String,
}

impl View for Stage {
    type V = StageView;

    open spec fn view(&self) -> StageView {
        StageView {
            program: self.program@,
            args: texts(self.args@),
            output: self.output@,
            failure: self.failure@,
        }
    }
}

/// The text of each string.
pub open spec fn texts(v: Seq<String>) -> Seq<Seq<char>> {
    v.map_values(|s: String| s@)
}

/// What each stage is asked to do.
pub open spec fn stage_views(v: Seq<Stage>) -> Seq<StageView> {
    v.map_values(|s: Stage| s@)
}

/// How a stage's program ended.
#[derive(Debug, PartialEq, Eq)]
pub enum Outcome {
    /// It ran and exited with success.
    Success,
    /// It ran and exited with failure, or was stopped by a signal.
    Failure,
    /// It could not be started; the reason is given.
    LaunchFailure(String),
}

/// The report of a program that could not be started.
pub open spec fn launch_failure_message(program: Seq<char>, reason: Seq<char>) -> Seq<char> {
    "Failed to execute "@ + program + ": "@ + reason
}

/// What a stage yields: the file it wrote, or the message of its failure.
pub open spec fn stage_result(s: StageView, o: Outcome) -> Result<Seq<char>, Seq<char>> {
    match o {
        Outcome::Success => Ok(s.output),
        Outcome::Failure => Err(s.failure),
        Outcome::LaunchFailure(reason) => Err(launch_failure_message(s.program, reason@)),
    }
}

/// A stage that runs `program` on `infile` and writes `outfile` directly.
pub open spec fn direct_stage(program: Seq<char>, infile: Seq<char>, outfile: Seq<char>) -> StageView {
    StageView {
        program,
        args: seq![infile, "-o"@, outfile],
        output: outfile,
        failure: "Failed to compile infile: "@ + infile,
    }
}

/// The stages that build `outfile` from `infile` in `lang`, in order.
pub open spec fn pipeline_of(lang: Lang, infile: Seq<char>, outfile: Seq<char>) -> Seq<StageView> {
    match lang {
        Lang::Asm => {
            let obj = with_extension(outfile, "o"@);
            seq![
                StageView {
                    program: "nasm"@,
                    args: seq!["-f"@, "elf64"@, infile, "-o"@, obj],
                    output: obj,
                    failure: "Failed to assemble infile: "@ + infile,
                },
                StageView {
                    program: "ld"@,
                    args: seq![obj, "-o"@, outfile],
                    output: outfile,
                    failure: "Failed to link object file: "@ + obj,
                },
            ]
        },
        Lang::C => seq![direct_stage("gcc"@, infile, outfile)],
        Lang::Cpp => seq![direct_stage("g++"@, infile, outfile)],
        Lang::Rust => seq![direct_stage("rustc"@, infile, outfile)],
    }
}

pub(crate) fn copy_texts(v: &Vec<String>) -> (r: Vec<String>)
    ensures
        texts(r@) == texts(v@),
{
    let mut r: Vec<String> = Vec::new();
    let mut i: usize = 0;
    while i < v.len()
        invariant
            i <= v@.len(),
            texts(r@) == texts(v@.subrange(0, i as int)),
        decreases v@.len() - i,
    {
        let ghost before = r@;
        let t = v[i].clone();
        r.push(t);
        assert(r@ == before.push(t));
        assert(v@.subrange(0, i + 1) =~= v@.subrange(0, i as int).push(v@[i as int]));
        assert(texts(r@) =~= texts(before).push(t@));
        assert(texts(v@.subrange(0, i + 1)) =~= texts(v@.subrange(0, i as int)).push(v@[i as int]@));
        i = i + 1;
    }
    assert(v@.subrange(0, i as int) =~= v@);
    r
}

/// The text of `s`, as a `String`.
fn owned(s: &str) -> (r: String)
    ensures
        r@ == s@,
{
    String::from_str(s)
}

/// `prefix` followed by `s`.
fn joined(prefix: &str, s: &str) -> (r: String)
    ensures
        r@ == prefix@ + s@,
{
    let mut r = String::from_str(prefix);
    r.append(s);
    r
}

impl Stage {
    /// A stage that runs `program` with no arguments yet.
    pub fn new(program: &str) -> (r: Stage)
        ensures
            r@ == (StageView {
                program: program@,
                args: Seq::empty(),
                output: Seq::empty(),
                failure: Seq::empty(),
            }),
    {
        let r = Stage { program: owned(program), args: Vec::new(), output: String::new(), failure: String::new() };
        assert(texts(r.args@) =~= Seq::empty());
        r
    }

    /// The stage with `a` added after its arguments.
    pub fn arg(self, a: &str) -> (r: Stage)
        ensures
            r@ == (StageView { args: self@.args.push(a@), ..self@ }),
    {
        let mut r = self;
        let ghost before = r.args@;
        r.args.push(owned(a));
        assert(texts(r.args@) =~= texts(before).push(a@));
        r
    }

    /// The stage with `o` added after its arguments, as the file it writes.
    pub fn arg_outfile(self, o: &str) -> (r: Stage)
        ensures
            r@ == (StageView { args: self@.args.push(o@), output: o@, ..self@ }),
    {
        let mut r = self.arg(o);
        r.output = owned(o);
        r
    }

    /// The stage with `msg` as the report of its failure.
    pub fn on_failure(self, msg: String) -> (r: Stage)
        ensures
            r@ == (StageView { failure: msg@, ..self@ }),
    {
        let mut r = self;
        r.failure = msg;
        r
    }

    /// A stage that asks for the same as this one.
    pub fn duplicate(&self) -> (r: Stage)
        ensures
            r@ == self@,
    {
        Stage {
            program: self.program.clone(),
            args: copy_texts(&self.args),
            output: self.output.clone(),
            failure: self.failure.clone(),
        }
    }

    /// What the stage yields once its program ended with `outcome`: the file it
    /// wrote, or the message that reports its failure.
    pub fn result(&self, outcome: &Outcome) -> (r: Result<String, String>)
        ensures
            match r {
                Ok(f) => stage_result(self@, *outcome) == Ok::<Seq<char>, Seq<char>>(f@),
                Err(m) => stage_result(self@, *outcome) == Err::<Seq<char>, Seq<char>>(m@),
            },
    {
        match outcome {
            Outcome::Success => Ok(self.output.clone()),
            Outcome::Failure => Err(self.failure.clone()),
            Outcome::LaunchFailure(reason) => {
                let mut m = joined("Failed to execute ", self.program.as_str());
                m.append(": ");
                m.append(reason.as_str());
                Err(m)
            },
        }
    }
}

fn direct(program: &str, infile: &str, outfile: &str) -> (r: Vec<Stage>)
    ensures
        stage_views(r@) == seq![direct_stage(program@, infile@, outfile@)],
{
    let s = Stage::new(program).arg(infile).arg("-o").arg_outfile(outfile).on_failure(
        joined("Failed to compile infile: ", infile),
    );
    assert(s@.args =~= seq![infile@, "-o"@, outfile@]);
    assert(s@ == direct_stage(program@, infile@, outfile@));
    let r = vec![s];
    assert(stage_views(r@) =~= seq![direct_stage(program@, infile@, outfile@)]);
    r
}

/// Assembles `infile` with nasm into an object file named after `outfile`,
/// then links that object into `outfile` with ld.
pub fn assembly(infile: &str, outfile: &str) -> (r: Vec<Stage>)
    ensures
        stage_views(r@) == pipeline_of(Lang::Asm, infile@, outfile@),
{
    let obj = set_extension(outfile, "o");
    let assemble = Stage::new("nasm").arg("-f").arg("elf64").arg(infile).arg("-o").arg_outfile(
        obj.as_str(),
    ).on_failure(joined("Failed to assemble infile: ", infile));
    let link = Stage::new("ld").arg(obj.as_str()).arg("-o").arg_outfile(outfile).on_failure(
        joined("Failed to link object file: ", obj.as_str()),
    );
    let ghost p = pipeline_of(Lang::Asm, infile@, outfile@);
    assert(assemble@.args =~= p[0].args);
    assert(link@.args =~= p[1].args);
    assert(assemble@ == p[0]);
    assert(link@ == p[1]);
    let r = vec![assemble, link];
    assert(stage_views(r@) =~= pipeline_of(Lang::Asm, infile@, outfile@));
    r
}

/// Compiles C `infile` into the executable `outfile` with gcc.
pub fn c(infile: &str, outfile: &str) -> (r: Vec<Stage>)
    ensures
        stage_views(r@) == pipeline_of(Lang::C, infile@, outfile@),
{
    direct("gcc", infile, outfile)
}

/// Compiles C++ `infile` into the executable `outfile` with g++.
pub fn cpp(infile: &str, outfile: &str) -> (r: Vec<Stage>)
    ensures
        stage_views(r@) == pipeline_of(Lang::Cpp, infile@, outfile@),
{
    direct("g++", infile, outfile)
}

/// Compiles Rust `infile` into the executable `outfile` with rustc.
pub fn rust(infile: &str, outfile: &str) -> (r: Vec<Stage>)
    ensures
        stage_views(r@) == pipeline_of(Lang::Rust, infile@, outfile@),
{
    direct("rustc", infile, outfile)
}

impl Lang {
    /// The stages that build `outfile` from `infile` in this language.
    pub fn pipeline(&self, infile: &str, outfile: &str) -> (r: Vec<Stage>)
        ensures
            stage_views(r@) == pipeline_of(*self, infile@, outfile@),
    {
        match self {
            Lang::Asm => assembly(infile, outfile),
            Lang::C => c(infile, outfile),
            Lang::Cpp => cpp(infile, outfile),
            Lang::Rust => rust(infile, outfile),
        }
    }
}

} // verus!
