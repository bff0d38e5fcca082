use to::{assembly, c, cpp, rust, Action, Compilation, Lang, Outcome, Stage};

fn strings(v: &[&str]) -> Vec<String> {
    v.iter().map(|s| String::from(*s)).collect()
}

/// Runs a compilation, answering each stage with the next of `outcomes`.
fn drive(mut comp: Compilation, outcomes: Vec<Outcome>) -> (Action, Vec<String>) {
    let mut programs = Vec::new();
    let mut outcomes = outcomes.into_iter();
    loop {
        match comp.next_action() {
            Action::Run(stage) => {
                programs.push(stage.program.clone());
                comp.report(outcomes.next().expect("an outcome for each stage run"));
            }
            done => return (done, programs),
        }
    }
}

#[test]
fn c_pipeline_is_one_gcc_stage() {
    let stages = c("main.c", "main.o");
    assert_eq!(stages.len(), 1);
    assert_eq!(stages[0].program, "gcc");
    assert_eq!(stages[0].args, strings(&["main.c", "-o", "main.o"]));
    assert_eq!(stages[0].output, "main.o");
    assert_eq!(stages[0].failure, "Failed to compile infile: main.c");
}

#[test]
fn cpp_and_rust_pipelines() {
    let s = cpp("x.cpp", "./x");
    assert_eq!(s.len(), 1);
    assert_eq!(s[0].program, "g++");
    assert_eq!(s[0].args, strings(&["x.cpp", "-o", "./x"]));
    let r = rust("m.rs", "m");
    assert_eq!(r.len(), 1);
    assert_eq!(r[0].program, "rustc");
    assert_eq!(r[0].args, strings(&["m.rs", "-o", "m"]));
    assert_eq!(r[0].failure, "Failed to compile infile: m.rs");
}

#[test]
fn assembly_pipeline_is_assemble_then_link() {
    let stages = assembly("boot.asm", "boot.out");
    assert_eq!(stages.len(), 2);
    assert_eq!(stages[0].program, "nasm");
    assert_eq!(stages[0].args, strings(&["-f", "elf64", "boot.asm", "-o", "boot.o"]));
    assert_eq!(stages[0].output, "boot.o");
    assert_eq!(stages[0].failure, "Failed to assemble infile: boot.asm");
    assert_eq!(stages[1].program, "ld");
    assert_eq!(stages[1].args, strings(&["boot.o", "-o", "boot.out"]));
    assert_eq!(stages[1].output, "boot.out");
    assert_eq!(stages[1].failure, "Failed to link object file: boot.o");
}

#[test]
fn assembly_object_named_after_outfile_without_extension() {
    let stages = assembly("src/boot.asm", "./boot");
    assert_eq!(stages[0].output, "./boot.o");
    assert_eq!(stages[1].args, strings(&["./boot.o", "-o", "./boot"]));
}

#[test]
fn pipeline_dispatches_by_language() {
    assert_eq!(Lang::Asm.pipeline("a.s", "a"), assembly("a.s", "a"));
    assert_eq!(Lang::C.pipeline("a.c", "a"), c("a.c", "a"));
    assert_eq!(Lang::Cpp.pipeline("a.cpp", "a"), cpp("a.cpp", "a"));
    assert_eq!(Lang::Rust.pipeline("a.rs", "a"), rust("a.rs", "a"));
}

#[test]
fn stage_builder() {
    let s = Stage::new("tool")
        .arg("-v")
        .arg_outfile("out.bin")
        .on_failure(String::from("tool broke"));
    assert_eq!(s.program, "tool");
    assert_eq!(s.args, strings(&["-v", "out.bin"]));
    assert_eq!(s.output, "out.bin");
    assert_eq!(s.failure, "tool broke");
    assert_eq!(s.duplicate(), s);
}

#[test]
fn stage_result_for_each_outcome() {
    let s = &assembly("boot.asm", "boot.out")[0];
    assert_eq!(s.result(&Outcome::Success), Ok(String::from("boot.o")));
    assert_eq!(
        s.result(&Outcome::Failure),
        Err(String::from("Failed to assemble infile: boot.asm"))
    );
    assert_eq!(
        s.result(&Outcome::LaunchFailure(String::from("No such file or directory"))),
        Err(String::from("Failed to execute nasm: No such file or directory"))
    );
}

#[test]
fn single_stage_success_yields_outfile() {
    let (done, programs) = drive(Lang::Rust.compile("m.rs", "./m"), vec![Outcome::Success]);
    assert_eq!(done, Action::Finished(strings(&["./m"])));
    assert_eq!(programs, strings(&["rustc"]));
}

#[test]
fn two_stage_success_yields_object_then_outfile() {
    let (done, programs) = drive(
        Lang::Asm.compile("x.s", "x.exe"),
        vec![Outcome::Success, Outcome::Success],
    );
    assert_eq!(done, Action::Finished(strings(&["x.o", "x.exe"])));
    assert_eq!(programs, strings(&["nasm", "ld"]));
}

#[test]
fn first_stage_failure_stops_pipeline() {
    let (done, programs) = drive(Lang::Asm.compile("boot.asm", "boot.out"), vec![Outcome::Failure]);
    assert_eq!(done, Action::Failed(String::from("Failed to assemble infile: boot.asm")));
    assert_eq!(programs, strings(&["nasm"]));
}

#[test]
fn first_stage_launch_failure_names_program() {
    let (done, programs) = drive(
        Lang::Asm.compile("boot.asm", "boot.out"),
        vec![Outcome::LaunchFailure(String::from("not found"))],
    );
    assert_eq!(done, Action::Failed(String::from("Failed to execute nasm: not found")));
    assert_eq!(programs, strings(&["nasm"]));
}

#[test]
fn second_stage_failure_names_second_stage() {
    let (done, programs) = drive(
        Lang::Asm.compile("boot.asm", "boot.out"),
        vec![Outcome::Success, Outcome::Failure],
    );
    assert_eq!(done, Action::Failed(String::from("Failed to link object file: boot.o")));
    assert_eq!(programs, strings(&["nasm", "ld"]));
}

#[test]
fn second_stage_launch_failure_names_linker() {
    let (done, _) = drive(
        Lang::Asm.compile("boot.asm", "boot.out"),
        vec![Outcome::Success, Outcome::LaunchFailure(String::from("denied"))],
    );
    assert_eq!(done, Action::Failed(String::from("Failed to execute ld: denied")));
}

#[test]
fn outcomes_after_failure_change_nothing() {
    let mut comp = Lang::C.compile("main.c", "main.o");
    comp.report(Outcome::Failure);
    comp.report(Outcome::Success);
    assert_eq!(
        comp.next_action(),
        Action::Failed(String::from("Failed to compile infile: main.c"))
    );
}

#[test]
fn outcomes_after_finish_change_nothing() {
    let mut comp = Lang::C.compile("main.c", "main.o");
    comp.report(Outcome::Success);
    comp.report(Outcome::Failure);
    assert_eq!(comp.next_action(), Action::Finished(strings(&["main.o"])));
}

#[test]
fn empty_pipeline_finishes_at_once() {
    let comp = Compilation::new(Vec::new());
    assert_eq!(comp.next_action(), Action::Finished(Vec::new()));
}

#[test]
fn scenario_main_c() {
    let lang = Lang::determine("main.c").expect("C is registered");
    assert_eq!(lang, Lang::C);
    let (done, programs) = drive(lang.compile("main.c", "main.o"), vec![Outcome::Success]);
    assert_eq!(programs, strings(&["gcc"]));
    assert_eq!(done, Action::Finished(strings(&["main.o"])));
}

#[test]
fn scenario_boot_asm() {
    let lang = Lang::determine("boot.asm").expect("assembly is registered");
    assert_eq!(lang, Lang::Asm);
    let (done, _) = drive(
        lang.compile("boot.asm", "boot.out"),
        vec![Outcome::Success, Outcome::Success],
    );
    assert_eq!(done, Action::Finished(strings(&["boot.o", "boot.out"])));
}

#[test]
fn assembly_object_for_outfile_with_trailing_slash() {
    let stages = assembly("boot.asm", "boot/");
    assert_eq!(stages[0].args, strings(&["-f", "elf64", "boot.asm", "-o", "boot.o"]));
    assert_eq!(stages[0].output, "boot.o");
    assert_eq!(stages[1].args, strings(&["boot.o", "-o", "boot/"]));
    assert_eq!(stages[1].failure, "Failed to link object file: boot.o");
    let (done, _) = drive(
        Lang::Asm.compile("boot.asm", "boot/"),
        vec![Outcome::Success, Outcome::Success],
    );
    assert_eq!(done, Action::Finished(strings(&["boot.o", "boot/"])));
}
