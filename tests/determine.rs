use to::{Lang, Registry};

#[test]
fn standard_extensions_resolve() {
    let cases = [
        ("prog.s", Lang::Asm),
        ("prog.S", Lang::Asm),
        ("boot.asm", Lang::Asm),
        ("main.c", Lang::C),
        ("main.cpp", Lang::Cpp),
        ("main.cxx", Lang::Cpp),
        ("main.CXX", Lang::Cpp),
        ("lib.rs", Lang::Rust),
        ("some/dir/x.y/main.rs", Lang::Rust),
    ];
    for (file, lang) in cases {
        assert_eq!(Lang::determine(file), Some(lang), "{}", file);
    }
}

#[test]
fn unknown_extension_is_no_match() {
    assert_eq!(Lang::determine("notes.txt"), None);
    assert_eq!(Lang::determine("main.C"), None);
    assert_eq!(Lang::determine("main.Cpp"), None);
    assert_eq!(Lang::determine("archive.tar.gz"), None);
}

#[test]
fn no_extension_is_no_match() {
    assert_eq!(Lang::determine("Makefile"), None);
    assert_eq!(Lang::determine(".c"), None);
    assert_eq!(Lang::determine("src.c/main"), None);
    assert_eq!(Lang::determine("main."), None);
}

#[test]
fn first_registration_wins() {
    let mut reg = Registry::new();
    reg.register(Lang::C, &["h", "c"]);
    reg.register(Lang::Cpp, &["hpp", "h"]);
    assert_eq!(reg.determine("x.h"), Some(Lang::C));
    assert_eq!(reg.determine("x.h"), Some(Lang::C));
    assert_eq!(reg.determine("x.hpp"), Some(Lang::Cpp));
}

#[test]
fn empty_registry_matches_nothing() {
    let reg = Registry::new();
    assert_eq!(reg.determine("main.c"), None);
}

#[test]
fn standard_registry_matches_lang_determine() {
    let reg = Registry::standard();
    assert_eq!(reg.determine("main.c"), Some(Lang::C));
    assert_eq!(reg.determine("boot.asm"), Some(Lang::Asm));
}

#[test]
fn trailing_slash_keeps_language() {
    assert_eq!(Lang::determine("x.c/"), Some(Lang::C));
    assert_eq!(Lang::determine("boot.asm/."), Some(Lang::Asm));
    assert_eq!(Lang::determine("x.c/.."), None);
}

#[test]
fn first_registration_wins_on_trailing_slash() {
    let mut reg = Registry::new();
    reg.register(Lang::C, &["h"]);
    reg.register(Lang::Cpp, &["h"]);
    assert_eq!(reg.determine("x.h/"), Some(Lang::C));
}
