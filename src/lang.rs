use vstd::prelude::*;

use crate::path::{extension, extension_of, file_name, lemma_extension_of_named, same_text};

verus! {

/// The languages whose source files this tool knows how to build.
#[derive(Debug, Clone, Copy, PartialEq, Eq, Structural)]
pub enum Lang {
    Asm,
    C,
    Cpp,
    Rust,
}

/// The first language registered for `ext` in a table of
/// (extension, language) pairs, read in registration order.
pub open spec fn lookup(table: Seq<(Seq<char>, Lang)>, ext: Seq<char>) -> Option<Lang>
    decreases table.len(),
{
    if table.len() == 0 {
        None
    } else if table[0].0 == ext {
        Some(table[0].1)
    } else {
        lookup(table.drop_first(), ext)
    }
}

/// The language of a file: the one registered first for its extension, and
/// none for a file without an extension.
pub open spec fn language_of(table: Seq<(Seq<char>, Lang)>, file: Seq<char>) -> Option<Lang> {
    match extension_of(file) {
        Some(e) => lookup(table, e),
        None => None,
    }
}

/// The table this tool ships with.
pub open spec fn standard_table() -> Seq<(Seq<char>, Lang)> {
    seq![
        ("s"@, Lang::Asm),
        ("S"@, Lang::Asm),
        ("asm"@, Lang::Asm),
        ("c"@, Lang::C),
        ("cpp"@, Lang::Cpp),
        ("cxx"@, Lang::Cpp),
        ("CXX"@, Lang::Cpp),
        ("rs"@, Lang::Rust),
    ]
}

/// Ordered (extension, language) pairs: the extension matcher's table.
pub struct Registry {
    entries: Vec<(String, Lang)>,
}

impl View for Registry {
    type V = Seq<(Seq<char>, Lang)>;

    closed spec fn view(&self) -> Seq<(Seq<char>, Lang)> {
        self.entries@.map_values(|e: (String, Lang)| (e.0@, e.1))
    }
}

impl Registry {
    /// A registry with no language in it.
    pub fn new() -> (r: Registry)
        ensures
            r@ == Seq::<(Seq<char>, Lang)>::empty(),
    {
        let r = Registry { entries: Vec::new() };
        assert(r@ =~= Seq::<(Seq<char>, Lang)>::empty());
        r
    }

    /// Registers `lang` for each of `extensions`, in order, after every
    /// language registered before it.
    pub fn register(&mut self, lang: Lang, extensions: &[&str])
        ensures
            final(self)@ == old(self)@ + extensions@.map_values(|e: &str| (e@, lang)),
    {
        let mut i: usize = 0;
        while i < extensions.len()
            invariant
                i <= extensions@.len(),
                self@ == old(self)@ + extensions@.subrange(0, i as int).map_values(
                    |e: &str| (e@, lang),
                ),
            decreases extensions@.len() - i,
        {
            let e = extensions[i];
            let ghost before = self@;
            self.entries.push((String::from_str(e), lang));
            assert(self@ =~= before.push((e@, lang)));
            assert(extensions@.subrange(0, i + 1) =~= extensions@.subrange(0, i as int).push(e));
            i = i + 1;
        }
        assert(extensions@.subrange(0, i as int) =~= extensions@);
    }

    /// The registry this tool ships with: assembly, C, C++ and Rust.
    pub fn standard() -> (r: Registry)
        ensures
            r@ == standard_table(),
    {
        let mut r = Registry::new();
        r.register(Lang::Asm, &["s", "S", "asm"]);
        r.register(Lang::C, &["c"]);
        r.register(Lang::Cpp, &["cpp", "cxx", "CXX"]);
        r.register(Lang::Rust, &["rs"]);
        assert(r@ =~= standard_table());
        r
    }

    /// The language registered first for the extension of `file`; none where
    /// `file` has no extension or no language claims it.
    pub fn determine(&self, file: &str) -> (r: Option<Lang>)
        ensures
            r == language_of(self@, file@),
    {
        let ext = match extension(file) {
            Some(e) => e,
            None => return None,
        };
        let n = self.entries.len();
        let mut i: usize = 0;
        assert(self@.subrange(0, n as int) =~= self@);
        while i < n
            invariant
                n == self@.len(),
                i <= n,
                extension_of(file@) == Some(ext@),
                lookup(self@, ext@) == lookup(self@.subrange(i as int, n as int), ext@),
            decreases n - i,
        {
            let entry = &self.entries[i];
            assert(self@[i as int] == (entry.0@, entry.1));
            assert(self@.subrange(i as int, n as int).drop_first() =~= self@.subrange(
                i + 1,
                n as int,
            ));
            assert(self@.subrange(i as int, n as int)[0] == self@[i as int]);
            if same_text(entry.0.as_str(), ext.as_str()) {
                return Some(entry.1);
            }
            i = i + 1;
        }
        None
    }
}

impl Lang {
    /// The language of `file` by the standard registry.
    pub fn determine(file: &str) -> (r: Option<Lang>)
        ensures
            r == language_of(standard_table(), file@),
    {
        Registry::standard().determine(file)
    }
}


proof fn lemma_lookup_first(table: Seq<(Seq<char>, Lang)>, ext: Seq<char>, i: int)
    requires
        0 <= i < table.len(),
        table[i].0 == ext,
        forall|k: int| 0 <= k < i ==> table[k].0 != ext,
    ensures
        lookup(table, ext) == Some(table[i].1),
    decreases i,
{
    if i > 0 {
        assert(table[0].0 != ext);
        lemma_lookup_first(table.drop_first(), ext, i - 1);
    }
}

proof fn lemma_lookup_absent(table: Seq<(Seq<char>, Lang)>, ext: Seq<char>)
    requires
        forall|k: int| 0 <= k < table.len() ==> table[k].0 != ext,
    ensures
        lookup(table, ext) is None,
    decreases table.len(),
{
    if table.len() > 0 {
        assert(table[0].0 != ext);
        lemma_lookup_absent(table.drop_first(), ext);
    }
}

/// A file whose file name is `stem.ext`, where `ext` is an extension
/// registered for `lang` and no language registered earlier claims it, is
/// found to be in `lang`. `stem` is not empty and `ext` holds no dot, since
/// only the text after the last dot of the file name is matched.
pub proof fn lemma_registered_extension_resolves(
    reg: Registry,
    lang: Lang,
    file: Seq<char>,
    stem: Seq<char>,
    ext: Seq<char>,
)
    requires
        exists|i: int|
            0 <= i < reg@.len() && reg@[i] == (ext, lang) && forall|k: int|
                0 <= k < i ==> reg@[k].0 != ext,
        file_name(file) == Some(stem + seq!['.'] + ext),
        stem.len() > 0,
        forall|k: int| 0 <= k < ext.len() ==> ext[k] != '.',
    ensures
        language_of(reg@, file) == Some(lang),
{
    let i = choose|i: int|
        0 <= i < reg@.len() && reg@[i] == (ext, lang) && forall|k: int|
            0 <= k < i ==> reg@[k].0 != ext;
    lemma_extension_of_named(file, stem, ext);
    lemma_lookup_first(reg@, ext, i);
}

/// With the standard registry, a file whose file name is `stem.ext`, with a
/// non-empty `stem`, is found to be in the language that `ext` is registered for.
pub proof fn lemma_standard_extension_resolves(
    lang: Lang,
    file: Seq<char>,
    stem: Seq<char>,
    ext: Seq<char>,
)
    requires
        standard_table().contains((ext, lang)),
        file_name(file) == Some(stem + seq!['.'] + ext),
        stem.len() > 0,
    ensures
        language_of(standard_table(), file) == Some(lang),
{
    reveal_strlit("s");
    reveal_strlit("S");
    reveal_strlit("asm");
    reveal_strlit("c");
    reveal_strlit("cpp");
    reveal_strlit("cxx");
    reveal_strlit("CXX");
    reveal_strlit("rs");
    let t = standard_table();
    let i = choose|i: int| 0 <= i < t.len() && t[i] == (ext, lang);
    assert forall|k: int| 0 <= k < i implies t[k].0 != ext by {
        assert(t[k].0[0] != t[i].0[0] || t[k].0.len() != t[i].0.len() || t[k].0[1] != t[i].0[1]);
    }
    assert forall|k: int| 0 <= k < ext.len() implies ext[k] != '.' by {
        assert(t[i].0 == ext);
    }
    lemma_extension_of_named(file, stem, ext);
    lemma_lookup_first(t, ext, i);
}

/// A file whose extension no language claims, or that has none, is found to be
/// in no language.
pub proof fn lemma_unclaimed_extension(reg: Registry, file: Seq<char>)
    requires
        forall|k: int| 0 <= k < reg@.len() ==> extension_of(file) != Some(reg@[k].0),
    ensures
        language_of(reg@, file) is None,
{
    if let Some(e) = extension_of(file) {
        lemma_lookup_absent(reg@, e);
    }
}

/// Where two languages are registered for one extension, a file with that
/// extension is found to be in the one registered first, every time.
pub proof fn lemma_first_registration_wins(reg: Registry, file: Seq<char>, i: int, j: int)
    requires
        0 <= i < j < reg@.len(),
        reg@[i].0 == reg@[j].0,
        forall|k: int| 0 <= k < i ==> reg@[k].0 != reg@[i].0,
        extension_of(file) == Some(reg@[i].0),
    ensures
        language_of(reg@, file) == Some(reg@[i].1),
        reg@[i].1 != reg@[j].1 ==> language_of(reg@, file) != Some(reg@[j].1),
{
    lemma_lookup_first(reg@, reg@[i].0, i);
}

} // verus!
