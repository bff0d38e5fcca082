use vstd::prelude::*;

verus! {

/// Index of the last occurrence of `c` in `s`, or -1 where `c` does not occur.
pub open spec fn last_index_of(s: Seq<char>, c: char) -> int
    decreases s.len(),
{
    if s.len() == 0 {
        -1
    } else if s.last() == c {
        s.len() - 1
    } else {
        last_index_of(s.drop_last(), c)
    }
}

/// The final segment of `p` is `.`: `p` is `.` or ends in `/.`.
pub open spec fn ends_in_dot_segment(p: Seq<char>) -> bool {
    p.len() > 0 && p.last() == '.' && (p.len() == 1 || p[p.len() - 2] == '/')
}

/// Where the file name of a path stands, as a range of its indices: the last
/// segment once trailing `/` and `.` segments are set aside. None where that
/// segment is `..`, and where nothing is left (an empty path, the root, `.`).
pub open spec fn file_name_span(p: Seq<char>) -> Option<(int, int)>
    decreases p.len(),
{
    if p.len() == 0 {
        None
    } else if p.last() == '/' {
        file_name_span(p.drop_last())
    } else if ends_in_dot_segment(p) {
        file_name_span(p.drop_last())
    } else {
        let start = last_index_of(p, '/') + 1;
        if p.subrange(start, p.len() as int) == seq!['.', '.'] {
            None
        } else {
            Some((start, p.len() as int))
        }
    }
}

/// The file name of a path.
pub open spec fn file_name(p: Seq<char>) -> Option<Seq<char>> {
    match file_name_span(p) {
        Some((s, e)) => Some(p.subrange(s, e)),
        None => None,
    }
}

/// Index in `p` of the dot that opens its extension: the last dot of the file
/// name, unless that dot is the name's first char (as in `.profile`).
pub open spec fn extension_dot(p: Seq<char>) -> Option<int> {
    match file_name_span(p) {
        Some((s, e)) => {
            let d = last_index_of(p.subrange(s, e), '.');
            if d > 0 {
                Some(s + d)
            } else {
                None
            }
        },
        None => None,
    }
}

/// The extension of a path: what follows, in the file name, the dot that opens it.
pub open spec fn extension_of(p: Seq<char>) -> Option<Seq<char>> {
    match (file_name_span(p), extension_dot(p)) {
        (Some((s, e)), Some(d)) => Some(p.subrange(d + 1, e)),
        _ => None,
    }
}

/// Index in `p` just after the file stem: the file name without its extension.
pub open spec fn stem_end(p: Seq<char>) -> Option<int> {
    match (file_name_span(p), extension_dot(p)) {
        (Some((s, e)), Some(d)) => Some(d),
        (Some((s, e)), None) => Some(e),
        _ => None,
    }
}

/// The path cut right after its file stem, with `.e` added unless `e` is
/// empty. A path without a file name is left as it is.
pub open spec fn with_extension(p: Seq<char>, e: Seq<char>) -> Seq<char> {
    match stem_end(p) {
        Some(k) => if e.len() == 0 {
            p.subrange(0, k)
        } else {
            p.subrange(0, k) + seq!['.'] + e
        },
        None => p,
    }
}

/// The path with `e` added after the extension it already has.
pub open spec fn with_added_extension(p: Seq<char>, e: Seq<char>) -> Seq<char> {
    match extension_of(p) {
        Some(old_ext) => with_extension(p, old_ext + seq!['.'] + e),
        None => with_extension(p, e),
    }
}

/// `p` begins with the whole segment `c`: it is `c`, or `c` followed by `/`.
pub open spec fn leads_with_segment(p: Seq<char>, c: Seq<char>) -> bool {
    p == c || (p.len() > c.len() && p.subrange(0, c.len() as int) == c && p[c.len() as int] == '/')
}

/// A path that names a program without a search of `$PATH`: an absolute path,
/// or one whose first segment is `.` or `..`.
pub open spec fn runs_without_search(p: Seq<char>) -> bool {
    ||| p.len() > 0 && p[0] == '/'
    ||| leads_with_segment(p, seq!['.'])
    ||| leads_with_segment(p, seq!['.', '.'])
}

/// The path as a program is run from it: unchanged where it needs no search
/// of `$PATH`, else with `./` in front.
pub open spec fn runnable_path(p: Seq<char>) -> Seq<char> {
    if runs_without_search(p) {
        p
    } else {
        seq!['.', '/'] + p
    }
}

/// The name of the executable built from `infile` where none is given: its
/// file name with `to.exe` added after the extension. None where `infile`
/// has no file name.
pub open spec fn default_outfile_of(infile: Seq<char>) -> Option<Seq<char>> {
    match file_name(infile) {
        Some(name) => Some(with_added_extension(name, "to.exe"@)),
        None => None,
    }
}

/// Where the last `c` of `s` stands, and that no `c` follows it.
pub proof fn lemma_last_index_of_bounds(s: Seq<char>, c: char)
    ensures
        -1 <= last_index_of(s, c) < s.len(),
        last_index_of(s, c) >= 0 ==> s[last_index_of(s, c)] == c,
        forall|i: int| last_index_of(s, c) < i < s.len() ==> s[i] != c,
    decreases s.len(),
{
    if s.len() > 0 && s.last() != c {
        lemma_last_index_of_bounds(s.drop_last(), c);
        assert forall|i: int| last_index_of(s, c) < i < s.len() implies s[i] != c by {
            if i < s.len() - 1 {
                assert(s[i] == s.drop_last()[i]);
            }
        }
    }
}

/// Appending chars other than `c` leaves the last `c` where it was.
pub proof fn lemma_last_index_of_append(s: Seq<char>, t: Seq<char>, c: char)
    requires
        forall|k: int| 0 <= k < t.len() ==> t[k] != c,
    ensures
        last_index_of(s + t, c) == last_index_of(s, c),
    decreases t.len(),
{
    if t.len() > 0 {
        assert((s + t).drop_last() =~= s + t.drop_last());
        lemma_last_index_of_append(s, t.drop_last(), c);
    } else {
        assert(s + t =~= s);
    }
}

/// The file name lies inside the path, holds at least one char, and no `/`.
pub proof fn lemma_file_name_span_bounds(p: Seq<char>)
    ensures
        match file_name_span(p) {
            Some((s, e)) => 0 <= s < e <= p.len() && forall|k: int| s <= k < e ==> p[k] != '/',
            None => true,
        },
    decreases p.len(),
{
    if p.len() == 0 {
    } else if p.last() == '/' || ends_in_dot_segment(p) {
        lemma_file_name_span_bounds(p.drop_last());
        if let Some((s, e)) = file_name_span(p.drop_last()) {
            assert forall|k: int| s <= k < e implies p[k] != '/' by {
                assert(p[k] == p.drop_last()[k]);
            }
        }
    } else {
        lemma_last_index_of_bounds(p, '/');
    }
}

/// A path whose file name is `stem.ext`, with a non-empty `stem` and no dot
/// in `ext`, has the extension `ext`.
pub proof fn lemma_extension_of_named(file: Seq<char>, stem: Seq<char>, ext: Seq<char>)
    requires
        file_name(file) == Some(stem + seq!['.'] + ext),
        stem.len() > 0,
        forall|k: int| 0 <= k < ext.len() ==> ext[k] != '.',
    ensures
        extension_of(file) == Some(ext),
{
    lemma_file_name_span_bounds(file);
    let (s, e) = file_name_span(file)->Some_0;
    let name = file.subrange(s, e);
    lemma_last_index_of_append(stem.push('.'), ext, '.');
    assert(stem + seq!['.'] + ext =~= stem.push('.') + ext);
    assert(stem.push('.').drop_last() =~= stem);
    assert(last_index_of(name, '.') == stem.len());
    assert(file.subrange(s + stem.len() + 1, e) =~= name.subrange(stem.len() + 1 as int, name.len() as int));
    assert(name.subrange(stem.len() + 1 as int, name.len() as int) =~= ext);
}

/// A path that begins with the segment `c` begins with its chars.
proof fn lemma_segment_chars(p: Seq<char>, c: Seq<char>)
    requires
        leads_with_segment(p, c),
    ensures
        p.len() >= c.len(),
        forall|i: int| 0 <= i < c.len() ==> p[i] == c[i],
{
    if p != c {
        assert forall|i: int| 0 <= i < c.len() implies p[i] == c[i] by {
            assert(p.subrange(0, c.len() as int)[i] == p[i]);
        }
    }
}

/// Position of the last `c` among the chars of `s`.
fn last_index(s: &str, c: char) -> (r: Option<usize>)
    ensures
        match r {
            Some(i) => i == last_index_of(s@, c),
            None => last_index_of(s@, c) == -1,
        },
{
    let n = s.unicode_len();
    let mut i: usize = n;
    assert(s@.subrange(0, n as int) =~= s@);
    while i > 0
        invariant
            i <= n == s@.len(),
            last_index_of(s@, c) == last_index_of(s@.subrange(0, i as int), c),
        decreases i,
    {
        let ch = s.get_char(i - 1);
        assert(s@.subrange(0, i as int).drop_last() =~= s@.subrange(0, i - 1));
        if ch == c {
            return Some(i - 1);
        }
        i = i - 1;
    }
    None
}

/// Whether `a` and `b` hold the same chars.
pub(crate) fn same_text(a: &str, b: &str) -> (r: bool)
    ensures
        r == (a@ == b@),
{
    let n = a.unicode_len();
    if n != b.unicode_len() {
        return false;
    }
    let mut i: usize = 0;
    while i < n
        invariant
            n == a@.len() == b@.len(),
            i <= n,
            a@.subrange(0, i as int) == b@.subrange(0, i as int),
        decreases n - i,
    {
        if a.get_char(i) != b.get_char(i) {
            return false;
        }
        assert(a@.subrange(0, i + 1) =~= a@.subrange(0, i as int).push(a@[i as int]));
        assert(b@.subrange(0, i + 1) =~= b@.subrange(0, i as int).push(b@[i as int]));
        i = i + 1;
    }
    assert(a@ =~= a@.subrange(0, n as int));
    assert(b@ =~= b@.subrange(0, n as int));
    true
}

/// Where the file name of `p` stands.
fn find_file_name(p: &str) -> (r: Option<(usize, usize)>)
    ensures
        match r {
            Some((s, e)) => file_name_span(p@) == Some((s as int, e as int)) && s < e <= p@.len(),
            None => file_name_span(p@) is None,
        },
{
    let n = p.unicode_len();
    let mut end: usize = n;
    assert(p@.subrange(0, n as int) =~= p@);
    loop
        invariant
            end <= n == p@.len(),
            file_name_span(p@) == file_name_span(p@.subrange(0, end as int)),
        decreases end,
    {
        if end == 0 {
            return None;
        }
        let ghost q = p@.subrange(0, end as int);
        assert(q.drop_last() =~= p@.subrange(0, end - 1));
        let c = p.get_char(end - 1);
        if c == '/' {
            end = end - 1;
        } else if c == '.' && (end == 1 || p.get_char(end - 2) == '/') {
            end = end - 1;
        } else {
            assert(!ends_in_dot_segment(q));
            let q_str = p.substring_char(0, end);
            proof {
                lemma_last_index_of_bounds(q, '/');
            }
            let start: usize = match last_index(q_str, '/') {
                Some(i) => i + 1,
                None => 0,
            };
            assert(start < end) by {
                if start == end {
                    assert(q[end - 1] == '/');
                }
            }
            if end - start == 2 {
                let c0 = p.get_char(start);
                let c1 = p.get_char(start + 1);
                let ghost seg = q.subrange(start as int, end as int);
                assert(seg[0] == c0 && seg[1] == c1);
                if c0 == '.' && c1 == '.' {
                    assert(seg =~= seq!['.', '.']);
                    return None;
                }
            }
            assert(q.subrange(start as int, end as int) != seq!['.', '.']) by {
                if end - start != 2 {
                    assert(q.subrange(start as int, end as int).len() != 2);
                }
            }
            assert(q.last() == c);
            assert(start == last_index_of(q, '/') + 1);
            assert(file_name_span(q) == Some((start as int, end as int)));
            return Some((start, end));
        }
    }
}

/// Index in `p` of the dot that opens its extension, given its file name.
fn find_extension_dot(p: &str, s: usize, e: usize) -> (r: Option<usize>)
    requires
        file_name_span(p@) == Some((s as int, e as int)),
        s < e <= p@.len(),
    ensures
        match r {
            Some(d) => extension_dot(p@) == Some(d as int) && s < d < e,
            None => extension_dot(p@) is None,
        },
{
    let name = p.substring_char(s, e);
    proof {
        lemma_last_index_of_bounds(name@, '.');
    }
    match last_index(name, '.') {
        Some(d) => {
            if d > 0 {
                Some(s + d)
            } else {
                None
            }
        },
        None => None,
    }
}

/// The extension of `p`, if it has one.
pub fn extension(p: &str) -> (r: Option<String>)
    ensures
        match r {
            Some(e) => extension_of(p@) == Some(e@),
            None => extension_of(p@) is None,
        },
{
    let (s, e) = match find_file_name(p) {
        Some(span) => span,
        None => return None,
    };
    match find_extension_dot(p, s, e) {
        Some(d) => Some(String::from_str(p.substring_char(d + 1, e))),
        None => None,
    }
}

/// `p` cut right after its file stem, with `.e` added unless `e` is empty;
/// unchanged where `p` has no file name.
pub fn set_extension(p: &str, e: &str) -> (r: String)
    ensures
        r@ == with_extension(p@, e@),
{
    let (s, end) = match find_file_name(p) {
        Some(span) => span,
        None => return String::from_str(p),
    };
    let k: usize = match find_extension_dot(p, s, end) {
        Some(d) => d,
        None => end,
    };
    let mut r = String::from_str(p.substring_char(0, k));
    if e.unicode_len() > 0 {
        r.append(".");
        proof {
            reveal_strlit(".");
        }
        r.append(e);
    }
    r
}

/// The name of the executable built from `infile` where none is given.
pub fn default_outfile(infile: &str) -> (r: Option<String>)
    ensures
        match r {
            Some(o) => default_outfile_of(infile@) == Some(o@),
            None => default_outfile_of(infile@) is None,
        },
{
    let (s, e) = match find_file_name(infile) {
        Some(span) => span,
        None => return None,
    };
    let mut name = String::from_str(infile.substring_char(s, e));
    Some(name.add_extension("to.exe"))
}

/// What the executable helpers below do to a path held as text.
pub trait PathBufUtils: Sized + View<V = Seq<char>> {
    /// The path with `ext` added after its extension, or as its extension
    /// where it has none: `file` gives `file.sh`, `file2.tar` gives `file2.tar.xz`.
    fn add_extension(&mut self, ext: &str) -> (r: Self)
        ensures
            r@ == with_added_extension(old(self)@, ext@),
            final(self)@ == old(self)@;

    /// Whether the path runs as a program without a search of `$PATH`.
    fn is_nopath_exec(&self) -> (r: bool)
        ensures
            r == runs_without_search(self@);

    /// The path, with `./` in front unless it runs without a search of `$PATH`.
    fn to_nopath_exec(&self) -> (r: Self)
        ensures
            r@ == runnable_path(self@);
}


impl PathBufUtils for String {
    fn add_extension(&mut self, ext: &str) -> (r: String) {
        let added = match extension(self.as_str()) {
            Some(old_ext) => {
                let mut e = old_ext;
                e.append(".");
                e.append(ext);
                proof {
                    reveal_strlit(".");
                }
                e
            },
            None => String::from_str(ext),
        };
        set_extension(self.as_str(), added.as_str())
    }

    fn is_nopath_exec(&self) -> (r: bool) {
        let p = self.as_str();
        let n = p.unicode_len();
        if n == 0 {
            return false;
        }
        let c0 = p.get_char(0);
        if c0 == '/' {
            return true;
        }
        if c0 != '.' {
            proof {
                if leads_with_segment(p@, seq!['.']) {
                    lemma_segment_chars(p@, seq!['.']);
                }
                if leads_with_segment(p@, seq!['.', '.']) {
                    lemma_segment_chars(p@, seq!['.', '.']);
                }
            }
            return false;
        }
        if n == 1 {
            assert(p@ =~= seq!['.']);
            return true;
        }
        let c1 = p.get_char(1);
        if c1 == '/' {
            assert(p@.subrange(0, 1) =~= seq!['.']);
            return true;
        }
        if c1 != '.' {
            proof {
                if leads_with_segment(p@, seq!['.', '.']) {
                    lemma_segment_chars(p@, seq!['.', '.']);
                }
            }
            return false;
        }
        if n == 2 {
            assert(p@ =~= seq!['.', '.']);
            return true;
        }
        let c2 = p.get_char(2);
        assert(p@.subrange(0, 2) =~= seq!['.', '.']);
        c2 == '/'
    }

    fn to_nopath_exec(&self) -> (r: String) {
        if self.is_nopath_exec() {
            self.clone()
        } else {
            let mut r = String::from_str("./");
            proof {
                reveal_strlit("./");
            }
            r.append(self.as_str());
            r
        }
    }
}

} // verus!
