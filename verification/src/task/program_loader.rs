//! Stored program manifests: the `ares-exec-v1` text format and program
//! discovery under `/bin/`.
//!
//! A manifest is a sequence of lines. The first line is the format tag
//! `ares-exec-v1`; every further line that is not blank is `key=value` with one
//! of the keys `name`, `kind`, `entry` and `description`.

use vstd::prelude::*;
use vstd::utf8::*;
use crate::storage::{
    MemoryBlockDevice, SimpleFs, listed_paths, list_files, read_file, StorageError, EntryView,
};

verus! {

#[derive(Debug, Clone, Copy, PartialEq, Eq, Structural)]
pub enum ProgramKind {
    BuiltinAlias,
}

#[derive(Debug, Clone, PartialEq, Eq)]
pub struct ProgramManifest {
    pub name: String,
    pub kind: ProgramKind,
    pub entry: String,
    pub description: String,
}

#[derive(Debug, Clone, PartialEq, Eq)]
pub struct LoadedProgram {
    pub name: String,
    pub source_path: String,
    pub kind: ProgramKind,
    pub entry: String,
    pub description: String,
}

#[derive(Debug, Clone, Copy, PartialEq, Eq, Structural)]
pub enum ProgramLoadError {
    InvalidVersion,
    MissingName,
    MissingEntry,
    UnsupportedKind,
    InvalidField,
    Storage,
    NotFound,
}

#[derive(Debug, Clone, Copy, PartialEq, Eq, Structural)]
pub struct LoaderStatus {
    pub program_count: usize,
    pub launch_count: u64,
    pub failed_launch_count: u64,
}

// ───────────────────────── the manifest format ─────────────────────────

/// The manifest's fields as character sequences.
pub struct ManifestView {
    pub name: Seq<char>,
    pub kind: ProgramKind,
    pub entry: Seq<char>,
    pub description: Seq<char>,
}

/// Index of the first occurrence of `c` in `s`.
pub open spec fn find_char(s: Seq<char>, c: char) -> Option<int>
    decreases s.len(),
{
    if s.len() == 0 {
        None
    } else if s[0] == c {
        Some(0)
    } else {
        match find_char(s.drop_first(), c) {
            Some(i) => Some(i + 1),
            None => None,
        }
    }
}

/// A line that ended with a line feed loses one trailing carriage return.
pub open spec fn strip_cr(line: Seq<char>) -> Seq<char> {
    if line.len() > 0 && line.last() == '\r' {
        line.drop_last()
    } else {
        line
    }
}

/// The lines of `s`: split at each line feed; a final line feed does not start an
/// extra empty line.
pub open spec fn text_lines(s: Seq<char>) -> Seq<Seq<char>>
    decreases s.len(),
{
    if s.len() == 0 {
        Seq::empty()
    } else {
        match find_char(s, '\n') {
            None => seq![s],
            Some(i) => {
                proof {
                    lemma_find_char_bounds(s, '\n');
                }
                seq![strip_cr(s.subrange(0, i))] + text_lines(s.subrange(i + 1, s.len() as int))
            },
        }
    }
}

/// Unicode `White_Space` characters.
pub open spec fn is_ws(c: char) -> bool {
    ||| '\t' <= c <= '\r'
    ||| c == ' '
    ||| c == '\u{85}'
    ||| c == '\u{a0}'
    ||| c == '\u{1680}'
    ||| '\u{2000}' <= c <= '\u{200a}'
    ||| c == '\u{2028}'
    ||| c == '\u{2029}'
    ||| c == '\u{202f}'
    ||| c == '\u{205f}'
    ||| c == '\u{3000}'
}

pub open spec fn blank(line: Seq<char>) -> bool {
    forall|i: int| 0 <= i < line.len() ==> is_ws(#[trigger] line[i])
}

/// The fields gathered so far.
pub struct FieldsView {
    pub name: Option<Seq<char>>,
    pub kind: Option<ProgramKind>,
    pub entry: Option<Seq<char>>,
    pub description: Seq<char>,
}

pub open spec fn no_fields() -> FieldsView {
    FieldsView { name: None, kind: None, entry: None, description: Seq::empty() }
}

/// The effect of one field line.
pub open spec fn field_step(st: FieldsView, line: Seq<char>) -> Result<FieldsView, ProgramLoadError> {
    if blank(line) {
        Ok(st)
    } else {
        match find_char(line, '=') {
            None => Err(ProgramLoadError::InvalidField),
            Some(i) => {
                let key = line.subrange(0, i);
                let value = line.subrange(i + 1, line.len() as int);
                if key == "name"@ && value.len() > 0 {
                    Ok(FieldsView { name: Some(value), ..st })
                } else if key == "kind"@ && value == "builtin-alias"@ {
                    Ok(FieldsView { kind: Some(ProgramKind::BuiltinAlias), ..st })
                } else if key == "kind"@ {
                    Err(ProgramLoadError::UnsupportedKind)
                } else if key == "entry"@ && value.len() > 0 {
                    Ok(FieldsView { entry: Some(value), ..st })
                } else if key == "description"@ {
                    Ok(FieldsView { description: value, ..st })
                } else {
                    Err(ProgramLoadError::InvalidField)
                }
            },
        }
    }
}

/// The fields of a sequence of field lines, or the first error.
pub open spec fn scan_fields(lines: Seq<Seq<char>>) -> Result<FieldsView, ProgramLoadError>
    decreases lines.len(),
{
    if lines.len() == 0 {
        Ok(no_fields())
    } else {
        match scan_fields(lines.drop_last()) {
            Ok(st) => field_step(st, lines.last()),
            Err(e) => Err(e),
        }
    }
}

pub open spec fn finish_fields(st: FieldsView) -> Result<ManifestView, ProgramLoadError> {
    match st.name {
        None => Err(ProgramLoadError::MissingName),
        Some(name) => match st.kind {
            None => Err(ProgramLoadError::UnsupportedKind),
            Some(kind) => match st.entry {
                None => Err(ProgramLoadError::MissingEntry),
                Some(entry) => Ok(ManifestView { name, kind, entry, description: st.description }),
            },
        },
    }
}

/// What parsing the manifest text `s` gives.
pub open spec fn manifest_result(s: Seq<char>) -> Result<ManifestView, ProgramLoadError> {
    let lines = text_lines(s);
    if lines.len() == 0 || lines[0] != "ares-exec-v1"@ {
        Err(ProgramLoadError::InvalidVersion)
    } else {
        match scan_fields(lines.drop_first()) {
            Ok(st) => finish_fields(st),
            Err(e) => Err(e),
        }
    }
}

pub open spec fn manifest_matches(m: ProgramManifest, v: ManifestView) -> bool {
    m.name@ == v.name && m.kind == v.kind && m.entry@ == v.entry && m.description@ == v.description
}

proof fn lemma_scan_err_persists(lines: Seq<Seq<char>>, k: int)
    requires
        0 <= k <= lines.len(),
        scan_fields(lines.subrange(0, k)) is Err,
    ensures
        scan_fields(lines) == scan_fields(lines.subrange(0, k)),
    decreases lines.len() - k,
{
    if k < lines.len() {
        assert(lines.subrange(0, k + 1).drop_last() =~= lines.subrange(0, k));
        lemma_scan_err_persists(lines, k + 1);
    } else {
        assert(lines.subrange(0, k) =~= lines);
    }
}

pub proof fn lemma_find_char_bounds(s: Seq<char>, c: char)
    ensures
        match find_char(s, c) {
            Some(i) => 0 <= i < s.len() && s[i] == c && forall|j: int| 0 <= j < i ==> #[trigger] s[j] != c,
            None => forall|j: int| 0 <= j < s.len() ==> #[trigger] s[j] != c,
        },
    decreases s.len(),
{
    if s.len() > 0 {
        lemma_find_char_bounds(s.drop_first(), c);
        if s[0] != c {
            match find_char(s.drop_first(), c) {
                Some(i) => {
                    assert forall|j: int| 0 <= j < i + 1 implies #[trigger] s[j] != c by {
                        if j > 0 {
                            assert(s[j] == s.drop_first()[j - 1]);
                        }
                    }
                },
                None => {
                    assert forall|j: int| 0 <= j < s.len() implies #[trigger] s[j] != c by {
                        if j > 0 {
                            assert(s[j] == s.drop_first()[j - 1]);
                        }
                    }
                },
            }
        }
    }
}

// ─────────────────────────── character helpers ───────────────────────────

fn chars_of(s: &str) -> (r: Vec<char>)
    ensures
        r@ == s@,
{
    let n = s.unicode_len();
    let mut out: Vec<char> = Vec::new();
    let mut i: usize = 0;
    while i < n
        invariant
            n == s@.len(),
            i <= n,
            out@ == s@.subrange(0, i as int),
        decreases n - i,
    {
        let c = s.get_char(i);
        out.push(c);
        assert(out@ =~= s@.subrange(0, i as int + 1));
        i = i + 1;
    }
    assert(out@ =~= s@);
    out
}

/// Whether `c` is a Unicode white-space character.
pub fn is_whitespace_char(c: char) -> (r: bool)
    ensures
        r == is_ws(c),
{
    ('\t' <= c && c <= '\r') || c == ' ' || c == '\u{85}' || c == '\u{a0}' || c == '\u{1680}' || ('\u{2000}'
        <= c && c <= '\u{200a}') || c == '\u{2028}' || c == '\u{2029}' || c == '\u{202f}' || c == '\u{205f}'
        || c == '\u{3000}'
}

/// Whether `cs[from..to]` equals `lit`.
fn range_eq(cs: &Vec<char>, from: usize, to: usize, lit: &str) -> (r: bool)
    requires
        from <= to <= cs@.len(),
    ensures
        r == (cs@.subrange(from as int, to as int) == lit@),
{
    let n = lit.unicode_len();
    if to - from != n {
        return false;
    }
    let mut i: usize = 0;
    while i < n
        invariant
            n == lit@.len(),
            from <= to <= cs@.len(),
            to - from == n,
            i <= n,
            forall|j: int| 0 <= j < i ==> cs@[from + j] == lit@[j],
        decreases n - i,
    {
        if cs[from + i] != lit.get_char(i) {
            assert(cs@.subrange(from as int, to as int)[i as int] != lit@[i as int]);
            return false;
        }
        i = i + 1;
    }
    assert(cs@.subrange(from as int, to as int) =~= lit@);
    true
}

fn find_from(cs: &Vec<char>, from: usize, to: usize, c: char) -> (r: Option<usize>)
    requires
        from <= to <= cs@.len(),
    ensures
        match find_char(cs@.subrange(from as int, to as int), c) {
            Some(i) => r == Some((from + i) as usize),
            None => r is None,
        },
{
    let ghost s = cs@.subrange(from as int, to as int);
    proof {
        lemma_find_char_bounds(s, c);
    }
    let mut i: usize = from;
    while i < to
        invariant
            from <= i <= to <= cs@.len(),
            s == cs@.subrange(from as int, to as int),
            forall|j: int| from <= j < i ==> cs@[j] != c,
        decreases to - i,
    {
        if cs[i] == c {
            proof {
                lemma_find_char_bounds(s, c);
                match find_char(s, c) {
                    Some(k) => {
                        assert(s[i - from] == c);
                        if k < i - from {
                            assert(cs@[from + k] == c);
                        }
                    },
                    None => {
                        assert(s[i - from] == c);
                    },
                }
            }
            return Some(i);
        }
        i = i + 1;
    }
    proof {
        lemma_find_char_bounds(s, c);
        match find_char(s, c) {
            Some(k) => {
                assert(cs@[from + k] == s[k]);
            },
            None => {},
        }
    }
    None
}

fn range_blank(cs: &Vec<char>, from: usize, to: usize) -> (r: bool)
    requires
        from <= to <= cs@.len(),
    ensures
        r == blank(cs@.subrange(from as int, to as int)),
{
    let mut i: usize = from;
    while i < to
        invariant
            from <= i <= to <= cs@.len(),
            forall|j: int| from <= j < i ==> is_ws(#[trigger] cs@[j]),
        decreases to - i,
    {
        if !is_whitespace_char(cs[i]) {
            assert(!is_ws(cs@.subrange(from as int, to as int)[i - from]));
            return false;
        }
        i = i + 1;
    }
    assert forall|j: int| 0 <= j < to - from implies is_ws(#[trigger] cs@.subrange(from as int, to as int)[j]) by {
        assert(cs@.subrange(from as int, to as int)[j] == cs@[from + j]);
    }
    true
}

fn substring(s: &str, cs: &Vec<char>, from: usize, to: usize) -> (r: String)
    requires
        cs@ == s@,
        from <= to <= cs@.len(),
    ensures
        r@ == s@.subrange(from as int, to as int),
{
    s.substring_char(from, to).to_owned()
}

struct Fields {
    name: Option<String>,
    kind: Option<ProgramKind>,
    entry: Option<String>,
    description: String,
}

spec fn fields_view(f: Fields) -> FieldsView {
    FieldsView {
        name: match f.name {
            Some(n) => Some(n@),
            None => None,
        },
        kind: f.kind,
        entry: match f.entry {
            Some(e) => Some(e@),
            None => None,
        },
        description: f.description@,
    }
}

/// Applies one field line `s[from..to]` to `f`.
fn apply_field(s: &str, cs: &Vec<char>, from: usize, to: usize, f: Fields) -> (r: Result<Fields, ProgramLoadError>)
    requires
        cs@ == s@,
        from <= to <= cs@.len(),
    ensures
        match field_step(fields_view(f), cs@.subrange(from as int, to as int)) {
            Ok(v) => r is Ok && fields_view(r->Ok_0) == v,
            Err(e) => r is Err && r->Err_0 == e,
        },
{
    let ghost line = cs@.subrange(from as int, to as int);
    if range_blank(cs, from, to) {
        return Ok(f);
    }
    let eq = match find_from(cs, from, to, '=') {
        Some(i) => i,
        None => return Err(ProgramLoadError::InvalidField),
    };
    proof {
        lemma_find_char_bounds(line, '=');
        let k = find_char(line, '=')->Some_0;
        assert(line.subrange(0, k) =~= cs@.subrange(from as int, eq as int));
        assert(line.subrange(k + 1, line.len() as int) =~= cs@.subrange(eq + 1, to as int));
    }
    let vstart = eq + 1;
    let value_len = to - vstart;
    if range_eq(cs, from, eq, "name") && value_len > 0 {
        Ok(Fields { name: Some(substring(s, cs, vstart, to)), ..f })
    } else if range_eq(cs, from, eq, "kind") && range_eq(cs, vstart, to, "builtin-alias") {
        Ok(Fields { kind: Some(ProgramKind::BuiltinAlias), ..f })
    } else if range_eq(cs, from, eq, "kind") {
        Err(ProgramLoadError::UnsupportedKind)
    } else if range_eq(cs, from, eq, "entry") && value_len > 0 {
        Ok(Fields { entry: Some(substring(s, cs, vstart, to)), ..f })
    } else if range_eq(cs, from, eq, "description") {
        Ok(Fields { description: substring(s, cs, vstart, to), ..f })
    } else {
        Err(ProgramLoadError::InvalidField)
    }
}

/// End of the line starting at `start` (exclusive, carriage return stripped when a
/// line feed follows) and the start of the next line.
fn line_bounds(cs: &Vec<char>, start: usize) -> (r: (usize, usize))
    requires
        start < cs@.len(),
    ensures
        ({
            let rest = cs@.subrange(start as int, cs@.len() as int);
            let (end, next) = r;
            &&& start <= end <= next <= cs@.len()
            &&& next > start
            &&& text_lines(rest) == seq![cs@.subrange(start as int, end as int)] + text_lines(
                cs@.subrange(next as int, cs@.len() as int),
            )
        }),
{
    let n = cs.len();
    let ghost rest = cs@.subrange(start as int, n as int);
    match find_from(cs, start, n, '\n') {
        None => {
            assert(text_lines(cs@.subrange(n as int, n as int)) =~= Seq::<Seq<char>>::empty());
            assert(text_lines(rest) =~= seq![cs@.subrange(start as int, n as int)]);
            (n, n)
        },
        Some(nl) => {
            proof {
                lemma_find_char_bounds(rest, '\n');
                let k = nl - start;
                assert(rest.subrange(0, k) =~= cs@.subrange(start as int, nl as int));
                assert(rest.subrange(k + 1, rest.len() as int) =~= cs@.subrange(nl + 1, n as int));
            }
            let end = if nl > start && cs[nl - 1] == '\r' {
                proof {
                    assert(cs@.subrange(start as int, nl as int).drop_last() =~= cs@.subrange(
                        start as int,
                        nl - 1,
                    ));
                }
                nl - 1
            } else {
                nl
            };
            (end, nl + 1)
        },
    }
}

/// Parses manifest text in the `ares-exec-v1` format.
pub fn parse_manifest(contents: &str) -> (r: Result<ProgramManifest, ProgramLoadError>)
    ensures
        match manifest_result(contents@) {
            Ok(v) => r is Ok && manifest_matches(r->Ok_0, v),
            Err(e) => r is Err && r->Err_0 == e,
        },
{
    let cs = chars_of(contents);
    let n = cs.len();
    let ghost all = text_lines(cs@);
    if n == 0 {
        assert(text_lines(cs@) =~= Seq::<Seq<char>>::empty());
        return Err(ProgramLoadError::InvalidVersion);
    }
    let (end0, mut pos) = line_bounds(&cs, 0);
    assert(cs@.subrange(0, n as int) =~= cs@);
    if !range_eq(&cs, 0, end0, "ares-exec-v1") {
        return Err(ProgramLoadError::InvalidVersion);
    }
    let ghost fields_lines = all.drop_first();
    let mut f = Fields { name: None, kind: None, entry: None, description: String::new() };
    let ghost mut done: Seq<Seq<char>> = Seq::empty();
    assert(fields_lines =~= done + text_lines(cs@.subrange(pos as int, n as int)));
    while pos < n
        invariant
            cs@ == contents@,
            n == cs@.len(),
            pos <= n,
            all == text_lines(contents@),
            all.len() > 0 && all[0] == "ares-exec-v1"@,
            fields_lines == all.drop_first(),
            fields_lines == done + text_lines(cs@.subrange(pos as int, n as int)),
            scan_fields(done) == Ok::<FieldsView, ProgramLoadError>(fields_view(f)),
        decreases n - pos,
    {
        let (end, next) = line_bounds(&cs, pos);
        let ghost line = cs@.subrange(pos as int, end as int);
        match apply_field(contents, &cs, pos, end, f) {
            Ok(g) => {
                proof {
                    assert(done.push(line).drop_last() =~= done);
                    assert(fields_lines =~= done.push(line) + text_lines(cs@.subrange(next as int, n as int)));
                    done = done.push(line);
                }
                f = g;
            },
            Err(e) => {
                proof {
                    let d2 = done.push(line);
                    assert(d2.drop_last() =~= done);
                    assert(fields_lines.subrange(0, d2.len() as int) =~= d2);
                    lemma_scan_err_persists(fields_lines, d2.len() as int);
                }
                return Err(e);
            },
        }
        pos = next;
    }
    assert(text_lines(cs@.subrange(n as int, n as int)) =~= Seq::<Seq<char>>::empty());
    assert(done =~= fields_lines);
    let name = match f.name {
        Some(name) => name,
        None => return Err(ProgramLoadError::MissingName),
    };
    let kind = match f.kind {
        Some(kind) => kind,
        None => return Err(ProgramLoadError::UnsupportedKind),
    };
    let entry = match f.entry {
        Some(entry) => entry,
        None => return Err(ProgramLoadError::MissingEntry),
    };
    Ok(ProgramManifest { name, kind, entry, description: f.description })
}

// ───────────────────────── building manifests ─────────────────────────

/// The manifest text written for a builtin program.
pub open spec fn builtin_manifest_text(name: Seq<char>, description: Seq<char>) -> Seq<char> {
    "ares-exec-v1\nname="@ + name + "\nkind=builtin-alias\nentry="@ + name + "\ndescription="@ + description
}

/// The manifest text that makes `name` a builtin alias of itself.
pub fn manifest_for_builtin(name: &str, description: &str) -> (r: String)
    ensures
        r@ == builtin_manifest_text(name@, description@),
{
    let mut out = "ares-exec-v1\nname=".to_owned();
    out.append(name);
    out.append("\nkind=builtin-alias\nentry=");
    out.append(name);
    out.append("\ndescription=");
    out.append(description);
    out
}

/// Whether `a` and `b` hold the same characters.
pub fn str_eq(a: &str, b: &str) -> (r: bool)
    ensures
        r == (a@ == b@),
{
    let n = a.unicode_len();
    if n != b.unicode_len() {
        return false;
    }
    let mut i: usize = 0;
    while i < n
        invariant
            n == a@.len() == b@.len(),
            i <= n,
            forall|j: int| 0 <= j < i ==> a@[j] == b@[j],
        decreases n - i,
    {
        if a.get_char(i) != b.get_char(i) {
            return false;
        }
        i = i + 1;
    }
    assert(a@ =~= b@);
    true
}

// ───────────────────────── program discovery ─────────────────────────

/// What is known of a discovered program.
pub struct ProgramView {
    pub name: Seq<char>,
    pub source_path: Seq<char>,
    pub kind: ProgramKind,
    pub entry: Seq<char>,
    pub description: Seq<char>,
}

pub open spec fn program_view(p: LoadedProgram) -> ProgramView {
    ProgramView {
        name: p.name@,
        source_path: p.source_path@,
        kind: p.kind,
        entry: p.entry@,
        description: p.description@,
    }
}

pub open spec fn in_bin(path: Seq<char>) -> bool {
    path.len() >= 5 && path.subrange(0, 5) == "/bin/"@
}

/// The program stored at `path` (UTF-8 bytes), if `path` is under `/bin/` and holds a
/// valid manifest.
pub open spec fn program_at(fs: SimpleFs<MemoryBlockDevice>, path: Seq<u8>) -> Option<ProgramView> {
    let p = decode_utf8(path);
    if !in_bin(p) {
        None
    } else {
        match fs.spec_read_file(path) {
            Ok(Some(data)) => match manifest_result(decode_utf8(data)) {
                Ok(m) => Some(
                    ProgramView {
                        name: m.name,
                        source_path: p,
                        kind: m.kind,
                        entry: m.entry,
                        description: m.description,
                    },
                ),
                Err(_) => None,
            },
            _ => None,
        }
    }
}

/// The programs found at `paths`, in order.
pub open spec fn programs_at(fs: SimpleFs<MemoryBlockDevice>, paths: Seq<Seq<u8>>) -> Seq<ProgramView>
    decreases paths.len(),
{
    if paths.len() == 0 {
        Seq::empty()
    } else {
        programs_at(fs, paths.drop_last()) + match program_at(fs, paths.last()) {
            Some(p) => seq![p],
            None => Seq::empty(),
        }
    }
}

/// The programs of a filesystem, in directory order; none when the directory cannot
/// be read.
pub open spec fn discovered(fs: SimpleFs<MemoryBlockDevice>) -> Seq<ProgramView> {
    match fs.spec_directory() {
        Ok(es) => programs_at(fs, listed_paths(es)),
        Err(_) => Seq::empty(),
    }
}

fn starts_with_bin(path: &str) -> (r: bool)
    ensures
        r == in_bin(path@),
{
    let cs = chars_of(path);
    cs.len() >= 5 && range_eq(&cs, 0, 5, "/bin/")
}

/// Every program stored under `/bin/` with a valid manifest, in directory order.
pub fn discover_programs(fs: &SimpleFs<MemoryBlockDevice>) -> (r: Vec<LoadedProgram>)
    ensures
        r@.map_values(|p: LoadedProgram| program_view(p)) == discovered(*fs),
{
    let files = match list_files(fs) {
        Ok(files) => files,
        Err(_) => {
            let out: Vec<LoadedProgram> = Vec::new();
            assert(out@.map_values(|p: LoadedProgram| program_view(p)) =~= Seq::<ProgramView>::empty());
            return out;
        },
    };
    let ghost paths = listed_paths(fs.spec_directory()->Ok_0);
    let mut programs: Vec<LoadedProgram> = Vec::new();
    let mut i: usize = 0;
    assert(programs@.map_values(|p: LoadedProgram| program_view(p)) =~= programs_at(*fs, paths.subrange(0, 0)));
    while i < files.len()
        invariant
            files@.map_values(|s: String| encode_utf8(s@)) == paths,
            fs.spec_directory() is Ok,
            paths == listed_paths(fs.spec_directory()->Ok_0),
            i <= files@.len(),
            programs@.map_values(|p: LoadedProgram| program_view(p)) == programs_at(*fs, paths.subrange(0, i as int)),
        decreases files@.len() - i,
    {
        let path = &files[i];
        let ghost pb = paths[i as int];
        proof {
            assert(pb == encode_utf8(path@));
            encode_utf8_decode_utf8(path@);
            assert(paths.subrange(0, i as int + 1).drop_last() =~= paths.subrange(0, i as int));
            assert(paths.subrange(0, i as int + 1).last() == pb);
        }
        let ghost before = programs@.map_values(|p: LoadedProgram| program_view(p));
        if starts_with_bin(path.as_str()) {
            match read_file(fs, path.as_str()) {
                Ok(Some(contents)) => {
                    proof {
                        encode_utf8_decode_utf8(contents@);
                    }
                    match parse_manifest(contents.as_str()) {
                        Ok(manifest) => {
                            let source_path = path.clone();
                            programs.push(
                                LoadedProgram {
                                    name: manifest.name,
                                    source_path,
                                    kind: manifest.kind,
                                    entry: manifest.entry,
                                    description: manifest.description,
                                },
                            );
                            assert(programs@.map_values(|p: LoadedProgram| program_view(p)) =~= before.push(
                                program_at(*fs, pb)->Some_0,
                            ));
                        },
                        Err(_) => {},
                    }
                },
                _ => {},
            }
        }
        i = i + 1;
    }
    assert(paths.subrange(0, i as int) =~= paths);
    programs
}

/// Index of the first program named `name`.
pub open spec fn first_named(ps: Seq<ProgramView>, name: Seq<char>) -> Option<int> {
    if exists|i: int| 0 <= i < ps.len() && (#[trigger] ps[i]).name == name {
        Some(
            choose|i: int|
                0 <= i < ps.len() && (#[trigger] ps[i]).name == name && forall|j: int|
                    0 <= j < i ==> (#[trigger] ps[j]).name != name,
        )
    } else {
        None
    }
}

proof fn lemma_first_named(ps: Seq<ProgramView>, name: Seq<char>, i: int)
    requires
        0 <= i < ps.len(),
        ps[i].name == name,
        forall|j: int| 0 <= j < i ==> (#[trigger] ps[j]).name != name,
    ensures
        first_named(ps, name) == Some(i),
{
    let k = choose|k: int|
        0 <= k < ps.len() && (#[trigger] ps[k]).name == name && forall|j: int| 0 <= j < k ==> (#[trigger] ps[j]).name != name;
    assert(ps[i].name == name);
    if k < i {
        assert(ps[k].name != name);
    } else if k > i {
        assert(ps[i].name != name);
    }
}

/// The first discovered program named `name`.
pub fn resolve_program(fs: &SimpleFs<MemoryBlockDevice>, name: &str) -> (r: Result<LoadedProgram, ProgramLoadError>)
    ensures
        match first_named(discovered(*fs), name@) {
            Some(i) => r is Ok && program_view(r->Ok_0) == discovered(*fs)[i],
            None => r == Err::<LoadedProgram, ProgramLoadError>(ProgramLoadError::NotFound),
        },
{
    let programs = discover_programs(fs);
    let ghost ps = programs@.map_values(|p: LoadedProgram| program_view(p));
    let mut i: usize = 0;
    while i < programs.len()
        invariant
            ps == programs@.map_values(|p: LoadedProgram| program_view(p)),
            ps == discovered(*fs),
            i <= programs@.len(),
            forall|j: int| 0 <= j < i ==> (#[trigger] ps[j]).name != name@,
        decreases programs@.len() - i,
    {
        if str_eq(programs[i].name.as_str(), name) {
            proof {
                assert(ps[i as int] == program_view(programs@[i as int]));
                lemma_first_named(ps, name@, i as int);
            }
            let found = programs[i].clone_program();
            return Ok(found);
        }
        assert(ps[i as int] == program_view(programs@[i as int]));
        i = i + 1;
    }
    Err(ProgramLoadError::NotFound)
}

impl LoadedProgram {
    /// A copy with the same fields.
    pub fn clone_program(&self) -> (r: LoadedProgram)
        ensures
            program_view(r) == program_view(*self),
    {
        LoadedProgram {
            name: self.name.clone(),
            source_path: self.source_path.clone(),
            kind: self.kind,
            entry: self.entry.clone(),
            description: self.description.clone(),
        }
    }
}

/// Details of the program named `name`.
pub fn program_info(fs: &SimpleFs<MemoryBlockDevice>, name: &str) -> (r: Result<LoadedProgram, ProgramLoadError>)
    ensures
        match first_named(discovered(*fs), name@) {
            Some(i) => r is Ok && program_view(r->Ok_0) == discovered(*fs)[i],
            None => r == Err::<LoadedProgram, ProgramLoadError>(ProgramLoadError::NotFound),
        },
{
    resolve_program(fs, name)
}

/// Launch counters of the program loader; each wraps on overflow.
#[derive(Debug, Clone, Copy, PartialEq, Eq, Structural)]
pub struct LaunchCounters {
    pub launch_count: u64,
    pub failed_launch_count: u64,
}

pub open spec fn wrapping_inc(x: u64) -> u64 {
    if x == u64::MAX {
        0
    } else {
        (x + 1) as u64
    }
}

impl LaunchCounters {
    pub fn new() -> (r: Self)
        ensures
            r == (LaunchCounters { launch_count: 0, failed_launch_count: 0 }),
    {
        LaunchCounters { launch_count: 0, failed_launch_count: 0 }
    }
}

/// Number of discovered programs and the launch counters.
pub fn status(fs: &SimpleFs<MemoryBlockDevice>, counters: &LaunchCounters) -> (r: LoaderStatus)
    ensures
        r == (LoaderStatus {
            program_count: discovered(*fs).len() as usize,
            launch_count: counters.launch_count,
            failed_launch_count: counters.failed_launch_count,
        }),
{
    let programs = discover_programs(fs);
    proof {
        assert(programs@.map_values(|p: LoadedProgram| program_view(p)).len() == programs@.len());
    }
    LoaderStatus {
        program_count: programs.len(),
        launch_count: counters.launch_count,
        failed_launch_count: counters.failed_launch_count,
    }
}

pub fn record_launch_success(counters: &mut LaunchCounters)
    ensures
        *final(counters) == (LaunchCounters {
            launch_count: wrapping_inc(old(counters).launch_count),
            ..*old(counters)
        }),
{
    counters.launch_count = counters.launch_count.wrapping_add(1);
}

pub fn record_launch_failure(counters: &mut LaunchCounters)
    ensures
        *final(counters) == (LaunchCounters {
            failed_launch_count: wrapping_inc(old(counters).failed_launch_count),
            ..*old(counters)
        }),
{
    counters.failed_launch_count = counters.failed_launch_count.wrapping_add(1);
}

/// Whether some discovered program is `echo` at `/bin/echo` with entry `echo`.
pub open spec fn has_echo(ps: Seq<ProgramView>) -> bool {
    exists|i: int|
        0 <= i < ps.len() && (#[trigger] ps[i]).name == "echo"@ && ps[i].source_path == "/bin/echo"@
            && ps[i].entry == "echo"@
}

/// Checks that `echo` is installed and that launching it echoes its argument.
pub fn phase9_smoke_check(k: &mut crate::kernel_state::KernelState) -> (r: bool)
    requires
        old(k).wf(),
    ensures
        final(k).wf(),
        crate::task::userspace::run_state(*old(k), *final(k), "echo"@, seq!["phase9-loader"@]),
        r == (has_echo(discovered(old(k).fs)) && crate::task::userspace::run_result(
            *old(k),
            "echo"@,
            seq!["phase9-loader"@],
        ) == Ok::<Seq<char>, Seq<char>>("phase9-loader"@) && old(k).launches.launch_count < u64::MAX
            && discovered(old(k).fs).len() >= 4),
{
    let before = status(&k.fs, &k.launches).launch_count;
    let programs = discover_programs(&k.fs);
    let ghost ps = programs@.map_values(|p: LoadedProgram| program_view(p));
    let mut has = false;
    let mut i: usize = 0;
    while i < programs.len()
        invariant
            ps == programs@.map_values(|p: LoadedProgram| program_view(p)),
            i <= programs@.len(),
            has == exists|j: int|
                0 <= j < i && (#[trigger] ps[j]).name == "echo"@ && ps[j].source_path == "/bin/echo"@
                    && ps[j].entry == "echo"@,
        decreases programs@.len() - i,
    {
        let p = &programs[i];
        assert(ps[i as int] == program_view(programs@[i as int]));
        if str_eq(p.name.as_str(), "echo") && str_eq(p.source_path.as_str(), "/bin/echo") && str_eq(
            p.entry.as_str(),
            "echo",
        ) {
            has = true;
        }
        i = i + 1;
    }
    let args: [&str; 1] = ["phase9-loader"];
    let ghost k0 = *k;
    proof {
        assert(crate::task::userspace::views(args@) =~= seq!["phase9-loader"@]);
    }
    let launch_ok = match crate::task::userspace::run_program(k, "echo", &args) {
        Ok(output) => str_eq(output.as_str(), "phase9-loader"),
        Err(_) => false,
    };
    let after = status(&k.fs, &k.launches);
    proof {
        if launch_ok {
            assert(k.launches.launch_count == wrapping_inc(k0.launches.launch_count));
        }
    }
    has && launch_ok && after.launch_count > before && after.program_count >= 4
}

// ───────────────────────── the round-trip law ─────────────────────────

proof fn lemma_find_char_after(a: Seq<char>, b: Seq<char>, c: char)
    requires
        forall|j: int| 0 <= j < a.len() ==> a[j] != c,
    ensures
        find_char(a + b, c) == match find_char(b, c) {
            Some(i) => Some(i + a.len()),
            None => None::<int>,
        },
    decreases a.len(),
{
    if a.len() > 0 {
        assert((a + b).drop_first() =~= a.drop_first() + b);
        lemma_find_char_after(a.drop_first(), b, c);
        assert((a + b)[0] == a[0]);
    } else {
        assert(a + b =~= b);
    }
}

proof fn lemma_text_lines_step(a: Seq<char>, b: Seq<char>)
    requires
        forall|j: int| 0 <= j < a.len() ==> a[j] != '\n',
    ensures
        text_lines(a + seq!['\n'] + b) == seq![strip_cr(a)] + text_lines(b),
{
    let s = a + seq!['\n'] + b;
    assert(s =~= a + (seq!['\n'] + b));
    lemma_find_char_after(a, seq!['\n'] + b, '\n');
    assert(find_char(seq!['\n'] + b, '\n') == Some(0int));
    assert(s.subrange(0, a.len() as int) =~= a);
    assert(s.subrange(a.len() as int + 1, s.len() as int) =~= b);
}

proof fn lemma_text_lines_single(a: Seq<char>)
    requires
        a.len() > 0,
        forall|j: int| 0 <= j < a.len() ==> a[j] != '\n',
    ensures
        text_lines(a) == seq![a],
{
    lemma_find_char_bounds(a, '\n');
}

/// A field line `key=value` whose key has no `=` and does not start with white space.
proof fn lemma_field_line(key: Seq<char>, value: Seq<char>)
    requires
        key.len() > 0,
        !is_ws(key[0]),
        forall|j: int| 0 <= j < key.len() ==> key[j] != '=',
    ensures
        ({
            let line = key + seq!['='] + value;
            &&& !blank(line)
            &&& find_char(line, '=') == Some(key.len() as int)
            &&& line.subrange(0, key.len() as int) == key
            &&& line.subrange(key.len() as int + 1, line.len() as int) == value
        }),
{
    let line = key + seq!['='] + value;
    assert(line =~= key + (seq!['='] + value));
    lemma_find_char_after(key, seq!['='] + value, '=');
    assert(find_char(seq!['='] + value, '=') == Some(0int));
    assert(line[0] == key[0]);
    assert(line.subrange(0, key.len() as int) =~= key);
    assert(line.subrange(key.len() as int + 1, line.len() as int) =~= value);
}

/// A manifest written for a builtin parses back to that builtin, provided the name is
/// not empty, neither text holds a line feed and the name does not end with a carriage
/// return (which line splitting would drop).
pub proof fn law_builtin_manifest_round_trip(name: Seq<char>, description: Seq<char>)
    requires
        name.len() > 0,
        name.last() != '\r',
        forall|j: int| 0 <= j < name.len() ==> name[j] != '\n',
        forall|j: int| 0 <= j < description.len() ==> description[j] != '\n',
    ensures
        manifest_result(builtin_manifest_text(name, description)) == Ok::<ManifestView, ProgramLoadError>(
            ManifestView { name, kind: ProgramKind::BuiltinAlias, entry: name, description },
        ),
{
    reveal_strlit("ares-exec-v1\nname=");
    reveal_strlit("\nkind=builtin-alias\nentry=");
    reveal_strlit("\ndescription=");
    reveal_strlit("ares-exec-v1");
    reveal_strlit("name");
    reveal_strlit("kind");
    reveal_strlit("builtin-alias");
    reveal_strlit("entry");
    reveal_strlit("description");
    let tag = "ares-exec-v1"@;
    let kn = "name"@;
    let kk = "kind"@;
    let ke = "entry"@;
    let kd = "description"@;
    let ba = "builtin-alias"@;
    let b = kn + seq!['='] + name;
    let c = kk + seq!['='] + ba;
    let d = ke + seq!['='] + name;
    let e = kd + seq!['='] + description;
    let text = builtin_manifest_text(name, description);
    let t4 = e;
    let t3 = d + seq!['\n'] + t4;
    let t2 = c + seq!['\n'] + t3;
    let t1 = b + seq!['\n'] + t2;
    let t0 = tag + seq!['\n'] + t1;
    assert(text =~= t0);
    assert forall|j: int| 0 <= j < b.len() implies b[j] != '\n' by {
        if j >= 5 {
            assert(b[j] == name[j - 5]);
        }
    }
    assert forall|j: int| 0 <= j < d.len() implies d[j] != '\n' by {
        if j >= 6 {
            assert(d[j] == name[j - 6]);
        }
    }
    assert forall|j: int| 0 <= j < e.len() implies e[j] != '\n' by {
        if j >= 12 {
            assert(e[j] == description[j - 12]);
        }
    }
    lemma_text_lines_step(tag, t1);
    lemma_text_lines_step(b, t2);
    lemma_text_lines_step(c, t3);
    lemma_text_lines_step(d, t4);
    lemma_text_lines_single(e);
    assert(b.last() == name.last());
    assert(d.last() == name.last());
    assert(strip_cr(tag) == tag);
    assert(strip_cr(b) == b);
    assert(strip_cr(c) == c);
    assert(strip_cr(d) == d);
    let lines = text_lines(text);
    assert(lines =~= seq![tag, b, c, d, e]);
    let fl = lines.drop_first();
    assert(fl =~= seq![b, c, d, e]);
    lemma_field_line(kn, name);
    lemma_field_line(kk, ba);
    lemma_field_line(ke, name);
    lemma_field_line(kd, description);
    assert(kk != kn) by {
        assert(kk[0] != kn[0]);
    }
    assert(ke != kn) by {
        assert(ke[0] != kn[0]);
    }
    assert(ke != kk) by {
        assert(ke[0] != kk[0]);
    }
    assert(kd != kn) by {
        assert(kd[0] != kn[0]);
    }
    assert(kd != kk) by {
        assert(kd[0] != kk[0]);
    }
    assert(kd != ke) by {
        assert(kd[0] != ke[0]);
    }
    let s1 = FieldsView { name: Some(name), ..no_fields() };
    let s2 = FieldsView { kind: Some(ProgramKind::BuiltinAlias), ..s1 };
    let s3 = FieldsView { entry: Some(name), ..s2 };
    let s4 = FieldsView { description, ..s3 };
    assert(field_step(no_fields(), b) == Ok::<FieldsView, ProgramLoadError>(s1));
    assert(field_step(s1, c) == Ok::<FieldsView, ProgramLoadError>(s2));
    assert(field_step(s2, d) == Ok::<FieldsView, ProgramLoadError>(s3));
    assert(field_step(s3, e) == Ok::<FieldsView, ProgramLoadError>(s4));
    assert(fl.drop_last() =~= seq![b, c, d]);
    assert(fl.drop_last().drop_last() =~= seq![b, c]);
    assert(fl.drop_last().drop_last().drop_last() =~= seq![b]);
    assert(fl.drop_last().drop_last().drop_last().drop_last() =~= Seq::<Seq<char>>::empty());
    assert(seq![b].drop_last() =~= Seq::<Seq<char>>::empty());
    assert(scan_fields(Seq::<Seq<char>>::empty()) == Ok::<FieldsView, ProgramLoadError>(no_fields()));
    assert(seq![b].last() == b);
    assert(scan_fields(seq![b]) == Ok::<FieldsView, ProgramLoadError>(s1));
    assert(seq![b, c].drop_last() =~= seq![b]);
    assert(scan_fields(seq![b, c]) == Ok::<FieldsView, ProgramLoadError>(s2));
    assert(seq![b, c, d].drop_last() =~= seq![b, c]);
    assert(scan_fields(seq![b, c, d]) == Ok::<FieldsView, ProgramLoadError>(s3));
    assert(scan_fields(fl) == Ok::<FieldsView, ProgramLoadError>(s4));
}

} // verus!
