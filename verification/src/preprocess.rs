//! The preprocessor: `#import <module>` directives resolved by textual
//! inclusion, de-duplicated by module name, against an in-memory table
//! of standard modules first and a table of file modules otherwise.
//!
//! A host that keeps modules on disk feeds the file table: when
//! preprocessing fails with `IoError` for a path, the host reads that
//! file, adds it to the table, and preprocesses again.

use vstd::prelude::*;
use crate::errors::AsmError;
use crate::opcodes::str_eq;
use crate::strutil::line_tokens;
use crate::strutil::tokenize;
use crate::strutil::views;

verus! {

/// A table of named module texts: standard modules by name, or file
/// modules by path.
#[derive(Debug)]
pub struct ModuleTable {
    pub entries: Vec<(String, String)>,
}

/// The names of modules already included, each once.
#[derive(Debug)]
pub struct IncludedSet {
    pub names: Vec<String>,
}

/// The text a table binds a name to: the first entry with that name.
pub open spec fn lookup_mod(t: Seq<(Seq<char>, Seq<char>)>, name: Seq<char>) -> Option<Seq<char>>
    decreases t.len(),
{
    if t.len() == 0 {
        None
    } else if t[0].0 == name {
        Some(t[0].1)
    } else {
        lookup_mod(t.skip(1), name)
    }
}

impl ModuleTable {
    /// The table's entries as character sequences.
    pub open spec fn view(&self) -> Seq<(Seq<char>, Seq<char>)> {
        self.entries@.map_values(|e: (String, String)| (e.0@, e.1@))
    }

    /// An empty table.
    pub fn new() -> (r: ModuleTable)
        ensures
            r@ =~= Seq::<(Seq<char>, Seq<char>)>::empty(),
    {
        ModuleTable { entries: Vec::new() }
    }

    /// Adds a module text under a name.
    pub fn insert(&mut self, name: &str, text: &str)
        ensures
            final(self)@ == old(self)@.push((name@, text@)),
    {
        self.entries.push((String::from_str(name), String::from_str(text)));
        proof {
            assert(self@ =~= old(self)@.push((name@, text@)));
        }
    }

    /// Looks a name up.
    pub fn get(&self, name: &str) -> (r: Option<String>)
        ensures
            match r {
                Some(text) => lookup_mod(self@, name@) == Some(text@),
                None => lookup_mod(self@, name@) is None,
            },
    {
        proof {
            assert(self@.skip(0) =~= self@);
        }
        let mut i: usize = 0;
        while i < self.entries.len()
            invariant
                0 <= i <= self.entries@.len(),
                lookup_mod(self@, name@) == lookup_mod(self@.skip(i as int), name@),
            decreases self.entries@.len() - i,
        {
            proof {
                assert(self@.skip(i as int)[0] == self@[i as int]);
            }
            if str_eq(self.entries[i].0.as_str(), name) {
                return Some(self.entries[i].1.clone());
            }
            proof {
                assert(self@.skip(i as int).skip(1) =~= self@.skip(i + 1));
            }
            i = i + 1;
        }
        proof {
            assert(self@.skip(self@.len() as int) =~= Seq::<(Seq<char>, Seq<char>)>::empty());
        }
        None
    }
}

impl IncludedSet {
    /// The included names as character sequences.
    pub open spec fn view(&self) -> Seq<Seq<char>> {
        views(self.names@)
    }

    /// An empty set.
    pub fn new() -> (r: IncludedSet)
        ensures
            r@ =~= Seq::<Seq<char>>::empty(),
    {
        IncludedSet { names: Vec::new() }
    }

    /// Whether a module name was already included.
    pub fn contains(&self, name: &str) -> (r: bool)
        ensures
            r == self@.contains(name@),
    {
        let mut i: usize = 0;
        while i < self.names.len()
            invariant
                0 <= i <= self.names@.len(),
                forall|j: int| 0 <= j < i ==> self@[j] != name@,
            decreases self.names@.len() - i,
        {
            if str_eq(self.names[i].as_str(), name) {
                proof {
                    assert(self@[i as int] == name@);
                }
                return true;
            }
            i = i + 1;
        }
        proof {
            if self@.contains(name@) {
                let j = choose|j: int| 0 <= j < self@.len() && self@[j] == name@;
                assert(self@[j] != name@);
            }
        }
        false
    }

    /// Marks a module name as included.
    pub fn insert(&mut self, name: &str)
        ensures
            final(self)@ == old(self)@.push(name@),
    {
        self.names.push(String::from_str(name));
        proof {
            assert(self@ =~= old(self)@.push(name@));
        }
    }
}

/// A line list with its first line extended on the left.
pub open spec fn prepend_line(p: Seq<char>, ls: Seq<Seq<char>>) -> Seq<Seq<char>> {
    seq![p + ls[0]] + ls.skip(1)
}

/// The lines of a module text: split at `\n`, with a `\r` immediately
/// before a `\n` dropped; the result always holds at least one line.
pub open spec fn split_lines(s: Seq<char>) -> Seq<Seq<char>>
    decreases s.len(),
{
    if s.len() == 0 {
        seq![Seq::<char>::empty()]
    } else if s.len() >= 2 && s[0] == '\r' && s[1] == '\n' {
        seq![Seq::<char>::empty()] + split_lines(s.skip(2))
    } else if s[0] == '\n' {
        seq![Seq::<char>::empty()] + split_lines(s.skip(1))
    } else {
        prepend_line(seq![s[0]], split_lines(s.skip(1)))
    }
}

/// Splitting always yields at least one line.
pub proof fn lemma_split_lines_nonempty(s: Seq<char>)
    ensures
        split_lines(s).len() >= 1,
    decreases s.len(),
{
    if s.len() == 0 {
    } else if s.len() >= 2 && s[0] == '\r' && s[1] == '\n' {
        lemma_split_lines_nonempty(s.skip(2));
    } else if s[0] == '\n' {
        lemma_split_lines_nonempty(s.skip(1));
    } else {
        lemma_split_lines_nonempty(s.skip(1));
    }
}

proof fn lemma_prepend_assoc(p: Seq<char>, q: Seq<char>, ls: Seq<Seq<char>>)
    requires
        ls.len() >= 1,
    ensures
        prepend_line(p, prepend_line(q, ls)) == prepend_line(p + q, ls),
{
    assert(prepend_line(q, ls)[0] == q + ls[0]);
    assert(prepend_line(p, prepend_line(q, ls)).len() == ls.len());
    assert(p + (q + ls[0]) =~= (p + q) + ls[0]);
    assert(prepend_line(p, prepend_line(q, ls)) =~= prepend_line(p + q, ls));
}

proof fn lemma_prepend_empty(ls: Seq<Seq<char>>)
    requires
        ls.len() >= 1,
    ensures
        prepend_line(Seq::<char>::empty(), ls) == ls,
{
    assert(Seq::<char>::empty() + ls[0] =~= ls[0]);
    assert(prepend_line(Seq::<char>::empty(), ls) =~= ls);
}

/// Splits a module text into lines: a `\r\n` pair or a lone `\n` ends a
/// line. The result is always `Ok` and holds at least one line.
pub fn load_source_from_string(module_string: &str) -> (r: Result<Vec<String>, AsmError>)
    ensures
        r matches Ok(lines) && views(lines@) == split_lines(module_string@),
{
    let n = module_string.unicode_len();
    let ghost full = module_string@;
    let mut out: Vec<String> = Vec::new();
    let mut start: usize = 0;
    let mut i: usize = 0;
    proof {
        lemma_split_lines_nonempty(full);
        assert(full.skip(0) =~= full);
        assert(full.subrange(0, 0) =~= Seq::<char>::empty());
        lemma_prepend_empty(split_lines(full));
        assert(views(out@) =~= Seq::<Seq<char>>::empty());
    }
    while i < n
        invariant
            0 <= start <= i <= n,
            n == full.len(),
            full == module_string@,
            split_lines(full) == views(out@)
                + prepend_line(full.subrange(start as int, i as int),
                    split_lines(full.skip(i as int))),
        decreases n - i,
    {
        proof {
            lemma_split_lines_nonempty(full.skip(i as int));
            lemma_split_lines_nonempty(full.skip(i + 1));
            assert(full.skip(i as int)[0] == full[i as int]);
        }
        let c = module_string.get_char(i);
        if c == '\r' && i + 1 < n && module_string.get_char(i + 1) == '\n' {
            let line = module_string.substring_char(start, i).to_owned();
            proof {
                lemma_split_lines_nonempty(full.skip(i + 2));
                assert(full.skip(i as int)[1] == full[i + 1]);
                assert(full.skip(i as int).skip(2) =~= full.skip(i + 2));
                assert(split_lines(full.skip(i as int))
                    == seq![Seq::<char>::empty()] + split_lines(full.skip(i + 2)));
                let p = full.subrange(start as int, i as int);
                let rest2 = split_lines(full.skip(i + 2));
                assert(prepend_line(p, seq![Seq::<char>::empty()] + rest2)
                    =~= seq![p] + rest2) by {
                    assert((seq![Seq::<char>::empty()] + rest2)[0]
                        =~= Seq::<char>::empty());
                    assert(p + Seq::<char>::empty() =~= p);
                    assert((seq![Seq::<char>::empty()] + rest2).skip(1) =~= rest2);
                }
                assert(views(out@.push(line)) =~= views(out@).push(p));
                assert(views(out@) + (seq![p] + rest2)
                    =~= views(out@).push(p) + rest2);
                lemma_prepend_empty(rest2);
                assert(full.subrange(i + 2, i + 2) =~= Seq::<char>::empty());
            }
            out.push(line);
            i = i + 2;
            start = i;
        } else if c == '\n' {
            let line = module_string.substring_char(start, i).to_owned();
            proof {
                assert(full.skip(i as int).skip(1) =~= full.skip(i + 1));
                assert(split_lines(full.skip(i as int))
                    == seq![Seq::<char>::empty()] + split_lines(full.skip(i + 1)));
                let p = full.subrange(start as int, i as int);
                let rest1 = split_lines(full.skip(i + 1));
                assert(prepend_line(p, seq![Seq::<char>::empty()] + rest1)
                    =~= seq![p] + rest1) by {
                    assert((seq![Seq::<char>::empty()] + rest1)[0]
                        =~= Seq::<char>::empty());
                    assert(p + Seq::<char>::empty() =~= p);
                    assert((seq![Seq::<char>::empty()] + rest1).skip(1) =~= rest1);
                }
                assert(views(out@.push(line)) =~= views(out@).push(p));
                assert(views(out@) + (seq![p] + rest1)
                    =~= views(out@).push(p) + rest1);
                lemma_prepend_empty(rest1);
                assert(full.subrange(i + 1, i + 1) =~= Seq::<char>::empty());
            }
            out.push(line);
            i = i + 1;
            start = i;
        } else {
            proof {
                assert(full.skip(i as int).skip(1) =~= full.skip(i + 1));
                if i + 1 < n {
                    assert(full.skip(i as int)[1] == full[i + 1]);
                }
                assert(split_lines(full.skip(i as int))
                    == prepend_line(seq![full[i as int]], split_lines(full.skip(i + 1))));
                lemma_prepend_assoc(full.subrange(start as int, i as int),
                    seq![full[i as int]], split_lines(full.skip(i + 1)));
                assert(full.subrange(start as int, i as int) + seq![full[i as int]]
                    =~= full.subrange(start as int, i + 1));
            }
            i = i + 1;
        }
    }
    let line = module_string.substring_char(start, n).to_owned();
    proof {
        assert(full.skip(n as int) =~= Seq::<char>::empty());
        assert(split_lines(full.skip(n as int)) =~= seq![Seq::<char>::empty()]);
        let p = full.subrange(start as int, n as int);
        assert(prepend_line(p, seq![Seq::<char>::empty()]) =~= seq![p]) by {
            assert(p + Seq::<char>::empty() =~= p);
            assert(seq![Seq::<char>::empty()].skip(1) =~= Seq::<Seq<char>>::empty());
        }
        assert(views(out@.push(line)) =~= views(out@).push(p));
        assert(views(out@) + seq![p] =~= views(out@).push(p));
    }
    let mut out2 = out;
    out2.push(line);
    Ok(out2)
}

/// The directory part of a module path: everything before the last `/`,
/// or the empty string when there is none.
pub open spec fn parent_dir(p: Seq<char>) -> Seq<char>
    decreases p.len(),
{
    if p.len() == 0 {
        Seq::empty()
    } else if p.last() == '/' {
        p.take(p.len() - 1)
    } else {
        parent_dir(p.take(p.len() - 1))
    }
}

/// The directory part of a module path.
pub fn parent_dir_of(p: &str) -> (r: String)
    ensures
        r@ == parent_dir(p@),
{
    let n = p.unicode_len();
    proof {
        assert(p@.take(p@.len() as int) =~= p@);
    }
    let mut i: usize = n;
    while i > 0
        invariant
            0 <= i <= n,
            n == p@.len(),
            parent_dir(p@) == parent_dir(p@.take(i as int)),
        decreases i,
    {
        proof {
            assert(p@.take(i as int).last() == p@[i - 1]);
            assert(p@.take(i as int).take(i - 1) =~= p@.take(i - 1));
        }
        if p.get_char(i - 1) == '/' {
            proof {
                assert(parent_dir(p@.take(i as int)) == p@.take(i - 1));
                assert(p@.take(i - 1) =~= p@.subrange(0, i - 1));
            }
            return p.substring_char(0, i - 1).to_owned();
        }
        i = i - 1;
    }
    proof {
        assert(p@.take(0) =~= Seq::<char>::empty());
        assert(parent_dir(p@) =~= Seq::<char>::empty());
    }
    String::new()
}

/// A module path from a directory and a module name.
pub open spec fn path_join(dir: Seq<char>, name: Seq<char>) -> Seq<char> {
    dir + "/"@ + name
}

/// A module path built from a directory and a module name.
pub fn path_join_of(dir: &str, name: &str) -> (r: String)
    ensures
        r@ == path_join(dir@, name@),
{
    let mut s = String::from_str(dir);
    s.append("/");
    s.append(name);
    s
}

/// A preprocessing error: an `#import` with no module name on the given
/// 1-based line, or a module that is in no table and must come from the
/// host's filesystem.
pub enum PpErrV {
    MissingName(nat),
    Io(Seq<char>),
}

/// Whether an executable error value carries the given preprocessing
/// error.
pub open spec fn pp_err_is(e: AsmError, ev: PpErrV) -> bool {
    match (e, ev) {
        (AsmError::ParseError { line, msg }, PpErrV::MissingName(l)) => line as nat == l
            && msg@ == "invalid import - module is missing"@,
        (AsmError::IoError { path }, PpErrV::Io(p)) => path@ == p,
        _ => false,
    }
}

/// Whether a line is an `#import` directive.
pub open spec fn is_import_line(line: Seq<char>) -> bool {
    line_tokens(line).len() >= 1 && line_tokens(line)[0] == "#import"@
}

/// The lines of one module preprocessed with the given recursion fuel:
/// the kept lines, the expanded blocks to append after them, and the
/// grown included set. `None` means the fuel ran out. Imports whose
/// module is already included are dropped; others expand through the
/// standard table or, by path, the file table, and the expansion is
/// appended after the module's own lines.
pub open spec fn pp_lines(
    fuel: nat,
    lines: Seq<Seq<char>>,
    ln: nat,
    dir: Seq<char>,
    inc: Seq<Seq<char>>,
    stdt: Seq<(Seq<char>, Seq<char>)>,
    fst: Seq<(Seq<char>, Seq<char>)>,
) -> Option<Result<(Seq<Seq<char>>, Seq<Seq<char>>, Seq<Seq<char>>), PpErrV>>
    decreases fuel, lines.len(), 2int,
{
    if lines.len() == 0 {
        Some(Ok((Seq::empty(), Seq::empty(), inc)))
    } else {
        let line = lines[0];
        let toks = line_tokens(line);
        if toks.len() >= 1 && toks[0] == "#import"@ {
            if toks.len() < 2 {
                Some(Err(PpErrV::MissingName(ln)))
            } else {
                match pp_import(fuel, toks[1], dir, inc, stdt, fst) {
                    None => None,
                    Some(Err(e)) => Some(Err(e)),
                    Some(Ok(b)) => match pp_lines(fuel, lines.skip(1), ln + 1, dir, b.1,
                        stdt, fst) {
                        None => None,
                        Some(Err(e)) => Some(Err(e)),
                        Some(Ok(r)) => Some(Ok((r.0, b.0 + r.1, r.2))),
                    },
                }
            }
        } else {
            match pp_lines(fuel, lines.skip(1), ln + 1, dir, inc, stdt, fst) {
                None => None,
                Some(Err(e)) => Some(Err(e)),
                Some(Ok(r)) => Some(Ok((seq![line] + r.0, r.1, r.2))),
            }
        }
    }
}

/// One `#import` resolved: nothing when the module is already included,
/// else its text from the standard table by name or from the file table
/// by path, expanded into a block of lines.
pub open spec fn pp_import(
    fuel: nat,
    name: Seq<char>,
    dir: Seq<char>,
    inc: Seq<Seq<char>>,
    stdt: Seq<(Seq<char>, Seq<char>)>,
    fst: Seq<(Seq<char>, Seq<char>)>,
) -> Option<Result<(Seq<Seq<char>>, Seq<Seq<char>>), PpErrV>>
    decreases fuel, 0int, 1int,
{
    if inc.contains(name) {
        Some(Ok((Seq::empty(), inc)))
    } else {
        match lookup_mod(stdt, name) {
            Some(content) => pp_module(fuel, content, name, Seq::empty(), inc, stdt, fst),
            None => {
                let path = path_join(dir, name);
                match lookup_mod(fst, path) {
                    None => Some(Err(PpErrV::Io(path))),
                    Some(content) => pp_module(fuel, content, name, parent_dir(path), inc,
                        stdt, fst),
                }
            },
        }
    }
}

/// A whole module included under its name: nothing when already
/// included, else its lines preprocessed with the name marked included.
pub open spec fn pp_module(
    fuel: nat,
    content: Seq<char>,
    name: Seq<char>,
    dir: Seq<char>,
    inc: Seq<Seq<char>>,
    stdt: Seq<(Seq<char>, Seq<char>)>,
    fst: Seq<(Seq<char>, Seq<char>)>,
) -> Option<Result<(Seq<Seq<char>>, Seq<Seq<char>>), PpErrV>>
    decreases fuel, 0int, 0int,
{
    if inc.contains(name) {
        Some(Ok((Seq::empty(), inc)))
    } else if fuel == 0 {
        None
    } else {
        match pp_lines((fuel - 1) as nat, split_lines(content), 1, dir, inc.push(name),
            stdt, fst) {
            None => None,
            Some(Err(e)) => Some(Err(e)),
            Some(Ok(r)) => Some(Ok((r.0 + r.1, r.2))),
        }
    }
}


/// The names of a table's entries, in order.
pub open spec fn table_names(t: Seq<(Seq<char>, Seq<char>)>) -> Seq<Seq<char>> {
    t.map_values(|e: (Seq<char>, Seq<char>)| e.0)
}

/// Every suffix of a path, including the path itself and the empty one.
pub open spec fn suffixes(k: Seq<char>) -> Seq<Seq<char>> {
    Seq::new((k.len() + 1) as nat, |i: int| k.skip(i))
}

/// Every suffix of every path in a table.
pub open spec fn all_suffixes(t: Seq<(Seq<char>, Seq<char>)>) -> Seq<Seq<char>>
    decreases t.len(),
{
    if t.len() == 0 {
        Seq::empty()
    } else {
        suffixes(t[0].0) + all_suffixes(t.skip(1))
    }
}

/// Every module name an import could ever resolve: the standard names,
/// and the suffixes of the file paths (a file import's name is the part
/// of its path after the directory).
pub open spec fn candidate_names(
    stdt: Seq<(Seq<char>, Seq<char>)>,
    fst: Seq<(Seq<char>, Seq<char>)>,
) -> Seq<Seq<char>> {
    table_names(stdt) + all_suffixes(fst)
}

/// How many candidate names are not yet included: every successful
/// expansion includes a fresh candidate, so this bounds the recursion.
pub open spec fn count_fresh(s: Seq<Seq<char>>, inc: Seq<Seq<char>>) -> nat
    decreases s.len(),
{
    if s.len() == 0 {
        0
    } else {
        (if inc.contains(s[0]) {
            0nat
        } else {
            1nat
        }) + count_fresh(s.skip(1), inc)
    }
}

/// The preprocessor's termination measure.
pub open spec fn pp_measure(
    stdt: Seq<(Seq<char>, Seq<char>)>,
    fst: Seq<(Seq<char>, Seq<char>)>,
    inc: Seq<Seq<char>>,
) -> nat {
    count_fresh(candidate_names(stdt, fst), inc)
}

/// Membership in a sequence with one name appended.
pub proof fn lemma_push_contains(s: Seq<Seq<char>>, x: Seq<char>)
    ensures
        forall|y: Seq<char>| s.push(x).contains(y) <==> (s.contains(y) || y == x),
{
    assert forall|y: Seq<char>| s.push(x).contains(y)
        implies (s.contains(y) || y == x) by {
        let j = choose|j: int| 0 <= j < s.push(x).len() && s.push(x)[j] == y;
        if j < s.len() {
            assert(s[j] == y);
        }
    }
    assert forall|y: Seq<char>| (s.contains(y) || y == x)
        implies s.push(x).contains(y) by {
        if s.contains(y) {
            let j = choose|j: int| 0 <= j < s.len() && s[j] == y;
            assert(s.push(x)[j] == y);
        } else {
            assert(s.push(x)[s.len() as int] == x);
        }
    }
}

/// Growing the included set never uncovers fresh names.
pub proof fn lemma_count_mono(s: Seq<Seq<char>>, inc1: Seq<Seq<char>>, inc2: Seq<Seq<char>>)
    requires
        forall|y: Seq<char>| inc1.contains(y) ==> inc2.contains(y),
    ensures
        count_fresh(s, inc2) <= count_fresh(s, inc1),
    decreases s.len(),
{
    if s.len() > 0 {
        lemma_count_mono(s.skip(1), inc1, inc2);
    }
}

/// Including a fresh candidate strictly shrinks the measure.
pub proof fn lemma_count_strict(s: Seq<Seq<char>>, inc: Seq<Seq<char>>, x: Seq<char>)
    requires
        s.contains(x),
        !inc.contains(x),
    ensures
        count_fresh(s, inc.push(x)) < count_fresh(s, inc),
    decreases s.len(),
{
    lemma_push_contains(inc, x);
    if s[0] == x {
        lemma_count_mono(s.skip(1), inc, inc.push(x));
        assert(inc.push(x).contains(s[0]));
    } else {
        let j = choose|j: int| 0 <= j < s.len() && s[j] == x;
        assert(s.skip(1)[j - 1] == x);
        assert(s.skip(1).contains(x));
        lemma_count_strict(s.skip(1), inc, x);
    }
}

/// A name the standard table defines is a candidate.
pub proof fn lemma_std_in_candidates(
    stdt: Seq<(Seq<char>, Seq<char>)>,
    fst: Seq<(Seq<char>, Seq<char>)>,
    n: Seq<char>,
)
    requires
        lookup_mod(stdt, n) is Some,
    ensures
        candidate_names(stdt, fst).contains(n),
    decreases stdt.len(),
{
    if stdt.len() > 0 {
        if stdt[0].0 == n {
            assert(candidate_names(stdt, fst)[0] == n);
        } else {
            lemma_std_in_candidates(stdt.skip(1), fst, n);
            let cs = candidate_names(stdt.skip(1), fst);
            let j = choose|j: int| 0 <= j < cs.len() && cs[j] == n;
            if j < table_names(stdt.skip(1)).len() {
                assert(table_names(stdt)[j + 1] == table_names(stdt.skip(1))[j]);
                assert(candidate_names(stdt, fst)[j + 1] == n);
            } else {
                let k = j - table_names(stdt.skip(1)).len();
                assert(all_suffixes(fst)[k] == n);
                assert(candidate_names(stdt, fst)[table_names(stdt).len() + k] == n);
            }
        }
    }
}

/// Every suffix of a path the file table defines is a candidate.
pub proof fn lemma_fs_suffix_in_all(fst: Seq<(Seq<char>, Seq<char>)>, p: Seq<char>, i: int)
    requires
        lookup_mod(fst, p) is Some,
        0 <= i <= p.len(),
    ensures
        all_suffixes(fst).contains(p.skip(i)),
    decreases fst.len(),
{
    if fst.len() > 0 {
        if fst[0].0 == p {
            assert(suffixes(p)[i] == p.skip(i));
            assert(all_suffixes(fst)[i] == p.skip(i));
        } else {
            lemma_fs_suffix_in_all(fst.skip(1), p, i);
            let rest = all_suffixes(fst.skip(1));
            let j = choose|j: int| 0 <= j < rest.len() && rest[j] == p.skip(i);
            assert(all_suffixes(fst)[suffixes(fst[0].0).len() + j] == p.skip(i));
        }
    }
}

/// A name that resolves through the file table, under any directory, is
/// a candidate.
pub proof fn lemma_fs_in_candidates(
    stdt: Seq<(Seq<char>, Seq<char>)>,
    fst: Seq<(Seq<char>, Seq<char>)>,
    dir: Seq<char>,
    n: Seq<char>,
)
    requires
        lookup_mod(fst, path_join(dir, n)) is Some,
    ensures
        candidate_names(stdt, fst).contains(n),
{
    let p = path_join(dir, n);
    reveal_strlit("/");
    assert(("/"@).len() == 1);
    let i = dir.len() + 1;
    assert(p.skip(i as int) =~= n);
    lemma_fs_suffix_in_all(fst, p, i as int);
    let sfx = all_suffixes(fst);
    let j = choose|j: int| 0 <= j < sfx.len() && sfx[j] == n;
    assert(candidate_names(stdt, fst)[table_names(stdt).len() + j] == n);
}


/// More fuel never changes a result that was already reached.
pub proof fn lemma_pp_lines_fuel(
    f1: nat,
    f2: nat,
    lines: Seq<Seq<char>>,
    ln: nat,
    dir: Seq<char>,
    inc: Seq<Seq<char>>,
    stdt: Seq<(Seq<char>, Seq<char>)>,
    fst: Seq<(Seq<char>, Seq<char>)>,
)
    requires
        f1 <= f2,
        pp_lines(f1, lines, ln, dir, inc, stdt, fst) is Some,
    ensures
        pp_lines(f2, lines, ln, dir, inc, stdt, fst)
            == pp_lines(f1, lines, ln, dir, inc, stdt, fst),
    decreases f2, lines.len(), 2int,
{
    if lines.len() == 0 {
    } else {
        let toks = line_tokens(lines[0]);
        if toks.len() >= 1 && toks[0] == "#import"@ {
            if toks.len() >= 2 {
                match pp_import(f1, toks[1], dir, inc, stdt, fst) {
                    None => {},
                    Some(Err(_)) => {
                        lemma_pp_import_fuel(f1, f2, toks[1], dir, inc, stdt, fst);
                    },
                    Some(Ok(b)) => {
                        lemma_pp_import_fuel(f1, f2, toks[1], dir, inc, stdt, fst);
                        match pp_lines(f1, lines.skip(1), ln + 1, dir, b.1, stdt, fst) {
                            None => {},
                            _ => {
                                lemma_pp_lines_fuel(f1, f2, lines.skip(1), ln + 1, dir, b.1,
                                    stdt, fst);
                            },
                        }
                    },
                }
            }
        } else {
            match pp_lines(f1, lines.skip(1), ln + 1, dir, inc, stdt, fst) {
                None => {},
                _ => {
                    lemma_pp_lines_fuel(f1, f2, lines.skip(1), ln + 1, dir, inc, stdt, fst);
                },
            }
        }
    }
}

/// More fuel never changes a resolved import.
pub proof fn lemma_pp_import_fuel(
    f1: nat,
    f2: nat,
    name: Seq<char>,
    dir: Seq<char>,
    inc: Seq<Seq<char>>,
    stdt: Seq<(Seq<char>, Seq<char>)>,
    fst: Seq<(Seq<char>, Seq<char>)>,
)
    requires
        f1 <= f2,
        pp_import(f1, name, dir, inc, stdt, fst) is Some,
    ensures
        pp_import(f2, name, dir, inc, stdt, fst) == pp_import(f1, name, dir, inc, stdt, fst),
    decreases f2, 0int, 1int,
{
    if inc.contains(name) {
    } else {
        match lookup_mod(stdt, name) {
            Some(content) => {
                lemma_pp_module_fuel(f1, f2, content, name, Seq::empty(), inc, stdt, fst);
            },
            None => {
                let path = path_join(dir, name);
                match lookup_mod(fst, path) {
                    None => {},
                    Some(content) => {
                        lemma_pp_module_fuel(f1, f2, content, name, parent_dir(path), inc,
                            stdt, fst);
                    },
                }
            },
        }
    }
}

/// More fuel never changes an expanded module.
pub proof fn lemma_pp_module_fuel(
    f1: nat,
    f2: nat,
    content: Seq<char>,
    name: Seq<char>,
    dir: Seq<char>,
    inc: Seq<Seq<char>>,
    stdt: Seq<(Seq<char>, Seq<char>)>,
    fst: Seq<(Seq<char>, Seq<char>)>,
)
    requires
        f1 <= f2,
        pp_module(f1, content, name, dir, inc, stdt, fst) is Some,
    ensures
        pp_module(f2, content, name, dir, inc, stdt, fst)
            == pp_module(f1, content, name, dir, inc, stdt, fst),
    decreases f2, 0int, 0int,
{
    if inc.contains(name) {
    } else {
        lemma_pp_lines_fuel((f1 - 1) as nat, (f2 - 1) as nat, split_lines(content), 1, dir,
            inc.push(name), stdt, fst);
    }
}


/// Preprocesses the lines of one module from position `idx` on: kept
/// lines and expansion blocks to append, with imports resolved through
/// the two tables.
fn preprocess_rec(
    lines: &Vec<String>,
    idx: usize,
    dir: &str,
    included: &mut IncludedSet,
    stdt: &ModuleTable,
    fst: &ModuleTable,
) -> (r: Result<(Vec<String>, Vec<String>), AsmError>)
    requires
        idx <= lines@.len(),
    ensures
        forall|y: Seq<char>| old(included)@.contains(y) ==> final(included)@.contains(y),
        match r {
            Ok(ka) => exists|f: nat| #[trigger] pp_lines(f, views(lines@).skip(idx as int),
                (idx + 1) as nat, dir@, old(included)@, stdt@, fst@)
                == Some(Ok::<(Seq<Seq<char>>, Seq<Seq<char>>, Seq<Seq<char>>), PpErrV>(
                    (views(ka.0@), views(ka.1@), final(included)@))),
            Err(e) => exists|f: nat| match #[trigger] pp_lines(f, views(lines@).skip(
                idx as int), (idx + 1) as nat, dir@, old(included)@, stdt@, fst@) {
                Some(Err(ev)) => pp_err_is(e, ev),
                _ => false,
            },
        },
    decreases pp_measure(stdt@, fst@, included@), lines@.len() - idx, 3int,
{
    let ghost vlines = views(lines@).skip(idx as int);
    if idx == lines.len() {
        let empty_kept: Vec<String> = Vec::new();
        let empty_app: Vec<String> = Vec::new();
        proof {
            assert(vlines =~= Seq::<Seq<char>>::empty());
            assert(views(empty_kept@) =~= Seq::<Seq<char>>::empty());
            assert(pp_lines(0, vlines, (idx + 1) as nat, dir@, included@, stdt@, fst@)
                == Some(Ok::<(Seq<Seq<char>>, Seq<Seq<char>>, Seq<Seq<char>>), PpErrV>(
                    (Seq::empty(), Seq::empty(), included@))));
        }
        return Ok((empty_kept, empty_app));
    }
    proof {
        assert(vlines[0] == lines@[idx as int]@);
        assert(vlines.skip(1) =~= views(lines@).skip(idx as int + 1));
    }
    let toks = tokenize(lines[idx].as_str());
    let ghost vt = line_tokens(lines@[idx as int]@);
    proof {
        assert(views(toks@) == vt);
        if toks@.len() >= 1 {
            assert(vt[0] == toks@[0]@);
        }
        if toks@.len() >= 2 {
            assert(vt[1] == toks@[1]@);
        }
    }
    let is_import = toks.len() >= 1 && str_eq(toks[0].as_str(), "#import");
    if is_import {
        if toks.len() < 2 {
            proof {
                assert(pp_lines(0, vlines, (idx + 1) as nat, dir@, included@, stdt@, fst@)
                    == Some(Err::<(Seq<Seq<char>>, Seq<Seq<char>>, Seq<Seq<char>>), PpErrV>(
                        PpErrV::MissingName((idx + 1) as nat))));
            }
            return Err(AsmError::ParseError {
                line: idx + 1,
                msg: String::from_str("invalid import - module is missing"),
            });
        }
        let name = &toks[1];
        let ghost inc0 = included@;
        let block = match resolve_import(name, dir, included, stdt, fst) {
            Ok(b) => b,
            Err(e) => {
                proof {
                    let f1 = choose|f: nat| match #[trigger] pp_import(f, name@, dir@, inc0, stdt@,
                        fst@) {
                        Some(Err(ev)) => pp_err_is(e, ev),
                        _ => false,
                    };
                    assert(match pp_lines(f1, vlines, (idx + 1) as nat, dir@, inc0, stdt@,
                        fst@) {
                        Some(Err(ev)) => pp_err_is(e, ev),
                        _ => false,
                    });
                }
                return Err(e);
            },
        };
        let ghost inc1 = included@;
        proof {
            lemma_count_mono(candidate_names(stdt@, fst@), inc0, inc1);
        }
        let rest = match preprocess_rec(lines, idx + 1, dir, included, stdt, fst) {
            Ok(ka) => ka,
            Err(e) => {
                proof {
                    let f1 = choose|f: nat| #[trigger] pp_import(f, name@, dir@, inc0, stdt@, fst@)
                        == Some(Ok::<(Seq<Seq<char>>, Seq<Seq<char>>), PpErrV>(
                            (views(block@), inc1)));
                    let f2 = choose|f: nat| match #[trigger] pp_lines(f, views(lines@).skip(
                        idx as int + 1), (idx + 2) as nat, dir@, inc1, stdt@, fst@) {
                        Some(Err(ev)) => pp_err_is(e, ev),
                        _ => false,
                    };
                    let fb: nat = f1 + f2;
                    lemma_pp_import_fuel(f1, fb, name@, dir@, inc0, stdt@, fst@);
                    lemma_pp_lines_fuel(f2, fb, views(lines@).skip(idx as int + 1),
                        (idx + 2) as nat, dir@, inc1, stdt@, fst@);
                    assert(match pp_lines(fb, vlines, (idx + 1) as nat, dir@, inc0, stdt@,
                        fst@) {
                        Some(Err(ev)) => pp_err_is(e, ev),
                        _ => false,
                    });
                }
                return Err(e);
            },
        };
        let (kept, app1) = rest;
        let mut app = block;
        let mut app1m = app1;
        let ghost blockv = views(app@);
        let ghost app1v = views(app1m@);
        app.append(&mut app1m);
        proof {
            assert(views(app@) =~= blockv + app1v);
            let f1 = choose|f: nat| #[trigger] pp_import(f, name@, dir@, inc0, stdt@, fst@)
                == Some(Ok::<(Seq<Seq<char>>, Seq<Seq<char>>), PpErrV>((blockv, inc1)));
            let f2 = choose|f: nat| #[trigger] pp_lines(f, views(lines@).skip(idx as int + 1),
                (idx + 2) as nat, dir@, inc1, stdt@, fst@)
                == Some(Ok::<(Seq<Seq<char>>, Seq<Seq<char>>, Seq<Seq<char>>), PpErrV>(
                    (views(kept@), app1v, included@)));
            let fb: nat = f1 + f2;
            lemma_pp_import_fuel(f1, fb, name@, dir@, inc0, stdt@, fst@);
            lemma_pp_lines_fuel(f2, fb, views(lines@).skip(idx as int + 1),
                (idx + 2) as nat, dir@, inc1, stdt@, fst@);
            assert(pp_lines(fb, vlines, (idx + 1) as nat, dir@, inc0, stdt@, fst@)
                == Some(Ok::<(Seq<Seq<char>>, Seq<Seq<char>>, Seq<Seq<char>>), PpErrV>(
                    (views(kept@), views(app@), included@))));
        }
        Ok((kept, app))
    } else {
        let ghost inc0 = included@;
        let rest = match preprocess_rec(lines, idx + 1, dir, included, stdt, fst) {
            Ok(ka) => ka,
            Err(e) => {
                proof {
                    let f2 = choose|f: nat| match #[trigger] pp_lines(f, views(lines@).skip(
                        idx as int + 1), (idx + 2) as nat, dir@, inc0, stdt@, fst@) {
                        Some(Err(ev)) => pp_err_is(e, ev),
                        _ => false,
                    };
                    assert(match pp_lines(f2, vlines, (idx + 1) as nat, dir@, inc0, stdt@,
                        fst@) {
                        Some(Err(ev)) => pp_err_is(e, ev),
                        _ => false,
                    });
                }
                return Err(e);
            },
        };
        let (kept1, app) = rest;
        let mut kept: Vec<String> = Vec::new();
        kept.push(lines[idx].clone());
        let mut kept1m = kept1;
        let ghost kept1v = views(kept1m@);
        kept.append(&mut kept1m);
        proof {
            assert(views(kept@) =~= seq![vlines[0]] + kept1v);
            let f2 = choose|f: nat| #[trigger] pp_lines(f, views(lines@).skip(idx as int + 1),
                (idx + 2) as nat, dir@, inc0, stdt@, fst@)
                == Some(Ok::<(Seq<Seq<char>>, Seq<Seq<char>>, Seq<Seq<char>>), PpErrV>(
                    (kept1v, views(app@), included@)));
            assert(pp_lines(f2, vlines, (idx + 1) as nat, dir@, inc0, stdt@, fst@)
                == Some(Ok::<(Seq<Seq<char>>, Seq<Seq<char>>, Seq<Seq<char>>), PpErrV>(
                    (views(kept@), views(app@), included@))));
        }
        Ok((kept, app))
    }
}

/// Resolves one `#import`: nothing when the module is already included,
/// else its text from the standard table by name or the file table by
/// path, expanded into a block. A module in neither table fails with
/// `IoError` for its path, which a filesystem-backed host then supplies.
fn resolve_import(
    name: &String,
    dir: &str,
    included: &mut IncludedSet,
    stdt: &ModuleTable,
    fst: &ModuleTable,
) -> (r: Result<Vec<String>, AsmError>)
    ensures
        forall|y: Seq<char>| old(included)@.contains(y) ==> final(included)@.contains(y),
        match r {
            Ok(block) => exists|f: nat| #[trigger] pp_import(f, name@, dir@,
                old(included)@, stdt@, fst@)
                == Some(Ok::<(Seq<Seq<char>>, Seq<Seq<char>>), PpErrV>(
                    (views(block@), final(included)@))),
            Err(e) => exists|f: nat| match #[trigger] pp_import(f, name@, dir@,
                old(included)@, stdt@, fst@) {
                Some(Err(ev)) => pp_err_is(e, ev),
                _ => false,
            },
        },
    decreases pp_measure(stdt@, fst@, included@), 0int, 2int,
{
    if included.contains(name.as_str()) {
        let empty_block: Vec<String> = Vec::new();
        proof {
            assert(views(empty_block@) =~= Seq::<Seq<char>>::empty());
            assert(pp_import(0, name@, dir@, included@, stdt@, fst@)
                == Some(Ok::<(Seq<Seq<char>>, Seq<Seq<char>>), PpErrV>(
                    (Seq::empty(), included@))));
        }
        return Ok(empty_block);
    }
    match stdt.get(name.as_str()) {
        Some(content) => {
            proof {
                lemma_std_in_candidates(stdt@, fst@, name@);
                reveal_strlit("");
                assert(""@ =~= Seq::<char>::empty());
            }
            let r = expand_module(content.as_str(), name, "", included, stdt, fst);
            proof {
                match r {
                    Ok(ref block) => {
                        let f = choose|f: nat| #[trigger] pp_module(f, content@, name@, ""@,
                            old(included)@, stdt@, fst@)
                            == Some(Ok::<(Seq<Seq<char>>, Seq<Seq<char>>), PpErrV>(
                                (views(block@), included@)));
                        assert(pp_import(f, name@, dir@, old(included)@, stdt@, fst@)
                            == pp_module(f, content@, name@, Seq::empty(), old(included)@,
                                stdt@, fst@));
                    },
                    Err(ref e) => {
                        let f = choose|f: nat| match #[trigger] pp_module(f, content@, name@, ""@,
                            old(included)@, stdt@, fst@) {
                            Some(Err(ev)) => pp_err_is(*e, ev),
                            _ => false,
                        };
                        assert(pp_import(f, name@, dir@, old(included)@, stdt@, fst@)
                            == pp_module(f, content@, name@, Seq::empty(), old(included)@,
                                stdt@, fst@));
                    },
                }
            }
            r
        },
        None => {
            let path = path_join_of(dir, name.as_str());
            match fst.get(path.as_str()) {
                None => {
                    proof {
                        assert(match pp_import(0, name@, dir@, included@, stdt@, fst@) {
                            Some(Err(ev)) => ev == PpErrV::Io(path@),
                            _ => false,
                        });
                    }
                    Err(AsmError::IoError { path })
                },
                Some(content) => {
                    let parent = parent_dir_of(path.as_str());
                    proof {
                        lemma_fs_in_candidates(stdt@, fst@, dir@, name@);
                    }
                    let r = expand_module(content.as_str(), name, parent.as_str(),
                        included, stdt, fst);
                    proof {
                        match r {
                            Ok(ref block) => {
                                let f = choose|f: nat| #[trigger] pp_module(f, content@, name@,
                                    parent@, old(included)@, stdt@, fst@)
                                    == Some(Ok::<(Seq<Seq<char>>, Seq<Seq<char>>), PpErrV>(
                                        (views(block@), included@)));
                                assert(pp_import(f, name@, dir@, old(included)@, stdt@,
                                    fst@) == pp_module(f, content@, name@,
                                        parent_dir(path@), old(included)@, stdt@, fst@));
                            },
                            Err(ref e) => {
                                let f = choose|f: nat| match #[trigger] pp_module(f, content@, name@,
                                    parent@, old(included)@, stdt@, fst@) {
                                    Some(Err(ev)) => pp_err_is(*e, ev),
                                    _ => false,
                                };
                                assert(pp_import(f, name@, dir@, old(included)@, stdt@,
                                    fst@) == pp_module(f, content@, name@,
                                        parent_dir(path@), old(included)@, stdt@, fst@));
                            },
                        }
                    }
                    r
                },
            }
        },
    }
}

/// Includes one module under its name: nothing when already included,
/// else its lines split and preprocessed with the name marked included,
/// the kept lines followed by the appended blocks.
fn expand_module(
    content: &str,
    name: &String,
    dir: &str,
    included: &mut IncludedSet,
    stdt: &ModuleTable,
    fst: &ModuleTable,
) -> (r: Result<Vec<String>, AsmError>)
    requires
        old(included)@.contains(name@) || candidate_names(stdt@, fst@).contains(name@),
    ensures
        forall|y: Seq<char>| old(included)@.contains(y) ==> final(included)@.contains(y),
        match r {
            Ok(block) => exists|f: nat| #[trigger] pp_module(f, content@, name@, dir@,
                old(included)@, stdt@, fst@)
                == Some(Ok::<(Seq<Seq<char>>, Seq<Seq<char>>), PpErrV>(
                    (views(block@), final(included)@))),
            Err(e) => exists|f: nat| match #[trigger] pp_module(f, content@, name@, dir@,
                old(included)@, stdt@, fst@) {
                Some(Err(ev)) => pp_err_is(e, ev),
                _ => false,
            },
        },
    decreases pp_measure(stdt@, fst@, included@), 0int, 1int,
{
    if included.contains(name.as_str()) {
        let empty_block: Vec<String> = Vec::new();
        proof {
            assert(views(empty_block@) =~= Seq::<Seq<char>>::empty());
            assert(pp_module(0, content@, name@, dir@, included@, stdt@, fst@)
                == Some(Ok::<(Seq<Seq<char>>, Seq<Seq<char>>), PpErrV>(
                    (Seq::empty(), included@))));
        }
        return Ok(empty_block);
    }
    included.insert(name.as_str());
    proof {
        lemma_push_contains(old(included)@, name@);
        lemma_count_strict(candidate_names(stdt@, fst@), old(included)@, name@);
    }
    let lines = match load_source_from_string(content) {
        Ok(l) => l,
        Err(e) => {
            proof {
                assert(false);
            }
            return Err(e);
        },
    };
    let ghost inc1 = included@;
    let rest = match preprocess_rec(&lines, 0, dir, included, stdt, fst) {
        Ok(ka) => ka,
        Err(e) => {
            proof {
                let f = choose|f: nat| match #[trigger] pp_lines(f, views(lines@).skip(0), 1, dir@,
                    inc1, stdt@, fst@) {
                    Some(Err(ev)) => pp_err_is(e, ev),
                    _ => false,
                };
                assert(views(lines@).skip(0) =~= split_lines(content@));
                assert(match pp_module(f + 1, content@, name@, dir@, old(included)@, stdt@,
                    fst@) {
                    Some(Err(ev)) => pp_err_is(e, ev),
                    _ => false,
                });
            }
            return Err(e);
        },
    };
    let (mut kept, app) = rest;
    let mut appm = app;
    let ghost keptv = views(kept@);
    let ghost appv = views(appm@);
    kept.append(&mut appm);
    proof {
        assert(views(kept@) =~= keptv + appv);
        let f = choose|f: nat| #[trigger] pp_lines(f, views(lines@).skip(0), 1, dir@, inc1, stdt@,
            fst@) == Some(Ok::<(Seq<Seq<char>>, Seq<Seq<char>>, Seq<Seq<char>>), PpErrV>(
                (keptv, appv, included@)));
        assert(views(lines@).skip(0) =~= split_lines(content@));
        assert(pp_module(f + 1, content@, name@, dir@, old(included)@, stdt@, fst@)
            == Some(Ok::<(Seq<Seq<char>>, Seq<Seq<char>>), PpErrV>(
                (views(kept@), included@))));
    }
    Ok(kept)
}

/// Expands every `#import` of a module's lines in place: the directive
/// lines are removed and each imported module's expansion, included only
/// once by name, is appended after all other lines.
pub fn preprocess_source(
    asm_source: &mut Vec<String>,
    current_module_dir: &String,
    included_modules: &mut IncludedSet,
    standard_modules: &ModuleTable,
    fs_modules: &ModuleTable,
) -> (r: Result<(), AsmError>)
    ensures
        forall|y: Seq<char>| old(included_modules)@.contains(y)
            ==> final(included_modules)@.contains(y),
        match r {
            Ok(()) => exists|f: nat| match #[trigger] pp_lines(f, views(old(asm_source)@),
                1, current_module_dir@, old(included_modules)@, standard_modules@,
                fs_modules@) {
                Some(Ok(r3)) => views(final(asm_source)@) == r3.0 + r3.1
                    && final(included_modules)@ == r3.2,
                _ => false,
            },
            Err(e) => exists|f: nat| match #[trigger] pp_lines(f, views(old(asm_source)@),
                1, current_module_dir@, old(included_modules)@, standard_modules@,
                fs_modules@) {
                Some(Err(ev)) => pp_err_is(e, ev),
                _ => false,
            },
        },
{
    proof {
        assert(views(asm_source@).skip(0) =~= views(asm_source@));
    }
    match preprocess_rec(asm_source, 0, current_module_dir.as_str(), included_modules,
        standard_modules, fs_modules) {
        Ok((mut kept, app)) => {
            let mut appm = app;
            let ghost keptv = views(kept@);
            let ghost appv = views(appm@);
            kept.append(&mut appm);
            proof {
                assert(views(kept@) =~= keptv + appv);
            }
            *asm_source = kept;
            Ok(())
        },
        Err(e) => Err(e),
    }
}

/// Loads a module given as text: nothing when its name was already
/// included, else its lines with every import expanded.
pub fn load_module_from_string(
    module_string: &String,
    module_name: &String,
    current_module_dir: &String,
    included_modules: &mut IncludedSet,
    standard_modules: &ModuleTable,
    fs_modules: &ModuleTable,
) -> (r: Result<Vec<String>, AsmError>)
    ensures
        forall|y: Seq<char>| old(included_modules)@.contains(y)
            ==> final(included_modules)@.contains(y),
        match r {
            Ok(lines) => exists|f: nat| #[trigger] pp_module(f, module_string@,
                module_name@, current_module_dir@, old(included_modules)@,
                standard_modules@, fs_modules@)
                == Some(Ok::<(Seq<Seq<char>>, Seq<Seq<char>>), PpErrV>(
                    (views(lines@), final(included_modules)@))),
            Err(e) => exists|f: nat| match #[trigger] pp_module(f, module_string@,
                module_name@, current_module_dir@, old(included_modules)@,
                standard_modules@, fs_modules@) {
                Some(Err(ev)) => pp_err_is(e, ev),
                _ => false,
            },
        },
{
    if included_modules.contains(module_name.as_str()) {
        let empty_lines: Vec<String> = Vec::new();
        proof {
            assert(views(empty_lines@) =~= Seq::<Seq<char>>::empty());
            assert(pp_module(0, module_string@, module_name@, current_module_dir@,
                included_modules@, standard_modules@, fs_modules@)
                == Some(Ok::<(Seq<Seq<char>>, Seq<Seq<char>>), PpErrV>(
                    (Seq::empty(), included_modules@))));
        }
        return Ok(empty_lines);
    }
    included_modules.insert(module_name.as_str());
    proof {
        lemma_push_contains(old(included_modules)@, module_name@);
    }
    let ghost inc1 = included_modules@;
    let mut lines = match load_source_from_string(module_string.as_str()) {
        Ok(l) => l,
        Err(e) => {
            proof {
                assert(false);
            }
            return Err(e);
        },
    };
    let ghost lines0 = views(lines@);
    match preprocess_source(&mut lines, current_module_dir, included_modules,
        standard_modules, fs_modules) {
        Ok(()) => {
            proof {
                let f = choose|f: nat| match #[trigger] pp_lines(f, lines0, 1, current_module_dir@,
                    inc1, standard_modules@, fs_modules@) {
                    Some(Ok(r3)) => views(lines@) == r3.0 + r3.1
                        && included_modules@ == r3.2,
                    _ => false,
                };
                assert(lines0 =~= split_lines(module_string@));
                assert(pp_module(f + 1, module_string@, module_name@, current_module_dir@,
                    old(included_modules)@, standard_modules@, fs_modules@)
                    == Some(Ok::<(Seq<Seq<char>>, Seq<Seq<char>>), PpErrV>(
                        (views(lines@), included_modules@))));
            }
            Ok(lines)
        },
        Err(e) => {
            proof {
                let f = choose|f: nat| match #[trigger] pp_lines(f, lines0, 1, current_module_dir@,
                    inc1, standard_modules@, fs_modules@) {
                    Some(Err(ev)) => pp_err_is(e, ev),
                    _ => false,
                };
                assert(lines0 =~= split_lines(module_string@));
                assert(match pp_module(f + 1, module_string@, module_name@,
                    current_module_dir@, old(included_modules)@, standard_modules@,
                    fs_modules@) {
                    Some(Err(ev)) => pp_err_is(e, ev),
                    _ => false,
                });
            }
            Err(e)
        },
    }
}


/// Preprocessing a concatenation runs the first part, then the second
/// over the grown included set, keeping both kept parts and both
/// appended parts in order.
pub proof fn lemma_pp_lines_append(
    f: nat,
    xs: Seq<Seq<char>>,
    ys: Seq<Seq<char>>,
    ln: nat,
    dir: Seq<char>,
    inc: Seq<Seq<char>>,
    stdt: Seq<(Seq<char>, Seq<char>)>,
    fst: Seq<(Seq<char>, Seq<char>)>,
)
    ensures
        pp_lines(f, xs + ys, ln, dir, inc, stdt, fst) == (match pp_lines(f, xs, ln, dir, inc,
            stdt, fst) {
            None => None::<Result<(Seq<Seq<char>>, Seq<Seq<char>>, Seq<Seq<char>>), PpErrV>>,
            Some(Err(e)) => Some(Err(e)),
            Some(Ok(r1)) => match pp_lines(f, ys, (ln + xs.len()) as nat, dir, r1.2, stdt,
                fst) {
                None => None,
                Some(Err(e)) => Some(Err(e)),
                Some(Ok(r2)) => Some(Ok((r1.0 + r2.0, r1.1 + r2.1, r2.2))),
            },
        }),
    decreases xs.len(),
{
    if xs.len() == 0 {
        assert(xs + ys =~= ys);
        match pp_lines(f, ys, (ln + xs.len()) as nat, dir, inc, stdt, fst) {
            Some(Ok(r2)) => {
                assert(Seq::<Seq<char>>::empty() + r2.0 =~= r2.0);
                assert(Seq::<Seq<char>>::empty() + r2.1 =~= r2.1);
            },
            _ => {},
        }
    } else {
        let line = xs[0];
        assert((xs + ys)[0] == line);
        assert((xs + ys).len() > 0);
        assert((xs + ys).skip(1) =~= xs.skip(1) + ys);
        let toks = line_tokens(line);
        if toks.len() >= 1 && toks[0] == "#import"@ {
            if toks.len() < 2 {
            } else {
                match pp_import(f, toks[1], dir, inc, stdt, fst) {
                    None => {},
                    Some(Err(_)) => {},
                    Some(Ok(b)) => {
                        lemma_pp_lines_append(f, xs.skip(1), ys, ln + 1, dir, b.1, stdt,
                            fst);
                        assert(xs.skip(1).len() == xs.len() - 1);
                        match pp_lines(f, xs.skip(1), ln + 1, dir, b.1, stdt, fst) {
                            Some(Ok(r1)) => {
                                match pp_lines(f, ys, (ln + xs.len()) as nat, dir, r1.2,
                                    stdt, fst) {
                                    Some(Ok(r2)) => {
                                        assert(b.0 + (r1.1 + r2.1) =~= (b.0 + r1.1) + r2.1);
                                    },
                                    _ => {},
                                }
                            },
                            _ => {},
                        }
                    },
                }
            }
        } else {
            lemma_pp_lines_append(f, xs.skip(1), ys, ln + 1, dir, inc, stdt, fst);
            assert(xs.skip(1).len() == xs.len() - 1);
            match pp_lines(f, xs.skip(1), ln + 1, dir, inc, stdt, fst) {
                Some(Ok(r1)) => {
                    match pp_lines(f, ys, (ln + xs.len()) as nat, dir, r1.2, stdt, fst) {
                        Some(Ok(r2)) => {
                            assert(seq![line] + (r1.0 + r2.0) =~= (seq![line] + r1.0) + r2.0);
                        },
                        _ => {},
                    }
                },
                _ => {},
            }
        }
    }
}

/// Preprocessing only grows the included set.
pub proof fn lemma_pp_lines_inc_mono(
    f: nat,
    lines: Seq<Seq<char>>,
    ln: nat,
    dir: Seq<char>,
    inc: Seq<Seq<char>>,
    stdt: Seq<(Seq<char>, Seq<char>)>,
    fst: Seq<(Seq<char>, Seq<char>)>,
)
    ensures
        match pp_lines(f, lines, ln, dir, inc, stdt, fst) {
            Some(Ok(r)) => forall|y: Seq<char>| inc.contains(y) ==> r.2.contains(y),
            _ => true,
        },
    decreases f, lines.len(), 2int,
{
    if lines.len() == 0 {
    } else {
        let toks = line_tokens(lines[0]);
        if toks.len() >= 1 && toks[0] == "#import"@ {
            if toks.len() >= 2 {
                match pp_import(f, toks[1], dir, inc, stdt, fst) {
                    Some(Ok(b)) => {
                        lemma_pp_import_inc_mono(f, toks[1], dir, inc, stdt, fst);
                        lemma_pp_lines_inc_mono(f, lines.skip(1), ln + 1, dir, b.1, stdt,
                            fst);
                    },
                    _ => {},
                }
            }
        } else {
            lemma_pp_lines_inc_mono(f, lines.skip(1), ln + 1, dir, inc, stdt, fst);
        }
    }
}

/// Resolving an import only grows the included set, and afterwards the
/// imported module's name is included.
pub proof fn lemma_pp_import_inc_mono(
    f: nat,
    name: Seq<char>,
    dir: Seq<char>,
    inc: Seq<Seq<char>>,
    stdt: Seq<(Seq<char>, Seq<char>)>,
    fst: Seq<(Seq<char>, Seq<char>)>,
)
    ensures
        match pp_import(f, name, dir, inc, stdt, fst) {
            Some(Ok(b)) => (forall|y: Seq<char>| inc.contains(y) ==> b.1.contains(y))
                && b.1.contains(name),
            _ => true,
        },
    decreases f, 0int, 1int,
{
    if inc.contains(name) {
    } else {
        match lookup_mod(stdt, name) {
            Some(content) => {
                lemma_pp_module_inc_mono(f, content, name, Seq::empty(), inc, stdt, fst);
            },
            None => {
                let path = path_join(dir, name);
                match lookup_mod(fst, path) {
                    None => {},
                    Some(content) => {
                        lemma_pp_module_inc_mono(f, content, name, parent_dir(path), inc,
                            stdt, fst);
                    },
                }
            },
        }
    }
}

/// Expanding a module only grows the included set, and afterwards the
/// module's name is included.
pub proof fn lemma_pp_module_inc_mono(
    f: nat,
    content: Seq<char>,
    name: Seq<char>,
    dir: Seq<char>,
    inc: Seq<Seq<char>>,
    stdt: Seq<(Seq<char>, Seq<char>)>,
    fst: Seq<(Seq<char>, Seq<char>)>,
)
    ensures
        match pp_module(f, content, name, dir, inc, stdt, fst) {
            Some(Ok(b)) => (forall|y: Seq<char>| inc.contains(y) ==> b.1.contains(y))
                && b.1.contains(name),
            _ => true,
        },
    decreases f, 0int, 0int,
{
    if inc.contains(name) {
    } else if f == 0 {
    } else {
        lemma_push_contains(inc, name);
        lemma_pp_lines_inc_mono((f - 1) as nat, split_lines(content), 1, dir,
            inc.push(name), stdt, fst);
    }
}

/// A successful preprocessing result does not depend on the line number
/// its error reports would have carried.
pub proof fn lemma_pp_lines_ln(
    f: nat,
    lines: Seq<Seq<char>>,
    ln1: nat,
    ln2: nat,
    dir: Seq<char>,
    inc: Seq<Seq<char>>,
    stdt: Seq<(Seq<char>, Seq<char>)>,
    fst: Seq<(Seq<char>, Seq<char>)>,
)
    requires
        pp_lines(f, lines, ln1, dir, inc, stdt, fst) matches Some(r) && r is Ok,
    ensures
        pp_lines(f, lines, ln2, dir, inc, stdt, fst)
            == pp_lines(f, lines, ln1, dir, inc, stdt, fst),
    decreases lines.len(),
{
    if lines.len() == 0 {
    } else {
        let toks = line_tokens(lines[0]);
        if toks.len() >= 1 && toks[0] == "#import"@ {
            match pp_import(f, toks[1], dir, inc, stdt, fst) {
                Some(Ok(b)) => {
                    lemma_pp_lines_ln(f, lines.skip(1), ln1 + 1, ln2 + 1, dir, b.1, stdt,
                        fst);
                },
                _ => {},
            }
        } else {
            lemma_pp_lines_ln(f, lines.skip(1), ln1 + 1, ln2 + 1, dir, inc, stdt, fst);
        }
    }
}

/// Whether a line is an `#import` of the given module.
pub open spec fn imports_module(line: Seq<char>, m: Seq<char>) -> bool {
    line_tokens(line).len() >= 2 && line_tokens(line)[0] == "#import"@
        && line_tokens(line)[1] == m
}

/// Importing a module twice yields the same expansion as importing it
/// once: after the first `#import` of `m` the module is included, so a
/// later `#import` of `m` is dropped with no other effect, wherever it
/// stands and whatever lies between.
pub proof fn lemma_import_twice(
    f: nat,
    a: Seq<Seq<char>>,
    b: Seq<Seq<char>>,
    c: Seq<Seq<char>>,
    l1: Seq<char>,
    l2: Seq<char>,
    m: Seq<char>,
    ln: nat,
    dir: Seq<char>,
    inc: Seq<Seq<char>>,
    stdt: Seq<(Seq<char>, Seq<char>)>,
    fst: Seq<(Seq<char>, Seq<char>)>,
    r: (Seq<Seq<char>>, Seq<Seq<char>>, Seq<Seq<char>>),
)
    requires
        imports_module(l1, m),
        imports_module(l2, m),
        pp_lines(f, a + seq![l1] + b + seq![l2] + c, ln, dir, inc, stdt, fst)
            == Some(Ok::<(Seq<Seq<char>>, Seq<Seq<char>>, Seq<Seq<char>>), PpErrV>(r)),
    ensures
        pp_lines(f, a + seq![l1] + b + c, ln, dir, inc, stdt, fst)
            == Some(Ok::<(Seq<Seq<char>>, Seq<Seq<char>>, Seq<Seq<char>>), PpErrV>(r)),
{
    let p = a + seq![l1] + b;
    let whole = a + seq![l1] + b + seq![l2] + c;
    assert(whole =~= p + (seq![l2] + c));
    lemma_pp_lines_append(f, p, seq![l2] + c, ln, dir, inc, stdt, fst);
    let r1 = pp_lines(f, p, ln, dir, inc, stdt, fst)->Some_0->Ok_0;
    let lnp = (ln + p.len()) as nat;

    // After the prefix, `m` is included: the first import put it there
    // and everything after only grows the set.
    assert(r1.2.contains(m)) by {
        assert(p =~= (a + seq![l1]) + b);
        lemma_pp_lines_append(f, a + seq![l1], b, ln, dir, inc, stdt, fst);
        assert(a + seq![l1] =~= a + seq![l1]);
        lemma_pp_lines_append(f, a, seq![l1], ln, dir, inc, stdt, fst);
        assert(a + seq![l1] + b =~= p);
        let ra = pp_lines(f, a, ln, dir, inc, stdt, fst)->Some_0->Ok_0;
        let lna = (ln + a.len()) as nat;
        let rl = pp_lines(f, seq![l1], lna, dir, ra.2, stdt, fst)->Some_0->Ok_0;
        assert(seq![l1][0] == l1);
        assert(seq![l1].skip(1) =~= Seq::<Seq<char>>::empty());
        assert(line_tokens(l1).len() >= 2 && line_tokens(l1)[0] == "#import"@);
        let pi = pp_import(f, m, dir, ra.2, stdt, fst);
        assert(pp_lines(f, seq![l1], lna, dir, ra.2, stdt, fst) == (match pi {
            None => None::<Result<(Seq<Seq<char>>, Seq<Seq<char>>, Seq<Seq<char>>), PpErrV>>,
            Some(Err(e)) => Some(Err(e)),
            Some(Ok(b)) => match pp_lines(f, seq![l1].skip(1), lna + 1, dir, b.1, stdt,
                fst) {
                None => None,
                Some(Err(e)) => Some(Err(e)),
                Some(Ok(r2)) => Some(Ok((r2.0, b.0 + r2.1, r2.2))),
            },
        }));
        assert(pi matches Some(x) && x is Ok);
        let bi = pi->Some_0->Ok_0;
        assert(pp_lines(f, seq![l1].skip(1), lna + 1, dir, bi.1, stdt, fst)
            == Some(Ok::<(Seq<Seq<char>>, Seq<Seq<char>>, Seq<Seq<char>>), PpErrV>(
                (Seq::empty(), Seq::empty(), bi.1))));
        lemma_pp_import_inc_mono(f, m, dir, ra.2, stdt, fst);
        assert(bi.1.contains(m));
        assert(rl.2 == bi.1);
        let r1b = pp_lines(f, b, (lna + 1) as nat, dir, rl.2, stdt, fst)->Some_0->Ok_0;
        lemma_pp_lines_inc_mono(f, b, (lna + 1) as nat, dir, rl.2, stdt, fst);
        assert(r1b.2.contains(m));
        assert(r1.2 == r1b.2);
    }

    // The second import of `m` is dropped without effect.
    assert(seq![l2][0] == l2);
    assert((seq![l2] + c)[0] == l2);
    assert((seq![l2] + c).skip(1) =~= c);
    assert(pp_import(f, m, dir, r1.2, stdt, fst)
        == Some(Ok::<(Seq<Seq<char>>, Seq<Seq<char>>), PpErrV>((Seq::empty(), r1.2))));
    let rc = pp_lines(f, c, (lnp + 1) as nat, dir, r1.2, stdt, fst)->Some_0->Ok_0;
    assert(pp_lines(f, c, (lnp + 1) as nat, dir, r1.2, stdt, fst)
        == Some(Ok::<(Seq<Seq<char>>, Seq<Seq<char>>, Seq<Seq<char>>), PpErrV>(rc)));
    assert(Seq::<Seq<char>>::empty() + rc.1 =~= rc.1);
    assert(pp_lines(f, seq![l2] + c, lnp, dir, r1.2, stdt, fst)
        == Some(Ok::<(Seq<Seq<char>>, Seq<Seq<char>>, Seq<Seq<char>>), PpErrV>(rc)));

    // Without the duplicate, the suffix `c` runs at a line number one
    // less, with the same successful result.
    lemma_pp_lines_ln(f, c, (lnp + 1) as nat, lnp, dir, r1.2, stdt, fst);
    assert(a + seq![l1] + b + c =~= p + c);
    lemma_pp_lines_append(f, p, c, ln, dir, inc, stdt, fst);
    assert(r == (r1.0 + rc.0, r1.1 + rc.1, rc.2));
}

} // verus!
