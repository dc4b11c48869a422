//! Command resolution: classify user input as an explicit path or a
//! bare command, enumerate the search candidates for a bare command in
//! the order the search-path and extension lists dictate, and resolve
//! input to an executable path.
//!
//! Only the file-existence probe touches the machine; every decision
//! around it is verified.

use vstd::prelude::*;
use crate::text::contains_char;
use crate::text::str_contains_char;
use crate::text::trimmed;
use crate::text::trim_str;

verus! {

/// True exactly when `s` contains a directory separator, the alternate
/// directory separator, or the volume separator: such input names a
/// file directly and is never searched for.
pub open spec fn is_explicit_path_spec(s: Seq<char>) -> bool {
    contains_char(s, '\\') || contains_char(s, '/') || contains_char(s, ':')
}

/// Classify `input`: explicit path or bare command.
pub fn is_explicit_path(input: &str) -> (r: bool)
    ensures
        r == is_explicit_path_spec(input@),
{
    str_contains_char(input, '\\') || str_contains_char(input, '/') || str_contains_char(
        input,
        ':',
    )
}

/// `dir` and `name` joined with the directory separator.
pub open spec fn joined(dir: Seq<char>, name: Seq<char>) -> Seq<char> {
    dir + seq!['\\'] + name
}

/// The candidates a command that already carries an extension is tried
/// under: its exact name in each directory, in directory order.
pub open spec fn exact_candidates(command: Seq<char>, dirs: Seq<Seq<char>>) -> Seq<Seq<char>> {
    Seq::new(dirs.len(), |i: int| joined(dirs[i], command))
}

/// The candidates one directory contributes for an extensionless
/// command: the command with each extension appended, in extension
/// order.
pub open spec fn dir_candidates(dir: Seq<char>, command: Seq<char>, exts: Seq<Seq<char>>) -> Seq<
    Seq<char>,
> {
    Seq::new(exts.len(), |j: int| joined(dir, command + exts[j]))
}

/// The candidates for an extensionless command over all directories:
/// every extension is tried in one directory before the next directory
/// is considered.
pub open spec fn ext_candidates(
    command: Seq<char>,
    dirs: Seq<Seq<char>>,
    exts: Seq<Seq<char>>,
) -> Seq<Seq<char>>
    decreases dirs.len(),
{
    if dirs.len() == 0 {
        Seq::empty()
    } else {
        dir_candidates(dirs[0], command, exts) + ext_candidates(command, dirs.drop_first(), exts)
    }
}

/// Every path a bare command is tried under, in order: a command
/// containing a literal `.` is looked up by its exact name only, any
/// other command once per candidate extension.
pub open spec fn candidates_spec(
    command: Seq<char>,
    dirs: Seq<Seq<char>>,
    exts: Seq<Seq<char>>,
) -> Seq<Seq<char>> {
    if contains_char(command, '.') {
        exact_candidates(command, dirs)
    } else {
        ext_candidates(command, dirs, exts)
    }
}

/// A command that already carries an extension is never combined with
/// entries from the extension list: its candidates are the same under
/// any two extension lists.
pub proof fn lemma_dotted_command_ignores_extensions(
    command: Seq<char>,
    dirs: Seq<Seq<char>>,
    exts1: Seq<Seq<char>>,
    exts2: Seq<Seq<char>>,
)
    requires
        contains_char(command, '.'),
    ensures
        candidates_spec(command, dirs, exts1) == candidates_spec(command, dirs, exts2),
{
}

/// Candidate lists concatenate as their directory lists do.
proof fn lemma_ext_candidates_append(
    command: Seq<char>,
    d1: Seq<Seq<char>>,
    d2: Seq<Seq<char>>,
    exts: Seq<Seq<char>>,
)
    ensures
        ext_candidates(command, d1 + d2, exts) == ext_candidates(command, d1, exts)
            + ext_candidates(command, d2, exts),
    decreases d1.len(),
{
    if d1.len() == 0 {
        assert(d1 + d2 =~= d2);
        assert(ext_candidates(command, d1 + d2, exts) =~~= ext_candidates(command, d1, exts)
            + ext_candidates(command, d2, exts));
    } else {
        assert((d1 + d2)[0] == d1[0]);
        assert((d1 + d2).drop_first() =~= d1.drop_first() + d2);
        lemma_ext_candidates_append(command, d1.drop_first(), d2, exts);
        assert(ext_candidates(command, d1 + d2, exts) =~~= ext_candidates(command, d1, exts)
            + ext_candidates(command, d2, exts));
    }
}

/// The search order spelled out: for an extensionless command the
/// candidate at position `i * exts.len() + j` is the command joined to
/// directory `i` with extension `j` — directories are exhausted one at
/// a time, extensions in order within each.
pub proof fn lemma_search_order(
    command: Seq<char>,
    dirs: Seq<Seq<char>>,
    exts: Seq<Seq<char>>,
    i: int,
    j: int,
)
    requires
        !contains_char(command, '.'),
        0 <= i < dirs.len(),
        0 <= j < exts.len(),
    ensures
        candidates_spec(command, dirs, exts).len() == dirs.len() * exts.len(),
        candidates_spec(command, dirs, exts)[i * exts.len() + j] == joined(
            dirs[i],
            command + exts[j],
        ),
    decreases dirs.len(),
{
    let m = exts.len() as int;
    lemma_ext_candidates_len(command, dirs, exts);
    if i == 0 {
        assert(ext_candidates(command, dirs, exts)[j] == dir_candidates(dirs[0], command, exts)[j]);
    } else {
        lemma_search_order(command, dirs.drop_first(), exts, i - 1, j);
        assert((i - 1) * m + j == i * m + j - m) by (nonlinear_arith);
        assert(0 <= (i - 1) * m + j < dirs.drop_first().len() * m) by (nonlinear_arith)
            requires
                0 <= i - 1 < dirs.drop_first().len() as int,
                0 <= j < m,
        ;
        assert(ext_candidates(command, dirs, exts)[i * m + j] == ext_candidates(
            command,
            dirs.drop_first(),
            exts,
        )[(i - 1) * m + j]);
        assert(dirs.drop_first()[i - 1] == dirs[i]);
    }
}

/// The candidate count for an extensionless command is one per
/// directory-extension pair.
proof fn lemma_ext_candidates_len(command: Seq<char>, dirs: Seq<Seq<char>>, exts: Seq<Seq<char>>)
    ensures
        ext_candidates(command, dirs, exts).len() == dirs.len() * exts.len(),
    decreases dirs.len(),
{
    if dirs.len() == 0 {
    } else {
        lemma_ext_candidates_len(command, dirs.drop_first(), exts);
        assert(exts.len() + (dirs.len() - 1) * exts.len() == dirs.len() * exts.len())
            by (nonlinear_arith);
    }
}

/// Join `dir` and `name` with the directory separator.
fn join_path(dir: &String, name: &str) -> (r: String)
    ensures
        r@ == joined(dir@, name@),
{
    let mut p = dir.clone();
    p.append("\\");
    p.append(name);
    proof {
        reveal_strlit("\\");
        assert(p@ =~= joined(dir@, name@));
    }
    p
}

/// List every path the command would be tried under, in search order.
pub fn candidate_paths(command: &str, dirs: &Vec<String>, exts: &Vec<String>) -> (r: Vec<String>)
    ensures
        r.deep_view() == candidates_spec(command@, dirs.deep_view(), exts.deep_view()),
{
    let ghost dd = dirs.deep_view();
    let ghost ee = exts.deep_view();
    let mut out: Vec<String> = Vec::new();
    if str_contains_char(command, '.') {
        for i in 0..dirs.len()
            invariant
                dd == dirs.deep_view(),
                out.deep_view() =~~= exact_candidates(command@, dd).take(i as int),
        {
            let ghost pdv = out.deep_view();
            let p = join_path(&dirs[i], command);
            proof {
                assert(dd[i as int] == dirs@[i as int]@);
            }
            out.push(p);
            proof {
                assert(out.deep_view() =~~= pdv.push(p@));
                assert(out.deep_view() =~~= exact_candidates(command@, dd).take(i + 1));
            }
        }
        proof {
            assert(exact_candidates(command@, dd).take(dd.len() as int) =~~= exact_candidates(
                command@,
                dd,
            ));
        }
    } else {
        for i in 0..dirs.len()
            invariant
                dd == dirs.deep_view(),
                ee == exts.deep_view(),
                out.deep_view() =~~= ext_candidates(command@, dd.take(i as int), ee),
        {
            for j in 0..exts.len()
                invariant
                    dd == dirs.deep_view(),
                    ee == exts.deep_view(),
                    i < dirs.len(),
                    out.deep_view() =~~= ext_candidates(command@, dd.take(i as int), ee)
                        + dir_candidates(dd[i as int], command@, ee).take(j as int),
            {
                let ghost pdv = out.deep_view();
                let mut name = String::from_str(command);
                name.append(exts[j].as_str());
                proof {
                    assert(ee[j as int] == exts@[j as int]@);
                }
                let p = join_path(&dirs[i], name.as_str());
                proof {
                    assert(dd[i as int] == dirs@[i as int]@);
                }
                out.push(p);
                proof {
                    assert(out.deep_view() =~~= pdv.push(p@));
                    assert(dir_candidates(dd[i as int], command@, ee).take(j + 1) =~~=
                    dir_candidates(dd[i as int], command@, ee).take(j as int).push(
                        joined(dd[i as int], command@ + ee[j as int]),
                    ));
                    assert(out.deep_view() =~~= ext_candidates(command@, dd.take(i as int), ee)
                        + dir_candidates(dd[i as int], command@, ee).take(j + 1));
                }
            }
            proof {
                assert(dd.take(i + 1) =~= dd.take(i as int) + seq![dd[i as int]]);
                lemma_ext_candidates_append(command@, dd.take(i as int), seq![dd[i as int]], ee);
                assert(seq![dd[i as int]].drop_first() =~= Seq::<Seq<char>>::empty());
                assert(ext_candidates(command@, Seq::<Seq<char>>::empty(), ee) =~~= Seq::<
                    Seq<char>,
                >::empty());
                assert(ext_candidates(command@, seq![dd[i as int]], ee) =~~= dir_candidates(
                    dd[i as int],
                    command@,
                    ee,
                ));
                assert(dir_candidates(dd[i as int], command@, ee).take(ee.len() as int) =~~=
                dir_candidates(dd[i as int], command@, ee));
                assert(out.deep_view() =~~= ext_candidates(command@, dd.take(i + 1), ee));
            }
        }
        proof {
            assert(dd.take(dd.len() as int) =~= dd);
        }
    }
    out
}

/// The first candidate marked present, scanning in order.
pub open spec fn first_hit(candidates: Seq<Seq<char>>, present: Seq<bool>) -> Option<Seq<char>>
    decreases candidates.len(),
{
    if candidates.len() == 0 || present.len() == 0 {
        None
    } else if present[0] {
        Some(candidates[0])
    } else {
        first_hit(candidates.drop_first(), present.drop_first())
    }
}

/// True when `r` is what a probing search of `candidates` can answer:
/// the first candidate, in order, that some per-candidate sequence of
/// existence answers marks present, or `None` when that sequence marks
/// none.  Every run of the search satisfies this for the answers the
/// filesystem gave it.
pub open spec fn search_outcome(candidates: Seq<Seq<char>>, r: Option<Seq<char>>) -> bool {
    exists|present: Seq<bool>|
        #![trigger first_hit(candidates, present)]
        present.len() == candidates.len() && r == first_hit(candidates, present)
}

/// A first hit is one of the candidates.
proof fn lemma_first_hit_member(candidates: Seq<Seq<char>>, present: Seq<bool>)
    requires
        first_hit(candidates, present) is Some,
    ensures
        candidates.contains(first_hit(candidates, present)->0),
    decreases candidates.len(),
{
    if candidates.len() == 0 || present.len() == 0 {
    } else if present[0] {
        assert(candidates[0] == first_hit(candidates, present)->0);
    } else {
        lemma_first_hit_member(candidates.drop_first(), present.drop_first());
        let x = first_hit(candidates, present)->0;
        let i = choose|i: int|
            0 <= i < candidates.drop_first().len() && candidates.drop_first()[i] == x;
        assert(candidates[i + 1] == x);
    }
}

/// Scanning past misses does not change the first hit.
proof fn lemma_first_hit_skip(candidates: Seq<Seq<char>>, present: Seq<bool>, i: int)
    requires
        candidates.len() == present.len(),
        0 <= i <= candidates.len(),
        forall|j: int| 0 <= j < i ==> !present[j],
    ensures
        first_hit(candidates, present) == first_hit(candidates.skip(i), present.skip(i)),
    decreases i,
{
    if i > 0 {
        assert(candidates.skip(1) =~= candidates.drop_first());
        assert(present.skip(1) =~= present.drop_first());
        lemma_first_hit_skip(candidates.drop_first(), present.drop_first(), i - 1);
        assert(candidates.drop_first().skip(i - 1) =~= candidates.skip(i));
        assert(present.drop_first().skip(i - 1) =~= present.skip(i));
    } else {
        assert(candidates.skip(0) =~= candidates);
        assert(present.skip(0) =~= present);
    }
}

/// Pick the first of `candidates` whose `present` flag is set: the
/// search decision applied to an already-probed candidate list.
pub fn first_existing(candidates: &Vec<String>, present: &Vec<bool>) -> (r: Option<String>)
    requires
        candidates@.len() == present@.len(),
    ensures
        r matches Some(p) ==> first_hit(candidates.deep_view(), present@) == Some(p@),
        r is None ==> first_hit(candidates.deep_view(), present@) is None,
{
    let n = candidates.len();
    for i in 0..n
        invariant
            n == candidates@.len(),
            candidates@.len() == present@.len(),
            forall|j: int| 0 <= j < i ==> !present@[j],
    {
        if present[i] {
            proof {
                lemma_first_hit_skip(candidates.deep_view(), present@, i as int);
                assert(candidates.deep_view().skip(i as int)[0] == candidates.deep_view()[
                    i as int
                ]);
                assert(candidates.deep_view()[i as int] == candidates@[i as int]@);
            }
            return Some(candidates[i].clone());
        }
    }
    proof {
        lemma_first_hit_skip(candidates.deep_view(), present@, n as int);
    }
    None
}

/// Relies on `std::path::Path::is_file`: whether `path` names an
/// existing regular file on disk at the moment of the call.  The
/// answer depends on the state of the filesystem, so nothing is
/// promised of it.
#[verifier::external_body]
fn path_is_file(path: &str) -> bool {
    std::path::Path::new(path).is_file()
}

/// Search the directories for the command: probe every candidate and
/// return the first, in search order, whose probe answered that the
/// file exists.  Which probes answer yes depends on the filesystem;
/// for whatever they answered, the result is the first hit of the
/// candidate list, so an empty candidate list never resolves and a
/// returned path is always one of the candidates.
pub fn resolve_on_path(command: &str, search_dirs: &Vec<String>, extensions: &Vec<String>) -> (r:
    Option<String>)
    ensures
        ({
            let cs = candidates_spec(command@, search_dirs.deep_view(), extensions.deep_view());
            &&& search_outcome(
                cs,
                match r {
                    Some(p) => Some(p@),
                    None => None::<Seq<char>>,
                },
            )
            &&& (r matches Some(p) ==> cs.contains(p@))
            &&& (cs.len() == 0 ==> r is None)
        }),
{
    let cands = candidate_paths(command, search_dirs, extensions);
    let ghost cs = cands.deep_view();
    let n = cands.len();
    let mut present: Vec<bool> = Vec::new();
    for i in 0..n
        invariant
            n == cands@.len(),
            present@.len() == i,
            cs == cands.deep_view(),
    {
        present.push(path_is_file(cands[i].as_str()));
    }
    let r = first_existing(&cands, &present);
    proof {
        assert(cs.len() == cands@.len());
        if r is Some {
            assert(first_hit(cs, present@) == Some(r->0@));
            lemma_first_hit_member(cs, present@);
        } else {
            assert(first_hit(cs, present@) is None);
        }
    }
    r
}

/// The fixed fallback extension list, used when the platform supplies
/// none.
pub fn default_extensions() -> (r: Vec<String>)
    ensures
        r.deep_view() == seq![".COM"@, ".EXE"@, ".BAT"@, ".CMD"@],
{
    let mut v: Vec<String> = Vec::new();
    v.push(String::from_str(".COM"));
    v.push(String::from_str(".EXE"));
    v.push(String::from_str(".BAT"));
    v.push(String::from_str(".CMD"));
    proof {
        assert(v.deep_view() =~~= seq![".COM"@, ".EXE"@, ".BAT"@, ".CMD"@]);
    }
    v
}

/// Resolve one line of user input to an executable path, or the error
/// message the launcher shows for it.  The input is trimmed; an empty
/// line is rejected; an explicit path must name an existing file and
/// is never searched for; a bare command is searched for under the
/// given directories and extensions.
pub fn run_command(input: &str, search_dirs: &Vec<String>, extensions: &Vec<String>) -> (r: Result<
    String,
    String,
>)
    ensures
        ({
            let t = trimmed(input@);
            &&& t.len() == 0 ==> (r matches Err(m) && m@ == "Please enter a command"@)
            &&& t.len() > 0 && is_explicit_path_spec(t) ==> (match r {
                Ok(p) => p@ == t,
                Err(m) => m@ == "File not found: "@ + t,
            })
            &&& t.len() > 0 && !is_explicit_path_spec(t) ==> (match r {
                Ok(p) => {
                    let cs = candidates_spec(t, search_dirs.deep_view(), extensions.deep_view());
                    cs.contains(p@) && search_outcome(cs, Some(p@))
                },
                Err(m) => m@ == "'"@ + t + "' is not recognized as a command or program"@
                    && search_outcome(
                    candidates_spec(t, search_dirs.deep_view(), extensions.deep_view()),
                    None::<Seq<char>>,
                ),
            })
            &&& t.len() > 0 && !is_explicit_path_spec(t) && search_dirs.deep_view().len() == 0
                ==> r is Err
        }),
{
    let t = trim_str(input);
    if t.as_str().is_empty() {
        return Err(String::from_str("Please enter a command"));
    }
    if is_explicit_path(t.as_str()) {
        if path_is_file(t.as_str()) {
            Ok(t)
        } else {
            let mut m = String::from_str("File not found: ");
            m.append(t.as_str());
            Err(m)
        }
    } else {
        match resolve_on_path(t.as_str(), search_dirs, extensions) {
            Some(p) => Ok(p),
            None => {
                let mut m = String::from_str("'");
                m.append(t.as_str());
                m.append("' is not recognized as a command or program");
                Err(m)
            },
        }
    }
}

} // verus!
