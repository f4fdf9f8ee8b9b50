use vstd::prelude::*;

use crate::agents::{AgentProfile, MARCH_AGENT_NAME, SHARED_SCOPE};
use crate::paths::{clean_unique_paths, cleaned_unique};
use crate::prompt::Injection;
use crate::tasks::PersistedOpenFile;
use crate::text::{
    ascii_lower, eq_ignore_ascii_case, join, push_str, str_eq, strings_view, to_owned, trim,
    trim_str,
};

verus! {

broadcast use vstd::string::group_string_axioms;

// ---------------------------------------------------------------------------
// Open files

/// The plain value of an open file: its scope, path and whether it is locked.
pub open spec fn open_file_view(f: PersistedOpenFile) -> (Seq<char>, Seq<char>, bool) {
    (f.scope@, f.path@, f.locked)
}

pub open spec fn open_files_view(fs: Seq<PersistedOpenFile>) -> Seq<(Seq<char>, Seq<char>, bool)> {
    fs.map_values(|f: PersistedOpenFile| open_file_view(f))
}

/// Whether a scope has a path open.
pub open spec fn is_open_in(fs: Seq<(Seq<char>, Seq<char>, bool)>, scope: Seq<char>, path: Seq<char>) -> bool {
    exists|i: int| 0 <= i < fs.len() && (#[trigger] fs[i]).0 == scope && fs[i].1 == path
}

fn find_open(open_files: &Vec<PersistedOpenFile>, scope: &str, path: &str) -> (out: Option<usize>)
    ensures
        match out {
            Some(i) => i < open_files@.len() && open_files@[i as int].scope@ == scope@
                && open_files@[i as int].path@ == path@ && forall|k: int|
                0 <= k < i ==> !((#[trigger] open_files@[k]).scope@ == scope@ && open_files@[k].path@
                    == path@),
            None => !is_open_in(open_files_view(open_files@), scope@, path@),
        },
{
    let mut i: usize = 0;
    while i < open_files.len()
        invariant
            i <= open_files.len(),
            forall|k: int|
                0 <= k < i ==> !((#[trigger] open_files@[k]).scope@ == scope@ && open_files@[k].path@
                    == path@),
        decreases open_files.len() - i,
    {
        if str_eq(open_files[i].scope.as_str(), scope) && str_eq(open_files[i].path.as_str(), path) {
            return Some(i);
        }
        i += 1;
    }
    assert forall|k: int| 0 <= k < open_files@.len() implies !((#[trigger] open_files_view(open_files@)[k]).0 == scope@
        && open_files_view(open_files@)[k].1 == path@) by {
        assert(open_files_view(open_files@)[k] == open_file_view(open_files@[k]));
    }
    None
}

/// Opens a path in a scope: an unlocked entry is added unless the scope has
/// the path open already.
pub fn open_file_in_scope(open_files: &mut Vec<PersistedOpenFile>, scope: &str, path: &str)
    ensures
        open_files_view(final(open_files)@) == if is_open_in(open_files_view(old(open_files)@), scope@, path@) {
            open_files_view(old(open_files)@)
        } else {
            open_files_view(old(open_files)@).push((scope@, path@, false))
        },
{
    let ghost before = open_files@;
    match find_open(open_files, scope, path) {
        Some(i) => {
            assert(open_files_view(before)[i as int] == open_file_view(before[i as int]));
        },
        None => {
            let f = PersistedOpenFile { scope: to_owned(scope), path: to_owned(path), locked: false };
            open_files.push(f);
            assert(open_files_view(open_files@) =~= open_files_view(before).push((scope@, path@, false)));
        },
    }
}

/// The open files without those of `scope` at `path`.
pub open spec fn without_entry(fs: Seq<(Seq<char>, Seq<char>, bool)>, scope: Seq<char>, path: Seq<char>) -> Seq<(Seq<char>, Seq<char>, bool)>
    decreases fs.len(),
{
    if fs.len() == 0 {
        Seq::empty()
    } else if fs.last().0 == scope && fs.last().1 == path {
        without_entry(fs.drop_last(), scope, path)
    } else {
        without_entry(fs.drop_last(), scope, path).push(fs.last())
    }
}

/// Whether any open file, in any scope, has the path.
pub open spec fn path_still_open(fs: Seq<(Seq<char>, Seq<char>, bool)>, path: Seq<char>) -> bool {
    exists|i: int| 0 <= i < fs.len() && (#[trigger] fs[i]).1 == path
}

/// Closes a path in a scope: refused where the scope holds it locked;
/// otherwise its entries in the scope go, and the answer says whether another
/// scope still has the path open (so it stays watched).
pub fn close_file_in_scope(open_files: &mut Vec<PersistedOpenFile>, scope: &str, path: &str) -> (out: Result<bool, String>)
    ensures
        match out {
            Ok(still_open) => {
                &&& !(exists|i: int|
                    0 <= i < old(open_files)@.len() && (#[trigger] old(open_files)@[i]).scope@ == scope@
                        && old(open_files)@[i].path@ == path@ && old(open_files)@[i].locked)
                &&& open_files_view(final(open_files)@) == without_entry(open_files_view(old(open_files)@), scope@, path@)
                &&& still_open == path_still_open(open_files_view(final(open_files)@), path@)
            },
            Err(m) => {
                &&& exists|i: int|
                    0 <= i < old(open_files)@.len() && (#[trigger] old(open_files)@[i]).scope@ == scope@
                        && old(open_files)@[i].path@ == path@ && old(open_files)@[i].locked
                &&& m@ == "cannot close locked file "@ + path@
                &&& final(open_files)@ == old(open_files)@
            },
        },
{
    let mut i: usize = 0;
    while i < open_files.len()
        invariant
            i <= open_files.len(),
            forall|k: int|
                0 <= k < i ==> !((#[trigger] open_files@[k]).scope@ == scope@ && open_files@[k].path@ == path@
                    && open_files@[k].locked),
        decreases open_files.len() - i,
    {
        if open_files[i].locked && str_eq(open_files[i].scope.as_str(), scope) && str_eq(
            open_files[i].path.as_str(),
            path,
        ) {
            let mut m = to_owned("cannot close locked file ");
            push_str(&mut m, path);
            return Err(m);
        }
        i += 1;
    }
    let ghost before = open_files@;
    let ghost bv = open_files_view(before);
    let mut kept: Vec<PersistedOpenFile> = Vec::new();
    let mut still_open = false;
    let mut j: usize = 0;
    assert(bv.take(0) =~= Seq::<(Seq<char>, Seq<char>, bool)>::empty());
    while j < open_files.len()
        invariant
            j <= open_files.len(),
            open_files@ == before,
            bv == open_files_view(before),
            open_files_view(kept@) == without_entry(bv.take(j as int), scope@, path@),
            still_open == path_still_open(open_files_view(kept@), path@),
        decreases open_files.len() - j,
    {
        let f = &open_files[j];
        let drop = str_eq(f.scope.as_str(), scope) && str_eq(f.path.as_str(), path);
        assert(bv.take(j + 1).drop_last() =~= bv.take(j as int));
        assert(bv.take(j + 1).last() == open_file_view(*f));
        if !drop {
            let ghost kb = open_files_view(kept@);
            let same = str_eq(f.path.as_str(), path);
            kept.push(PersistedOpenFile { scope: to_owned(f.scope.as_str()), path: to_owned(f.path.as_str()), locked: f.locked });
            assert(open_files_view(kept@) =~= kb.push(open_file_view(*f)));
            if same {
                assert(open_files_view(kept@)[kb.len() as int].1 == path@);
            }
            assert(path_still_open(open_files_view(kept@), path@) == (still_open || same)) by {
                if path_still_open(open_files_view(kept@), path@) && !same {
                    let w = choose|w: int| 0 <= w < open_files_view(kept@).len() && (#[trigger] open_files_view(kept@)[w]).1 == path@;
                    assert(w < kb.len());
                    assert(kb[w] == open_files_view(kept@)[w]);
                }
                if still_open {
                    let w = choose|w: int| 0 <= w < kb.len() && (#[trigger] kb[w]).1 == path@;
                    assert(open_files_view(kept@)[w] == kb[w]);
                }
            }
            still_open = still_open || same;
        }
        j += 1;
    }
    assert(bv.take(before.len() as int) =~= bv);
    *open_files = kept;
    Ok(still_open)
}

/// Locks or unlocks the first entry of a scope at a path; refused where the
/// scope does not have the path open.
pub fn set_lock_file_in_scope(open_files: &mut Vec<PersistedOpenFile>, scope: &str, path: &str, locked: bool) -> (out: Result<(), String>)
    ensures
        match out {
            Ok(()) => exists|i: int|
                0 <= i < old(open_files)@.len() && (#[trigger] old(open_files)@[i]).scope@ == scope@
                    && old(open_files)@[i].path@ == path@ && open_files_view(final(open_files)@)
                    == open_files_view(old(open_files)@).update(i, (scope@, path@, locked)),
            Err(m) => !is_open_in(open_files_view(old(open_files)@), scope@, path@) && m@
                == "cannot lock unopened file "@ + path@ && final(open_files)@ == old(open_files)@,
        },
{
    let ghost before = open_files@;
    match find_open(open_files, scope, path) {
        Some(i) => {
            let f = PersistedOpenFile {
                scope: to_owned(open_files[i].scope.as_str()),
                path: to_owned(open_files[i].path.as_str()),
                locked,
            };
            open_files.set(i, f);
            assert(open_files_view(open_files@) =~= open_files_view(before).update(i as int, (scope@, path@, locked)));
            Ok(())
        },
        None => {
            let mut m = to_owned("cannot lock unopened file ");
            push_str(&mut m, path);
            Err(m)
        },
    }
}

/// The paths of a scope's entries, in order; only the locked ones where
/// `locked_only`.
pub open spec fn scope_paths(fs: Seq<(Seq<char>, Seq<char>, bool)>, scope: Seq<char>, locked_only: bool) -> Seq<Seq<char>>
    decreases fs.len(),
{
    if fs.len() == 0 {
        Seq::empty()
    } else if fs.last().0 == scope && (fs.last().2 || !locked_only) {
        scope_paths(fs.drop_last(), scope, locked_only).push(fs.last().1)
    } else {
        scope_paths(fs.drop_last(), scope, locked_only)
    }
}

/// The paths of the shared scope's entries, then the active agent's, each
/// once, in that order; only the locked ones where `locked_only`.
pub open spec fn scoped_paths(
    fs: Seq<(Seq<char>, Seq<char>, bool)>,
    active: Seq<char>,
    locked_only: bool,
) -> Seq<Seq<char>> {
    first_occurrences(scope_paths(fs, SHARED_SCOPE@, locked_only) + scope_paths(fs, active, locked_only))
}

/// The items of `s` without repeats, each where it first occurs.
pub open spec fn first_occurrences(s: Seq<Seq<char>>) -> Seq<Seq<char>>
    decreases s.len(),
{
    if s.len() == 0 {
        Seq::empty()
    } else {
        let prior = first_occurrences(s.drop_last());
        if prior.contains(s.last()) {
            prior
        } else {
            prior.push(s.last())
        }
    }
}

fn push_scope_paths(
    out: &mut Vec<String>,
    open_files: &Vec<PersistedOpenFile>,
    scope: &str,
    locked_only: bool,
    Ghost(prefix): Ghost<Seq<Seq<char>>>,
)
    requires
        strings_view(old(out)@) == first_occurrences(prefix),
    ensures
        strings_view(final(out)@) == first_occurrences(
            prefix + scope_paths(open_files_view(open_files@), scope@, locked_only),
        ),
{
    let ghost fv = open_files_view(open_files@);
    let mut i: usize = 0;
    assert(fv.take(0) =~= Seq::<(Seq<char>, Seq<char>, bool)>::empty());
    assert(prefix + scope_paths(fv.take(0), scope@, locked_only) =~= prefix);
    while i < open_files.len()
        invariant
            i <= open_files.len(),
            fv == open_files_view(open_files@),
            strings_view(out@) == first_occurrences(prefix + scope_paths(fv.take(i as int), scope@, locked_only)),
        decreases open_files.len() - i,
    {
        let f = &open_files[i];
        assert(fv.take(i + 1).drop_last() =~= fv.take(i as int));
        assert(fv.take(i + 1).last() == open_file_view(*f));
        let ghost old_all = prefix + scope_paths(fv.take(i as int), scope@, locked_only);
        if str_eq(f.scope.as_str(), scope) && (f.locked || !locked_only) {
            let ghost new_all = prefix + scope_paths(fv.take(i + 1), scope@, locked_only);
            assert(new_all =~= old_all.push(f.path@));
            assert(new_all.drop_last() =~= old_all);
            if !crate::memory::contains_string(out, f.path.as_str()) {
                let ghost ob = out@;
                out.push(to_owned(f.path.as_str()));
                assert(strings_view(out@) =~= strings_view(ob).push(f.path@));
            }
        }
        i += 1;
    }
    assert(fv.take(open_files.len() as int) =~= fv);
}

/// The paths the active agent sees open: the shared scope's, then its own,
/// each once.
pub fn open_paths_for_active_agent(open_files: &Vec<PersistedOpenFile>, active: &str) -> (out: Vec<String>)
    ensures
        strings_view(out@) == scoped_paths(open_files_view(open_files@), active@, false),
{
    let mut out: Vec<String> = Vec::new();
    assert(strings_view(out@) =~= first_occurrences(Seq::empty()));
    push_scope_paths(&mut out, open_files, SHARED_SCOPE, false, Ghost(Seq::empty()));
    let ghost shared = scope_paths(open_files_view(open_files@), SHARED_SCOPE@, false);
    assert(Seq::<Seq<char>>::empty() + shared =~= shared);
    push_scope_paths(&mut out, open_files, active, false, Ghost(shared));
    out
}

/// The files locked for the active agent: the shared scope's locked paths,
/// then its own, each once, cleaned for the platform.
pub fn locked_files_for_active_agent(open_files: &Vec<PersistedOpenFile>, active: &str) -> (out: Vec<String>)
    ensures
        strings_view(out@) == cleaned_unique(scoped_paths(open_files_view(open_files@), active@, true), false)
            || strings_view(out@) == cleaned_unique(scoped_paths(open_files_view(open_files@), active@, true), true),
{
    let mut locked: Vec<String> = Vec::new();
    assert(strings_view(locked@) =~= first_occurrences(Seq::empty()));
    push_scope_paths(&mut locked, open_files, SHARED_SCOPE, true, Ghost(Seq::empty()));
    let ghost shared = scope_paths(open_files_view(open_files@), SHARED_SCOPE@, true);
    assert(Seq::<Seq<char>>::empty() + shared =~= shared);
    push_scope_paths(&mut locked, open_files, active, true, Ghost(shared));
    clean_unique_paths(&locked)
}

// ---------------------------------------------------------------------------
// Injections

pub open spec fn injections_view(v: Seq<Injection>) -> Seq<(Seq<char>, Seq<char>)> {
    v.map_values(|i: Injection| (i.id@, i.content@))
}

/// The first position of `id` among the pairs, or -1.
pub open spec fn id_index<V>(v: Seq<(Seq<char>, V)>, id: Seq<char>) -> int
    decreases v.len(),
{
    if v.len() == 0 {
        -1
    } else if v[0].0 == id {
        0
    } else if id_index(v.drop_first(), id) >= 0 {
        id_index(v.drop_first(), id) + 1
    } else {
        -1
    }
}

/// The pairs with `id` set to `content`: in place where it is there, else at
/// the end.
pub open spec fn put<V>(v: Seq<(Seq<char>, V)>, id: Seq<char>, content: V) -> Seq<(Seq<char>, V)> {
    if id_index(v, id) >= 0 {
        v.update(id_index(v, id), (id, content))
    } else {
        v.push((id, content))
    }
}

pub proof fn lemma_id_index<V>(v: Seq<(Seq<char>, V)>, id: Seq<char>, i: int)
    requires
        0 <= i <= v.len(),
        forall|k: int| 0 <= k < i ==> (#[trigger] v[k]).0 != id,
    ensures
        i < v.len() && v[i].0 == id ==> id_index(v, id) == i,
        i == v.len() ==> id_index(v, id) == -1,
    decreases i,
{
    if i > 0 {
        let rest = v.drop_first();
        assert forall|k: int| 0 <= k < i - 1 implies (#[trigger] rest[k]).0 != id by {
            assert(rest[k] == v[k + 1]);
        }
        lemma_id_index(rest, id, i - 1);
        if i < v.len() {
            assert(rest[i - 1] == v[i]);
        }
    } else if v.len() == 0 {
    }
}

/// Adds an injection, or replaces the content of the one with the same id.
pub fn add_injection(injections: &mut Vec<Injection>, id: &str, content: &str)
    ensures
        injections_view(final(injections)@) == put(injections_view(old(injections)@), id@, content@),
{
    let ghost before = injections_view(injections@);
    let mut i: usize = 0;
    while i < injections.len()
        invariant
            i <= injections.len(),
            before == injections_view(injections@),
            before == injections_view(old(injections)@),
            forall|k: int| 0 <= k < i ==> (#[trigger] before[k]).0 != id@,
        decreases injections.len() - i,
    {
        assert(before[i as int] == (injections@[i as int].id@, injections@[i as int].content@));
        if str_eq(injections[i].id.as_str(), id) {
            assert(before[i as int].0 == id@);
            proof {
                lemma_id_index(before, id@, i as int);
            }
            assert(i < before.len());
            assert(id_index(before, id@) == i as int);
            assert(put(before, id@, content@) == before.update(i as int, (id@, content@)));
            injections.set(i, Injection { id: to_owned(id), content: to_owned(content) });
            assert(injections_view(injections@) =~= before.update(i as int, (id@, content@)));
            return;
        }
        i += 1;
    }
    proof {
        lemma_id_index(before, id@, i as int);
    }
    injections.push(Injection { id: to_owned(id), content: to_owned(content) });
    assert(injections_view(injections@) =~= before.push((id@, content@)));
}

// ---------------------------------------------------------------------------
// The agent roster

/// The name shown for an agent: its profile's display name, else `March` for
/// March in any case, else the name itself.
pub open spec fn display_name_of(profiles: Seq<AgentProfile>, name: Seq<char>) -> Seq<char> {
    if exists|i: int| 0 <= i < profiles.len() && (#[trigger] profiles[i]).name@ == name {
        profiles[choose|i: int| 0 <= i < profiles.len() && (#[trigger] profiles[i]).name@ == name && forall|k: int|
            0 <= k < i ==> (#[trigger] profiles[k]).name@ != name].display_name@
    } else if ascii_lower(name) == ascii_lower(MARCH_AGENT_NAME@) {
        "March"@
    } else {
        name
    }
}

fn find_profile(profiles: &Vec<AgentProfile>, name: &str) -> (out: Option<usize>)
    ensures
        match out {
            Some(i) => i < profiles@.len() && profiles@[i as int].name@ == name@ && forall|k: int|
                0 <= k < i ==> (#[trigger] profiles@[k]).name@ != name@,
            None => forall|k: int| 0 <= k < profiles@.len() ==> (#[trigger] profiles@[k]).name@ != name@,
        },
{
    let mut i: usize = 0;
    while i < profiles.len()
        invariant
            i <= profiles.len(),
            forall|k: int| 0 <= k < i ==> (#[trigger] profiles@[k]).name@ != name@,
        decreases profiles.len() - i,
    {
        if str_eq(profiles[i].name.as_str(), name) {
            return Some(i);
        }
        i += 1;
    }
    None
}

pub fn display_name_for_agent(profiles: &Vec<AgentProfile>, name: &str) -> (out: String)
    ensures
        out@ == display_name_of(profiles@, name@),
{
    match find_profile(profiles, name) {
        Some(i) => {
            let ghost w = choose|j: int| 0 <= j < profiles@.len() && (#[trigger] profiles@[j]).name@ == name@ && forall|k: int|
                0 <= k < j ==> (#[trigger] profiles@[k]).name@ != name@;
            assert(0 <= i < profiles@.len() && profiles@[i as int].name@ == name@ && forall|k: int|
                0 <= k < i ==> (#[trigger] profiles@[k]).name@ != name@);
            assert(w == i as int) by {
                if w < i {
                    assert(profiles@[w].name@ != name@);
                } else if w > i {
                    assert(profiles@[i as int].name@ != name@);
                }
            }
            to_owned(profiles[i].display_name.as_str())
        },
        None => if eq_ignore_ascii_case(name, MARCH_AGENT_NAME) {
            to_owned("March")
        } else {
            to_owned(name)
        },
    }
}

/// The agent that stays active: the requested one where it has a profile,
/// else the current one.
pub fn set_active_agent(profiles: &Vec<AgentProfile>, current: &str, name: &str) -> (out: String)
    ensures
        (exists|i: int| 0 <= i < profiles@.len() && (#[trigger] profiles@[i]).name@ == name@) ==> out@ == name@,
        !(exists|i: int| 0 <= i < profiles@.len() && (#[trigger] profiles@[i]).name@ == name@) ==> out@ == current@,
{
    match find_profile(profiles, name) {
        Some(_) => to_owned(name),
        None => to_owned(current),
    }
}

/// Whether an agent of this name is known.
pub fn has_agent(profiles: &Vec<AgentProfile>, name: &str) -> (out: bool)
    ensures
        out == exists|i: int| 0 <= i < profiles@.len() && (#[trigger] profiles@[i]).name@ == name@,
{
    match find_profile(profiles, name) {
        Some(i) => {
            assert(profiles@[i as int].name@ == name@);
            true
        },
        None => false,
    }
}

/// The roster line of an agent, marked for the active one.
pub open spec fn roster_line(p: AgentProfile, active: Seq<char>) -> Seq<char> {
    "- "@ + p.name@ + " | "@ + p.display_name@ + " | "@ + p.description@ + if p.name@ == active {
        " (you)"@
    } else {
        Seq::empty()
    }
}

/// The roster of agents as the system prompt lists it.
pub open spec fn roster_text(profiles: Seq<AgentProfile>, active: Seq<char>) -> Seq<char> {
    join(profiles.map_values(|p: AgentProfile| roster_line(p, active)), "\n"@)
}

pub fn available_agents_for_prompt(profiles: &Vec<AgentProfile>, active: &str) -> (out: String)
    ensures
        out@ == roster_text(profiles@, active@),
{
    proof {
        reveal_strlit("");
    }
    let mut lines: Vec<String> = Vec::new();
    let mut i: usize = 0;
    while i < profiles.len()
        invariant
            i <= profiles.len(),
            strings_view(lines@) == profiles@.take(i as int).map_values(|p: AgentProfile| roster_line(p, active@)),
        decreases profiles.len() - i,
    {
        let p = &profiles[i];
        let mut line = to_owned("- ");
        push_str(&mut line, p.name.as_str());
        push_str(&mut line, " | ");
        push_str(&mut line, p.display_name.as_str());
        push_str(&mut line, " | ");
        push_str(&mut line, p.description.as_str());
        if str_eq(p.name.as_str(), active) {
            push_str(&mut line, " (you)");
        }
        let ghost before = lines@;
        let ghost lv = line@;
        lines.push(line);
        assert(strings_view(lines@) =~= strings_view(before).push(lv));
        assert(profiles@.take(i + 1).map_values(|p: AgentProfile| roster_line(p, active@)) =~= profiles@.take(
            i as int,
        ).map_values(|p: AgentProfile| roster_line(p, active@)).push(roster_line(*p, active@)));
        i += 1;
    }
    assert(profiles@.take(profiles.len() as int) =~= profiles@);
    crate::text::join_strings(&lines, "\n")
}

/// The system prompt core of the active agent: without a profile, the
/// session's core; else the base instructions, the roster, and the agent's
/// own prompt where it is not blank.
pub open spec fn system_core_text(
    profiles: Seq<AgentProfile>,
    active: Seq<char>,
    session_core: Seq<char>,
    base: Seq<char>,
) -> Seq<char> {
    if exists|i: int| 0 <= i < profiles.len() && (#[trigger] profiles[i]).name@ == active {
        let p = profiles[choose|i: int| 0 <= i < profiles.len() && (#[trigger] profiles[i]).name@ == active && forall|k: int|
            0 <= k < i ==> (#[trigger] profiles[k]).name@ != active];
        base + "\n\n# Available Agents\n"@ + roster_text(profiles, active) + if trim(p.system_prompt@).len() > 0 {
            "\n\n# Agent Role\n"@ + trim(p.system_prompt@)
        } else {
            Seq::empty()
        }
    } else {
        session_core
    }
}

pub fn system_core_for_active_agent(
    profiles: &Vec<AgentProfile>,
    active: &str,
    session_core: &str,
    base_instructions: &str,
) -> (out: String)
    ensures
        out@ == system_core_text(profiles@, active@, session_core@, base_instructions@),
{
    match find_profile(profiles, active) {
        None => to_owned(session_core),
        Some(i) => {
            let ghost w = choose|j: int| 0 <= j < profiles@.len() && (#[trigger] profiles@[j]).name@ == active@ && forall|k: int|
                0 <= k < j ==> (#[trigger] profiles@[k]).name@ != active@;
            assert(0 <= i < profiles@.len() && profiles@[i as int].name@ == active@ && forall|k: int|
                0 <= k < i ==> (#[trigger] profiles@[k]).name@ != active@);
            assert(w == i as int) by {
                if w < i {
                    assert(profiles@[w].name@ != active@);
                } else if w > i {
                    assert(profiles@[i as int].name@ != active@);
                }
            }
            let mut out = to_owned(base_instructions);
            push_str(&mut out, "\n\n# Available Agents\n");
            let roster = available_agents_for_prompt(profiles, active);
            push_str(&mut out, roster.as_str());
            let role = trim_str(profiles[i].system_prompt.as_str());
            if !role.as_str().is_empty() {
                push_str(&mut out, "\n\n# Agent Role\n");
                push_str(&mut out, role.as_str());
            } else {
                proof {
                    reveal_strlit("");
                }
            }
            out
        },
    }
}

} // verus!
