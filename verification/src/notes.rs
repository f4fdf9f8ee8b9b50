use vstd::prelude::*;

use crate::agents::SHARED_SCOPE;
use crate::scopes::{id_index, lemma_id_index, put};
use crate::text::{chars_lt, lemma_chars_lt_irreflexive, lemma_chars_lt_total, lemma_chars_lt_transitive, str_eq, str_lt, to_owned};

verus! {

broadcast use vstd::string::group_string_axioms;

/// A note of a task: its id and its content.
pub struct Note {
    pub id: String,
    pub content: String,
}

/// The notes of one scope, in the order in which their ids were first written.
pub struct NoteScope {
    pub scope: String,
    pub notes: Vec<Note>,
}

/// A note as it is stored: with the scope it belongs to.
pub struct PersistedNote {
    pub scope: String,
    pub id: String,
    pub content: String,
}

/// The plain value of a scope's notes: `(id, content)` pairs.
pub open spec fn note_pairs(v: Seq<Note>) -> Seq<(Seq<char>, Seq<char>)> {
    v.map_values(|n: Note| (n.id@, n.content@))
}

/// The plain value of all notes: per scope, in order, its `(id, content)` pairs.
pub open spec fn notes_model(v: Seq<NoteScope>) -> Seq<(Seq<char>, Seq<(Seq<char>, Seq<char>)>)> {
    v.map_values(|s: NoteScope| (s.scope@, note_pairs(s.notes@)))
}

/// The plain value of a stored note.
pub open spec fn persisted_view(n: PersistedNote) -> (Seq<char>, Seq<char>, Seq<char>) {
    (n.scope@, n.id@, n.content@)
}

pub open spec fn persisted_seq(v: Seq<PersistedNote>) -> Seq<(Seq<char>, Seq<char>, Seq<char>)> {
    v.map_values(|n: PersistedNote| persisted_view(n))
}

/// Each key occurs once.
pub open spec fn keys_unique<V>(v: Seq<(Seq<char>, V)>) -> bool {
    forall|i: int, j: int| 0 <= i < j < v.len() ==> (#[trigger] v[i]).0 != (#[trigger] v[j]).0
}

/// Each scope occurs once, and within a scope each id occurs once.
pub open spec fn notes_wf(m: Seq<(Seq<char>, Seq<(Seq<char>, Seq<char>)>)>) -> bool {
    &&& keys_unique(m)
    &&& forall|i: int| 0 <= i < m.len() ==> keys_unique(#[trigger] m[i].1)
}

/// The notes of a scope, none where the scope has none.
pub open spec fn scope_notes(
    m: Seq<(Seq<char>, Seq<(Seq<char>, Seq<char>)>)>,
    scope: Seq<char>,
) -> Seq<(Seq<char>, Seq<char>)> {
    if id_index(m, scope) >= 0 {
        m[id_index(m, scope)].1
    } else {
        Seq::empty()
    }
}

/// The notes after `content` was written under `id` in `scope`.
pub open spec fn written(
    m: Seq<(Seq<char>, Seq<(Seq<char>, Seq<char>)>)>,
    scope: Seq<char>,
    id: Seq<char>,
    content: Seq<char>,
) -> Seq<(Seq<char>, Seq<(Seq<char>, Seq<char>)>)> {
    put(m, scope, put(scope_notes(m, scope), id, content))
}

/// The pairs without the one whose key is `id`, the others in order.
pub open spec fn remove_key(v: Seq<(Seq<char>, Seq<char>)>, id: Seq<char>) -> Seq<(Seq<char>, Seq<char>)> {
    if id_index(v, id) >= 0 {
        v.remove(id_index(v, id))
    } else {
        v
    }
}

/// The notes after the note `id` of `scope` was removed; the scope itself
/// stays, though it may be left empty.
pub open spec fn removed(
    m: Seq<(Seq<char>, Seq<(Seq<char>, Seq<char>)>)>,
    scope: Seq<char>,
    id: Seq<char>,
) -> Seq<(Seq<char>, Seq<(Seq<char>, Seq<char>)>)> {
    if id_index(m, scope) >= 0 {
        m.update(id_index(m, scope), (scope, remove_key(m[id_index(m, scope)].1, id)))
    } else {
        m
    }
}

/// `acc` with each pair of `s` put into it, first to last.
pub open spec fn put_all(acc: Seq<(Seq<char>, Seq<char>)>, s: Seq<(Seq<char>, Seq<char>)>) -> Seq<(Seq<char>, Seq<char>)>
    decreases s.len(),
{
    if s.len() == 0 {
        acc
    } else {
        put(put_all(acc, s.drop_last()), s.last().0, s.last().1)
    }
}

/// The notes an agent sees: the shared ones, then its own, an own note taking
/// the place of a shared one with the same id.
pub open spec fn active_notes(
    m: Seq<(Seq<char>, Seq<(Seq<char>, Seq<char>)>)>,
    active: Seq<char>,
) -> Seq<(Seq<char>, Seq<char>)> {
    put_all(put_all(Seq::empty(), scope_notes(m, SHARED_SCOPE@)), scope_notes(m, active))
}

/// The notes of a scope as stored notes.
pub open spec fn tagged(scope: Seq<char>, v: Seq<(Seq<char>, Seq<char>)>) -> Seq<(Seq<char>, Seq<char>, Seq<char>)> {
    v.map_values(|p: (Seq<char>, Seq<char>)| (scope, p.0, p.1))
}

/// All notes as stored notes, scope by scope.
pub open spec fn flat(m: Seq<(Seq<char>, Seq<(Seq<char>, Seq<char>)>)>) -> Seq<(Seq<char>, Seq<char>, Seq<char>)>
    decreases m.len(),
{
    if m.len() == 0 {
        Seq::empty()
    } else {
        flat(m.drop_last()) + tagged(m.last().0, m.last().1)
    }
}

/// The order of stored notes: shared notes first, then by scope, then by id.
pub open spec fn note_before(a: (Seq<char>, Seq<char>, Seq<char>), b: (Seq<char>, Seq<char>, Seq<char>)) -> bool {
    if (a.0 == SHARED_SCOPE@) != (b.0 == SHARED_SCOPE@) {
        a.0 == SHARED_SCOPE@
    } else if a.0 != b.0 {
        chars_lt(a.0, b.0)
    } else {
        chars_lt(a.1, b.1)
    }
}

/// Stored notes strictly in order.
pub open spec fn notes_in_order(s: Seq<(Seq<char>, Seq<char>, Seq<char>)>) -> bool {
    forall|i: int, j: int| 0 <= i < j < s.len() ==> note_before(#[trigger] s[i], #[trigger] s[j])
}

/// The notes after each stored note was written into them, first to last.
pub open spec fn written_all(
    m: Seq<(Seq<char>, Seq<(Seq<char>, Seq<char>)>)>,
    s: Seq<(Seq<char>, Seq<char>, Seq<char>)>,
) -> Seq<(Seq<char>, Seq<(Seq<char>, Seq<char>)>)>
    decreases s.len(),
{
    if s.len() == 0 {
        m
    } else {
        written(written_all(m, s.drop_last()), s.last().0, s.last().1, s.last().2)
    }
}

// ---------------------------------------------------------------------------
// Lemmas

proof fn lemma_put_unique<V>(v: Seq<(Seq<char>, V)>, id: Seq<char>, x: V)
    requires
        keys_unique(v),
    ensures
        keys_unique(put(v, id, x)),
        put(v, id, x).len() == v.len() || put(v, id, x).len() == v.len() + 1,
{
    lemma_id_index(v, id, 0);
    if id_index(v, id) >= 0 {
        lemma_id_index_found(v, id);
        let w = put(v, id, x);
        assert forall|i: int, j: int| 0 <= i < j < w.len() implies (#[trigger] w[i]).0 != (#[trigger] w[j]).0 by {
            assert(w[i].0 == v[i].0);
            assert(w[j].0 == v[j].0);
        }
    } else {
        lemma_id_index_absent(v, id);
        let w = put(v, id, x);
        assert forall|i: int, j: int| 0 <= i < j < w.len() implies (#[trigger] w[i]).0 != (#[trigger] w[j]).0 by {
            if j == v.len() {
                assert(v[i].0 != id);
            } else {
                assert(w[i] == v[i] && w[j] == v[j]);
            }
        }
    }
}

/// Where `id_index` finds a position, the key there is `id`.
pub proof fn lemma_id_index_found<V>(v: Seq<(Seq<char>, V)>, id: Seq<char>)
    requires
        id_index(v, id) >= 0,
    ensures
        id_index(v, id) < v.len(),
        v[id_index(v, id)].0 == id,
        forall|k: int| 0 <= k < id_index(v, id) ==> (#[trigger] v[k]).0 != id,
    decreases v.len(),
{
    if v.len() > 0 && v[0].0 != id {
        lemma_id_index_found(v.drop_first(), id);
        assert forall|k: int| 0 <= k < id_index(v, id) implies (#[trigger] v[k]).0 != id by {
            if k > 0 {
                assert(v[k] == v.drop_first()[k - 1]);
            }
        }
    }
}

/// Where `id_index` finds nothing, no key is `id`.
pub proof fn lemma_id_index_absent<V>(v: Seq<(Seq<char>, V)>, id: Seq<char>)
    requires
        id_index(v, id) < 0,
    ensures
        forall|k: int| 0 <= k < v.len() ==> (#[trigger] v[k]).0 != id,
    decreases v.len(),
{
    if v.len() > 0 {
        lemma_id_index_absent(v.drop_first(), id);
        assert forall|k: int| 0 <= k < v.len() implies (#[trigger] v[k]).0 != id by {
            if k > 0 {
                assert(v[k] == v.drop_first()[k - 1]);
            }
        }
    }
}

proof fn lemma_remove_unique(v: Seq<(Seq<char>, Seq<char>)>, id: Seq<char>)
    requires
        keys_unique(v),
    ensures
        keys_unique(remove_key(v, id)),
{
    if id_index(v, id) >= 0 {
        lemma_id_index_found(v, id);
        let n = id_index(v, id);
        let w = v.remove(n);
        assert forall|i: int, j: int| 0 <= i < j < w.len() implies (#[trigger] w[i]).0 != (#[trigger] w[j]).0 by {
            let a = if i < n { i } else { i + 1 };
            let b = if j < n { j } else { j + 1 };
            assert(w[i] == v[a] && w[j] == v[b]);
        }
    }
}

proof fn lemma_written_wf(
    m: Seq<(Seq<char>, Seq<(Seq<char>, Seq<char>)>)>,
    scope: Seq<char>,
    id: Seq<char>,
    content: Seq<char>,
)
    requires
        notes_wf(m),
    ensures
        notes_wf(written(m, scope, id, content)),
{
    let inner = scope_notes(m, scope);
    if id_index(m, scope) >= 0 {
        lemma_id_index_found(m, scope);
        assert(keys_unique(m[id_index(m, scope)].1));
    }
    lemma_put_unique(inner, id, content);
    lemma_put_unique(m, scope, put(inner, id, content));
    let w = written(m, scope, id, content);
    assert forall|i: int| 0 <= i < w.len() implies keys_unique(#[trigger] w[i].1) by {
        if id_index(m, scope) >= 0 {
            if i != id_index(m, scope) {
                assert(w[i] == m[i]);
            }
        } else if i < m.len() {
            assert(w[i] == m[i]);
        }
    }
}

proof fn lemma_removed_wf(m: Seq<(Seq<char>, Seq<(Seq<char>, Seq<char>)>)>, scope: Seq<char>, id: Seq<char>)
    requires
        notes_wf(m),
    ensures
        notes_wf(removed(m, scope, id)),
{
    if id_index(m, scope) >= 0 {
        lemma_id_index_found(m, scope);
        let n = id_index(m, scope);
        assert(keys_unique(m[n].1));
        lemma_remove_unique(m[n].1, id);
        let w = removed(m, scope, id);
        assert forall|i: int, j: int| 0 <= i < j < w.len() implies (#[trigger] w[i]).0 != (#[trigger] w[j]).0 by {
            assert(w[i].0 == m[i].0 && w[j].0 == m[j].0);
        }
        assert forall|i: int| 0 <= i < w.len() implies keys_unique(#[trigger] w[i].1) by {
            if i != n {
                assert(w[i] == m[i]);
            }
        }
    }
}

proof fn lemma_note_before_irreflexive(a: (Seq<char>, Seq<char>, Seq<char>))
    ensures
        !note_before(a, a),
{
    lemma_chars_lt_irreflexive(a.1);
}

proof fn lemma_note_before_total(a: (Seq<char>, Seq<char>, Seq<char>), b: (Seq<char>, Seq<char>, Seq<char>))
    requires
        a.0 != b.0 || a.1 != b.1,
    ensures
        note_before(a, b) || note_before(b, a),
        !(note_before(a, b) && note_before(b, a)),
{
    lemma_chars_lt_total(a.0, b.0);
    lemma_chars_lt_total(a.1, b.1);
}

proof fn lemma_note_before_transitive(
    a: (Seq<char>, Seq<char>, Seq<char>),
    b: (Seq<char>, Seq<char>, Seq<char>),
    c: (Seq<char>, Seq<char>, Seq<char>),
)
    requires
        note_before(a, b),
        note_before(b, c),
    ensures
        note_before(a, c),
{
    if a.0 != b.0 && b.0 != c.0 && (a.0 == SHARED_SCOPE@) == (c.0 == SHARED_SCOPE@) {
        if (a.0 == SHARED_SCOPE@) == (b.0 == SHARED_SCOPE@) && (b.0 == SHARED_SCOPE@) == (c.0 == SHARED_SCOPE@) {
            lemma_chars_lt_transitive(a.0, b.0, c.0);
            lemma_chars_lt_irreflexive(a.0);
        }
    } else if a.0 == b.0 && b.0 == c.0 {
        lemma_chars_lt_transitive(a.1, b.1, c.1);
    } else if a.0 != b.0 && b.0 == c.0 {
    } else if a.0 == b.0 && b.0 != c.0 {
    } else {
        lemma_chars_lt_total(a.0, c.0);
        if a.0 == c.0 && (a.0 == SHARED_SCOPE@) == (b.0 == SHARED_SCOPE@) {
            lemma_chars_lt_total(a.0, b.0);
        }
    }
}

// ---------------------------------------------------------------------------
// Writing and removing

fn scope_position(notes: &Vec<NoteScope>, scope: &str) -> (out: Option<usize>)
    ensures
        match out {
            Some(i) => id_index(notes_model(notes@), scope@) == i as int && i < notes@.len(),
            None => id_index(notes_model(notes@), scope@) == -1,
        },
{
    let ghost m = notes_model(notes@);
    let mut i: usize = 0;
    while i < notes.len()
        invariant
            i <= notes.len(),
            m == notes_model(notes@),
            forall|k: int| 0 <= k < i ==> (#[trigger] m[k]).0 != scope@,
        decreases notes.len() - i,
    {
        if str_eq(notes[i].scope.as_str(), scope) {
            proof {
                lemma_id_index(m, scope@, i as int);
            }
            return Some(i);
        }
        i += 1;
    }
    proof {
        lemma_id_index(m, scope@, i as int);
    }
    None
}

fn copy_note(n: &Note) -> (out: Note)
    ensures
        out.id@ == n.id@,
        out.content@ == n.content@,
{
    Note { id: to_owned(n.id.as_str()), content: to_owned(n.content.as_str()) }
}

/// Sets the note `id` of one scope's notes, in place where it is there, else
/// at the end.
fn put_note(notes: &mut Vec<Note>, id: &str, content: &str)
    ensures
        note_pairs(final(notes)@) == put(note_pairs(old(notes)@), id@, content@),
{
    let ghost before = note_pairs(notes@);
    let mut i: usize = 0;
    while i < notes.len()
        invariant
            i <= notes.len(),
            before == note_pairs(notes@),
            before == note_pairs(old(notes)@),
            forall|k: int| 0 <= k < i ==> (#[trigger] before[k]).0 != id@,
        decreases notes.len() - i,
    {
        if str_eq(notes[i].id.as_str(), id) {
            proof {
                lemma_id_index(before, id@, i as int);
            }
            notes.set(i, Note { id: to_owned(id), content: to_owned(content) });
            assert(note_pairs(notes@) =~= before.update(i as int, (id@, content@)));
            return;
        }
        i += 1;
    }
    proof {
        lemma_id_index(before, id@, i as int);
    }
    notes.push(Note { id: to_owned(id), content: to_owned(content) });
    assert(note_pairs(notes@) =~= before.push((id@, content@)));
}

/// Writes `content` under `id` in `scope`, creating the scope where it has no
/// notes yet.
pub fn write_note_in_scope(notes: &mut Vec<NoteScope>, scope: &str, id: &str, content: &str)
    ensures
        notes_model(final(notes)@) == written(notes_model(old(notes)@), scope@, id@, content@),
        notes_wf(notes_model(old(notes)@)) ==> notes_wf(notes_model(final(notes)@)),
{
    let ghost m = notes_model(notes@);
    proof {
        lemma_written_wf_if(m, scope@, id@, content@);
    }
    match scope_position(notes, scope) {
        Some(j) => {
            proof {
                lemma_id_index_found(m, scope@);
            }
            let mut entry = notes.remove(j);
            assert(note_pairs(entry.notes@) == m[j as int].1);
            assert(entry.scope@ == scope@);
            put_note(&mut entry.notes, id, content);
            notes.insert(j, entry);
            assert(notes_model(notes@) =~= m.update(j as int, (scope@, put(m[j as int].1, id@, content@))));
        },
        None => {
            let mut fresh: Vec<Note> = Vec::new();
            put_note(&mut fresh, id, content);
            assert(note_pairs(Seq::<Note>::empty()) =~= Seq::<(Seq<char>, Seq<char>)>::empty());
            notes.push(NoteScope { scope: to_owned(scope), notes: fresh });
            assert(notes_model(notes@) =~= m.push((scope@, put(Seq::<(Seq<char>, Seq<char>)>::empty(), id@, content@))));
        },
    }
}

proof fn lemma_written_wf_if(
    m: Seq<(Seq<char>, Seq<(Seq<char>, Seq<char>)>)>,
    scope: Seq<char>,
    id: Seq<char>,
    content: Seq<char>,
)
    ensures
        notes_wf(m) ==> notes_wf(written(m, scope, id, content)),
{
    if notes_wf(m) {
        lemma_written_wf(m, scope, id, content);
    }
}

fn remove_note(notes: &mut Vec<Note>, id: &str)
    ensures
        note_pairs(final(notes)@) == remove_key(note_pairs(old(notes)@), id@),
{
    let ghost before = note_pairs(notes@);
    let mut i: usize = 0;
    while i < notes.len()
        invariant
            i <= notes.len(),
            before == note_pairs(notes@),
            before == note_pairs(old(notes)@),
            forall|k: int| 0 <= k < i ==> (#[trigger] before[k]).0 != id@,
        decreases notes.len() - i,
    {
        if str_eq(notes[i].id.as_str(), id) {
            proof {
                lemma_id_index(before, id@, i as int);
            }
            notes.remove(i);
            assert(note_pairs(notes@) =~= before.remove(i as int));
            return;
        }
        i += 1;
    }
    proof {
        lemma_id_index(before, id@, i as int);
    }
}

/// Removes the note `id` of `scope`; nothing changes where there is none.
pub fn remove_note_in_scope(notes: &mut Vec<NoteScope>, scope: &str, id: &str)
    ensures
        notes_model(final(notes)@) == removed(notes_model(old(notes)@), scope@, id@),
        notes_wf(notes_model(old(notes)@)) ==> notes_wf(notes_model(final(notes)@)),
{
    let ghost m = notes_model(notes@);
    proof {
        if notes_wf(m) {
            lemma_removed_wf(m, scope@, id@);
        }
    }
    match scope_position(notes, scope) {
        Some(j) => {
            proof {
                lemma_id_index_found(m, scope@);
            }
            let mut entry = notes.remove(j);
            assert(note_pairs(entry.notes@) == m[j as int].1);
            assert(entry.scope@ == scope@);
            remove_note(&mut entry.notes, id);
            notes.insert(j, entry);
            assert(notes_model(notes@) =~= m.update(j as int, (scope@, remove_key(m[j as int].1, id@))));
        },
        None => {},
    }
}

// ---------------------------------------------------------------------------
// Reading

/// Puts each note of `source` into `into`, first to last.
fn put_notes(into: &mut Vec<Note>, source: &Vec<Note>)
    ensures
        note_pairs(final(into)@) == put_all(note_pairs(old(into)@), note_pairs(source@)),
{
    let ghost start = note_pairs(into@);
    let ghost src = note_pairs(source@);
    let mut i: usize = 0;
    while i < source.len()
        invariant
            i <= source.len(),
            src == note_pairs(source@),
            start == note_pairs(old(into)@),
            note_pairs(into@) == put_all(start, src.take(i as int)),
        decreases source.len() - i,
    {
        proof {
            assert(src.take(i + 1).drop_last() =~= src.take(i as int));
            assert(src.take(i + 1).last() == src[i as int]);
        }
        put_note(into, source[i].id.as_str(), source[i].content.as_str());
        i += 1;
    }
    assert(src.take(i as int) =~= src);
}

/// The notes the active agent sees: the shared scope's notes, then its own,
/// its own taking the place of shared ones with the same id.
pub fn notes_for_active_agent(notes: &Vec<NoteScope>, active: &str) -> (out: Vec<Note>)
    ensures
        note_pairs(out@) == active_notes(notes_model(notes@), active@),
{
    let ghost m = notes_model(notes@);
    let mut merged: Vec<Note> = Vec::new();
    assert(note_pairs(merged@) =~= Seq::<(Seq<char>, Seq<char>)>::empty());
    match scope_position(notes, SHARED_SCOPE) {
        Some(j) => {
            put_notes(&mut merged, &notes[j].notes);
        },
        None => {
            assert(put_all(Seq::empty(), Seq::<(Seq<char>, Seq<char>)>::empty()) == Seq::<(Seq<char>, Seq<char>)>::empty());
        },
    }
    match scope_position(notes, active) {
        Some(j) => {
            put_notes(&mut merged, &notes[j].notes);
        },
        None => {},
    }
    merged
}

// ---------------------------------------------------------------------------
// Storing

/// The `b`-th note of the `a`-th scope, as a stored note.
pub open spec fn note_at(m: Seq<(Seq<char>, Seq<(Seq<char>, Seq<char>)>)>, a: int, b: int) -> (Seq<char>, Seq<char>, Seq<char>) {
    (m[a].0, m[a].1[b].0, m[a].1[b].1)
}

/// Whether `x` is among the notes before the `k`-th note of the `i`-th scope.
pub open spec fn among_first(
    m: Seq<(Seq<char>, Seq<(Seq<char>, Seq<char>)>)>,
    i: int,
    k: int,
    x: (Seq<char>, Seq<char>, Seq<char>),
) -> bool {
    exists|a: int, b: int|
        0 <= a <= i && 0 <= b < m[a].1.len() && (a < i || b < k) && x == #[trigger] note_at(m, a, b)
}

proof fn lemma_flat_contains(m: Seq<(Seq<char>, Seq<(Seq<char>, Seq<char>)>)>, x: (Seq<char>, Seq<char>, Seq<char>))
    ensures
        flat(m).contains(x) <==> (m.len() > 0 && among_first(m, m.len() - 1, m[m.len() - 1].1.len() as int, x)),
    decreases m.len(),
{
    if m.len() > 0 {
        let init = m.drop_last();
        let last = m.len() - 1;
        let t = tagged(m[last].0, m[last].1);
        lemma_flat_contains(init, x);
        if flat(m).contains(x) {
            let p = choose|p: int| 0 <= p < flat(m).len() && flat(m)[p] == x;
            if p < flat(init).len() {
                assert(flat(init)[p] == x);
                assert(flat(init).contains(x));
                let (a, b) = choose|a: int, b: int|
                    0 <= a <= init.len() - 1 && 0 <= b < init[a].1.len() && (a < init.len() - 1 || b < init[init.len() - 1].1.len() as int) && x == #[trigger] note_at(init, a, b);
                assert(note_at(init, a, b) == note_at(m, a, b));
                assert(among_first(m, last, m[last].1.len() as int, x));
            } else {
                let b = p - flat(init).len();
                assert(t[b] == x);
                assert(note_at(m, last, b) == x);
                assert(among_first(m, last, m[last].1.len() as int, x));
            }
        }
        if among_first(m, last, m[last].1.len() as int, x) {
            let (a, b) = choose|a: int, b: int|
                0 <= a <= last && 0 <= b < m[a].1.len() && (a < last || b < m[last].1.len() as int) && x == #[trigger] note_at(m, a, b);
            if a < last {
                assert(note_at(init, a, b) == note_at(m, a, b));
                assert(among_first(init, init.len() - 1, init[init.len() - 1].1.len() as int, x)) by {
                    if a == init.len() - 1 {
                    }
                }
                let p = choose|p: int| 0 <= p < flat(init).len() && flat(init)[p] == x;
                assert(flat(m)[p] == x);
            } else {
                assert(t[b] == x);
                assert(flat(m)[flat(init).len() + b] == x);
            }
        }
    }
}

fn note_before_exec(a: &PersistedNote, b: &PersistedNote) -> (out: bool)
    ensures
        out == note_before(persisted_view(*a), persisted_view(*b)),
{
    let a_shared = str_eq(a.scope.as_str(), SHARED_SCOPE);
    let b_shared = str_eq(b.scope.as_str(), SHARED_SCOPE);
    if a_shared != b_shared {
        a_shared
    } else if !str_eq(a.scope.as_str(), b.scope.as_str()) {
        str_lt(a.scope.as_str(), b.scope.as_str())
    } else {
        str_lt(a.id.as_str(), b.id.as_str())
    }
}

/// Inserts a stored note whose scope and id no other has, keeping the order.
fn insert_in_order(out: &mut Vec<PersistedNote>, e: PersistedNote)
    requires
        notes_in_order(persisted_seq(old(out)@)),
        forall|j: int|
            0 <= j < old(out)@.len() ==> (#[trigger] persisted_seq(old(out)@)[j]).0 != e.scope@
                || persisted_seq(old(out)@)[j].1 != e.id@,
    ensures
        notes_in_order(persisted_seq(final(out)@)),
        forall|x: (Seq<char>, Seq<char>, Seq<char>)|
            #[trigger] persisted_seq(final(out)@).contains(x) <==> (persisted_seq(old(out)@).contains(x) || x
                == persisted_view(e)),
{
    let ghost s = persisted_seq(out@);
    let ghost ev = persisted_view(e);
    let mut pos: usize = 0;
    while pos < out.len() && note_before_exec(&out[pos], &e)
        invariant
            pos <= out.len(),
            s == persisted_seq(out@),
            ev == persisted_view(e),
            forall|k: int| 0 <= k < pos ==> note_before(#[trigger] s[k], ev),
        decreases out.len() - pos,
    {
        pos += 1;
    }
    proof {
        if pos < s.len() {
            lemma_note_before_total(s[pos as int], ev);
        }
    }
    out.insert(pos, e);
    let ghost after = persisted_seq(out@);
    assert(after =~= s.insert(pos as int, ev));
    assert forall|a: int, b: int| 0 <= a < b < after.len() implies note_before(#[trigger] after[a], #[trigger] after[b]) by {
        let p = pos as int;
        if b < p {
            assert(after[a] == s[a] && after[b] == s[b]);
        } else if b == p {
            assert(after[a] == s[a]);
        } else if a < p {
            assert(after[a] == s[a] && after[b] == s[b - 1]);
            if b - 1 > p {
                lemma_note_before_transitive(ev, s[p], s[b - 1]);
            }
            lemma_note_before_transitive(s[a], ev, s[b - 1]);
        } else if a == p {
            assert(after[b] == s[b - 1]);
            if b - 1 > p {
                lemma_note_before_transitive(ev, s[p], s[b - 1]);
            }
        } else {
            assert(after[a] == s[a - 1] && after[b] == s[b - 1]);
        }
    }
    assert forall|x: (Seq<char>, Seq<char>, Seq<char>)|
        #[trigger] after.contains(x) <==> (s.contains(x) || x == ev) by {
        if after.contains(x) {
            let q = choose|q: int| 0 <= q < after.len() && after[q] == x;
            if q < pos {
                assert(s[q] == x);
            } else if q > pos {
                assert(s[q - 1] == x);
            }
        }
        if s.contains(x) {
            let q = choose|q: int| 0 <= q < s.len() && s[q] == x;
            if q < pos {
                assert(after[q] == x);
            } else {
                assert(after[q + 1] == x);
            }
        }
        if x == ev {
            assert(after[pos as int] == x);
        }
    }
}

/// All notes as stored notes: the shared scope's first, then by scope, then
/// by id.
pub fn persisted_notes(notes: &Vec<NoteScope>) -> (out: Vec<PersistedNote>)
    requires
        notes_wf(notes_model(notes@)),
    ensures
        notes_in_order(persisted_seq(out@)),
        forall|x: (Seq<char>, Seq<char>, Seq<char>)|
            #[trigger] persisted_seq(out@).contains(x) <==> flat(notes_model(notes@)).contains(x),
{
    let ghost m = notes_model(notes@);
    let mut out: Vec<PersistedNote> = Vec::new();
    let mut i: usize = 0;
    while i < notes.len()
        invariant
            i <= notes.len(),
            m == notes_model(notes@),
            notes_wf(m),
            notes_in_order(persisted_seq(out@)),
            forall|x: (Seq<char>, Seq<char>, Seq<char>)|
                #[trigger] persisted_seq(out@).contains(x) <==> among_first(m, i as int, 0, x),
        decreases notes.len() - i,
    {
        let scope = &notes[i];
        let mut k: usize = 0;
        while k < scope.notes.len()
            invariant
                i < notes.len(),
                k <= scope.notes.len(),
                *scope == notes@[i as int],
                m == notes_model(notes@),
                notes_wf(m),
                notes_in_order(persisted_seq(out@)),
                forall|x: (Seq<char>, Seq<char>, Seq<char>)|
                    #[trigger] persisted_seq(out@).contains(x) <==> among_first(m, i as int, k as int, x),
            decreases scope.notes.len() - k,
        {
            let e = PersistedNote {
                scope: to_owned(scope.scope.as_str()),
                id: to_owned(scope.notes[k].id.as_str()),
                content: to_owned(scope.notes[k].content.as_str()),
            };
            let ghost ev = persisted_view(e);
            assert(ev == note_at(m, i as int, k as int));
            let ghost s = persisted_seq(out@);
            assert forall|j: int| 0 <= j < s.len() implies (#[trigger] s[j]).0 != ev.0 || s[j].1 != ev.1 by {
                assert(s.contains(s[j]));
                let (a, b) = choose|a: int, b: int|
                    0 <= a <= i && 0 <= b < m[a].1.len() && (a < i || b < k) && s[j] == #[trigger] note_at(m, a, b);
                if a < i {
                    assert(m[a].0 != m[i as int].0);
                } else {
                    assert(keys_unique(m[i as int].1));
                    assert(m[a].1[b].0 != m[a].1[k as int].0);
                }
            }
            insert_in_order(&mut out, e);
            assert forall|x: (Seq<char>, Seq<char>, Seq<char>)|
                #[trigger] persisted_seq(out@).contains(x) <==> among_first(m, i as int, k + 1, x) by {
                if among_first(m, i as int, k + 1, x) && x != ev {
                    let (a, b) = choose|a: int, b: int|
                        0 <= a <= i && 0 <= b < m[a].1.len() && (a < i || b < k + 1) && x == #[trigger] note_at(m, a, b);
                    assert(among_first(m, i as int, k as int, x));
                }
                if among_first(m, i as int, k as int, x) {
                    let (a, b) = choose|a: int, b: int|
                        0 <= a <= i && 0 <= b < m[a].1.len() && (a < i || b < k) && x == #[trigger] note_at(m, a, b);
                    assert(among_first(m, i as int, k + 1, x));
                }
            }
            k += 1;
        }
        assert forall|x: (Seq<char>, Seq<char>, Seq<char>)|
            #[trigger] persisted_seq(out@).contains(x) <==> among_first(m, i + 1, 0, x) by {
            if among_first(m, i + 1, 0, x) {
                let (a, b) = choose|a: int, b: int|
                    0 <= a <= i + 1 && 0 <= b < m[a].1.len() && (a < i + 1 || b < 0) && x == #[trigger] note_at(m, a, b);
                assert(among_first(m, i as int, k as int, x));
            }
            if among_first(m, i as int, k as int, x) {
                let (a, b) = choose|a: int, b: int|
                    0 <= a <= i && 0 <= b < m[a].1.len() && (a < i || b < k) && x == #[trigger] note_at(m, a, b);
                assert(among_first(m, i + 1, 0, x));
            }
        }
        i += 1;
    }
    assert forall|x: (Seq<char>, Seq<char>, Seq<char>)|
        #[trigger] persisted_seq(out@).contains(x) <==> flat(m).contains(x) by {
        lemma_flat_contains(m, x);
        if m.len() > 0 {
            let last = m.len() - 1;
            if among_first(m, i as int, 0, x) {
                let (a, b) = choose|a: int, b: int|
                    0 <= a <= i && 0 <= b < m[a].1.len() && (a < i || b < 0) && x == #[trigger] note_at(m, a, b);
                assert(among_first(m, last, m[last].1.len() as int, x));
            }
            if among_first(m, last, m[last].1.len() as int, x) {
                let (a, b) = choose|a: int, b: int|
                    0 <= a <= last && 0 <= b < m[a].1.len() && (a < last || b < m[last].1.len() as int) && x == #[trigger] note_at(m, a, b);
                assert(among_first(m, i as int, 0, x));
            }
        } else {
            if among_first(m, i as int, 0, x) {
                let (a, b) = choose|a: int, b: int|
                    0 <= a <= i && 0 <= b < m[a].1.len() && (a < i || b < 0) && x == #[trigger] note_at(m, a, b);
            }
        }
    }
    out
}

/// Groups stored notes by scope, writing each in turn.
pub fn notes_by_scope(notes: Vec<PersistedNote>) -> (out: Vec<NoteScope>)
    ensures
        notes_model(out@) == written_all(Seq::empty(), persisted_seq(notes@)),
        notes_wf(notes_model(out@)),
{
    let ghost s = persisted_seq(notes@);
    let mut by_scope: Vec<NoteScope> = Vec::new();
    assert(notes_model(by_scope@) =~= Seq::<(Seq<char>, Seq<(Seq<char>, Seq<char>)>)>::empty());
    let mut i: usize = 0;
    while i < notes.len()
        invariant
            i <= notes.len(),
            s == persisted_seq(notes@),
            notes_model(by_scope@) == written_all(Seq::empty(), s.take(i as int)),
            notes_wf(notes_model(by_scope@)),
        decreases notes.len() - i,
    {
        proof {
            assert(s.take(i + 1).drop_last() =~= s.take(i as int));
            assert(s.take(i + 1).last() == s[i as int]);
        }
        write_note_in_scope(&mut by_scope, notes[i].scope.as_str(), notes[i].id.as_str(), notes[i].content.as_str());
        i += 1;
    }
    assert(s.take(i as int) =~= s);
    by_scope
}

// ---------------------------------------------------------------------------
// Stored notes come back

/// The value under `key`, if there is one.
pub open spec fn lookup<V>(v: Seq<(Seq<char>, V)>, key: Seq<char>) -> Option<V> {
    if id_index(v, key) >= 0 {
        Some(v[id_index(v, key)].1)
    } else {
        None
    }
}

/// The content of note `id` of `scope`, if there is one.
pub open spec fn note_lookup(
    m: Seq<(Seq<char>, Seq<(Seq<char>, Seq<char>)>)>,
    scope: Seq<char>,
    id: Seq<char>,
) -> Option<Seq<char>> {
    lookup(scope_notes(m, scope), id)
}

/// The content of the last stored note with this scope and id.
pub open spec fn last_match(s: Seq<(Seq<char>, Seq<char>, Seq<char>)>, scope: Seq<char>, id: Seq<char>) -> Option<Seq<char>>
    decreases s.len(),
{
    if s.len() == 0 {
        None
    } else if s.last().0 == scope && s.last().1 == id {
        Some(s.last().2)
    } else {
        last_match(s.drop_last(), scope, id)
    }
}

pub(crate) proof fn lemma_lookup_put<V>(v: Seq<(Seq<char>, V)>, id: Seq<char>, x: V, key: Seq<char>)
    ensures
        lookup(put(v, id, x), key) == (if key == id { Some(x) } else { lookup(v, key) }),
{
    let w = put(v, id, x);
    if id_index(v, id) >= 0 {
        lemma_id_index_found(v, id);
    } else {
        lemma_id_index_absent(v, id);
    }
    if id_index(v, key) >= 0 {
        lemma_id_index_found(v, key);
        let i = id_index(v, key);
        assert forall|k: int| 0 <= k < i implies (#[trigger] w[k]).0 != key by {
            assert(w[k].0 == v[k].0);
        }
        assert(w[i].0 == key);
        lemma_id_index(w, key, i);
        if key != id {
            assert(w[i] == v[i]);
        }
    } else {
        lemma_id_index_absent(v, key);
        if key == id {
            let i = v.len() as int;
            assert forall|k: int| 0 <= k < i implies (#[trigger] w[k]).0 != key by {
                assert(w[k] == v[k]);
            }
            lemma_id_index(w, key, i);
        } else {
            assert forall|k: int| 0 <= k < w.len() implies (#[trigger] w[k]).0 != key by {
                if k < v.len() {
                    assert(w[k].0 == v[k].0);
                }
            }
            lemma_id_index(w, key, w.len() as int);
        }
    }
}

proof fn lemma_scope_notes_lookup(m: Seq<(Seq<char>, Seq<(Seq<char>, Seq<char>)>)>, scope: Seq<char>)
    ensures
        scope_notes(m, scope) == (match lookup(m, scope) {
            Some(v) => v,
            None => Seq::empty(),
        }),
{
}

/// A note written is what looking it up gives afterwards; every other note
/// of every scope stays as it was.
pub proof fn lemma_written_lookup(
    m: Seq<(Seq<char>, Seq<(Seq<char>, Seq<char>)>)>,
    scope: Seq<char>,
    id: Seq<char>,
    content: Seq<char>,
    s: Seq<char>,
    k: Seq<char>,
)
    ensures
        note_lookup(written(m, scope, id, content), s, k) == (if s == scope && k == id {
            Some(content)
        } else {
            note_lookup(m, s, k)
        }),
{
    let inner = put(scope_notes(m, scope), id, content);
    lemma_lookup_put(m, scope, inner, s);
    lemma_scope_notes_lookup(m, s);
    lemma_scope_notes_lookup(written(m, scope, id, content), s);
    if s == scope {
        lemma_lookup_put(scope_notes(m, scope), id, content, k);
    }
}

proof fn lemma_written_all_lookup(
    s: Seq<(Seq<char>, Seq<char>, Seq<char>)>,
    scope: Seq<char>,
    id: Seq<char>,
)
    ensures
        note_lookup(written_all(Seq::empty(), s), scope, id) == last_match(s, scope, id),
    decreases s.len(),
{
    if s.len() == 0 {
        assert(id_index(Seq::<(Seq<char>, Seq<(Seq<char>, Seq<char>)>)>::empty(), scope) == -1);
        assert(id_index(Seq::<(Seq<char>, Seq<char>)>::empty(), id) == -1);
    } else {
        lemma_written_all_lookup(s.drop_last(), scope, id);
        lemma_written_lookup(written_all(Seq::empty(), s.drop_last()), s.last().0, s.last().1, s.last().2, scope, id);
    }
}

proof fn lemma_last_match_found(s: Seq<(Seq<char>, Seq<char>, Seq<char>)>, scope: Seq<char>, id: Seq<char>)
    ensures
        match last_match(s, scope, id) {
            Some(c) => s.contains((scope, id, c)),
            None => forall|j: int| 0 <= j < s.len() ==> !((#[trigger] s[j]).0 == scope && s[j].1 == id),
        },
    decreases s.len(),
{
    if s.len() > 0 {
        let init = s.drop_last();
        lemma_last_match_found(init, scope, id);
        if s.last().0 == scope && s.last().1 == id {
            assert(s[s.len() - 1] == s.last());
        } else {
            match last_match(init, scope, id) {
                Some(c) => {
                    let j = choose|j: int| 0 <= j < init.len() && init[j] == (scope, id, c);
                    assert(s[j] == init[j]);
                },
                None => {
                    assert forall|j: int| 0 <= j < s.len() implies !((#[trigger] s[j]).0 == scope && s[j].1 == id) by {
                        if j < init.len() {
                            assert(s[j] == init[j]);
                        }
                    }
                },
            }
        }
    }
}

proof fn lemma_unique_index<V>(v: Seq<(Seq<char>, V)>, a: int)
    requires
        keys_unique(v),
        0 <= a < v.len(),
    ensures
        id_index(v, v[a].0) == a,
{
    assert forall|k: int| 0 <= k < a implies (#[trigger] v[k]).0 != v[a].0 by {
        assert(v[k].0 != v[a].0);
    }
    lemma_id_index(v, v[a].0, a);
}

proof fn lemma_flat_lookup(
    m: Seq<(Seq<char>, Seq<(Seq<char>, Seq<char>)>)>,
    scope: Seq<char>,
    id: Seq<char>,
    c: Seq<char>,
)
    requires
        notes_wf(m),
    ensures
        flat(m).contains((scope, id, c)) <==> note_lookup(m, scope, id) == Some(c),
{
    let x = (scope, id, c);
    lemma_flat_contains(m, x);
    if flat(m).contains(x) {
        let last = m.len() - 1;
        let (a, b) = choose|a: int, b: int|
            0 <= a <= last && 0 <= b < m[a].1.len() && (a < last || b < m[last].1.len() as int) && x == #[trigger] note_at(m, a, b);
        lemma_unique_index(m, a);
        assert(keys_unique(m[a].1));
        lemma_unique_index(m[a].1, b);
    }
    if note_lookup(m, scope, id) == Some(c) {
        assert(id_index(m, scope) >= 0);
        lemma_id_index_found(m, scope);
        let a = id_index(m, scope);
        let inner = m[a].1;
        lemma_id_index_found(inner, id);
        let b = id_index(inner, id);
        assert(note_at(m, a, b) == x);
        let last = m.len() - 1;
        assert(among_first(m, last, m[last].1.len() as int, x));
    }
}

/// Notes that were stored, each once, and grouped again by scope come back as
/// they were: every scope has, under every id, the content it had, or none
/// where it had none.
pub proof fn lemma_notes_roundtrip(
    m: Seq<(Seq<char>, Seq<(Seq<char>, Seq<char>)>)>,
    stored: Seq<(Seq<char>, Seq<char>, Seq<char>)>,
)
    requires
        notes_wf(m),
        forall|x: (Seq<char>, Seq<char>, Seq<char>)| #[trigger] stored.contains(x) <==> flat(m).contains(x),
    ensures
        forall|scope: Seq<char>, id: Seq<char>|
            #[trigger] note_lookup(written_all(Seq::empty(), stored), scope, id) == note_lookup(m, scope, id),
{
    assert forall|scope: Seq<char>, id: Seq<char>|
        #[trigger] note_lookup(written_all(Seq::empty(), stored), scope, id) == note_lookup(m, scope, id) by {
        lemma_written_all_lookup(stored, scope, id);
        lemma_last_match_found(stored, scope, id);
        match last_match(stored, scope, id) {
            Some(c) => {
                lemma_flat_lookup(m, scope, id, c);
            },
            None => {
                match note_lookup(m, scope, id) {
                    Some(c) => {
                        lemma_flat_lookup(m, scope, id, c);
                        assert(stored.contains((scope, id, c)));
                        let j = choose|j: int| 0 <= j < stored.len() && stored[j] == (scope, id, c);
                        assert(!((stored[j]).0 == scope && stored[j].1 == id));
                    },
                    None => {},
                }
            },
        }
    }
}

proof fn lemma_lookup_update_same_key<V>(v: Seq<(Seq<char>, V)>, n: int, x: V, key: Seq<char>)
    requires
        0 <= n < v.len(),
    ensures
        id_index(v.update(n, (v[n].0, x)), key) == id_index(v, key),
{
    let w = v.update(n, (v[n].0, x));
    if id_index(v, key) >= 0 {
        lemma_id_index_found(v, key);
        let i = id_index(v, key);
        assert forall|k: int| 0 <= k < i implies (#[trigger] w[k]).0 != key by {
            assert(w[k].0 == v[k].0);
        }
        assert(w[i].0 == v[i].0);
        lemma_id_index(w, key, i);
    } else {
        lemma_id_index_absent(v, key);
        assert forall|k: int| 0 <= k < w.len() implies (#[trigger] w[k]).0 != key by {
            assert(w[k].0 == v[k].0);
        }
        lemma_id_index(w, key, w.len() as int);
    }
}

proof fn lemma_lookup_remove(v: Seq<(Seq<char>, Seq<char>)>, id: Seq<char>, k: Seq<char>)
    requires
        keys_unique(v),
    ensures
        lookup(remove_key(v, id), k) == (if k == id { None } else { lookup(v, k) }),
{
    if id_index(v, id) >= 0 {
        lemma_id_index_found(v, id);
        let n = id_index(v, id);
        let w = v.remove(n);
        if k == id {
            assert forall|j: int| 0 <= j < w.len() implies (#[trigger] w[j]).0 != k by {
                if j < n {
                    assert(w[j] == v[j]);
                } else {
                    assert(w[j] == v[j + 1]);
                }
            }
            lemma_id_index(w, k, w.len() as int);
        } else if id_index(v, k) >= 0 {
            lemma_id_index_found(v, k);
            let i = id_index(v, k);
            let at = if i < n { i } else { i - 1 };
            assert(i != n);
            assert forall|j: int| 0 <= j < at implies (#[trigger] w[j]).0 != k by {
                if j < n {
                    assert(w[j] == v[j]);
                } else {
                    assert(w[j] == v[j + 1]);
                }
            }
            if i < n {
                assert(w[at] == v[i]);
            } else {
                assert(w[at] == v[i]);
            }
            lemma_id_index(w, k, at);
        } else {
            lemma_id_index_absent(v, k);
            assert forall|j: int| 0 <= j < w.len() implies (#[trigger] w[j]).0 != k by {
                if j < n {
                    assert(w[j] == v[j]);
                } else {
                    assert(w[j] == v[j + 1]);
                }
            }
            lemma_id_index(w, k, w.len() as int);
        }
    } else if k == id {
        lemma_id_index_absent(v, id);
    }
}

/// A note removed is gone afterwards, its scope's other notes and every other
/// scope's notes staying as they were.
pub proof fn lemma_removed_lookup(
    m: Seq<(Seq<char>, Seq<(Seq<char>, Seq<char>)>)>,
    scope: Seq<char>,
    id: Seq<char>,
    s: Seq<char>,
    k: Seq<char>,
)
    requires
        notes_wf(m),
    ensures
        note_lookup(removed(m, scope, id), s, k) == (if s == scope && k == id {
            None
        } else {
            note_lookup(m, s, k)
        }),
{
    if id_index(m, scope) >= 0 {
        lemma_id_index_found(m, scope);
        let n = id_index(m, scope);
        let w = removed(m, scope, id);
        assert(w == m.update(n, (m[n].0, remove_key(m[n].1, id))));
        lemma_lookup_update_same_key(m, n, remove_key(m[n].1, id), s);
        let j = id_index(m, s);
        if j == n {
            assert(keys_unique(m[n].1));
            lemma_lookup_remove(m[n].1, id, k);
            lemma_id_index_found(m, s);
            assert(scope_notes(w, s) == remove_key(m[n].1, id));
            assert(scope_notes(m, s) == m[n].1);
        } else if j >= 0 {
            lemma_id_index_found(m, s);
            assert(w[j] == m[j]);
            assert(scope_notes(w, s) == scope_notes(m, s));
        } else {
            assert(scope_notes(w, s) == scope_notes(m, s));
        }
    } else if s == scope {
        assert(id_index(Seq::<(Seq<char>, Seq<char>)>::empty(), k) == -1);
    }
}

/// The value of the last pair with key `k`.
pub open spec fn lookup_last(s: Seq<(Seq<char>, Seq<char>)>, k: Seq<char>) -> Option<Seq<char>>
    decreases s.len(),
{
    if s.len() == 0 {
        None
    } else if s.last().0 == k {
        Some(s.last().1)
    } else {
        lookup_last(s.drop_last(), k)
    }
}

proof fn lemma_put_all_lookup(acc: Seq<(Seq<char>, Seq<char>)>, s: Seq<(Seq<char>, Seq<char>)>, k: Seq<char>)
    ensures
        lookup(put_all(acc, s), k) == match lookup_last(s, k) {
            Some(c) => Some(c),
            None => lookup(acc, k),
        },
    decreases s.len(),
{
    if s.len() > 0 {
        lemma_put_all_lookup(acc, s.drop_last(), k);
        lemma_lookup_put(put_all(acc, s.drop_last()), s.last().0, s.last().1, k);
    }
}

proof fn lemma_lookup_last_unique(s: Seq<(Seq<char>, Seq<char>)>, k: Seq<char>)
    requires
        keys_unique(s),
    ensures
        lookup_last(s, k) == lookup(s, k),
    decreases s.len(),
{
    if s.len() > 0 {
        let init = s.drop_last();
        assert forall|i: int, j: int| 0 <= i < j < init.len() implies (#[trigger] init[i]).0 != (#[trigger] init[j]).0 by {
            assert(init[i] == s[i] && init[j] == s[j]);
        }
        lemma_lookup_last_unique(init, k);
        let last = s.len() - 1;
        if s[last].0 == k {
            assert forall|j: int| 0 <= j < last implies (#[trigger] s[j]).0 != k by {
                assert(s[j].0 != s[last].0);
            }
            lemma_id_index(s, k, last);
        } else {
            if id_index(init, k) >= 0 {
                lemma_id_index_found(init, k);
                let i = id_index(init, k);
                assert forall|j: int| 0 <= j < i implies (#[trigger] s[j]).0 != k by {
                    assert(s[j] == init[j]);
                }
                assert(s[i] == init[i]);
                lemma_id_index(s, k, i);
            } else {
                lemma_id_index_absent(init, k);
                assert forall|j: int| 0 <= j < s.len() implies (#[trigger] s[j]).0 != k by {
                    if j < last {
                        assert(s[j] == init[j]);
                    }
                }
                lemma_id_index(s, k, s.len() as int);
            }
        }
    }
}

proof fn lemma_scope_notes_unique(m: Seq<(Seq<char>, Seq<(Seq<char>, Seq<char>)>)>, scope: Seq<char>)
    requires
        notes_wf(m),
    ensures
        keys_unique(scope_notes(m, scope)),
{
    if id_index(m, scope) >= 0 {
        lemma_id_index_found(m, scope);
        assert(keys_unique(m[id_index(m, scope)].1));
    }
}

/// What an agent sees under an id is its own note where it has one, else the
/// shared note, else nothing.
pub proof fn lemma_active_note_lookup(m: Seq<(Seq<char>, Seq<(Seq<char>, Seq<char>)>)>, active: Seq<char>, k: Seq<char>)
    requires
        notes_wf(m),
    ensures
        lookup(active_notes(m, active), k) == match note_lookup(m, active, k) {
            Some(c) => Some(c),
            None => note_lookup(m, SHARED_SCOPE@, k),
        },
{
    let shared = scope_notes(m, SHARED_SCOPE@);
    let own = scope_notes(m, active);
    lemma_scope_notes_unique(m, SHARED_SCOPE@);
    lemma_scope_notes_unique(m, active);
    lemma_put_all_lookup(put_all(Seq::empty(), shared), own, k);
    lemma_put_all_lookup(Seq::empty(), shared, k);
    lemma_lookup_last_unique(shared, k);
    lemma_lookup_last_unique(own, k);
    assert(id_index(Seq::<(Seq<char>, Seq<char>)>::empty(), k) == -1);
}

} // verus!
