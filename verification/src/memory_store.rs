use vstd::prelude::*;

use crate::agents::opt_view;
use crate::memory::{
    level_prefix,
    cleaned_tags, inferred_level, infer_level, normalize_scope, normalize_tags, normalized_scope,
    opt_str_view, record_error, scope_agent, validate_record, MemorizeRequest, MemoryLevel,
    MemoryRecord, MemoryRecordView, MemoryScope, UpdateMemoryRequest,
};
use crate::notes::{lemma_id_index_absent, lemma_id_index_found, lemma_lookup_put, lookup};
use crate::numbers::{parse_i64, parsed_i64};
use crate::scopes::{id_index, lemma_id_index, put};
use crate::text::{
    chars_lt, lemma_chars_lt_total, lemma_chars_lt_transitive, str_lt,
    ascii_lower, chars_of, eq_ignore_ascii_case, i64_to_string, push_str, signed_decimal,
    starts_with, str_eq, string_from_chars, strings_view, sub_chars, to_owned, trim, trim_str,
};

verus! {

broadcast use vstd::string::group_string_axioms;

/// The memories as they were last loaded: the project's and the global ones,
/// each kept in load order with each id once.
pub struct LoadedMemories {
    pub project: Vec<MemoryRecord>,
    pub global: Vec<MemoryRecord>,
}

pub open spec fn records_view(v: Seq<MemoryRecord>) -> Seq<MemoryRecordView> {
    v.map_values(|r: MemoryRecord| r@)
}

/// Records keyed by their id.
pub open spec fn by_id(v: Seq<MemoryRecordView>) -> Seq<(Seq<char>, MemoryRecordView)> {
    v.map_values(|r: MemoryRecordView| (r.id, r))
}

/// Records keyed by their stable id.
pub open spec fn by_stable_id(v: Seq<MemoryRecordView>) -> Seq<(Seq<char>, MemoryRecordView)> {
    v.map_values(|r: MemoryRecordView| (r.stable_id, r))
}

pub open spec fn opt_record_view(r: Option<MemoryRecord>) -> Option<MemoryRecordView> {
    match r {
        Some(x) => Some(x@),
        None => None,
    }
}

/// The memory a prefixed id (`p:..` or `g:..`) names.
pub open spec fn prefixed_lookup(p: Seq<MemoryRecordView>, g: Seq<MemoryRecordView>, id: Seq<char>) -> Option<MemoryRecordView> {
    let t = trim(id);
    if starts_with(t, "p:"@) {
        lookup(by_id(p), t.skip(2))
    } else if starts_with(t, "g:"@) {
        lookup(by_id(g), t.skip(2))
    } else {
        None
    }
}

/// The memory with this id, a project one before a global one.
pub open spec fn raw_lookup(p: Seq<MemoryRecordView>, g: Seq<MemoryRecordView>, id: Seq<char>) -> Option<MemoryRecordView> {
    match lookup(by_id(p), trim(id)) {
        Some(r) => Some(r),
        None => lookup(by_id(g), trim(id)),
    }
}

/// The first memory, project ones first, with this stable id.
pub open spec fn stable_lookup(p: Seq<MemoryRecordView>, g: Seq<MemoryRecordView>, id: Seq<char>) -> Option<MemoryRecordView> {
    lookup(by_stable_id(p + g), trim(id))
}

/// The memory an id names: as a prefixed id, else as an id, else as a stable id.
pub open spec fn find_lookup(p: Seq<MemoryRecordView>, g: Seq<MemoryRecordView>, id: Seq<char>) -> Option<MemoryRecordView> {
    match prefixed_lookup(p, g, id) {
        Some(r) => Some(r),
        None => match raw_lookup(p, g, id) {
            Some(r) => Some(r),
            None => stable_lookup(p, g, id),
        },
    }
}

/// Whether an agent sees a memory of this scope.
pub open spec fn visible_to(scope: Option<Seq<char>>, active: Seq<char>) -> bool {
    match scope {
        None => true,
        Some(name) => ascii_lower(name) == ascii_lower(active),
    }
}

/// What looking at a memory gives: the memory, or why not.
pub open spec fn peeked(
    p: Seq<MemoryRecordView>,
    g: Seq<MemoryRecordView>,
    id: Seq<char>,
    active: Seq<char>,
) -> Result<MemoryRecordView, Seq<char>> {
    match find_lookup(p, g, id) {
        None => Err("memory "@ + id + " not found"@),
        Some(r) => if visible_to(r.scope, active) {
            Ok(r)
        } else {
            Err("memory "@ + id + " is not visible to agent "@ + active)
        },
    }
}

/// A memory after it was recalled once more.
pub open spec fn recalled(r: MemoryRecordView) -> MemoryRecordView {
    MemoryRecordView {
        access_count: if r.access_count == u32::MAX { u32::MAX } else { (r.access_count + 1) as u32 },
        skip_count: 0,
        ..r
    }
}

/// The records of one level after `r` was put in place of the one with its
/// id, or added at the end.
pub open spec fn with_record(v: Seq<MemoryRecordView>, r: MemoryRecordView) -> Seq<MemoryRecordView> {
    if id_index(by_id(v), r.id) >= 0 {
        v.update(id_index(by_id(v), r.id), r)
    } else {
        v.push(r)
    }
}

// ---------------------------------------------------------------------------
// Copies and lookups

fn copy_strings(v: &Vec<String>) -> (out: Vec<String>)
    ensures
        strings_view(out@) == strings_view(v@),
{
    let mut out: Vec<String> = Vec::new();
    let mut i: usize = 0;
    while i < v.len()
        invariant
            i <= v.len(),
            strings_view(out@) == strings_view(v@.take(i as int)),
        decreases v.len() - i,
    {
        let ghost before = out@;
        let w = to_owned(v[i].as_str());
        out.push(w);
        assert(strings_view(v@.take(i + 1)) =~= strings_view(v@.take(i as int)).push(v@[i as int]@));
        assert(strings_view(out@) =~= strings_view(before).push(v@[i as int]@));
        i += 1;
    }
    assert(v@.take(i as int) =~= v@);
    out
}

fn copy_scope(s: &MemoryScope) -> (out: MemoryScope)
    ensures
        scope_agent(out) == scope_agent(*s),
{
    match s {
        MemoryScope::Shared => MemoryScope::Shared,
        MemoryScope::Agent(name) => MemoryScope::Agent(to_owned(name.as_str())),
    }
}

/// A copy of a memory record.
pub fn copy_record(r: &MemoryRecord) -> (out: MemoryRecord)
    ensures
        out@ == r@,
{
    MemoryRecord {
        id: to_owned(r.id.as_str()),
        level: r.level,
        scope: copy_scope(&r.scope),
        stable_id: to_owned(r.stable_id.as_str()),
        memory_type: to_owned(r.memory_type.as_str()),
        topic: to_owned(r.topic.as_str()),
        title: to_owned(r.title.as_str()),
        content: to_owned(r.content.as_str()),
        tags: copy_strings(&r.tags),
        access_count: r.access_count,
        skip_count: r.skip_count,
        created_at: r.created_at,
        updated_at: r.updated_at,
    }
}

fn position_by_id(v: &Vec<MemoryRecord>, id: &str) -> (out: Option<usize>)
    ensures
        match out {
            Some(i) => i < v@.len() && id_index(by_id(records_view(v@)), id@) == i as int,
            None => id_index(by_id(records_view(v@)), id@) == -1,
        },
{
    let ghost keyed = by_id(records_view(v@));
    let mut i: usize = 0;
    while i < v.len()
        invariant
            i <= v.len(),
            keyed == by_id(records_view(v@)),
            forall|k: int| 0 <= k < i ==> (#[trigger] keyed[k]).0 != id@,
        decreases v.len() - i,
    {
        if str_eq(v[i].id.as_str(), id) {
            proof {
                lemma_id_index(keyed, id@, i as int);
            }
            return Some(i);
        }
        i += 1;
    }
    proof {
        lemma_id_index(keyed, id@, i as int);
    }
    None
}

fn record_by_id(v: &Vec<MemoryRecord>, id: &str) -> (out: Option<MemoryRecord>)
    ensures
        opt_record_view(out) == lookup(by_id(records_view(v@)), id@),
{
    match position_by_id(v, id) {
        Some(i) => {
            proof {
                lemma_id_index_found(by_id(records_view(v@)), id@);
            }
            Some(copy_record(&v[i]))
        },
        None => None,
    }
}

/// The memory a prefixed id (`p:..` or `g:..`) names.
pub fn memory_by_prefixed_id(mem: &LoadedMemories, id: &str) -> (out: Option<MemoryRecord>)
    ensures
        opt_record_view(out) == prefixed_lookup(records_view(mem.project@), records_view(mem.global@), id@),
{
    proof {
        reveal_strlit("p:");
        reveal_strlit("g:");
    }
    let t = chars_of(trim_str(id).as_str());
    if t.len() >= 2 && t[1] == ':' && (t[0] == 'p' || t[0] == 'g') {
        let rest = string_from_chars(sub_chars(t.as_slice(), 2, t.len()).as_slice());
        assert(rest@ == t@.skip(2));
        assert(t@.take(2)[0] == t@[0] && t@.take(2)[1] == t@[1]);
        if t[0] == 'p' {
            assert(t@.take(2) =~= "p:"@);
            record_by_id(&mem.project, rest.as_str())
        } else {
            assert(t@.take(2) =~= "g:"@);
            assert("g:"@[0] != "p:"@[0]);
            assert(!starts_with(t@, "p:"@));
            record_by_id(&mem.global, rest.as_str())
        }
    } else {
        if t.len() >= 2 {
            assert(t@.take(2)[0] == t@[0] && t@.take(2)[1] == t@[1]);
            assert("p:"@[0] == 'p' && "p:"@[1] == ':' && "g:"@[0] == 'g');
        }
        assert(!starts_with(t@, "p:"@));
        assert(!starts_with(t@, "g:"@));
        None
    }
}

/// The memory with this id, a project one before a global one.
pub fn memory_by_raw_id(mem: &LoadedMemories, id: &str) -> (out: Option<MemoryRecord>)
    ensures
        opt_record_view(out) == raw_lookup(records_view(mem.project@), records_view(mem.global@), id@),
{
    let t = trim_str(id);
    match record_by_id(&mem.project, t.as_str()) {
        Some(r) => Some(r),
        None => record_by_id(&mem.global, t.as_str()),
    }
}

/// The first memory, project ones first, with this stable id.
pub fn memory_by_stable_id(mem: &LoadedMemories, id: &str) -> (out: Option<MemoryRecord>)
    ensures
        opt_record_view(out) == stable_lookup(records_view(mem.project@), records_view(mem.global@), id@),
{
    let t = trim_str(id);
    let ghost p = records_view(mem.project@);
    let ghost g = records_view(mem.global@);
    let ghost keyed = by_stable_id(p + g);
    let mut i: usize = 0;
    while i < mem.project.len()
        invariant
            i <= mem.project.len(),
            t@ == trim(id@),
            p == records_view(mem.project@),
            g == records_view(mem.global@),
            keyed == by_stable_id(p + g),
            forall|k: int| 0 <= k < i ==> (#[trigger] keyed[k]).0 != t@,
        decreases mem.project.len() - i,
    {
        assert(keyed[i as int] == (mem.project@[i as int].stable_id@, mem.project@[i as int]@));
        if str_eq(mem.project[i].stable_id.as_str(), t.as_str()) {
            proof {
                lemma_id_index(keyed, t@, i as int);
            }
            return Some(copy_record(&mem.project[i]));
        }
        i += 1;
    }
    let mut j: usize = 0;
    while j < mem.global.len()
        invariant
            j <= mem.global.len(),
            t@ == trim(id@),
            p == records_view(mem.project@),
            g == records_view(mem.global@),
            keyed == by_stable_id(p + g),
            forall|k: int| 0 <= k < p.len() + j ==> (#[trigger] keyed[k]).0 != t@,
        decreases mem.global.len() - j,
    {
        let ghost at = p.len() + j;
        assert(keyed[at] == (mem.global@[j as int].stable_id@, mem.global@[j as int]@));
        if str_eq(mem.global[j].stable_id.as_str(), t.as_str()) {
            proof {
                lemma_id_index(keyed, t@, at);
            }
            return Some(copy_record(&mem.global[j]));
        }
        j += 1;
    }
    proof {
        lemma_id_index(keyed, t@, keyed.len() as int);
    }
    None
}

/// The memory an id names: as a prefixed id, else as an id, else as a stable id.
pub fn find_memory(mem: &LoadedMemories, id: &str) -> (out: Option<MemoryRecord>)
    ensures
        opt_record_view(out) == find_lookup(records_view(mem.project@), records_view(mem.global@), id@),
{
    match memory_by_prefixed_id(mem, id) {
        Some(r) => Some(r),
        None => match memory_by_raw_id(mem, id) {
            Some(r) => Some(r),
            None => memory_by_stable_id(mem, id),
        },
    }
}

fn not_found(id: &str) -> (out: String)
    ensures
        out@ == "memory "@ + id@ + " not found"@,
{
    let mut m = to_owned("memory ");
    push_str(&mut m, id);
    push_str(&mut m, " not found");
    m
}

/// Looks at a memory the active agent may see.
pub fn peek(mem: &LoadedMemories, id: &str, active_agent: &str) -> (out: Result<MemoryRecord, String>)
    ensures
        match out {
            Ok(r) => peeked(records_view(mem.project@), records_view(mem.global@), id@, active_agent@) == Ok::<
                MemoryRecordView,
                Seq<char>,
            >(r@),
            Err(m) => peeked(records_view(mem.project@), records_view(mem.global@), id@, active_agent@) == Err::<
                MemoryRecordView,
                Seq<char>,
            >(m@),
        },
{
    match find_memory(mem, id) {
        None => Err(not_found(id)),
        Some(r) => {
            if r.scope.is_visible_to(active_agent) {
                Ok(r)
            } else {
                let mut m = to_owned("memory ");
                push_str(&mut m, id);
                push_str(&mut m, " is not visible to agent ");
                push_str(&mut m, active_agent);
                Err(m)
            }
        },
    }
}

/// The loaded memories after `r` was put among those of its level.
pub open spec fn loaded_after(
    p: Seq<MemoryRecord>,
    g: Seq<MemoryRecord>,
    p2: Seq<MemoryRecord>,
    g2: Seq<MemoryRecord>,
    r: MemoryRecordView,
) -> bool {
    match r.level {
        MemoryLevel::Project => records_view(p2) == with_record(records_view(p), r) && g2 == g,
        MemoryLevel::Global => records_view(g2) == with_record(records_view(g), r) && p2 == p,
    }
}

/// Puts a record in place of the loaded one with its id, or adds it.
pub fn update_loaded_memory(mem: &mut LoadedMemories, r: &MemoryRecord)
    ensures
        loaded_after(old(mem).project@, old(mem).global@, final(mem).project@, final(mem).global@, r@),
{
    match r.level {
        MemoryLevel::Project => put_record(&mut mem.project, r),
        MemoryLevel::Global => put_record(&mut mem.global, r),
    }
}

fn put_record(v: &mut Vec<MemoryRecord>, r: &MemoryRecord)
    ensures
        records_view(final(v)@) == with_record(records_view(old(v)@), r@),
{
    let ghost before = records_view(v@);
    match position_by_id(v, r.id.as_str()) {
        Some(i) => {
            v.set(i, copy_record(r));
            assert(records_view(v@) =~= before.update(i as int, r@));
        },
        None => {
            v.push(copy_record(r));
            assert(records_view(v@) =~= before.push(r@));
        },
    }
}

/// Recalls a memory the active agent may see: one more access, no skips.
/// The loaded memories keep the recalled record.
pub fn recall(mem: &mut LoadedMemories, id: &str, active_agent: &str) -> (out: Result<MemoryRecord, String>)
    ensures
        match peeked(records_view(old(mem).project@), records_view(old(mem).global@), id@, active_agent@) {
            Ok(r) => {
                &&& out matches Ok(x) && x@ == recalled(r)
                &&& loaded_after(old(mem).project@, old(mem).global@, final(mem).project@, final(mem).global@, recalled(r))
            },
            Err(m) => {
                &&& out matches Err(e) && e@ == m
                &&& final(mem).project@ == old(mem).project@
                &&& final(mem).global@ == old(mem).global@
            },
        },
{
    let mut memory = match peek(mem, id, active_agent) {
        Ok(r) => r,
        Err(m) => return Err(m),
    };
    memory.access_count = if memory.access_count == u32::MAX {
        u32::MAX
    } else {
        memory.access_count + 1
    };
    memory.skip_count = 0;
    update_loaded_memory(mem, &memory);
    Ok(memory)
}

// ---------------------------------------------------------------------------
// Storing, changing and forgetting

/// The global memory a new memory with this id takes the place of: the one
/// with this stable id, else the global one whose id is the number this id
/// reads as.
pub open spec fn existing_global(p: Seq<MemoryRecordView>, g: Seq<MemoryRecordView>, id: Seq<char>) -> Option<MemoryRecordView> {
    match stable_lookup(p, g, id) {
        Some(r) => Some(r),
        None => match parsed_i64(trim(id)) {
            Some(n) => lookup(by_id(g), signed_decimal(n as int)),
            None => None,
        },
    }
}

/// What storing a memory gives: the record to persist, or why not. An
/// existing memory keeps its id, level, counters and creation time.
pub open spec fn memorized(
    p: Seq<MemoryRecordView>,
    g: Seq<MemoryRecordView>,
    req: MemorizeRequest,
    active: Seq<char>,
    now: u64,
) -> Result<MemoryRecordView, Seq<char>> {
    match inferred_level(opt_view(req.level), req.memory_type@) {
        Err(m) => Err(m),
        Ok(level) => {
            let scope = normalized_scope(opt_view(req.scope), active);
            let existing = match level {
                MemoryLevel::Project => lookup(by_id(p), trim(req.id@)),
                MemoryLevel::Global => existing_global(p, g, req.id@),
            };
            let base = match existing {
                Some(r) => r,
                None => MemoryRecordView {
                    id: trim(req.id@),
                    level,
                    scope,
                    stable_id: trim(req.id@),
                    memory_type: trim(req.memory_type@),
                    topic: trim(req.topic@),
                    title: trim(req.title@),
                    content: trim(req.content@),
                    tags: cleaned_tags(strings_view(req.tags@)),
                    access_count: 0,
                    skip_count: 0,
                    created_at: now,
                    updated_at: now,
                },
            };
            let r = MemoryRecordView {
                scope,
                stable_id: trim(req.id@),
                memory_type: trim(req.memory_type@),
                topic: trim(req.topic@),
                title: trim(req.title@),
                content: trim(req.content@),
                tags: cleaned_tags(strings_view(req.tags@)),
                updated_at: now,
                ..base
            };
            match record_error(r) {
                Some(m) => Err(m),
                None => Ok(r),
            }
        },
    }
}

fn opt_as_str(s: &Option<String>) -> (out: Option<&str>)
    ensures
        opt_str_view(out) == opt_view(*s),
{
    match s {
        Some(v) => Some(v.as_str()),
        None => None,
    }
}

fn existing_global_memory(mem: &LoadedMemories, id: &str) -> (out: Option<MemoryRecord>)
    ensures
        opt_record_view(out) == existing_global(records_view(mem.project@), records_view(mem.global@), id@),
{
    let trimmed = trim_str(id);
    match memory_by_stable_id(mem, trimmed.as_str()) {
        Some(r) => {
            proof {
                crate::text::lemma_trim_idempotent(id@);
            }
            Some(r)
        },
        None => {
            proof {
                crate::text::lemma_trim_idempotent(id@);
            }
            match parse_i64(trimmed.as_str()) {
                Some(n) => record_by_id(&mem.global, i64_to_string(n).as_str()),
                None => None,
            }
        },
    }
}

/// The record that storing a memory persists: an existing memory of the
/// same id, or a new one, with the request's fields; or why it cannot be
/// stored. `now` is the current time in seconds.
pub fn memorized_record(mem: &LoadedMemories, request: MemorizeRequest, active_agent: &str, now: u64) -> (out: Result<
    MemoryRecord,
    String,
>)
    ensures
        match memorized(records_view(mem.project@), records_view(mem.global@), request, active_agent@, now) {
            Ok(r) => out matches Ok(x) && x@ == r,
            Err(m) => out matches Err(e) && e@ == m,
        },
{
    let ghost req = request;
    let level = match infer_level(opt_as_str(&request.level), request.memory_type.as_str()) {
        Ok(l) => l,
        Err(m) => return Err(m),
    };
    let id = trim_str(request.id.as_str());
    let existing = match level {
        MemoryLevel::Project => record_by_id(&mem.project, id.as_str()),
        MemoryLevel::Global => existing_global_memory(mem, request.id.as_str()),
    };
    let tags = normalize_tags(request.tags);
    let mut record = match existing {
        Some(r) => r,
        None => MemoryRecord {
            id: to_owned(id.as_str()),
            level,
            scope: normalize_scope(opt_as_str(&request.scope), active_agent),
            stable_id: to_owned(id.as_str()),
            memory_type: trim_str(request.memory_type.as_str()),
            topic: trim_str(request.topic.as_str()),
            title: trim_str(request.title.as_str()),
            content: trim_str(request.content.as_str()),
            tags: copy_strings(&tags),
            access_count: 0,
            skip_count: 0,
            created_at: now,
            updated_at: now,
        },
    };
    record.scope = normalize_scope(opt_as_str(&request.scope), active_agent);
    record.stable_id = id;
    record.memory_type = trim_str(request.memory_type.as_str());
    record.topic = trim_str(request.topic.as_str());
    record.title = trim_str(request.title.as_str());
    record.content = trim_str(request.content.as_str());
    record.tags = tags;
    record.updated_at = now;
    match validate_record(&record) {
        Ok(()) => Ok(record),
        Err(m) => Err(m),
    }
}

/// What changing a memory gives: the memory with the fields the request
/// names set (trimmed; tags cleaned), or why not.
pub open spec fn updated(
    p: Seq<MemoryRecordView>,
    g: Seq<MemoryRecordView>,
    req: UpdateMemoryRequest,
    now: u64,
) -> Result<MemoryRecordView, Seq<char>> {
    match find_lookup(p, g, req.id@) {
        None => Err("memory "@ + req.id@ + " not found"@),
        Some(r) => {
            let u = MemoryRecordView {
                title: match req.title {
                    Some(t) => trim(t@),
                    None => r.title,
                },
                content: match req.content {
                    Some(t) => trim(t@),
                    None => r.content,
                },
                topic: match req.topic {
                    Some(t) => trim(t@),
                    None => r.topic,
                },
                memory_type: match req.memory_type {
                    Some(t) => trim(t@),
                    None => r.memory_type,
                },
                tags: match req.tags {
                    Some(ts) => cleaned_tags(strings_view(ts@)),
                    None => r.tags,
                },
                updated_at: now,
                ..r
            };
            match record_error(u) {
                Some(m) => Err(m),
                None => Ok(u),
            }
        },
    }
}

/// The record that changing a memory persists, or why it cannot be changed.
pub fn updated_record(mem: &LoadedMemories, request: UpdateMemoryRequest, now: u64) -> (out: Result<MemoryRecord, String>)
    ensures
        match updated(records_view(mem.project@), records_view(mem.global@), request, now) {
            Ok(r) => out matches Ok(x) && x@ == r,
            Err(m) => out matches Err(e) && e@ == m,
        },
{
    let mut memory = match find_memory(mem, request.id.as_str()) {
        Some(r) => r,
        None => return Err(not_found(request.id.as_str())),
    };
    match &request.title {
        Some(t) => {
            memory.title = trim_str(t.as_str());
        },
        None => {},
    }
    match &request.content {
        Some(t) => {
            memory.content = trim_str(t.as_str());
        },
        None => {},
    }
    match &request.topic {
        Some(t) => {
            memory.topic = trim_str(t.as_str());
        },
        None => {},
    }
    match &request.memory_type {
        Some(t) => {
            memory.memory_type = trim_str(t.as_str());
        },
        None => {},
    }
    match request.tags {
        Some(ts) => {
            memory.tags = normalize_tags(ts);
        },
        None => {},
    }
    memory.updated_at = now;
    match validate_record(&memory) {
        Ok(()) => Ok(memory),
        Err(m) => Err(m),
    }
}

/// The memory that forgetting `id` removes, or why there is none.
pub fn forget_target(mem: &LoadedMemories, id: &str) -> (out: Result<MemoryRecord, String>)
    ensures
        match find_lookup(records_view(mem.project@), records_view(mem.global@), id@) {
            Some(r) => out matches Ok(x) && x@ == r,
            None => out matches Err(e) && e@ == "memory "@ + id@ + " not found"@,
        },
{
    match find_memory(mem, id) {
        Some(r) => Ok(r),
        None => Err(not_found(id)),
    }
}

// ---------------------------------------------------------------------------
// Scopes and listing

/// The memories of an agent's own scope (by name in any case), made shared
/// and marked changed at `now`.
pub open spec fn reassigned(s: Seq<MemoryRecordView>, target: Seq<char>, now: u64) -> Seq<MemoryRecordView>
    decreases s.len(),
{
    if s.len() == 0 {
        Seq::empty()
    } else {
        let prev = reassigned(s.drop_last(), target, now);
        let r = s.last();
        if r.scope is Some && ascii_lower(r.scope->0) == ascii_lower(target) {
            prev.push(MemoryRecordView { scope: None, updated_at: now, ..r })
        } else {
            prev
        }
    }
}

/// The records that giving an agent's memories to everyone persists: none
/// for a blank name.
pub fn reassign_scope_targets(mem: &LoadedMemories, agent_name: &str, now: u64) -> (out: Vec<MemoryRecord>)
    ensures
        records_view(out@) == if trim(agent_name@).len() == 0 {
            Seq::<MemoryRecordView>::empty()
        } else {
            reassigned(records_view(mem.project@) + records_view(mem.global@), trim(agent_name@), now)
        },
{
    let target = trim_str(agent_name);
    let mut out: Vec<MemoryRecord> = Vec::new();
    if target.as_str().is_empty() {
        assert(records_view(out@) =~= Seq::<MemoryRecordView>::empty());
        return out;
    }
    let ghost all = records_view(mem.project@) + records_view(mem.global@);
    assert(records_view(out@) =~= reassigned(all.take(0), target@, now));
    reassign_from(&mut out, &mem.project, target.as_str(), now, Ghost(all), Ghost(0));
    reassign_from(&mut out, &mem.global, target.as_str(), now, Ghost(all), Ghost(mem.project@.len() as int));
    assert(all.take(all.len() as int) =~= all);
    out
}

fn reassign_from(
    out: &mut Vec<MemoryRecord>,
    part: &Vec<MemoryRecord>,
    target: &str,
    now: u64,
    Ghost(all): Ghost<Seq<MemoryRecordView>>,
    Ghost(offset): Ghost<int>,
)
    requires
        0 <= offset,
        offset + part@.len() <= all.len(),
        forall|k: int| 0 <= k < part@.len() ==> all[offset + k] == (#[trigger] part@[k])@,
        records_view(old(out)@) == reassigned(all.take(offset), target@, now),
    ensures
        records_view(final(out)@) == reassigned(all.take(offset + part@.len()), target@, now),
{
    let mut i: usize = 0;
    while i < part.len()
        invariant
            i <= part@.len(),
            0 <= offset,
            offset + part@.len() <= all.len(),
            forall|k: int| 0 <= k < part@.len() ==> all[offset + k] == (#[trigger] part@[k])@,
            records_view(out@) == reassigned(all.take(offset + i), target@, now),
        decreases part.len() - i,
    {
        let r = &part[i];
        let ghost at = offset + i;
        assert(r@ == all[at]);
        assert(all.take(at + 1).drop_last() =~= all.take(at));
        assert(all.take(at + 1).last() == all[at]);
        let change = match &r.scope {
            MemoryScope::Agent(name) => eq_ignore_ascii_case(name.as_str(), target),
            MemoryScope::Shared => false,
        };
        if change {
            let ghost before = out@;
            let mut m = copy_record(r);
            m.scope = MemoryScope::Shared;
            m.updated_at = now;
            out.push(m);
            assert(records_view(out@) =~= records_view(before).push(MemoryRecordView { scope: None, updated_at: now, ..all[at] }));
        }
        i += 1;
    }
}

/// The memories an agent sees, in load order.
pub open spec fn visible_in(s: Seq<MemoryRecordView>, active: Seq<char>) -> Seq<MemoryRecordView>
    decreases s.len(),
{
    if s.len() == 0 {
        Seq::empty()
    } else if visible_to(s.last().scope, active) {
        visible_in(s.drop_last(), active).push(s.last())
    } else {
        visible_in(s.drop_last(), active)
    }
}

/// The memories the active agent sees: the project's, then the global ones.
pub fn visible_memories(mem: &LoadedMemories, active_agent: &str) -> (out: Vec<MemoryRecord>)
    ensures
        records_view(out@) == visible_in(records_view(mem.project@) + records_view(mem.global@), active_agent@),
{
    let ghost all = records_view(mem.project@) + records_view(mem.global@);
    let mut out: Vec<MemoryRecord> = Vec::new();
    assert(records_view(out@) =~= visible_in(all.take(0), active_agent@));
    visible_from(&mut out, &mem.project, active_agent, Ghost(all), Ghost(0));
    visible_from(&mut out, &mem.global, active_agent, Ghost(all), Ghost(mem.project@.len() as int));
    assert(all.take(all.len() as int) =~= all);
    out
}

fn visible_from(
    out: &mut Vec<MemoryRecord>,
    part: &Vec<MemoryRecord>,
    active_agent: &str,
    Ghost(all): Ghost<Seq<MemoryRecordView>>,
    Ghost(offset): Ghost<int>,
)
    requires
        0 <= offset,
        offset + part@.len() <= all.len(),
        forall|k: int| 0 <= k < part@.len() ==> all[offset + k] == (#[trigger] part@[k])@,
        records_view(old(out)@) == visible_in(all.take(offset), active_agent@),
    ensures
        records_view(final(out)@) == visible_in(all.take(offset + part@.len()), active_agent@),
{
    let mut i: usize = 0;
    while i < part.len()
        invariant
            i <= part@.len(),
            0 <= offset,
            offset + part@.len() <= all.len(),
            forall|k: int| 0 <= k < part@.len() ==> all[offset + k] == (#[trigger] part@[k])@,
            records_view(out@) == visible_in(all.take(offset + i), active_agent@),
        decreases part.len() - i,
    {
        let r = &part[i];
        let ghost at = offset + i;
        assert(r@ == all[at]);
        assert(all.take(at + 1).drop_last() =~= all.take(at));
        assert(all.take(at + 1).last() == all[at]);
        if r.scope.is_visible_to(active_agent) {
            let ghost before = out@;
            out.push(copy_record(r));
            assert(records_view(out@) =~= records_view(before).push(all[at]));
        }
        i += 1;
    }
}

/// The id with the level's prefix.
pub open spec fn prefixed(r: MemoryRecordView) -> Seq<char> {
    level_prefix(r.level) + ":"@ + r.id
}

/// The order of listed memories: the most recently changed first, then by
/// prefixed id.
pub open spec fn listed_before(a: MemoryRecordView, b: MemoryRecordView) -> bool {
    a.updated_at > b.updated_at || (a.updated_at == b.updated_at && chars_lt(prefixed(a), prefixed(b)))
}

pub open spec fn listed_in_order(s: Seq<MemoryRecordView>) -> bool {
    forall|i: int, j: int| 0 <= i < j < s.len() ==> listed_before(#[trigger] s[i], #[trigger] s[j])
}

/// Each level's records have each id once.
pub open spec fn loaded_wf(p: Seq<MemoryRecordView>, g: Seq<MemoryRecordView>) -> bool {
    &&& forall|i: int, j: int| 0 <= i < j < p.len() ==> (#[trigger] p[i]).id != (#[trigger] p[j]).id
    &&& forall|i: int, j: int| 0 <= i < j < g.len() ==> (#[trigger] g[i]).id != (#[trigger] g[j]).id
    &&& forall|i: int| 0 <= i < p.len() ==> (#[trigger] p[i]).level == MemoryLevel::Project
    &&& forall|i: int| 0 <= i < g.len() ==> (#[trigger] g[i]).level == MemoryLevel::Global
}

proof fn lemma_prefixed_injective(a: MemoryRecordView, b: MemoryRecordView)
    requires
        a.level != b.level || a.id != b.id,
    ensures
        prefixed(a) != prefixed(b),
{
    reveal_strlit("p");
    reveal_strlit("g");
    reveal_strlit(":");
    if prefixed(a) == prefixed(b) {
        assert(prefixed(a)[0] == prefixed(b)[0]);
        assert(a.level == b.level);
        assert(prefixed(a).skip(2) =~= a.id);
        assert(prefixed(b).skip(2) =~= b.id);
    }
}

fn listed_before_exec(a: &MemoryRecord, b: &MemoryRecord) -> (out: bool)
    ensures
        out == listed_before(a@, b@),
{
    if a.updated_at != b.updated_at {
        a.updated_at > b.updated_at
    } else {
        let pa = a.prefixed_id();
        let pb = b.prefixed_id();
        proof {
            reveal_strlit(":");
        }
        str_lt(pa.as_str(), pb.as_str())
    }
}

fn insert_listed(out: &mut Vec<MemoryRecord>, e: MemoryRecord)
    requires
        listed_in_order(records_view(old(out)@)),
        forall|j: int| 0 <= j < old(out)@.len() ==> prefixed(#[trigger] records_view(old(out)@)[j]) != prefixed(e@),
    ensures
        listed_in_order(records_view(final(out)@)),
        records_view(final(out)@).to_multiset() == records_view(old(out)@).to_multiset().insert(e@),
{
    let ghost s = records_view(out@);
    let ghost ev = e@;
    let mut pos: usize = 0;
    while pos < out.len() && listed_before_exec(&out[pos], &e)
        invariant
            pos <= out.len(),
            s == records_view(out@),
            ev == e@,
            forall|k: int| 0 <= k < pos ==> listed_before(#[trigger] s[k], ev),
        decreases out.len() - pos,
    {
        pos += 1;
    }
    proof {
        if pos < s.len() {
            lemma_chars_lt_total(prefixed(s[pos as int]), prefixed(ev));
        }
    }
    out.insert(pos, e);
    let ghost after = records_view(out@);
    assert(after =~= s.insert(pos as int, ev));
    assert forall|a: int, b: int| 0 <= a < b < after.len() implies listed_before(#[trigger] after[a], #[trigger] after[b]) by {
        let p = pos as int;
        if b < p {
            assert(after[a] == s[a] && after[b] == s[b]);
        } else if b == p {
            assert(after[a] == s[a]);
        } else if a < p {
            assert(after[a] == s[a] && after[b] == s[b - 1]);
            if b - 1 > p {
                lemma_listed_transitive(ev, s[p], s[b - 1]);
            }
            lemma_listed_transitive(s[a], ev, s[b - 1]);
        } else if a == p {
            assert(after[b] == s[b - 1]);
            if b - 1 > p {
                lemma_listed_transitive(ev, s[p], s[b - 1]);
            }
        } else {
            assert(after[a] == s[a - 1] && after[b] == s[b - 1]);
        }
    }
    proof {
        vstd::seq_lib::to_multiset_insert(s, pos as int, ev);
    }
}

proof fn lemma_listed_transitive(a: MemoryRecordView, b: MemoryRecordView, c: MemoryRecordView)
    requires
        listed_before(a, b),
        listed_before(b, c),
    ensures
        listed_before(a, c),
{
    if a.updated_at == b.updated_at && b.updated_at == c.updated_at {
        lemma_chars_lt_transitive(prefixed(a), prefixed(b), prefixed(c));
    }
}

fn ids_distinct_at_level(v: &Vec<MemoryRecord>, level: MemoryLevel) -> (out: bool)
    ensures
        out == ((forall|i: int, j: int|
            0 <= i < j < v@.len() ==> (#[trigger] records_view(v@)[i]).id != (#[trigger] records_view(v@)[j]).id)
            && forall|i: int| 0 <= i < v@.len() ==> (#[trigger] records_view(v@)[i]).level == level),
{
    let ghost rv = records_view(v@);
    let mut i: usize = 0;
    while i < v.len()
        invariant
            i <= v@.len(),
            rv == records_view(v@),
            forall|a: int, b: int| 0 <= a < b < v@.len() && a < i ==> (#[trigger] rv[a]).id != (#[trigger] rv[b]).id,
            forall|a: int| 0 <= a < i ==> (#[trigger] rv[a]).level == level,
        decreases v.len() - i,
    {
        if v[i].level != level {
            assert(rv[i as int].level != level);
            return false;
        }
        let mut j: usize = i + 1;
        while j < v.len()
            invariant
                i < v@.len(),
                i < j <= v@.len(),
                rv == records_view(v@),
                forall|b: int| i < b < j ==> rv[i as int].id != (#[trigger] rv[b]).id,
            decreases v.len() - j,
        {
            if str_eq(v[i].id.as_str(), v[j].id.as_str()) {
                assert(rv[i as int].id == rv[j as int].id);
                return false;
            }
            j += 1;
        }
        i += 1;
    }
    true
}

/// Whether each level's loaded records have each id once and the level they
/// are loaded under.
pub fn loaded_wf_holds(mem: &LoadedMemories) -> (out: bool)
    ensures
        out == loaded_wf(records_view(mem.project@), records_view(mem.global@)),
{
    ids_distinct_at_level(&mem.project, MemoryLevel::Project) && ids_distinct_at_level(&mem.global, MemoryLevel::Global)
}

/// The memories the active agent sees, the most recently changed first, then
/// by prefixed id.
pub fn list_visible(mem: &LoadedMemories, active_agent: &str) -> (out: Vec<MemoryRecord>)
    requires
        loaded_wf(records_view(mem.project@), records_view(mem.global@)),
    ensures
        listed_in_order(records_view(out@)),
        records_view(out@).to_multiset() == visible_in(
            records_view(mem.project@) + records_view(mem.global@),
            active_agent@,
        ).to_multiset(),
{
    let visible = visible_memories(mem, active_agent);
    let ghost vis = records_view(visible@);
    let ghost all = records_view(mem.project@) + records_view(mem.global@);
    proof {
        lemma_visible_distinct(records_view(mem.project@), records_view(mem.global@), active_agent@);
    }
    let mut out: Vec<MemoryRecord> = Vec::new();
    assert(records_view(out@) =~= vis.take(0));
    let mut i: usize = 0;
    while i < visible.len()
        invariant
            i <= visible.len(),
            vis == records_view(visible@),
            forall|a: int, b: int| 0 <= a < b < vis.len() ==> prefixed(#[trigger] vis[a]) != prefixed(#[trigger] vis[b]),
            listed_in_order(records_view(out@)),
            records_view(out@).to_multiset() == vis.take(i as int).to_multiset(),
        decreases visible.len() - i,
    {
        let ghost cur = records_view(out@);
        assert forall|j: int| 0 <= j < cur.len() implies prefixed(#[trigger] cur[j]) != prefixed(vis[i as int]) by {
            assert(cur.to_multiset().count(cur[j]) > 0) by {
                vstd::seq_lib::lemma_seq_contains_after_push(cur, cur[j], cur[j]);
                assert(cur.contains(cur[j]));
                cur.to_multiset_ensures();
            }
            vis.take(i as int).to_multiset_ensures();
            assert(vis.take(i as int).contains(cur[j]));
            let k = choose|k: int| 0 <= k < i && vis.take(i as int)[k] == cur[j];
            assert(vis[k] == cur[j]);
        }
        insert_listed(&mut out, copy_record(&visible[i]));
        assert(vis.take(i + 1) =~= vis.take(i as int).push(vis[i as int]));
        proof {
            vis.take(i as int).to_multiset_ensures();
        }
        i += 1;
    }
    assert(vis.take(i as int) =~= vis);
    out
}

proof fn lemma_visible_distinct(p: Seq<MemoryRecordView>, g: Seq<MemoryRecordView>, active: Seq<char>)
    requires
        loaded_wf(p, g),
    ensures
        forall|a: int, b: int|
            0 <= a < b < visible_in(p + g, active).len() ==> prefixed(#[trigger] visible_in(p + g, active)[a]) != prefixed(
                #[trigger] visible_in(p + g, active)[b],
            ),
{
    let all = p + g;
    assert forall|a: int, b: int| 0 <= a < b < all.len() implies prefixed(#[trigger] all[a]) != prefixed(#[trigger] all[b]) by {
        if a < p.len() && b < p.len() {
            assert(all[a] == p[a] && all[b] == p[b]);
        } else if a >= p.len() && b >= p.len() {
            assert(all[a] == g[a - p.len()] && all[b] == g[b - p.len()]);
        } else {
            assert(all[a] == p[a] && all[b] == g[b - p.len()]);
        }
        lemma_prefixed_injective(all[a], all[b]);
    }
    lemma_visible_in_distinct(all, active);
}

/// Every visible memory is one of the memories.
proof fn lemma_visible_in_contained(s: Seq<MemoryRecordView>, active: Seq<char>)
    ensures
        forall|x: MemoryRecordView| #[trigger] visible_in(s, active).contains(x) ==> s.contains(x),
    decreases s.len(),
{
    if s.len() > 0 {
        let init = s.drop_last();
        lemma_visible_in_contained(init, active);
        assert forall|x: MemoryRecordView| #[trigger] visible_in(s, active).contains(x) implies s.contains(x) by {
            let v = visible_in(s, active);
            let k = choose|k: int| 0 <= k < v.len() && v[k] == x;
            if k < visible_in(init, active).len() {
                assert(visible_in(init, active)[k] == x);
                assert(visible_in(init, active).contains(x));
                let j = choose|j: int| 0 <= j < init.len() && init[j] == x;
                assert(s[j] == x);
            } else {
                assert(s[s.len() - 1] == x);
            }
        }
    }
}

/// Memories whose prefixed ids differ give visible memories whose prefixed ids differ.
proof fn lemma_visible_in_distinct(s: Seq<MemoryRecordView>, active: Seq<char>)
    requires
        forall|a: int, b: int| 0 <= a < b < s.len() ==> prefixed(#[trigger] s[a]) != prefixed(#[trigger] s[b]),
    ensures
        forall|a: int, b: int|
            0 <= a < b < visible_in(s, active).len() ==> prefixed(#[trigger] visible_in(s, active)[a]) != prefixed(
                #[trigger] visible_in(s, active)[b],
            ),
    decreases s.len(),
{
    if s.len() > 0 {
        let init = s.drop_last();
        assert forall|a: int, b: int| 0 <= a < b < init.len() implies prefixed(#[trigger] init[a]) != prefixed(#[trigger] init[b]) by {
            assert(init[a] == s[a] && init[b] == s[b]);
        }
        lemma_visible_in_distinct(init, active);
        lemma_visible_in_contained(init, active);
        let v = visible_in(s, active);
        let vi = visible_in(init, active);
        assert forall|a: int, b: int| 0 <= a < b < v.len() implies prefixed(#[trigger] v[a]) != prefixed(#[trigger] v[b]) by {
            if b < vi.len() {
                assert(v[a] == vi[a] && v[b] == vi[b]);
            } else {
                assert(v[a] == vi[a]);
                assert(vi.contains(vi[a]));
                let j = choose|j: int| 0 <= j < init.len() && init[j] == vi[a];
                assert(s[j] == init[j]);
                assert(v[b] == s[s.len() - 1]);
            }
        }
    }
}

// ---------------------------------------------------------------------------
// What is put is found

proof fn lemma_by_id_with_record(v: Seq<MemoryRecordView>, r: MemoryRecordView)
    ensures
        by_id(with_record(v, r)) == put(by_id(v), r.id, r),
{
    if id_index(by_id(v), r.id) >= 0 {
        lemma_id_index_found(by_id(v), r.id);
        assert(by_id(with_record(v, r)) =~= by_id(v).update(id_index(by_id(v), r.id), (r.id, r)));
    } else {
        assert(by_id(with_record(v, r)) =~= by_id(v).push((r.id, r)));
    }
}

/// A memory put among the loaded memories is the one its prefixed id names
/// afterwards, whatever was loaded before.
pub proof fn lemma_put_memory_then_find(p: Seq<MemoryRecordView>, g: Seq<MemoryRecordView>, r: MemoryRecordView)
    requires
        trim(r.id) == r.id,
    ensures
        r.level == MemoryLevel::Project ==> prefixed_lookup(with_record(p, r), g, prefixed(r)) == Some(r),
        r.level == MemoryLevel::Global ==> prefixed_lookup(p, with_record(g, r), prefixed(r)) == Some(r),
{
    reveal_strlit("p");
    reveal_strlit("g");
    reveal_strlit(":");
    reveal_strlit("p:");
    reveal_strlit("g:");
    let x = prefixed(r);
    if r.id.len() > 0 {
        crate::text::lemma_trimmed_ends(r.id);
        assert(x.last() == r.id.last());
    }
    assert(x[0] == 'p' || x[0] == 'g');
    crate::text::lemma_trim_unchanged(x);
    assert(x.skip(2) =~= r.id);
    lemma_by_id_with_record(p, r);
    lemma_by_id_with_record(g, r);
    lemma_lookup_put(by_id(p), r.id, r, r.id);
    lemma_lookup_put(by_id(g), r.id, r, r.id);
    if r.level == MemoryLevel::Project {
        assert(x.take(2) =~= "p:"@);
    } else {
        assert(x.take(2) =~= "g:"@);
        assert(!starts_with(x, "p:"@)) by {
            assert(x.take(2)[0] != "p:"@[0]);
        }
    }
}

// ---------------------------------------------------------------------------
// Storing then recalling

/// A new project memory, once stored, is what recalling its prefixed id by
/// an agent that sees it gives back; the recall counts the first access,
/// clears the skips and keeps the time of the last change.
pub proof fn lemma_memorize_then_recall(
    p: Seq<MemoryRecordView>,
    g: Seq<MemoryRecordView>,
    req: MemorizeRequest,
    active: Seq<char>,
    now: u64,
    r: MemoryRecordView,
)
    requires
        memorized(p, g, req, active, now) == Ok::<MemoryRecordView, Seq<char>>(r),
        inferred_level(opt_view(req.level), req.memory_type@) == Ok::<MemoryLevel, Seq<char>>(MemoryLevel::Project),
        lookup(by_id(p), trim(req.id@)) is None,
        visible_to(r.scope, active),
    ensures
        r.level == MemoryLevel::Project,
        prefixed(r) == "p:"@ + trim(req.id@),
        r.access_count == 0,
        peeked(with_record(p, r), g, prefixed(r), active) == Ok::<MemoryRecordView, Seq<char>>(r),
        recalled(r).access_count == r.access_count + 1,
        recalled(r).access_count == 1,
        recalled(r).skip_count == 0,
        recalled(r).updated_at == r.updated_at,
        r.updated_at == now,
{
    crate::text::lemma_trim_idempotent(req.id@);
    assert(r.id == trim(req.id@));
    lemma_put_memory_then_find(p, g, r);
    reveal_strlit("p");
    reveal_strlit(":");
    reveal_strlit("p:");
    assert("p"@ + ":"@ =~= "p:"@);
    assert(prefixed(r) =~= "p:"@ + trim(req.id@));
}

/// Storing a global memory under a stable id that a loaded memory has reuses
/// that memory: its id, level, counters and creation time stay, and the
/// stable id is the one asked for.
pub proof fn lemma_memorize_reuses_stable_id(
    p: Seq<MemoryRecordView>,
    g: Seq<MemoryRecordView>,
    req: MemorizeRequest,
    active: Seq<char>,
    now: u64,
    r: MemoryRecordView,
    e: MemoryRecordView,
)
    requires
        memorized(p, g, req, active, now) == Ok::<MemoryRecordView, Seq<char>>(r),
        inferred_level(opt_view(req.level), req.memory_type@) == Ok::<MemoryLevel, Seq<char>>(MemoryLevel::Global),
        stable_lookup(p, g, req.id@) == Some(e),
    ensures
        r.id == e.id,
        r.level == e.level,
        r.access_count == e.access_count,
        r.skip_count == e.skip_count,
        r.created_at == e.created_at,
        r.stable_id == trim(req.id@),
        r.updated_at == now,
{
}

// ---------------------------------------------------------------------------
// Skips

/// A memory passed over once more by a search, its count saturating.
pub open spec fn skipped_once(r: MemoryRecordView) -> MemoryRecordView {
    MemoryRecordView { skip_count: if r.skip_count == u32::MAX { u32::MAX } else { (r.skip_count + 1) as u32 }, ..r }
}

/// The loaded memories after the memory a prefixed id names, if any, was
/// passed over once more.
pub open spec fn skip_one(
    p: Seq<MemoryRecordView>,
    g: Seq<MemoryRecordView>,
    id: Seq<char>,
) -> (Seq<MemoryRecordView>, Seq<MemoryRecordView>) {
    match prefixed_lookup(p, g, id) {
        Some(r) => match r.level {
            MemoryLevel::Project => (with_record(p, skipped_once(r)), g),
            MemoryLevel::Global => (p, with_record(g, skipped_once(r))),
        },
        None => (p, g),
    }
}

/// The loaded memories after each prefixed id's memory was passed over once
/// more, first to last.
pub open spec fn skip_all(
    p: Seq<MemoryRecordView>,
    g: Seq<MemoryRecordView>,
    ids: Seq<Seq<char>>,
) -> (Seq<MemoryRecordView>, Seq<MemoryRecordView>)
    decreases ids.len(),
{
    if ids.len() == 0 {
        (p, g)
    } else {
        let prev = skip_all(p, g, ids.drop_last());
        skip_one(prev.0, prev.1, ids.last())
    }
}

/// Counts one more skip for the memory of each prefixed id a search showed.
pub fn increment_skip_counts(mem: &mut LoadedMemories, ids: &Vec<String>)
    ensures
        (records_view(final(mem).project@), records_view(final(mem).global@)) == skip_all(
            records_view(old(mem).project@),
            records_view(old(mem).global@),
            strings_view(ids@),
        ),
{
    let ghost p0 = records_view(mem.project@);
    let ghost g0 = records_view(mem.global@);
    let ghost idv = strings_view(ids@);
    let mut i: usize = 0;
    while i < ids.len()
        invariant
            i <= ids@.len(),
            idv == strings_view(ids@),
            p0 == records_view(old(mem).project@),
            g0 == records_view(old(mem).global@),
            (records_view(mem.project@), records_view(mem.global@)) == skip_all(p0, g0, idv.take(i as int)),
        decreases ids.len() - i,
    {
        assert(idv.take(i + 1).drop_last() =~= idv.take(i as int));
        assert(idv.take(i + 1).last() == ids@[i as int]@);
        match memory_by_prefixed_id(mem, ids[i].as_str()) {
            Some(mut memory) => {
                memory.skip_count = if memory.skip_count == u32::MAX {
                    u32::MAX
                } else {
                    memory.skip_count + 1
                };
                update_loaded_memory(mem, &memory);
            },
            None => {},
        }
        i += 1;
    }
    assert(idv.take(i as int) =~= idv);
}

/// Storing a global memory twice under one stable id keeps one memory: the
/// second store reuses the first one's id and creation time, and puts the
/// record in its place, so the number of global memories stays.
pub proof fn lemma_memorize_twice_keeps_one(
    p: Seq<MemoryRecordView>,
    g: Seq<MemoryRecordView>,
    req1: MemorizeRequest,
    req2: MemorizeRequest,
    active: Seq<char>,
    now1: u64,
    now2: u64,
    r1: MemoryRecordView,
    r2: MemoryRecordView,
)
    requires
        memorized(p, g, req1, active, now1) == Ok::<MemoryRecordView, Seq<char>>(r1),
        inferred_level(opt_view(req1.level), req1.memory_type@) == Ok::<MemoryLevel, Seq<char>>(MemoryLevel::Global),
        existing_global(p, g, req1.id@) is None,
        memorized(p, with_record(g, r1), req2, active, now2) == Ok::<MemoryRecordView, Seq<char>>(r2),
        inferred_level(opt_view(req2.level), req2.memory_type@) == Ok::<MemoryLevel, Seq<char>>(MemoryLevel::Global),
        trim(req2.id@) == trim(req1.id@),
    ensures
        r1.level == MemoryLevel::Global,
        r2.id == r1.id,
        r2.level == MemoryLevel::Global,
        r2.stable_id == r1.stable_id,
        r2.created_at == r1.created_at,
        with_record(with_record(g, r1), r2).len() == with_record(g, r1).len(),
        with_record(with_record(g, r1), r2) == with_record(g, r2),
{
    let key = trim(req1.id@);
    crate::text::lemma_trim_idempotent(req1.id@);
    crate::text::lemma_trim_idempotent(req2.id@);
    assert(stable_lookup(p, g, req1.id@) is None);
    lemma_id_index_absent(by_stable_id(p + g), key);
    assert(r1.stable_id == key && r1.id == key);
    let g1 = with_record(g, r1);
    // r1 is the first record of p + g1 with this stable id.
    let all = p + g1;
    let j = if id_index(by_id(g), r1.id) >= 0 { id_index(by_id(g), r1.id) } else { g.len() as int };
    if id_index(by_id(g), r1.id) >= 0 {
        lemma_id_index_found(by_id(g), r1.id);
    }
    assert(g1[j] == r1);
    assert forall|k: int| 0 <= k < p.len() + j implies (#[trigger] by_stable_id(all)[k]).0 != key by {
        assert(by_stable_id(all)[k].0 == all[k].stable_id);
        assert(by_stable_id(p + g)[k].0 == (p + g)[k].stable_id);
        assert(by_stable_id(p + g)[k].0 != key);
        if k < p.len() {
            assert(all[k] == (p + g)[k]);
        } else {
            assert(all[k] == g1[k - p.len()]);
            assert(g1[k - p.len()] == g[k - p.len()]);
            assert((p + g)[k] == g[k - p.len()]);
        }
    }
    assert(by_stable_id(all)[p.len() + j] == (key, r1));
    lemma_id_index(by_stable_id(all), key, p.len() + j);
    assert(stable_lookup(p, g1, req2.id@) == Some(r1));
    lemma_memorize_reuses_stable_id(p, g1, req2, active, now2, r2, r1);
    lemma_by_id_with_record(g, r1);
    crate::notes::lemma_lookup_put(by_id(g), r1.id, r1, r1.id);
    assert(id_index(by_id(g1), r1.id) >= 0) by {
        lemma_by_id_with_record(g, r1);
        if id_index(by_id(g1), r1.id) < 0 {
            lemma_id_index_absent(by_id(g1), r1.id);
            assert(by_id(g1)[j].0 == r1.id);
        }
    }
    lemma_id_index_found(by_id(g1), r1.id);
    let n = id_index(by_id(g1), r1.id);
    assert(n == j) by {
        if n < j {
            assert(by_id(g1)[n].0 == r1.id);
            assert(g1[n] == g[n]);
            if id_index(by_id(g), r1.id) >= 0 {
                assert(by_id(g)[n].0 == r1.id);
            } else {
                lemma_id_index_absent(by_id(g), r1.id);
                assert(by_id(g)[n].0 != r1.id);
            }
        } else if n > j {
            assert(by_id(g1)[j].0 == r1.id);
        }
    }
    assert(with_record(g1, r2) =~= with_record(g, r2)) by {
        if id_index(by_id(g), r1.id) >= 0 {
            assert(g1 == g.update(j, r1));
        } else {
            lemma_id_index_absent(by_id(g), r1.id);
            assert(g1 == g.push(r1));
        }
    }
}

} // verus!
