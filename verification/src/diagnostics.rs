use vstd::prelude::*;

use crate::text::{
    chars_lt, chars_of, decimal, join, lemma_chars_lt_irreflexive, lemma_chars_lt_total,
    lemma_chars_lt_transitive, push_char, push_str, split_whitespace_chars, split_ws, str_eq,
    str_lt, string_from_chars, trim, trim_str, u64_to_string, char_vecs_view,
};

verus! {

broadcast use vstd::string::group_string_axioms;

/// How serious a diagnostic record is.
#[derive(Debug, Clone, Copy, PartialEq, Eq, Structural)]
pub enum DiagnosticLevel {
    Debug,
    Info,
    Warn,
    Error,
}

/// The name of a level in the log.
pub open spec fn level_name(level: DiagnosticLevel) -> Seq<char> {
    match level {
        DiagnosticLevel::Debug => "DEBUG"@,
        DiagnosticLevel::Info => "INFO"@,
        DiagnosticLevel::Warn => "WARN"@,
        DiagnosticLevel::Error => "ERROR"@,
    }
}

impl DiagnosticLevel {
    pub fn as_str(self) -> (out: &'static str)
        ensures
            out@ == level_name(self),
    {
        match self {
            DiagnosticLevel::Debug => "DEBUG",
            DiagnosticLevel::Info => "INFO",
            DiagnosticLevel::Warn => "WARN",
            DiagnosticLevel::Error => "ERROR",
        }
    }
}

/// Which log a record goes to.
#[derive(Debug, Clone, Copy, PartialEq, Eq, Structural)]
pub enum DiagnosticChannel {
    Backend,
    Frontend,
}

/// Keys strictly increasing, so each key occurs once.
pub open spec fn keys_sorted(v: Seq<(Seq<char>, Seq<char>)>) -> bool {
    forall|i: int, j: int| 0 <= i < j < v.len() ==> chars_lt(#[trigger] v[i].0, #[trigger] v[j].0)
}

/// The plain value of a list of string pairs.
pub open spec fn pairs_view(v: Seq<(String, String)>) -> Seq<(Seq<char>, Seq<char>)> {
    v.map_values(|p: (String, String)| (p.0@, p.1@))
}

/// The extra `key=value` fields of a record, kept in order of key with each
/// key once.
pub struct DiagnosticFields {
    entries: Vec<(String, String)>,
}

impl View for DiagnosticFields {
    type V = Seq<(Seq<char>, Seq<char>)>;

    closed spec fn view(&self) -> Seq<(Seq<char>, Seq<char>)> {
        pairs_view(self.entries@)
    }
}

/// `after` is `before` with `(key, value)` added in order of key, in place of
/// the pair with the same key if there was one.
pub open spec fn field_set(
    after: Seq<(Seq<char>, Seq<char>)>,
    before: Seq<(Seq<char>, Seq<char>)>,
    key: Seq<char>,
    value: Seq<char>,
) -> bool {
    &&& keys_sorted(after)
    &&& after.contains((key, value))
    &&& forall|m: int|
        0 <= m < after.len() ==> #[trigger] after[m] == (key, value) || (after[m].0 != key
            && before.contains(after[m]))
    &&& forall|j: int| 0 <= j < before.len() && #[trigger] before[j].0 != key ==> after.contains(before[j])
}

proof fn lemma_field_replace(before: Seq<(Seq<char>, Seq<char>)>, i: int, kv: (Seq<char>, Seq<char>))
    requires
        keys_sorted(before),
        0 <= i < before.len(),
        before[i].0 == kv.0,
    ensures
        field_set(before.update(i, kv), before, kv.0, kv.1),
{
    let after = before.update(i, kv);
    assert(after[i] == kv);
    assert forall|j: int| 0 <= j < before.len() && #[trigger] before[j].0 != kv.0 implies after.contains(
        before[j],
    ) by {
        assert(after[j] == before[j]);
    }
    assert forall|m: int| 0 <= m < after.len() implies #[trigger] after[m] == kv || (after[m].0 != kv.0
        && before.contains(after[m])) by {
        if m != i {
            assert(before[m] == after[m]);
            if after[m].0 == kv.0 {
                if m < i {
                    assert(chars_lt(before[m].0, before[i].0));
                } else {
                    assert(chars_lt(before[i].0, before[m].0));
                }
                lemma_chars_lt_irreflexive(kv.0);
            }
        }
    }
}

proof fn lemma_field_insert(before: Seq<(Seq<char>, Seq<char>)>, i: int, kv: (Seq<char>, Seq<char>))
    requires
        keys_sorted(before),
        0 <= i <= before.len(),
        forall|k: int| 0 <= k < i ==> chars_lt(#[trigger] before[k].0, kv.0),
        i < before.len() ==> chars_lt(kv.0, before[i].0),
    ensures
        field_set(before.insert(i, kv), before, kv.0, kv.1),
{
    let after = before.insert(i, kv);
    assert(after[i] == kv);
    assert forall|a: int, b: int| 0 <= a < b < after.len() implies chars_lt(
        #[trigger] after[a].0,
        #[trigger] after[b].0,
    ) by {
        if b < i {
            assert(after[a] == before[a] && after[b] == before[b]);
        } else if b == i {
            assert(after[a] == before[a]);
        } else if a < i {
            assert(after[a] == before[a] && after[b] == before[b - 1]);
            if b - 1 > i {
                assert(chars_lt(before[i].0, before[b - 1].0));
                lemma_chars_lt_transitive(kv.0, before[i].0, before[b - 1].0);
            }
            lemma_chars_lt_transitive(before[a].0, kv.0, before[b - 1].0);
        } else if a == i {
            assert(after[b] == before[b - 1]);
            if b - 1 > i {
                assert(chars_lt(before[i].0, before[b - 1].0));
                lemma_chars_lt_transitive(kv.0, before[i].0, before[b - 1].0);
            }
        } else {
            assert(after[a] == before[a - 1] && after[b] == before[b - 1]);
        }
    }
    assert forall|j: int| 0 <= j < before.len() && #[trigger] before[j].0 != kv.0 implies after.contains(
        before[j],
    ) by {
        if j < i {
            assert(after[j] == before[j]);
        } else {
            assert(after[j + 1] == before[j]);
        }
    }
    assert forall|m: int| 0 <= m < after.len() implies #[trigger] after[m] == kv || (after[m].0 != kv.0
        && before.contains(after[m])) by {
        if m < i {
            assert(before[m] == after[m]);
            lemma_chars_lt_irreflexive(kv.0);
        } else if m > i {
            assert(before[m - 1] == after[m]);
            if m - 1 > i {
                assert(chars_lt(before[i].0, before[m - 1].0));
                lemma_chars_lt_transitive(kv.0, before[i].0, before[m - 1].0);
            }
            lemma_chars_lt_irreflexive(kv.0);
        }
    }
}

impl DiagnosticFields {
    #[verifier::type_invariant]
    spec fn sorted(self) -> bool {
        keys_sorted(pairs_view(self.entries@))
    }

    /// No fields.
    pub fn new() -> (out: DiagnosticFields)
        ensures
            out@ == Seq::<(Seq<char>, Seq<char>)>::empty(),
    {
        let out = DiagnosticFields { entries: Vec::new() };
        assert(pairs_view(out.entries@) =~= Seq::<(Seq<char>, Seq<char>)>::empty());
        out
    }

    /// Sets a field, replacing the value the key had.
    pub fn insert(&mut self, key: String, value: String)
        ensures
            field_set(final(self)@, old(self)@, key@, value@),
    {
        proof {
            use_type_invariant(&*self);
        }
        let ghost before = pairs_view(self.entries@);
        let ghost kv = (key@, value@);
        let mut entries = Vec::new();
        std::mem::swap(&mut entries, &mut self.entries);
        let mut i: usize = 0;
        while i < entries.len() && str_lt(entries[i].0.as_str(), key.as_str())
            invariant
                i <= entries.len(),
                before == pairs_view(entries@),
                forall|k: int| 0 <= k < i ==> chars_lt(#[trigger] before[k].0, key@),
            decreases entries.len() - i,
        {
            assert(before[i as int].0 == entries@[i as int].0@);
            i += 1;
        }
        if i < entries.len() && str_eq(entries[i].0.as_str(), key.as_str()) {
            assert(before[i as int].0 == entries@[i as int].0@);
            entries.set(i, (key, value));
            assert(pairs_view(entries@) =~= before.update(i as int, kv));
            proof {
                lemma_field_replace(before, i as int, kv);
            }
        } else {
            proof {
                if i < entries.len() {
                    assert(before[i as int].0 == entries@[i as int].0@);
                    lemma_chars_lt_total(before[i as int].0, key@);
                }
            }
            entries.insert(i, (key, value));
            assert(pairs_view(entries@) =~= before.insert(i as int, kv));
            proof {
                lemma_field_insert(before, i as int, kv);
            }
        }
        self.entries = entries;
    }

    /// The fields, in order of key.
    pub fn entries(&self) -> (out: &Vec<(String, String)>)
        ensures
            pairs_view(out@) == self@,
            keys_sorted(self@),
    {
        proof {
            use_type_invariant(self);
        }
        &self.entries
    }
}

/// A diagnostic event. `timestamp_ms` is in milliseconds since the Unix epoch.
pub struct DiagnosticRecord {
    pub timestamp_ms: u64,
    pub level: DiagnosticLevel,
    pub channel: DiagnosticChannel,
    pub scope: String,
    pub event: String,
    pub message: String,
    pub fields: DiagnosticFields,
}

/// `n` with at least three digits, zeros in front (`{:03}`).
pub open spec fn three_digits(n: nat) -> Seq<char> {
    if n < 10 {
        "00"@ + decimal(n)
    } else if n < 100 {
        "0"@ + decimal(n)
    } else {
        decimal(n)
    }
}

/// A time in milliseconds as seconds with three decimals, as the log shows it.
pub open spec fn timestamp_text(timestamp_ms: u64) -> Seq<char> {
    decimal((timestamp_ms / 1000) as nat) + "."@ + three_digits((timestamp_ms % 1000) as nat)
}

pub fn format_timestamp_ms(timestamp_ms: u64) -> (out: String)
    ensures
        out@ == timestamp_text(timestamp_ms),
{
    let seconds = timestamp_ms / 1000;
    let millis = timestamp_ms % 1000;
    let mut out = u64_to_string(seconds);
    push_str(&mut out, ".");
    if millis < 10 {
        push_str(&mut out, "00");
    } else if millis < 100 {
        push_str(&mut out, "0");
    }
    let m = u64_to_string(millis);
    push_str(&mut out, m.as_str());
    assert(out@ =~= timestamp_text(timestamp_ms));
    out
}

/// A text on one line: its words joined by single spaces.
pub open spec fn one_line(value: Seq<char>) -> Seq<char> {
    join(split_ws(value), " "@)
}

pub fn sanitize_segment(value: &str) -> (out: String)
    ensures
        out@ == one_line(value@),
{
    let chars = chars_of(value);
    let words = split_whitespace_chars(chars.as_slice());
    let sep = chars_of(" ");
    let joined = crate::text::join_chars(&words, sep.as_slice());
    string_from_chars(joined.as_slice())
}

/// The ` key=value` text of the fields, in order.
pub open spec fn fields_text(fields: Seq<(Seq<char>, Seq<char>)>) -> Seq<char>
    decreases fields.len(),
{
    if fields.len() == 0 {
        Seq::empty()
    } else {
        fields_text(fields.drop_last()) + " "@ + fields.last().0 + "="@ + one_line(fields.last().1)
    }
}

/// The log line of a record.
pub open spec fn record_line(
    timestamp_ms: u64,
    level: DiagnosticLevel,
    scope: Seq<char>,
    event: Seq<char>,
    message: Seq<char>,
    fields: Seq<(Seq<char>, Seq<char>)>,
) -> Seq<char> {
    "["@ + timestamp_text(timestamp_ms) + "] "@ + level_name(level) + " "@ + scope + " "@ + event + (
    if trim(message).len() > 0 {
        " "@ + one_line(message)
    } else {
        Seq::empty()
    }) + fields_text(fields) + "\n"@
}

/// The line a record is logged as: time, level, scope, event, the message
/// and the fields, each on one line.
pub fn serialize_record(record: &DiagnosticRecord) -> (out: String)
    ensures
        out@ == record_line(
            record.timestamp_ms,
            record.level,
            record.scope@,
            record.event@,
            record.message@,
            record.fields@,
        ),
{
    let mut line = "[".to_owned();
    let ts = format_timestamp_ms(record.timestamp_ms);
    push_str(&mut line, ts.as_str());
    push_str(&mut line, "] ");
    push_str(&mut line, record.level.as_str());
    push_str(&mut line, " ");
    push_str(&mut line, record.scope.as_str());
    push_str(&mut line, " ");
    push_str(&mut line, record.event.as_str());
    let trimmed = trim_str(record.message.as_str());
    if !trimmed.as_str().is_empty() {
        push_str(&mut line, " ");
        let m = sanitize_segment(record.message.as_str());
        push_str(&mut line, m.as_str());
    }
    let ghost head = line@;
    let fields = record.fields.entries();
    let ghost fv = pairs_view(fields@);
    let mut i: usize = 0;
    while i < fields.len()
        invariant
            i <= fields.len(),
            fv == pairs_view(fields@),
            line@ == head + fields_text(fv.take(i as int)),
        decreases fields.len() - i,
    {
        push_str(&mut line, " ");
        push_str(&mut line, fields[i].0.as_str());
        push_str(&mut line, "=");
        let v = sanitize_segment(fields[i].1.as_str());
        push_str(&mut line, v.as_str());
        assert(fv.take(i + 1).drop_last() =~= fv.take(i as int));
        assert(fv.take(i + 1).last() == (fields@[i as int].0@, fields@[i as int].1@));
        assert(line@ =~= head + fields_text(fv.take(i + 1)));
        i += 1;
    }
    assert(fv.take(fields.len() as int) =~= fv);
    push_str(&mut line, "\n");
    assert(line@ =~= record_line(
        record.timestamp_ms,
        record.level,
        record.scope@,
        record.event@,
        record.message@,
        record.fields@,
    ));
    line
}

} // verus!
