use vstd::prelude::*;

use crate::text::{str_eq, strings_view};

verus! {

broadcast use vstd::string::group_string_axioms;

/// The value a schema statement binds to its one parameter, if it has one.
#[derive(Debug, Clone, Copy, PartialEq, Eq, Structural)]
pub enum StepParam {
    Unbound,
    /// The workspace root, as text.
    WorkspaceRoot,
    /// The name of the default agent.
    DefaultAgent,
}

/// A statement that brings a table up to date, and the message its failure
/// is reported with.
#[derive(Debug, Clone, Copy)]
pub struct SchemaStep {
    pub sql: &'static str,
    pub param: StepParam,
    pub failure: &'static str,
}

pub open spec fn step_view(s: SchemaStep) -> (Seq<char>, StepParam, Seq<char>) {
    (s.sql@, s.param, s.failure@)
}

pub open spec fn steps_view(ss: Seq<SchemaStep>) -> Seq<(Seq<char>, StepParam, Seq<char>)> {
    ss.map_values(|s: SchemaStep| step_view(s))
}

/// The step that adds a column, where the table lacks it.
pub open spec fn add_if_missing(existing: Seq<Seq<char>>, column: Seq<char>, sql: Seq<char>, failure: Seq<char>) -> Seq<(Seq<char>, StepParam, Seq<char>)> {
    if existing.contains(column) {
        Seq::empty()
    } else {
        seq![(sql, StepParam::Unbound, failure)]
    }
}

fn has_column(existing: &Vec<String>, column: &str) -> (out: bool)
    ensures
        out == strings_view(existing@).contains(column@),
{
    let mut i: usize = 0;
    while i < existing.len()
        invariant
            i <= existing.len(),
            forall|k: int| 0 <= k < i ==> strings_view(existing@)[k] != column@,
        decreases existing.len() - i,
    {
        if str_eq(existing[i].as_str(), column) {
            assert(strings_view(existing@)[i as int] == column@);
            return true;
        }
        i += 1;
    }
    false
}

fn push_step(steps: &mut Vec<SchemaStep>, sql: &'static str, param: StepParam, failure: &'static str)
    ensures
        steps_view(final(steps)@) == steps_view(old(steps)@).push((sql@, param, failure@)),
{
    let ghost before = steps@;
    steps.push(SchemaStep { sql, param, failure });
    assert(steps_view(steps@) =~= steps_view(before).push((sql@, param, failure@)));
}

fn push_add_if_missing(
    steps: &mut Vec<SchemaStep>,
    existing: &Vec<String>,
    column: &str,
    sql: &'static str,
    failure: &'static str,
)
    ensures
        steps_view(final(steps)@) == steps_view(old(steps)@) + add_if_missing(
            strings_view(existing@),
            column@,
            sql@,
            failure@,
        ),
{
    let ghost before = steps_view(steps@);
    if !has_column(existing, column) {
        push_step(steps, sql, StepParam::Unbound, failure);
        assert(steps_view(steps@) =~= before + add_if_missing(strings_view(existing@), column@, sql@, failure@));
    } else {
        assert(steps_view(steps@) =~= before + add_if_missing(strings_view(existing@), column@, sql@, failure@));
    }
}

pub const ADD_TITLE_SOURCE: &'static str = "ALTER TABLE tasks ADD COLUMN title_source TEXT NOT NULL DEFAULT 'default'";
pub const ADD_TITLE_LOCKED: &'static str = "ALTER TABLE tasks ADD COLUMN title_locked INTEGER NOT NULL DEFAULT 0";
pub const ADD_WORKING_DIRECTORY: &'static str = "ALTER TABLE tasks ADD COLUMN working_directory TEXT";
pub const BACKFILL_WORKING_DIRECTORY: &'static str = "UPDATE tasks\n                 SET working_directory = ?1\n                 WHERE working_directory IS NULL OR TRIM(working_directory) = ''";
pub const ADD_SELECTED_MODEL_CONFIG_ID: &'static str = "ALTER TABLE tasks ADD COLUMN selected_model_config_id INTEGER";
pub const ADD_SELECTED_MODEL: &'static str = "ALTER TABLE tasks ADD COLUMN selected_model TEXT";
pub const ADD_MODEL_TEMPERATURE: &'static str = "ALTER TABLE tasks ADD COLUMN model_temperature REAL";
pub const ADD_MODEL_TOP_P: &'static str = "ALTER TABLE tasks ADD COLUMN model_top_p REAL";
pub const ADD_MODEL_PRESENCE_PENALTY: &'static str = "ALTER TABLE tasks ADD COLUMN model_presence_penalty REAL";
pub const ADD_MODEL_FREQUENCY_PENALTY: &'static str = "ALTER TABLE tasks ADD COLUMN model_frequency_penalty REAL";
pub const ADD_MODEL_MAX_OUTPUT_TOKENS: &'static str = "ALTER TABLE tasks ADD COLUMN model_max_output_tokens INTEGER";
pub const ADD_ACTIVE_AGENT: &'static str = "ALTER TABLE tasks ADD COLUMN active_agent TEXT NOT NULL DEFAULT 'march'";
pub const BACKFILL_ACTIVE_AGENT: &'static str = "UPDATE tasks\n                 SET active_agent = ?1\n                 WHERE active_agent IS NULL OR TRIM(active_agent) = ''";
pub const ADD_LAST_EVENT_SEQ: &'static str = "ALTER TABLE tasks ADD COLUMN last_event_seq INTEGER NOT NULL DEFAULT 0";
pub const BACKFILL_LAST_EVENT_SEQ: &'static str = "UPDATE tasks\n                 SET last_event_seq = 0\n                 WHERE last_event_seq IS NULL OR last_event_seq < 0";

/// The statements that bring the `tasks` table up to date, given the columns
/// it has: each missing column is added, in this order, and the working
/// directory, active agent and event sequence are backfilled where empty.
pub open spec fn task_column_steps(existing: Seq<Seq<char>>) -> Seq<(Seq<char>, StepParam, Seq<char>)> {
    add_if_missing(existing, "title_source"@, ADD_TITLE_SOURCE@, "failed to add tasks.title_source column"@)
        + add_if_missing(existing, "title_locked"@, ADD_TITLE_LOCKED@, "failed to add tasks.title_locked column"@)
        + add_if_missing(
        existing,
        "working_directory"@,
        ADD_WORKING_DIRECTORY@,
        "failed to add tasks.working_directory column"@,
    ) + seq![
        (
            BACKFILL_WORKING_DIRECTORY@,
            StepParam::WorkspaceRoot,
            "failed to backfill tasks.working_directory column"@,
        ),
    ] + add_if_missing(
        existing,
        "selected_model_config_id"@,
        ADD_SELECTED_MODEL_CONFIG_ID@,
        "failed to add tasks.selected_model_config_id column"@,
    ) + add_if_missing(
        existing,
        "selected_model"@,
        ADD_SELECTED_MODEL@,
        "failed to add tasks.selected_model column"@,
    ) + add_if_missing(
        existing,
        "model_temperature"@,
        ADD_MODEL_TEMPERATURE@,
        "failed to add tasks.model_temperature column"@,
    ) + add_if_missing(existing, "model_top_p"@, ADD_MODEL_TOP_P@, "failed to add tasks.model_top_p column"@)
        + add_if_missing(
        existing,
        "model_presence_penalty"@,
        ADD_MODEL_PRESENCE_PENALTY@,
        "failed to add tasks.model_presence_penalty column"@,
    ) + add_if_missing(
        existing,
        "model_frequency_penalty"@,
        ADD_MODEL_FREQUENCY_PENALTY@,
        "failed to add tasks.model_frequency_penalty column"@,
    ) + add_if_missing(
        existing,
        "model_max_output_tokens"@,
        ADD_MODEL_MAX_OUTPUT_TOKENS@,
        "failed to add tasks.model_max_output_tokens column"@,
    ) + add_if_missing(existing, "active_agent"@, ADD_ACTIVE_AGENT@, "failed to add tasks.active_agent column"@)
        + seq![
        (BACKFILL_ACTIVE_AGENT@, StepParam::DefaultAgent, "failed to backfill tasks.active_agent column"@),
    ] + add_if_missing(
        existing,
        "last_event_seq"@,
        ADD_LAST_EVENT_SEQ@,
        "failed to add tasks.last_event_seq column"@,
    ) + seq![(BACKFILL_LAST_EVENT_SEQ@, StepParam::Unbound, "failed to backfill tasks.last_event_seq column"@)]
}

/// The statements that bring the `tasks` table up to date.
pub fn task_column_migrations(existing: &Vec<String>) -> (out: Vec<SchemaStep>)
    ensures
        steps_view(out@) == task_column_steps(strings_view(existing@)),
{
    let mut steps: Vec<SchemaStep> = Vec::new();
    assert(steps_view(steps@) =~= Seq::<(Seq<char>, StepParam, Seq<char>)>::empty());
    push_add_if_missing(&mut steps, existing, "title_source", ADD_TITLE_SOURCE, "failed to add tasks.title_source column");
    push_add_if_missing(&mut steps, existing, "title_locked", ADD_TITLE_LOCKED, "failed to add tasks.title_locked column");
    push_add_if_missing(
        &mut steps,
        existing,
        "working_directory",
        ADD_WORKING_DIRECTORY,
        "failed to add tasks.working_directory column",
    );
    push_step(
        &mut steps,
        BACKFILL_WORKING_DIRECTORY,
        StepParam::WorkspaceRoot,
        "failed to backfill tasks.working_directory column",
    );
    push_add_if_missing(
        &mut steps,
        existing,
        "selected_model_config_id",
        ADD_SELECTED_MODEL_CONFIG_ID,
        "failed to add tasks.selected_model_config_id column",
    );
    push_add_if_missing(&mut steps, existing, "selected_model", ADD_SELECTED_MODEL, "failed to add tasks.selected_model column");
    push_add_if_missing(
        &mut steps,
        existing,
        "model_temperature",
        ADD_MODEL_TEMPERATURE,
        "failed to add tasks.model_temperature column",
    );
    push_add_if_missing(&mut steps, existing, "model_top_p", ADD_MODEL_TOP_P, "failed to add tasks.model_top_p column");
    push_add_if_missing(
        &mut steps,
        existing,
        "model_presence_penalty",
        ADD_MODEL_PRESENCE_PENALTY,
        "failed to add tasks.model_presence_penalty column",
    );
    push_add_if_missing(
        &mut steps,
        existing,
        "model_frequency_penalty",
        ADD_MODEL_FREQUENCY_PENALTY,
        "failed to add tasks.model_frequency_penalty column",
    );
    push_add_if_missing(
        &mut steps,
        existing,
        "model_max_output_tokens",
        ADD_MODEL_MAX_OUTPUT_TOKENS,
        "failed to add tasks.model_max_output_tokens column",
    );
    push_add_if_missing(&mut steps, existing, "active_agent", ADD_ACTIVE_AGENT, "failed to add tasks.active_agent column");
    push_step(&mut steps, BACKFILL_ACTIVE_AGENT, StepParam::DefaultAgent, "failed to backfill tasks.active_agent column");
    push_add_if_missing(&mut steps, existing, "last_event_seq", ADD_LAST_EVENT_SEQ, "failed to add tasks.last_event_seq column");
    push_step(&mut steps, BACKFILL_LAST_EVENT_SEQ, StepParam::Unbound, "failed to backfill tasks.last_event_seq column");
    assert(steps_view(steps@) =~= task_column_steps(strings_view(existing@)));
    steps
}

pub const ADD_NOTE_SCOPE: &'static str = "ALTER TABLE notes ADD COLUMN scope TEXT NOT NULL DEFAULT 'shared'";
pub const BACKFILL_NOTE_SCOPE: &'static str = "UPDATE notes\n                 SET scope = 'shared'\n                 WHERE scope IS NULL OR TRIM(scope) = ''";
pub const ADD_OPEN_FILE_SCOPE: &'static str = "ALTER TABLE open_files ADD COLUMN scope TEXT NOT NULL DEFAULT 'shared'";
pub const BACKFILL_OPEN_FILE_SCOPE: &'static str = "UPDATE open_files\n                 SET scope = 'shared'\n                 WHERE scope IS NULL OR TRIM(scope) = ''";

/// The statements that give the `notes` table its scope column, shared where
/// empty.
pub open spec fn note_column_steps(existing: Seq<Seq<char>>) -> Seq<(Seq<char>, StepParam, Seq<char>)> {
    add_if_missing(existing, "scope"@, ADD_NOTE_SCOPE@, "failed to add notes.scope column"@) + seq![
        (BACKFILL_NOTE_SCOPE@, StepParam::Unbound, "failed to backfill notes.scope column"@),
    ]
}

pub fn note_column_migrations(existing: &Vec<String>) -> (out: Vec<SchemaStep>)
    ensures
        steps_view(out@) == note_column_steps(strings_view(existing@)),
{
    let mut steps: Vec<SchemaStep> = Vec::new();
    assert(steps_view(steps@) =~= Seq::<(Seq<char>, StepParam, Seq<char>)>::empty());
    push_add_if_missing(&mut steps, existing, "scope", ADD_NOTE_SCOPE, "failed to add notes.scope column");
    push_step(&mut steps, BACKFILL_NOTE_SCOPE, StepParam::Unbound, "failed to backfill notes.scope column");
    assert(steps_view(steps@) =~= note_column_steps(strings_view(existing@)));
    steps
}

/// The statements that give the `open_files` table its scope column, shared
/// where empty.
pub open spec fn open_file_column_steps(existing: Seq<Seq<char>>) -> Seq<(Seq<char>, StepParam, Seq<char>)> {
    add_if_missing(existing, "scope"@, ADD_OPEN_FILE_SCOPE@, "failed to add open_files.scope column"@) + seq![
        (BACKFILL_OPEN_FILE_SCOPE@, StepParam::Unbound, "failed to backfill open_files.scope column"@),
    ]
}

pub fn open_file_column_migrations(existing: &Vec<String>) -> (out: Vec<SchemaStep>)
    ensures
        steps_view(out@) == open_file_column_steps(strings_view(existing@)),
{
    let mut steps: Vec<SchemaStep> = Vec::new();
    assert(steps_view(steps@) =~= Seq::<(Seq<char>, StepParam, Seq<char>)>::empty());
    push_add_if_missing(&mut steps, existing, "scope", ADD_OPEN_FILE_SCOPE, "failed to add open_files.scope column");
    push_step(&mut steps, BACKFILL_OPEN_FILE_SCOPE, StepParam::Unbound, "failed to backfill open_files.scope column");
    assert(steps_view(steps@) =~= open_file_column_steps(strings_view(existing@)));
    steps
}

/// A table that has every column it should only gets the backfills: running
/// the migrations on an up-to-date table adds nothing.
pub proof fn lemma_current_tasks_table_only_backfills(existing: Seq<Seq<char>>)
    requires
        existing.contains("title_source"@),
        existing.contains("title_locked"@),
        existing.contains("working_directory"@),
        existing.contains("selected_model_config_id"@),
        existing.contains("selected_model"@),
        existing.contains("model_temperature"@),
        existing.contains("model_top_p"@),
        existing.contains("model_presence_penalty"@),
        existing.contains("model_frequency_penalty"@),
        existing.contains("model_max_output_tokens"@),
        existing.contains("active_agent"@),
        existing.contains("last_event_seq"@),
    ensures
        task_column_steps(existing) == seq![
            (
                BACKFILL_WORKING_DIRECTORY@,
                StepParam::WorkspaceRoot,
                "failed to backfill tasks.working_directory column"@,
            ),
            (BACKFILL_ACTIVE_AGENT@, StepParam::DefaultAgent, "failed to backfill tasks.active_agent column"@),
            (BACKFILL_LAST_EVENT_SEQ@, StepParam::Unbound, "failed to backfill tasks.last_event_seq column"@),
        ],
{
    assert(task_column_steps(existing) =~= seq![
        (
            BACKFILL_WORKING_DIRECTORY@,
            StepParam::WorkspaceRoot,
            "failed to backfill tasks.working_directory column"@,
        ),
        (BACKFILL_ACTIVE_AGENT@, StepParam::DefaultAgent, "failed to backfill tasks.active_agent column"@),
        (BACKFILL_LAST_EVENT_SEQ@, StepParam::Unbound, "failed to backfill tasks.last_event_seq column"@),
    ]);
}

} // verus!
