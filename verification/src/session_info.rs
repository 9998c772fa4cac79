//! A session's record from its catalog entry and the statistics read from its
//! transcript.
use vstd::prelude::*;

use crate::dates::{rfc3339_seconds, timestamp_of};
use crate::projects::{display_name_from_project, project_path_from_id};

verus! {

/// A session file as the catalog lists it.
pub struct CatalogRow {
    pub id: String,
    pub file_path: String,
    pub is_compressed: bool,
    pub bytes: u64,
    /// Modification time, unix seconds.
    pub mtime: i64,
    pub project_id: String,
    pub first_ts: Option<i64>,
    pub last_ts: Option<i64>,
}

/// Statistics read from a session transcript.
pub struct SessionStats {
    pub total_input_tokens: u64,
    pub total_output_tokens: u64,
    pub cache_read_tokens: u64,
    pub cache_creation_tokens: u64,
    pub turn_count: u32,
    pub user_prompt_count: u32,
    pub tool_call_count: u32,
    pub thinking_block_count: u32,
    pub files_read_count: u32,
    pub files_edited_count: u32,
    pub bash_count: u32,
    pub agent_spawn_count: u32,
    pub api_error_count: u32,
    pub duration_seconds: u32,
    pub primary_model: Option<String>,
    pub git_branch: Option<String>,
    pub preview: String,
    pub last_message: String,
    /// RFC 3339 time of the first message.
    pub first_message_at: Option<String>,
}

/// Tool use counts of a session.
pub struct ToolCounts {
    pub read: usize,
    pub edit: usize,
    pub bash: usize,
    pub write: usize,
}

/// A session as the list and detail views show it (its cost is priced
/// separately).
pub struct SessionRecord {
    pub id: String,
    pub project: String,
    pub project_path: String,
    pub display_name: String,
    pub file_path: String,
    pub modified_at: i64,
    pub size_bytes: u64,
    pub total_input_tokens: Option<u64>,
    pub total_output_tokens: Option<u64>,
    pub total_cache_read_tokens: Option<u64>,
    pub total_cache_creation_tokens: Option<u64>,
    pub turn_count: usize,
    pub turn_count_api: Option<u64>,
    pub message_count: usize,
    pub primary_model: Option<String>,
    pub git_branch: Option<String>,
    pub tool_call_count: u32,
    pub thinking_block_count: u32,
    pub files_read_count: u32,
    pub files_edited_count: u32,
    pub duration_seconds: u32,
    pub first_message_at: Option<i64>,
    pub preview: String,
    pub last_message: String,
    pub user_prompt_count: u32,
    pub api_call_count: u32,
    pub agent_spawn_count: u32,
    pub api_error_count: u32,
    pub tool_counts: ToolCounts,
}

fn copy_opt(o: &Option<String>) -> (res: Option<String>)
    ensures
        res == *o,
{
    match o {
        Some(s) => Some(s.clone()),
        None => None,
    }
}

/// The record of a session from its catalog row and transcript statistics:
/// identity from the row (the encoded project id doubles as path and display
/// name), counts and texts from the statistics, `first_message_at` as the
/// first message's time, and a message count of turns plus prompts.
pub fn session_record(row: &CatalogRow, stats: &SessionStats, first_message_at: Option<i64>) -> (r: SessionRecord)
    requires
        stats.turn_count + stats.user_prompt_count <= u32::MAX,
    ensures
        r.id == row.id,
        r.project == row.project_id,
        r.project_path@ == row.project_id@,
        r.display_name@ == row.project_id@,
        r.file_path == row.file_path,
        r.modified_at == row.mtime,
        r.size_bytes == row.bytes,
        r.total_input_tokens == Some(stats.total_input_tokens),
        r.total_output_tokens == Some(stats.total_output_tokens),
        r.total_cache_read_tokens == Some(stats.cache_read_tokens),
        r.total_cache_creation_tokens == Some(stats.cache_creation_tokens),
        r.turn_count == stats.turn_count,
        r.turn_count_api == Some(stats.turn_count as u64),
        r.message_count == stats.turn_count + stats.user_prompt_count,
        r.primary_model == stats.primary_model,
        r.git_branch == stats.git_branch,
        r.tool_call_count == stats.tool_call_count,
        r.thinking_block_count == stats.thinking_block_count,
        r.files_read_count == stats.files_read_count,
        r.files_edited_count == stats.files_edited_count,
        r.duration_seconds == stats.duration_seconds,
        r.first_message_at == first_message_at,
        r.preview == stats.preview,
        r.last_message == stats.last_message,
        r.user_prompt_count == stats.user_prompt_count,
        r.api_call_count == stats.turn_count,
        r.agent_spawn_count == stats.agent_spawn_count,
        r.api_error_count == stats.api_error_count,
        r.tool_counts.read == stats.files_read_count,
        r.tool_counts.edit == stats.files_edited_count,
        r.tool_counts.bash == stats.bash_count,
        r.tool_counts.write == 0,
{
    SessionRecord {
        id: row.id.clone(),
        project: row.project_id.clone(),
        project_path: project_path_from_id(row.project_id.as_str()),
        display_name: display_name_from_project(row.project_id.as_str()),
        file_path: row.file_path.clone(),
        modified_at: row.mtime,
        size_bytes: row.bytes,
        total_input_tokens: Some(stats.total_input_tokens),
        total_output_tokens: Some(stats.total_output_tokens),
        total_cache_read_tokens: Some(stats.cache_read_tokens),
        total_cache_creation_tokens: Some(stats.cache_creation_tokens),
        turn_count: stats.turn_count as usize,
        turn_count_api: Some(stats.turn_count as u64),
        message_count: (stats.turn_count + stats.user_prompt_count) as usize,
        primary_model: copy_opt(&stats.primary_model),
        git_branch: copy_opt(&stats.git_branch),
        tool_call_count: stats.tool_call_count,
        thinking_block_count: stats.thinking_block_count,
        files_read_count: stats.files_read_count,
        files_edited_count: stats.files_edited_count,
        duration_seconds: stats.duration_seconds,
        first_message_at,
        preview: stats.preview.clone(),
        last_message: stats.last_message.clone(),
        user_prompt_count: stats.user_prompt_count,
        api_call_count: stats.turn_count,
        agent_spawn_count: stats.agent_spawn_count,
        api_error_count: stats.api_error_count,
        tool_counts: ToolCounts {
            read: stats.files_read_count as usize,
            edit: stats.files_edited_count as usize,
            bash: stats.bash_count as usize,
            write: 0,
        },
    }
}

/// The record of a session from its catalog row and transcript statistics:
/// identity from the row (the encoded project id doubles as path and display
/// name), counts and texts from the statistics, the first message's time
/// read as unix seconds, and a message count of turns plus prompts.
pub fn build_session_info(row: &CatalogRow, stats: &SessionStats) -> (r: SessionRecord)
    requires
        stats.turn_count + stats.user_prompt_count <= u32::MAX,
    ensures
        r.id == row.id,
        r.project == row.project_id,
        r.project_path@ == row.project_id@,
        r.display_name@ == row.project_id@,
        r.file_path == row.file_path,
        r.modified_at == row.mtime,
        r.size_bytes == row.bytes,
        r.total_input_tokens == Some(stats.total_input_tokens),
        r.total_output_tokens == Some(stats.total_output_tokens),
        r.total_cache_read_tokens == Some(stats.cache_read_tokens),
        r.total_cache_creation_tokens == Some(stats.cache_creation_tokens),
        r.turn_count == stats.turn_count,
        r.turn_count_api == Some(stats.turn_count as u64),
        r.message_count == stats.turn_count + stats.user_prompt_count,
        r.primary_model == stats.primary_model,
        r.git_branch == stats.git_branch,
        r.tool_call_count == stats.tool_call_count,
        r.thinking_block_count == stats.thinking_block_count,
        r.files_read_count == stats.files_read_count,
        r.files_edited_count == stats.files_edited_count,
        r.duration_seconds == stats.duration_seconds,
        r.first_message_at == (match stats.first_message_at {
            Some(t) => rfc3339_seconds(t@),
            None => None,
        }),
        r.preview == stats.preview,
        r.last_message == stats.last_message,
        r.user_prompt_count == stats.user_prompt_count,
        r.api_call_count == stats.turn_count,
        r.agent_spawn_count == stats.agent_spawn_count,
        r.api_error_count == stats.api_error_count,
        r.tool_counts.read == stats.files_read_count,
        r.tool_counts.edit == stats.files_edited_count,
        r.tool_counts.bash == stats.bash_count,
        r.tool_counts.write == 0,
{
    let first_message_at = match &stats.first_message_at {
        Some(t) => timestamp_of(Some(t.as_str())),
        None => None,
    };
    session_record(row, stats, first_message_at)
}

} // verus!
