//! Plain data carried between the reconstruction core and its callers: the
//! shapes of commit and feature records the downstream correlation stages
//! read and fill, and the request/response shapes of the narrative
//! enrichment API. This core only carries them; it never computes on them.

use vstd::prelude::*;
use std::collections::HashMap;

verus! {

/// One file's changes within a commit.
#[derive(Clone, Debug)]
pub struct FileChange {
    pub path: String,
    pub lines_added: u32,
    pub lines_removed: u32,
    pub functions: Vec<FunctionChange>,
}

/// One function's changes within a file change.
#[derive(Clone, Debug)]
pub struct FunctionChange {
    pub name: String,
    pub lines_added: u32,
    pub lines_removed: u32,
    pub diff_text: String,
}

/// The repository a scan describes.
#[derive(Clone, Debug)]
pub struct RepositoryInfo {
    pub path: String,
    pub name: String,
    pub total_commits: u32,
    pub date_range: DateRange,
    pub languages_detected: Vec<String>,
}

/// A closed range of timestamps, as the log's sortable strings.
#[derive(Clone, Debug)]
pub struct DateRange {
    pub start: String,
    pub end: String,
}

/// Feature and commit counts for one week.
#[derive(Clone, Debug)]
pub struct WeekVelocity {
    pub week: String,
    pub features: u32,
    pub commits: u32,
}

/// A cluster of commits that built one feature, enriched downstream with a
/// title, narrative and key decisions.
#[derive(Clone, Debug)]
pub struct FeatureCluster {
    pub cluster_id: i32,
    pub title: Option<String>,
    pub auto_label: String,
    pub narrative: Option<String>,
    pub intent: Option<String>,
    pub key_decisions: Vec<String>,
    pub commit_hashes: Vec<String>,
    pub time_start: String,
    pub time_end: String,
    pub functions_touched: Vec<String>,
    pub total_lines_added: u32,
    pub total_lines_removed: u32,
    pub primary_files: Vec<String>,
    pub change_type_distribution: HashMap<String, u32>,
    pub dependencies: Vec<i32>,
    pub sub_features: Vec<SubFeature>,
}

/// One prompt-sized unit of work inside a feature cluster.
#[derive(Clone, Debug)]
pub struct SubFeature {
    pub prompt_text: String,
    pub session_id: String,
    pub prompt_index: u32,
    pub timestamp: String,
    pub time_end: Option<String>,
    pub commit_hashes: Vec<String>,
    pub files_written: Vec<String>,
    pub lines_added: u32,
    pub lines_removed: u32,
    pub change_type: String,
    pub model: Option<String>,
}

/// A request to the narrative-enrichment API.
#[derive(Clone, Debug)]
pub struct MessageRequest {
    pub model: String,
    pub max_tokens: u32,
    pub system: String,
    pub messages: Vec<Message>,
}

/// One message of an enrichment request.
#[derive(Clone, Debug)]
pub struct Message {
    pub role: String,
    pub content: String,
}

/// The enrichment API's reply.
#[derive(Clone, Debug)]
pub struct MessageResponse {
    pub id: String,
    pub content: Vec<ContentBlock>,
    pub stop_reason: Option<String>,
    pub usage: Usage,
}

/// One block of an enrichment reply.
#[derive(Clone, Debug)]
pub struct ContentBlock {
    pub content_type: String,
    pub text: Option<String>,
}

/// Token counts the enrichment API reports for one exchange.
#[derive(Clone, Copy, Debug, PartialEq, Eq, Structural)]
pub struct Usage {
    pub input_tokens: u32,
    pub output_tokens: u32,
}

/// What the enrichment reply carries for one feature.
#[derive(Clone, Debug)]
pub struct FeatureEnrichment {
    pub title: String,
    pub narrative: String,
    pub key_decisions: Vec<String>,
}

} // verus!
