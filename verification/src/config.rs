use vstd::prelude::*;

use crate::jira::JiraSourceConfig;
use crate::processors::ProcessorConfig;
use crate::sinks::SinkConfig;

verus! {

/// The startup configuration: integrations, each with a source and its
/// pipelines. Reading the configuration file and the environment is I/O
/// and lives with the application shell; the library only holds the
/// resulting record.

#[derive(Debug)]
pub struct AppConfig {
    pub integrations: Vec<Integration>,
}

#[derive(Debug)]
pub struct Integration {
    pub source: SourceConfig,
    pub pipelines: Vec<Pipeline>,
}

#[derive(Debug)]
pub struct Pipeline {
    pub processors: Vec<ProcessorConfig>,
    pub sinks: Vec<SinkConfig>,
}

#[derive(Debug)]
pub enum SourceConfig {
    Jira(JiraSourceConfig),
}

} // verus!
