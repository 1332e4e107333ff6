use vstd::prelude::*;

use crate::error::AppError;
use crate::event::{PipelineEvent, SpecEvent};
use crate::filter::{spec_cel_accepts, spec_cel_verdict, FilterProcessor, SpecCelVerdict};
use crate::json::JsonValue;
use crate::mapper::{spec_render, MapperProcessor};
use crate::serialize::spec_json_text;

verus! {

/// Processor stages and their sequential composition: each stage either
/// passes an event on (possibly with a rewritten body), drops it, or
/// fails; a pipeline runs its stages in declaration order and stops at
/// the first drop or failure. Stage and chain outcomes are spec
/// functions, and the runners are exact against them.

/// Configuration of one processor stage.
#[derive(Debug)]
pub enum ProcessorConfig {
    Filter { cel_expression: String },
    Mapper { output_event: JsonValue },
}

/// A constructed stage: the known set of processors, as a tagged variant.
pub enum ProcessorKind {
    Filter(FilterProcessor),
    Mapper(MapperProcessor),
}

/// What one stage does with an event: `Some(Some(e))` passes `e` on,
/// `Some(None)` drops the event, `None` is a processing error.
pub open spec fn spec_stage_outcome(p: ProcessorKind, e: SpecEvent) -> Option<Option<SpecEvent>> {
    match p {
        ProcessorKind::Filter(f) => match spec_cel_verdict(
            f.spec_expression(),
            e.event_type,
            spec_json_text(e.body),
        ) {
            SpecCelVerdict::True => Some(Some(e)),
            SpecCelVerdict::False => Some(None),
            _ => None,
        },
        ProcessorKind::Mapper(m) => match spec_render(m.spec_template(), e.body) {
            Some(b) => Some(Some(SpecEvent { body: b, ..e })),
            None => None,
        },
    }
}

/// What a whole pipeline does with an event: the stages run in order
/// until one drops the event or fails.
pub open spec fn spec_chain_outcome(ps: Seq<ProcessorKind>, e: SpecEvent) -> Option<
    Option<SpecEvent>,
>
    decreases ps.len(),
{
    if ps.len() == 0 {
        Some(Some(e))
    } else {
        match spec_stage_outcome(ps[0], e) {
            None => None,
            Some(None) => Some(None),
            Some(Some(e2)) => spec_chain_outcome(ps.skip(1), e2),
        }
    }
}

impl ProcessorKind {
    /// Runs one stage on an event; exact against `spec_stage_outcome`.
    pub fn process(&self, event: PipelineEvent) -> (r: Result<Option<PipelineEvent>, AppError>)
        ensures
            match spec_stage_outcome(*self, event@) {
                Some(passed) => match passed {
                    Some(e2s) => r matches Ok(o) && o matches Some(e2) && e2@ == e2s,
                    None => r matches Ok(o) && o is None,
                },
                None => r matches Err(e) && e matches AppError::Processing(_),
            },
    {
        match self {
            ProcessorKind::Filter(f) => f.process(event),
            ProcessorKind::Mapper(m) => m.process(event),
        }
    }
}

/// Whether a stage configuration is accepted when the pipeline is built:
/// a filter's expression must be accepted by the CEL compiler; a mapper
/// always is.
pub open spec fn spec_config_accepted(c: ProcessorConfig) -> bool {
    match c {
        ProcessorConfig::Filter { cel_expression } => spec_cel_accepts(cel_expression@),
        ProcessorConfig::Mapper { .. } => true,
    }
}

/// Whether a built stage carries exactly its configuration: the filter's
/// expression text, or the mapper's template.
pub open spec fn spec_stage_matches(p: ProcessorKind, c: ProcessorConfig) -> bool {
    match c {
        ProcessorConfig::Filter { cel_expression } => p matches ProcessorKind::Filter(f)
            && f.spec_expression() == cel_expression@,
        ProcessorConfig::Mapper { output_event } => p matches ProcessorKind::Mapper(m)
            && m.spec_template() == output_event@,
    }
}

/// Builds a stage from its configuration; succeeds exactly when the
/// configuration is accepted, and the stage then carries it.
pub fn build_processor(config: &ProcessorConfig) -> (r: Result<ProcessorKind, AppError>)
    ensures
        (r is Ok) == spec_config_accepted(*config),
        r matches Ok(p) ==> spec_stage_matches(p, *config),
        r matches Err(e) ==> e matches AppError::Config(_),
{
    match config {
        ProcessorConfig::Filter { cel_expression } => {
            match FilterProcessor::new(cel_expression.as_str()) {
                Ok(f) => Ok(ProcessorKind::Filter(f)),
                Err(e) => Err(e),
            }
        },
        ProcessorConfig::Mapper { output_event } => {
            match MapperProcessor::new(output_event.deep_copy()) {
                Ok(m) => Ok(ProcessorKind::Mapper(m)),
                Err(e) => Err(e),
            }
        },
    }
}

/// Feeds an event through the stages in order; exact against
/// `spec_chain_outcome`: the surviving event, a drop, or the first
/// stage's error.
pub fn run_processors(processors: &Vec<ProcessorKind>, event: PipelineEvent) -> (r: Result<
    Option<PipelineEvent>,
    AppError,
>)
    ensures
        match spec_chain_outcome(processors@, event@) {
            Some(passed) => match passed {
                Some(e2s) => r matches Ok(o) && o matches Some(e2) && e2@ == e2s,
                None => r matches Ok(o) && o is None,
            },
            None => r matches Err(e) && e matches AppError::Processing(_),
        },
{
    let ghost all = processors@;
    let mut current = event;
    let mut i: usize = 0;
    proof {
        assert(all.skip(0) =~= all);
    }
    while i < processors.len()
        invariant
            i <= processors@.len(),
            all == processors@,
            spec_chain_outcome(all, event@) == spec_chain_outcome(
                all.skip(i as int),
                current@,
            ),
        decreases processors@.len() - i,
    {
        let ghost rest = all.skip(i as int);
        proof {
            assert(rest[0] == all[i as int]);
            assert(rest.skip(1) =~= all.skip(i as int + 1));
        }
        match processors[i].process(current) {
            Ok(Some(next)) => {
                current = next;
            },
            Ok(None) => {
                return Ok(None);
            },
            Err(e) => {
                return Err(e);
            },
        }
        i = i + 1;
    }
    proof {
        assert(all.skip(i as int).len() == 0);
    }
    Ok(Some(current))
}

/// Builds a pipeline's stages from their configurations, in order;
/// succeeds exactly when every configuration is accepted, and stage `i`
/// then carries configuration `i`.
pub fn build_processors(configs: &Vec<ProcessorConfig>) -> (r: Result<
    Vec<ProcessorKind>,
    AppError,
>)
    ensures
        (r is Ok) == (forall|i: int|
            0 <= i < configs@.len() ==> spec_config_accepted(#[trigger] configs@[i])),
        r matches Ok(ps) ==> ps@.len() == configs@.len() && forall|i: int|
            0 <= i < configs@.len() ==> spec_stage_matches(ps@[i], #[trigger] configs@[i]),
        r matches Err(e) ==> e matches AppError::Config(_),
{
    let mut out: Vec<ProcessorKind> = Vec::new();
    let mut i: usize = 0;
    while i < configs.len()
        invariant
            i <= configs@.len(),
            out@.len() == i as int,
            forall|j: int| 0 <= j < i ==> spec_config_accepted(#[trigger] configs@[j]),
            forall|j: int| 0 <= j < i ==> spec_stage_matches(out@[j], #[trigger] configs@[j]),
        decreases configs@.len() - i,
    {
        match build_processor(&configs[i]) {
            Ok(p) => {
                out.push(p);
            },
            Err(e) => {
                return Err(e);
            },
        }
        i = i + 1;
    }
    Ok(out)
}

} // verus!
