use vstd::prelude::*;

use crate::auth::{spec_has_sig_prefix, spec_validate_ok, HmacValidator};
use crate::codec::{parse_json_bytes, spec_parse_json};
use crate::error::AppError;
use crate::event::{spec_event_id, spec_event_wf, PipelineEvent};
use crate::jira::{get_event_type, lookup_event, spec_event_table, spec_event_type};
use crate::paths::{get_primary_key_by_path, spec_extract, spec_split_path, spec_stringify};

verus! {

/// The webhook ingest decision: authenticate the raw delivery, parse it,
/// dispatch on the provider's event name, extract the primary key, and
/// build the canonical event. `Ok(Some(event))` is an accepted event to
/// submit, `Ok(None)` an unsupported event name to swallow (the provider
/// still gets a success), and an error maps to its HTTP status. The
/// contract decides every outcome: over the named parse of the bytes,
/// each step's success and failure is an if-and-only-if. Reading the
/// request and submitting to the channel are the application shell's
/// work.
pub fn prepare_event(
    validator: &HmacValidator,
    body: &[u8],
    signature_header: Option<&str>,
) -> (r: Result<Option<PipelineEvent>, AppError>)
    ensures
        signature_header is None ==> r == Result::<Option<PipelineEvent>, AppError>::Err(
            AppError::MissingSignature,
        ),
        signature_header matches Some(h) ==> (!spec_validate_ok(
            validator.spec_secret(),
            body@,
            h@,
        ) ==> (r matches Err(e) && e == if spec_has_sig_prefix(h@) {
            AppError::HmacValidation
        } else {
            AppError::InvalidSignatureFormat
        })),
        signature_header matches Some(h) ==> (spec_validate_ok(
            validator.spec_secret(),
            body@,
            h@,
        ) ==> match spec_parse_json(body@) {
            None => r matches Err(e) && e matches AppError::JsonParse(_),
            Some(b) => match spec_event_type(b) {
                None => r matches Err(e) && e == AppError::EventTypeNotFound,
                Some(t) => match spec_event_table(t) {
                    None => r matches Ok(o) && o is None,
                    Some(config) => match spec_extract(b, spec_split_path(config.1)) {
                        None => r matches Err(e) && (e matches AppError::PrimaryKeyPathNotFound(
                            p,
                        ) && p@ == config.1),
                        Some(v) => r matches Ok(o) && o matches Some(ev) && {
                            &&& ev@.body == b
                            &&& ev@.event_type == t
                            &&& ev@.operation == config.0
                            &&& ev@.pk_fields == seq![(config.1, spec_stringify(v))]
                            &&& ev@.id == spec_event_id(ev@.pk_fields)
                            &&& spec_event_wf(ev@)
                        },
                    },
                },
            },
        }),
{
    let signature = match signature_header {
        Some(h) => h,
        None => {
            return Err(AppError::MissingSignature);
        },
    };
    match validator.validate(body, signature) {
        Ok(()) => {},
        Err(e) => {
            return Err(e);
        },
    }
    let json_body = match parse_json_bytes(body) {
        Some(v) => v,
        None => {
            return Err(AppError::JsonParse("the request body is not valid JSON".to_owned()));
        },
    };
    let event_type = match get_event_type(&json_body) {
        Ok(t) => t,
        Err(e) => {
            return Err(e);
        },
    };
    let event_config = match lookup_event(event_type.as_str()) {
        Some(c) => c,
        None => {
            // an unsupported provider event is accepted and dropped, so
            // that the provider retries only on genuine failures
            return Ok(None);
        },
    };
    let pk_fields = match get_primary_key_by_path(event_config.pk_path.as_str(), &json_body) {
        Ok(fields) => fields,
        Err(e) => {
            return Err(e);
        },
    };
    let event = PipelineEvent::new(json_body, event_type, pk_fields, event_config.operation);
    Ok(Some(event))
}

} // verus!
