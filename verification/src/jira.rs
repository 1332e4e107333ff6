use vstd::prelude::*;

use crate::event::Operation;
use crate::json::{spec_obj_get, str_eq, JsonValue, SpecJson};
use crate::error::AppError;
use crate::secret::SecretSource;

verus! {

/// The Jira source adapter: its configuration, and the static table from
/// provider event names to an operation and a primary-key path.

#[derive(Debug)]
pub struct JiraSourceConfig {
    pub webhook_path: Option<String>,
    pub authentication: JiraAuthentication,
}

#[derive(Debug)]
pub struct JiraAuthentication {
    pub secret: SecretSource,
    pub header_name: String,
}

impl JiraSourceConfig {
    /// The configured webhook path, or the default.
    pub fn get_webhook_path(&self) -> (r: String)
        ensures
            match self.webhook_path {
                Some(p) => r@ == p@,
                None => r@ == "/jira/webhook"@,
            },
    {
        match &self.webhook_path {
            Some(p) => p.clone(),
            None => default_webhook_path(),
        }
    }
}

/// The webhook path used when none is configured.
pub fn default_webhook_path() -> (r: String)
    ensures
        r@ == "/jira/webhook"@,
{
    "/jira/webhook".to_owned()
}

/// The signature header used when none is configured.
pub fn default_header_name() -> (r: String)
    ensures
        r@ == "X-Hub-Signature"@,
{
    "X-Hub-Signature".to_owned()
}

/// Operation and primary-key path for one supported provider event. (The
/// path feeds `get_primary_key_by_path`; a closure would hide the same
/// string.)
#[derive(Debug)]
pub struct EventConfig {
    pub operation: Operation,
    pub pk_path: String,
}

/// The static event table: which provider events are supported, whether
/// each writes or deletes, and where its primary key lives.
pub open spec fn spec_event_table(name: Seq<char>) -> Option<(Operation, Seq<char>)> {
    if name == "jira:issue_created"@ {
        Some((Operation::Write, "issue.id"@))
    } else if name == "jira:issue_updated"@ {
        Some((Operation::Write, "issue.id"@))
    } else if name == "jira:issue_deleted"@ {
        Some((Operation::Delete, "issue.id"@))
    } else if name == "issuelink_created"@ {
        Some((Operation::Write, "issueLink.id"@))
    } else if name == "issuelink_deleted"@ {
        Some((Operation::Delete, "issueLink.id"@))
    } else if name == "project_created"@ {
        Some((Operation::Write, "project.id"@))
    } else if name == "project_updated"@ {
        Some((Operation::Write, "project.id"@))
    } else if name == "project_deleted"@ {
        Some((Operation::Delete, "project.id"@))
    } else if name == "project_soft_deleted"@ {
        Some((Operation::Delete, "project.id"@))
    } else if name == "project_restored_deleted"@ {
        Some((Operation::Write, "project.id"@))
    } else if name == "jira:version_released"@ {
        Some((Operation::Write, "version.id"@))
    } else if name == "jira:version_unreleased"@ {
        Some((Operation::Write, "version.id"@))
    } else if name == "jira:version_created"@ {
        Some((Operation::Write, "version.id"@))
    } else if name == "jira:version_updated"@ {
        Some((Operation::Write, "version.id"@))
    } else if name == "jira:version_deleted"@ {
        Some((Operation::Delete, "version.id"@))
    } else {
        None
    }
}

/// Looks `event_type` up in the event table.
pub fn lookup_event(event_type: &str) -> (r: Option<EventConfig>)
    ensures
        match r {
            Some(c) => spec_event_table(event_type@) == Some((c.operation, c.pk_path@)),
            None => spec_event_table(event_type@) is None,
        },
{
    if str_eq(event_type, "jira:issue_created") {
        Some(EventConfig { operation: Operation::Write, pk_path: "issue.id".to_owned() })
    } else if str_eq(event_type, "jira:issue_updated") {
        Some(EventConfig { operation: Operation::Write, pk_path: "issue.id".to_owned() })
    } else if str_eq(event_type, "jira:issue_deleted") {
        Some(EventConfig { operation: Operation::Delete, pk_path: "issue.id".to_owned() })
    } else if str_eq(event_type, "issuelink_created") {
        Some(EventConfig { operation: Operation::Write, pk_path: "issueLink.id".to_owned() })
    } else if str_eq(event_type, "issuelink_deleted") {
        Some(EventConfig { operation: Operation::Delete, pk_path: "issueLink.id".to_owned() })
    } else if str_eq(event_type, "project_created") {
        Some(EventConfig { operation: Operation::Write, pk_path: "project.id".to_owned() })
    } else if str_eq(event_type, "project_updated") {
        Some(EventConfig { operation: Operation::Write, pk_path: "project.id".to_owned() })
    } else if str_eq(event_type, "project_deleted") {
        Some(EventConfig { operation: Operation::Delete, pk_path: "project.id".to_owned() })
    } else if str_eq(event_type, "project_soft_deleted") {
        Some(EventConfig { operation: Operation::Delete, pk_path: "project.id".to_owned() })
    } else if str_eq(event_type, "project_restored_deleted") {
        Some(EventConfig { operation: Operation::Write, pk_path: "project.id".to_owned() })
    } else if str_eq(event_type, "jira:version_released") {
        Some(EventConfig { operation: Operation::Write, pk_path: "version.id".to_owned() })
    } else if str_eq(event_type, "jira:version_unreleased") {
        Some(EventConfig { operation: Operation::Write, pk_path: "version.id".to_owned() })
    } else if str_eq(event_type, "jira:version_created") {
        Some(EventConfig { operation: Operation::Write, pk_path: "version.id".to_owned() })
    } else if str_eq(event_type, "jira:version_updated") {
        Some(EventConfig { operation: Operation::Write, pk_path: "version.id".to_owned() })
    } else if str_eq(event_type, "jira:version_deleted") {
        Some(EventConfig { operation: Operation::Delete, pk_path: "version.id".to_owned() })
    } else {
        None
    }
}

/// Every supported event name with its configuration, in table order.
#[verifier::rlimit(60)]
pub fn get_supported_events() -> (r: Vec<(String, EventConfig)>)
    ensures
        r@.len() == 15,
        forall|i: int| 0 <= i < r@.len() ==> spec_event_table(#[trigger] r@[i].0@)
            == Some((r@[i].1.operation, r@[i].1.pk_path@)),
        r@[0].0@ == "jira:issue_created"@,
        r@[1].0@ == "jira:issue_updated"@,
        r@[2].0@ == "jira:issue_deleted"@,
        r@[3].0@ == "issuelink_created"@,
        r@[4].0@ == "issuelink_deleted"@,
        r@[5].0@ == "project_created"@,
        r@[6].0@ == "project_updated"@,
        r@[7].0@ == "project_deleted"@,
        r@[8].0@ == "project_soft_deleted"@,
        r@[9].0@ == "project_restored_deleted"@,
        r@[10].0@ == "jira:version_released"@,
        r@[11].0@ == "jira:version_unreleased"@,
        r@[12].0@ == "jira:version_created"@,
        r@[13].0@ == "jira:version_updated"@,
        r@[14].0@ == "jira:version_deleted"@,
{
    let mut out: Vec<(String, EventConfig)> = Vec::new();
    out.push(("jira:issue_created".to_owned(),
        EventConfig { operation: Operation::Write, pk_path: "issue.id".to_owned() }));
    out.push(("jira:issue_updated".to_owned(),
        EventConfig { operation: Operation::Write, pk_path: "issue.id".to_owned() }));
    out.push(("jira:issue_deleted".to_owned(),
        EventConfig { operation: Operation::Delete, pk_path: "issue.id".to_owned() }));
    out.push(("issuelink_created".to_owned(),
        EventConfig { operation: Operation::Write, pk_path: "issueLink.id".to_owned() }));
    out.push(("issuelink_deleted".to_owned(),
        EventConfig { operation: Operation::Delete, pk_path: "issueLink.id".to_owned() }));
    out.push(("project_created".to_owned(),
        EventConfig { operation: Operation::Write, pk_path: "project.id".to_owned() }));
    out.push(("project_updated".to_owned(),
        EventConfig { operation: Operation::Write, pk_path: "project.id".to_owned() }));
    out.push(("project_deleted".to_owned(),
        EventConfig { operation: Operation::Delete, pk_path: "project.id".to_owned() }));
    out.push(("project_soft_deleted".to_owned(),
        EventConfig { operation: Operation::Delete, pk_path: "project.id".to_owned() }));
    out.push(("project_restored_deleted".to_owned(),
        EventConfig { operation: Operation::Write, pk_path: "project.id".to_owned() }));
    out.push(("jira:version_released".to_owned(),
        EventConfig { operation: Operation::Write, pk_path: "version.id".to_owned() }));
    out.push(("jira:version_unreleased".to_owned(),
        EventConfig { operation: Operation::Write, pk_path: "version.id".to_owned() }));
    out.push(("jira:version_created".to_owned(),
        EventConfig { operation: Operation::Write, pk_path: "version.id".to_owned() }));
    out.push(("jira:version_updated".to_owned(),
        EventConfig { operation: Operation::Write, pk_path: "version.id".to_owned() }));
    out.push(("jira:version_deleted".to_owned(),
        EventConfig { operation: Operation::Delete, pk_path: "version.id".to_owned() }));
    proof {
        reveal_strlit("jira:issue_created");
        reveal_strlit("jira:issue_updated");
        reveal_strlit("jira:issue_deleted");
        reveal_strlit("issuelink_created");
        reveal_strlit("issuelink_deleted");
        reveal_strlit("project_created");
        reveal_strlit("project_updated");
        reveal_strlit("project_deleted");
        reveal_strlit("project_soft_deleted");
        reveal_strlit("project_restored_deleted");
        reveal_strlit("jira:version_released");
        reveal_strlit("jira:version_unreleased");
        reveal_strlit("jira:version_created");
        reveal_strlit("jira:version_updated");
        reveal_strlit("jira:version_deleted");
        assert("jira:issue_created"@.len() == 18);
        assert("jira:issue_updated"@.len() == 18);
        assert("jira:issue_deleted"@.len() == 18);
        assert("issuelink_created"@.len() == 17);
        assert("issuelink_deleted"@.len() == 17);
        assert("project_created"@.len() == 15);
        assert("project_updated"@.len() == 15);
        assert("project_deleted"@.len() == 15);
        assert("project_soft_deleted"@.len() == 20);
        assert("project_restored_deleted"@.len() == 24);
        assert("jira:version_released"@.len() == 21);
        assert("jira:version_unreleased"@.len() == 23);
        assert("jira:version_created"@.len() == 20);
        assert("jira:version_updated"@.len() == 20);
        assert("jira:version_deleted"@.len() == 20);
        assert("jira:issue_created"@[11] == 'c');
        assert("jira:issue_updated"@[11] == 'u');
        assert("jira:issue_deleted"@[11] == 'd');
        assert("issuelink_created"@[10] == 'c');
        assert("issuelink_deleted"@[10] == 'd');
        assert("project_created"@[8] == 'c');
        assert("project_updated"@[8] == 'u');
        assert("project_deleted"@[8] == 'd');
        assert("project_soft_deleted"@[0] == 'p');
        assert("jira:version_created"@[0] == 'j');
        assert("jira:version_updated"@[0] == 'j');
        assert("jira:version_deleted"@[0] == 'j');
        assert("jira:version_created"@[13] == 'c');
        assert("jira:version_updated"@[13] == 'u');
        assert("jira:version_deleted"@[13] == 'd');
        assert forall|i: int| 0 <= i < out@.len() implies spec_event_table(
            #[trigger] out@[i].0@,
        ) == Some((out@[i].1.operation, out@[i].1.pk_path@)) by {
            assert(spec_event_table(out@[0].0@) == Some((Operation::Write, "issue.id"@)));
            assert(spec_event_table(out@[1].0@) == Some((Operation::Write, "issue.id"@)));
            assert(spec_event_table(out@[2].0@) == Some((Operation::Delete, "issue.id"@)));
            assert(spec_event_table(out@[3].0@) == Some((Operation::Write, "issueLink.id"@)));
            assert(spec_event_table(out@[4].0@) == Some((Operation::Delete, "issueLink.id"@)));
            assert(spec_event_table(out@[5].0@) == Some((Operation::Write, "project.id"@)));
            assert(spec_event_table(out@[6].0@) == Some((Operation::Write, "project.id"@)));
            assert(spec_event_table(out@[7].0@) == Some((Operation::Delete, "project.id"@)));
            assert(spec_event_table(out@[8].0@) == Some((Operation::Delete, "project.id"@)));
            assert(spec_event_table(out@[9].0@) == Some((Operation::Write, "project.id"@)));
            assert(spec_event_table(out@[10].0@) == Some((Operation::Write, "version.id"@)));
            assert(spec_event_table(out@[11].0@) == Some((Operation::Write, "version.id"@)));
            assert(spec_event_table(out@[12].0@) == Some((Operation::Write, "version.id"@)));
            assert(spec_event_table(out@[13].0@) == Some((Operation::Write, "version.id"@)));
            assert(spec_event_table(out@[14].0@) == Some((Operation::Delete, "version.id"@)));
        }
    }
    out
}

/// Reads the provider's event name from the payload: the string under the
/// top-level `webhookEvent` key.
pub open spec fn spec_event_type(body: SpecJson) -> Option<Seq<char>> {
    match body {
        SpecJson::Obj(m) => match spec_obj_get(m, "webhookEvent"@) {
            Some(SpecJson::Str(s)) => Some(s),
            _ => None,
        },
        _ => None,
    }
}

pub fn get_event_type(body: &JsonValue) -> (r: Result<String, AppError>)
    ensures
        match r {
            Ok(s) => spec_event_type(body@) == Some(s@),
            Err(e) => spec_event_type(body@) is None && e == AppError::EventTypeNotFound,
        },
{
    match body.obj_get("webhookEvent") {
        Some(v) => match v {
            JsonValue::Str(s) => Ok(s.clone()),
            _ => Err(AppError::EventTypeNotFound),
        },
        None => Err(AppError::EventTypeNotFound),
    }
}

} // verus!
