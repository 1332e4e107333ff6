use vstd::prelude::*;

use crate::error::AppError;
use crate::event::PipelineEvent;
use crate::serialize::{spec_json_text, to_json_text};
use cel_parser::ast::{EntryExpr, Expr};
use vstd::string::StringExecFns;

verus! {

/// The filter processor: evaluates a CEL (Common Expression Language)
/// predicate over the event. The expression sees `eventType`, `body`, and
/// every top-level key of the body when the body is an object. A `true`
/// verdict passes the event through unchanged, `false` drops it, anything
/// else is a processing error. The verdict is a function of the
/// expression text and the bindings, so it carries a name
/// (`spec_cel_verdict`) that the contract is exact against.

#[verifier::external_type_specification]
#[verifier::external_body]
pub struct ExCelProgram(cel_interpreter::Program);

#[verifier::external_type_specification]
#[verifier::external_body]
pub struct ExCelIdedExpr(cel_interpreter::IdedExpr);

/// The three things a CEL evaluation can come back with; the non-boolean
/// and failure cases keep their message text.
#[derive(Debug)]
pub enum CelOutcome {
    Bool(bool),
    NonBool(String),
    Failure(String),
}

/// A CEL verdict, abstracted from its message texts.
#[derive(PartialEq, Eq, Structural)]
pub enum SpecCelVerdict {
    True,
    False,
    NonBool,
    Error,
}

/// Whether the library accepts an expression: it parses, uses only the
/// constructs the evaluator supports, and compiles. A function of the
/// text alone.
pub uninterp spec fn spec_cel_accepts(expr: Seq<char>) -> bool;

/// The verdict of an accepted expression over the bindings: the event's
/// type string and its body (as the body's canonical JSON text). A
/// function of the three texts alone.
pub uninterp spec fn spec_cel_verdict(
    expr: Seq<char>,
    event_type: Seq<char>,
    body_text: Seq<char>,
) -> SpecCelVerdict;

/// Relies on the shape of cel-parser's expression tree: true exactly when
/// the tree holds no comprehension, struct-construction, struct-field
/// entry or unspecified node — the node kinds whose evaluation
/// cel-interpreter 0.10 aborts on instead of returning an error. Part of
/// `cel_compile`'s screen; the walk over the opaque tree cannot stand in
/// the wrapper itself.
#[verifier::external_body]
fn ast_supported(e: &cel_interpreter::IdedExpr) -> bool {
    match &e.expr {
        Expr::Unspecified | Expr::Comprehension(_) | Expr::Struct(_) => false,
        Expr::Ident(_) | Expr::Literal(_) => true,
        Expr::Select(s) => ast_supported(&s.operand),
        Expr::List(l) => l.elements.iter().all(ast_supported),
        Expr::Call(c) => c.args.iter().all(ast_supported)
            && c.target.as_deref().map_or(true, ast_supported),
        Expr::Map(m) => m.entries.iter().all(|en| match &en.expr {
            EntryExpr::MapEntry(me) => ast_supported(&me.key) && ast_supported(&me.value),
            EntryExpr::StructField(_) => false,
        }),
    }
}

/// Relies on `cel_parser::Parser::parse` and
/// `cel_interpreter::Program::compile`: a compiled program exactly when
/// the expression parses, passes the `ast_supported` screen, and
/// compiles; the error keeps the reason's text. Acceptance is a function
/// of the source text alone.
#[verifier::external_body]
fn cel_compile(source: &str) -> (r: Result<cel_interpreter::Program, String>)
    ensures
        (r is Ok) == spec_cel_accepts(source@),
{
    let ast = match cel_parser::Parser::default().parse(source) {
        Ok(a) => a,
        Err(e) => return Err(e.to_string()),
    };
    if !ast_supported(&ast) {
        return Err("the expression uses a construct the evaluator does not support".to_string());
    }
    cel_interpreter::Program::compile(source).map_err(|e| e.to_string())
}

/// What each CEL verdict does with the event: `true` passes it through
/// unchanged, `false` drops it, anything else is a processing error.
pub fn filter_decision(event: PipelineEvent, outcome: CelOutcome) -> (r: Result<
    Option<PipelineEvent>,
    AppError,
>)
    ensures
        match outcome {
            CelOutcome::Bool(verdict) => if verdict {
                r matches Ok(o) && o matches Some(e2) && e2@ == event@
            } else {
                r matches Ok(o) && o is None
            },
            _ => r matches Err(e) && e matches AppError::Processing(_),
        },
{
    match outcome {
        CelOutcome::Bool(verdict) => {
            if verdict {
                Ok(Some(event))
            } else {
                Ok(None)
            }
        },
        CelOutcome::NonBool(text) => Err(
            AppError::Processing(
                "the CEL expression did not evaluate to a boolean: ".to_owned().concat(
                    text.as_str(),
                ),
            ),
        ),
        CelOutcome::Failure(text) => Err(
            AppError::Processing("failed to evaluate the CEL expression: ".to_owned().concat(
                text.as_str(),
            )),
        ),
    }
}

/// Filters events by a CEL predicate compiled once at construction. The
/// program is always the compilation of the stored expression text; both
/// fields are private and set only by `new`.
pub struct FilterProcessor {
    program: cel_interpreter::Program,
    expression: String,
}

impl FilterProcessor {
    /// The predicate's source text.
    pub closed spec fn spec_expression(&self) -> Seq<char> {
        self.expression@
    }

    /// Compiles the expression; one the library does not accept is a
    /// configuration error.
    pub fn new(cel_expression: &str) -> (r: Result<Self, AppError>)
        ensures
            (r is Ok) == spec_cel_accepts(cel_expression@),
            r matches Ok(f) ==> f.spec_expression() == cel_expression@,
            r matches Err(e) ==> e matches AppError::Config(_),
    {
        match cel_compile(cel_expression) {
            Ok(program) => Ok(
                FilterProcessor { program, expression: cel_expression.to_owned() },
            ),
            Err(msg) => Err(
                AppError::Config("failed to compile CEL expression: ".to_owned().concat(
                    msg.as_str(),
                )),
            ),
        }
    }

    /// Relies on `cel_interpreter::Program::execute` over the stored
    /// program, which is the compilation of the stored expression: the
    /// context binds `eventType`, every top-level key of the body when it
    /// is an object, and `body` itself; the verdict is then a function of
    /// the expression and these texts. A context text that is not valid
    /// JSON is an evaluation failure. (`add_variable` cannot fail on
    /// strings or JSON values; the screen in `cel_compile` keeps
    /// `execute` from the node kinds it would abort on.)
    #[verifier::external_body]
    fn evaluate(&self, event_type: &str, body_text: &str) -> (r: CelOutcome)
        ensures
            match r {
                CelOutcome::Bool(b) => spec_cel_verdict(
                    self.spec_expression(),
                    event_type@,
                    body_text@,
                ) == if b {
                    SpecCelVerdict::True
                } else {
                    SpecCelVerdict::False
                },
                CelOutcome::NonBool(_) => spec_cel_verdict(
                    self.spec_expression(),
                    event_type@,
                    body_text@,
                ) == SpecCelVerdict::NonBool,
                CelOutcome::Failure(_) => spec_cel_verdict(
                    self.spec_expression(),
                    event_type@,
                    body_text@,
                ) == SpecCelVerdict::Error,
            },
    {
        let json: serde_json::Value = match serde_json::from_str(body_text) {
            Ok(v) => v,
            Err(e) => return CelOutcome::Failure(e.to_string()),
        };
        let mut ctx = cel_interpreter::Context::default();
        ctx.add_variable("eventType", event_type).ok();
        if let serde_json::Value::Object(m) = &json {
            for (k, v) in m { ctx.add_variable(k.as_str(), v.clone()).ok(); }
        }
        ctx.add_variable("body", json).ok();
        match self.program.execute(&ctx) {
            Ok(cel_interpreter::Value::Bool(b)) => CelOutcome::Bool(b),
            Ok(other) => CelOutcome::NonBool(format!("{:?}", other)),
            Err(e) => CelOutcome::Failure(e.to_string()),
        }
    }

    /// Evaluates the predicate over the event: passes it through
    /// unchanged, drops it, or fails, exactly as the named verdict of the
    /// expression over the event's type and body says.
    pub fn process(&self, event: PipelineEvent) -> (r: Result<Option<PipelineEvent>, AppError>)
        ensures
            match spec_cel_verdict(
                self.spec_expression(),
                event@.event_type,
                spec_json_text(event@.body),
            ) {
                SpecCelVerdict::True => r matches Ok(o) && o matches Some(e2) && e2@ == event@,
                SpecCelVerdict::False => r matches Ok(o) && o is None,
                _ => r matches Err(e) && e matches AppError::Processing(_),
            },
    {
        let body_text = to_json_text(&event.body);
        let outcome = self.evaluate(event.event_type.as_str(), body_text.as_str());
        filter_decision(event, outcome)
    }
}

} // verus!
