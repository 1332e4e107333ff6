use vstd::prelude::*;

use crate::codec::{parse_json_str, parse_number_text, spec_number_text, spec_parse_json_text};
use crate::error::AppError;
use crate::event::PipelineEvent;
use crate::json::{
    lemma_size_entries_elem, lemma_size_seq_elem, lemma_view_entries, lemma_view_seq,
    spec_obj_get, spec_size, spec_size_entries, spec_size_seq, str_eq, JsonValue, SpecJson,
};
use crate::numbers::{parse_i64, spec_int_digits, spec_parse_i64, i64_to_digits};
use crate::paths::{extract_value_by_path, spec_extract, spec_split_path};
use crate::serialize::{spec_json_text, to_json_text};
use crate::text::{
    chars_to_string, lemma_trim_end_at, lemma_trim_start_at, spec_trim, spec_trim_end,
    spec_trim_start, str_chars, sub_chars, trim_chars,
};
use vstd::string::StringExecFns;

verus! {

/// The mapper processor: rewrites an event's body by rendering a JSON
/// template against it. A string node that is a single mustache
/// expression returns the raw value at that dotted path (type
/// preserved); other strings go through the Handlebars engine, whose
/// output — a function of the template text and the context — carries a
/// name; an object with exactly a `value` and a `castTo` key is a cast;
/// other objects and arrays are rebuilt node by node; scalars are
/// copied. The whole render is the function `spec_render`, `None` being
/// a processing error, and the processor is exact against it.

#[verifier::external_type_specification]
#[verifier::external_body]
pub struct ExHandlebars<'a>(handlebars::Handlebars<'a>);

/// What the Handlebars engine renders for a template string against a
/// context given as JSON text: a function of the two texts alone; `None`
/// when the context text is not valid JSON or rendering fails.
pub uninterp spec fn spec_hb_render(tpl: Seq<char>, ctx_text: Seq<char>) -> Option<Seq<char>>;

/// Relies on `handlebars::Handlebars::new`: a registry with default
/// settings (no helpers or templates registered), the same every time.
#[verifier::external_body]
fn hb_new() -> handlebars::Handlebars<'static> {
    handlebars::Handlebars::new()
}

/// Occurrences of `{{`, counted left to right without overlap, as the
/// string's `matches` method counts them.
pub open spec fn spec_count_opens(s: Seq<char>) -> int
    decreases s.len(),
{
    if s.len() < 2 {
        0
    } else if s[0] == '{' && s[1] == '{' {
        1 + spec_count_opens(s.skip(2))
    } else {
        spec_count_opens(s.skip(1))
    }
}

/// The expression between the braces of a trimmed template string, itself
/// trimmed.
pub open spec fn spec_inner(t: Seq<char>) -> Seq<char> {
    spec_trim(t.subrange(2, t.len() - 2))
}

/// A trimmed string node that is one mustache expression and nothing
/// else: `{{`, one expression without a pipe filter, `}}`.
pub open spec fn spec_single_expr(t: Seq<char>) -> bool {
    &&& t.len() >= 4
    &&& t[0] == '{' && t[1] == '{'
    &&& t[t.len() - 1] == '}' && t[t.len() - 2] == '}'
    &&& spec_count_opens(t) == 1
    &&& !(exists|j: int| 0 <= j < spec_inner(t).len() && spec_inner(t)[j] == '|')
}

/// The cast sub-language. `string` keeps strings, renders numbers and
/// booleans as text, and turns null into the empty string; `number` keeps
/// numbers, parses strings (as an integer first, then as a JSON number),
/// and maps booleans to 1 and 0. Anything else is a processing error
/// (`None`).
pub open spec fn spec_cast(v: SpecJson, to: Seq<char>) -> Option<SpecJson> {
    if to == "string"@ {
        match v {
            SpecJson::Str(s) => Some(SpecJson::Str(s)),
            SpecJson::Num(n) => Some(SpecJson::Str(n)),
            SpecJson::Bool(b) => Some(
                SpecJson::Str(
                    if b {
                        seq!['t', 'r', 'u', 'e']
                    } else {
                        seq!['f', 'a', 'l', 's', 'e']
                    },
                ),
            ),
            SpecJson::Null => Some(SpecJson::Str(Seq::empty())),
            _ => None,
        }
    } else if to == "number"@ {
        match v {
            SpecJson::Num(n) => Some(SpecJson::Num(n)),
            SpecJson::Str(s) => match spec_parse_i64(s) {
                Some(i) => Some(SpecJson::Num(spec_int_digits(i))),
                None => match spec_number_text(s) {
                    Some(t) => Some(SpecJson::Num(t)),
                    None => None,
                },
            },
            SpecJson::Bool(b) => Some(
                SpecJson::Num(
                    if b {
                        seq!['1']
                    } else {
                        seq!['0']
                    },
                ),
            ),
            _ => None,
        }
    } else {
        None
    }
}

/// An object template in cast form: exactly the two keys `value` and
/// `castTo`.
pub open spec fn spec_is_cast_form(m: Seq<(Seq<char>, SpecJson)>) -> bool {
    m.len() == 2 && spec_obj_get(m, "value"@) is Some && spec_obj_get(m, "castTo"@) is Some
}

pub proof fn lemma_obj_get_size(m: Seq<(Seq<char>, SpecJson)>, key: Seq<char>)
    ensures
        spec_obj_get(m, key) matches Some(v) ==> spec_size(v) <= spec_size_entries(m),
    decreases m.len(),
{
    if m.len() > 0 && m[0].0 != key {
        lemma_obj_get_size(m.skip(1), key);
    }
}

/// What a rendered fallback text becomes: re-parsed when it looks like a
/// JSON object or array and parses, a plain string otherwise.
pub open spec fn spec_reparse(t: Seq<char>) -> SpecJson {
    if t.len() >= 1 && ((t[0] == '{' && t[t.len() - 1] == '}') || (t[0] == '[' && t[t.len() - 1]
        == ']')) {
        match spec_parse_json_text(t) {
            Some(v) => v,
            None => SpecJson::Str(t),
        }
    } else {
        SpecJson::Str(t)
    }
}

/// A string node that goes through the engine: rendered against the
/// context's canonical JSON text, then re-parsed if it looks like JSON.
/// `None` is a rendering failure.
pub open spec fn spec_render_fallback(s: Seq<char>, ctx: SpecJson) -> Option<SpecJson> {
    match spec_hb_render(s, spec_json_text(ctx)) {
        Some(t) => Some(spec_reparse(t)),
        None => None,
    }
}

/// What the mapper produces for a template node against a context;
/// `None` is a processing error. Raw-value expressions, casts, rebuilds
/// and scalar copies are concrete; the engine's output goes through its
/// name.
pub open spec fn spec_render(tpl: SpecJson, ctx: SpecJson) -> Option<SpecJson>
    decreases spec_size(tpl), 0int,
{
    match tpl {
        SpecJson::Null => Some(tpl),
        SpecJson::Bool(_) => Some(tpl),
        SpecJson::Num(_) => Some(tpl),
        SpecJson::Str(s) => {
            let t = spec_trim(s);
            if spec_single_expr(t) {
                let inner = spec_inner(t);
                if inner == "@this"@ {
                    Some(ctx)
                } else {
                    match spec_extract(ctx, spec_split_path(inner)) {
                        Some(v) => Some(v),
                        None => spec_render_fallback(s, ctx),
                    }
                }
            } else {
                spec_render_fallback(s, ctx)
            }
        },
        SpecJson::Arr(a) => match spec_render_items(a, ctx) {
            Some(b) => Some(SpecJson::Arr(b)),
            None => None,
        },
        SpecJson::Obj(m) => {
            if spec_is_cast_form(m) {
                match spec_obj_get(m, "castTo"@) {
                    Some(SpecJson::Str(c)) => {
                        proof {
                            lemma_obj_get_size(m, "value"@);
                        }
                        match spec_render(spec_obj_get(m, "value"@)->Some_0, ctx) {
                            Some(mid) => spec_cast(mid, c),
                            None => None,
                        }
                    },
                    _ => None,
                }
            } else {
                match spec_render_entries(m, ctx) {
                    Some(b) => Some(SpecJson::Obj(b)),
                    None => None,
                }
            }
        },
    }
}

pub open spec fn spec_render_items(a: Seq<SpecJson>, ctx: SpecJson) -> Option<Seq<SpecJson>>
    decreases spec_size_seq(a), 1int,
{
    if a.len() == 0 {
        Some(Seq::empty())
    } else {
        proof {
            assert(spec_size(a[0]) >= 1);
        }
        match (spec_render(a[0], ctx), spec_render_items(a.skip(1), ctx)) {
            (Some(h), Some(t)) => Some(seq![h] + t),
            _ => None,
        }
    }
}

pub open spec fn spec_render_entries(m: Seq<(Seq<char>, SpecJson)>, ctx: SpecJson) -> Option<
    Seq<(Seq<char>, SpecJson)>,
>
    decreases spec_size_entries(m), 1int,
{
    if m.len() == 0 {
        Some(Seq::empty())
    } else {
        proof {
            assert(spec_size(m[0].1) >= 1);
        }
        match (spec_render(m[0].1, ctx), spec_render_entries(m.skip(1), ctx)) {
            (Some(h), Some(t)) => Some(seq![(m[0].0, h)] + t),
            _ => None,
        }
    }
}

/// Where the item render succeeds it is the pointwise render; where it
/// fails some element's render fails.
proof fn lemma_render_items_char(a: Seq<SpecJson>, ctx: SpecJson)
    ensures
        match spec_render_items(a, ctx) {
            Some(b) => b.len() == a.len() && forall|j: int|
                0 <= j < a.len() ==> spec_render(#[trigger] a[j], ctx) == Some(b[j]),
            None => exists|j: int| 0 <= j < a.len() && spec_render(#[trigger] a[j], ctx) is None,
        },
    decreases a.len(),
{
    if a.len() > 0 {
        lemma_render_items_char(a.skip(1), ctx);
        match spec_render_items(a, ctx) {
            Some(b) => {
                assert forall|j: int| 0 <= j < a.len() implies spec_render(
                    #[trigger] a[j],
                    ctx,
                ) == Some(b[j]) by {
                    if j > 0 {
                        assert(a.skip(1)[j - 1] == a[j]);
                        assert(spec_render_items(a.skip(1), ctx)->Some_0[j - 1] == b[j]);
                    }
                }
            },
            None => {
                if spec_render(a[0], ctx) is None {
                } else {
                    let j = choose|j: int|
                        0 <= j < a.skip(1).len() && spec_render(
                            #[trigger] a.skip(1)[j],
                            ctx,
                        ) is None;
                    assert(a.skip(1)[j] == a[j + 1]);
                }
            },
        }
    }
}

proof fn lemma_render_items_pointwise(a: Seq<SpecJson>, ctx: SpecJson, b: Seq<SpecJson>)
    requires
        a.len() == b.len(),
        forall|j: int| 0 <= j < a.len() ==> spec_render(#[trigger] a[j], ctx) == Some(b[j]),
    ensures
        spec_render_items(a, ctx) == Some(b),
    decreases a.len(),
{
    if a.len() == 0 {
        assert(b =~= Seq::<SpecJson>::empty());
    } else {
        assert forall|j: int| 0 <= j < a.skip(1).len() implies spec_render(
            #[trigger] a.skip(1)[j],
            ctx,
        ) == Some(b.skip(1)[j]) by {
            assert(a.skip(1)[j] == a[j + 1]);
            assert(b.skip(1)[j] == b[j + 1]);
        }
        lemma_render_items_pointwise(a.skip(1), ctx, b.skip(1));
        assert(seq![b[0]] + b.skip(1) =~= b);
    }
}

proof fn lemma_render_entries_char(m: Seq<(Seq<char>, SpecJson)>, ctx: SpecJson)
    ensures
        match spec_render_entries(m, ctx) {
            Some(b) => b.len() == m.len() && forall|j: int|
                0 <= j < m.len() ==> (#[trigger] m[j]).0 == b[j].0 && spec_render(m[j].1, ctx)
                    == Some(b[j].1),
            None => exists|j: int|
                0 <= j < m.len() && spec_render((#[trigger] m[j]).1, ctx) is None,
        },
    decreases m.len(),
{
    if m.len() > 0 {
        lemma_render_entries_char(m.skip(1), ctx);
        match spec_render_entries(m, ctx) {
            Some(b) => {
                assert forall|j: int| 0 <= j < m.len() implies (#[trigger] m[j]).0 == b[j].0
                    && spec_render(m[j].1, ctx) == Some(b[j].1) by {
                    if j > 0 {
                        assert(m.skip(1)[j - 1] == m[j]);
                        assert(spec_render_entries(m.skip(1), ctx)->Some_0[j - 1] == b[j]);
                    }
                }
            },
            None => {
                if spec_render(m[0].1, ctx) is None {
                } else {
                    let j = choose|j: int|
                        0 <= j < m.skip(1).len() && spec_render(
                            (#[trigger] m.skip(1)[j]).1,
                            ctx,
                        ) is None;
                    assert(m.skip(1)[j] == m[j + 1]);
                }
            },
        }
    }
}

proof fn lemma_render_entries_pointwise(
    m: Seq<(Seq<char>, SpecJson)>,
    ctx: SpecJson,
    b: Seq<(Seq<char>, SpecJson)>,
)
    requires
        m.len() == b.len(),
        forall|j: int| 0 <= j < m.len() ==> (#[trigger] b[j]).0 == m[j].0 && spec_render(
            m[j].1,
            ctx,
        ) == Some(b[j].1),
    ensures
        spec_render_entries(m, ctx) == Some(b),
    decreases m.len(),
{
    if m.len() == 0 {
        assert(b =~= Seq::<(Seq<char>, SpecJson)>::empty());
    } else {
        assert forall|j: int| 0 <= j < m.skip(1).len() implies (#[trigger] b.skip(1)[j]).0
            == m.skip(1)[j].0 && spec_render(m.skip(1)[j].1, ctx) == Some(b.skip(1)[j].1) by {
            assert(m.skip(1)[j] == m[j + 1]);
            assert(b.skip(1)[j] == b[j + 1]);
        }
        lemma_render_entries_pointwise(m.skip(1), ctx, b.skip(1));
        assert(seq![(m[0].0, b[0].1)] + b.skip(1) =~= b);
    }
}

/// Counts `{{` occurrences, as `spec_count_opens` does.
fn count_opens(v: &Vec<char>) -> (r: usize)
    ensures
        r as int == spec_count_opens(v@),
{
    let mut count: usize = 0;
    let mut i: usize = 0;
    proof {
        assert(v@.skip(0) =~= v@);
    }
    while v.len() - i > 1
        invariant
            i <= v@.len(),
            count <= i,
            count as int + spec_count_opens(v@.skip(i as int)) == spec_count_opens(v@),
        decreases v@.len() - i,
    {
        let ghost rest = v@.skip(i as int);
        proof {
            assert(rest[0] == v@[i as int]);
            assert(rest[1] == v@[i as int + 1]);
        }
        if v[i] == '{' && v[i + 1] == '{' {
            count = count + 1;
            proof {
                assert(rest.skip(2) =~= v@.skip(i as int + 2));
            }
            i = i + 2;
        } else {
            proof {
                assert(rest.skip(1) =~= v@.skip(i as int + 1));
            }
            i = i + 1;
        }
    }
    proof {
        assert(v@.skip(i as int).len() < 2);
    }
    count
}

/// Whether any character is a `|` (a mustache filter marker).
fn contains_pipe(v: &Vec<char>) -> (r: bool)
    ensures
        r == exists|j: int| 0 <= j < v@.len() && v@[j] == '|',
{
    let mut i: usize = 0;
    while i < v.len()
        invariant
            i <= v@.len(),
            forall|j: int| 0 <= j < i ==> v@[j] != '|',
        decreases v@.len() - i,
    {
        if v[i] == '|' {
            return true;
        }
        i = i + 1;
    }
    false
}

/// Applies the cast sub-language; exact against `spec_cast`.
pub fn cast_value(v: &JsonValue, cast_to: &str) -> (r: Result<JsonValue, AppError>)
    ensures
        match spec_cast(v@, cast_to@) {
            Some(o) => r matches Ok(x) && x@ == o,
            None => r matches Err(e) && e matches AppError::Processing(_),
        },
{
    if str_eq(cast_to, "string") {
        match v {
            JsonValue::Str(s) => Ok(JsonValue::Str(s.clone())),
            JsonValue::Num(n) => Ok(JsonValue::Str(n.clone())),
            JsonValue::Bool(b) => {
                proof {
                    reveal_strlit("true");
                    reveal_strlit("false");
                    assert("true"@ =~= seq!['t', 'r', 'u', 'e']);
                    assert("false"@ =~= seq!['f', 'a', 'l', 's', 'e']);
                }
                if *b {
                    Ok(JsonValue::Str("true".to_owned()))
                } else {
                    Ok(JsonValue::Str("false".to_owned()))
                }
            },
            JsonValue::Null => Ok(JsonValue::Str(String::new())),
            _ => Err(AppError::Processing("cannot cast a complex value to a string".to_owned())),
        }
    } else if str_eq(cast_to, "number") {
        match v {
            JsonValue::Num(n) => Ok(JsonValue::Num(n.clone())),
            JsonValue::Str(s) => {
                let chars = str_chars(s.as_str());
                match parse_i64(&chars) {
                    Some(i) => {
                        let digits = i64_to_digits(i);
                        Ok(JsonValue::Num(chars_to_string(&digits)))
                    },
                    None => match parse_number_text(s.as_str()) {
                        Some(t) => Ok(JsonValue::Num(t)),
                        None => Err(
                            AppError::Processing("the string does not parse as a number".to_owned()),
                        ),
                    },
                }
            },
            JsonValue::Bool(b) => {
                proof {
                    reveal_strlit("1");
                    reveal_strlit("0");
                    assert("1"@ =~= seq!['1']);
                    assert("0"@ =~= seq!['0']);
                }
                if *b {
                    Ok(JsonValue::Num("1".to_owned()))
                } else {
                    Ok(JsonValue::Num("0".to_owned()))
                }
            },
            _ => Err(AppError::Processing("cannot cast this value to a number".to_owned())),
        }
    } else {
        Err(
            AppError::Processing(
                "unsupported cast type; supported types are string and number".to_owned(),
            ),
        )
    }
}

/// Transforms event bodies by rendering a JSON template against them.
/// The registry is always the default one `new` creates; the field is
/// private and set only there.
pub struct MapperProcessor {
    handlebars: handlebars::Handlebars<'static>,
    template: JsonValue,
}

impl MapperProcessor {
    /// The template this mapper renders.
    pub closed spec fn spec_template(&self) -> SpecJson {
        self.template@
    }

    pub fn new(template: JsonValue) -> (r: Result<Self, AppError>)
        ensures
            r matches Ok(m) && m.spec_template() == template@,
    {
        Ok(MapperProcessor { handlebars: hb_new(), template })
    }

    /// Relies on `Handlebars::render_template` over the default registry
    /// the constructor stored, against a context parsed from `ctx_text`:
    /// the rendered text is a function of the template text and the
    /// context text alone; a context that is not valid JSON or a
    /// rendering failure is an error.
    #[verifier::external_body]
    fn hb_render(&self, tpl: &str, ctx_text: &str) -> (r: Result<String, String>)
        ensures
            (r is Ok) == (spec_hb_render(tpl@, ctx_text@) is Some),
            r matches Ok(t) ==> Some(t@) == spec_hb_render(tpl@, ctx_text@),
    {
        let ctx: serde_json::Value = match serde_json::from_str(ctx_text) {
            Ok(v) => v,
            Err(e) => return Err(e.to_string()),
        };
        self.handlebars.render_template(tpl, &ctx).map_err(|e| e.to_string())
    }

    /// Renders a string node through the engine and applies the re-parse
    /// rule; exact against `spec_render_fallback`.
    fn render_fallback(&self, s: &str, ctx: &JsonValue) -> (r: Result<JsonValue, AppError>)
        ensures
            match spec_render_fallback(s@, ctx@) {
                Some(o) => r matches Ok(x) && x@ == o,
                None => r matches Err(e) && e matches AppError::Processing(_),
            },
    {
        let ctx_text = to_json_text(ctx);
        match self.hb_render(s, ctx_text.as_str()) {
            Ok(rendered) => {
                let chars = str_chars(rendered.as_str());
                let n = chars.len();
                let looks_like_json = n >= 1 && ((chars[0] == '{' && chars[n - 1] == '}') || (
                chars[0] == '[' && chars[n - 1] == ']'));
                if looks_like_json {
                    match parse_json_str(rendered.as_str()) {
                        Some(v) => Ok(v),
                        None => Ok(JsonValue::Str(rendered)),
                    }
                } else {
                    Ok(JsonValue::Str(rendered))
                }
            },
            Err(msg) => Err(
                AppError::Processing("template rendering failed: ".to_owned().concat(msg.as_str())),
            ),
        }
    }

    /// Renders one template node against the context; exact against
    /// `spec_render`.
    pub fn render_value(&self, tpl: &JsonValue, ctx: &JsonValue) -> (r: Result<
        JsonValue,
        AppError,
    >)
        ensures
            match spec_render(tpl@, ctx@) {
                Some(o) => r matches Ok(x) && x@ == o,
                None => r matches Err(e) && e matches AppError::Processing(_),
            },
        decreases spec_size(tpl@),
    {
        match tpl {
            JsonValue::Null => Ok(JsonValue::Null),
            JsonValue::Bool(b) => Ok(JsonValue::Bool(*b)),
            JsonValue::Num(n) => Ok(JsonValue::Num(n.clone())),
            JsonValue::Str(s) => {
                let chars = str_chars(s.as_str());
                let t = trim_chars(&chars);
                let n = t.len();
                let mut single = n >= 4;
                if single {
                    single = t[0] == '{' && t[1] == '{' && t[n - 1] == '}' && t[n - 2] == '}';
                }
                if single {
                    single = count_opens(&t) == 1;
                }
                if single {
                    let inner = trim_chars(&sub_chars(&t, 2, n - 2));
                    proof {
                        assert(t@.subrange(2, t@.len() - 2) == t@.subrange(2, n as int - 2));
                    }
                    if !contains_pipe(&inner) {
                        let inner_str = chars_to_string(&inner);
                        if str_eq(inner_str.as_str(), "@this") {
                            proof {
                                reveal_strlit("@this");
                            }
                            return Ok(ctx.deep_copy());
                        }
                        match extract_value_by_path(ctx, inner_str.as_str()) {
                            Ok(v) => {
                                return Ok(v.deep_copy());
                            },
                            Err(_) => {
                                return self.render_fallback(s.as_str(), ctx);
                            },
                        }
                    }
                }
                self.render_fallback(s.as_str(), ctx)
            },
            JsonValue::Arr(a) => {
                let ghost va = JsonValue::view_seq(a@);
                proof {
                    lemma_view_seq(a@);
                }
                let mut out: Vec<JsonValue> = Vec::new();
                let mut i: usize = 0;
                while i < a.len()
                    invariant
                        i <= a@.len(),
                        va == JsonValue::view_seq(a@),
                        tpl@ == SpecJson::Arr(va),
                        va.len() == a@.len(),
                        forall|j: int| 0 <= j < a@.len() ==> va[j] == a@[j]@,
                        out@.len() == i as int,
                        forall|j: int| 0 <= j < i ==> spec_render(va[j], ctx@) == Some(
                            #[trigger] out@[j]@,
                        ),
                    decreases a@.len() - i,
                {
                    proof {
                        lemma_size_seq_elem(va, i as int);
                    }
                    match self.render_value(&a[i], ctx) {
                        Ok(v) => {
                            out.push(v);
                        },
                        Err(e) => {
                            proof {
                                lemma_render_items_char(va, ctx@);
                            }
                            return Err(e);
                        },
                    }
                    i = i + 1;
                }
                let r = JsonValue::Arr(out);
                proof {
                    lemma_view_seq(r->Arr_0@);
                    lemma_render_items_pointwise(va, ctx@, JsonValue::view_seq(r->Arr_0@));
                    assert(r@ =~= SpecJson::Arr(JsonValue::view_seq(r->Arr_0@)));
                }
                Ok(r)
            },
            JsonValue::Obj(m) => {
                let ghost vm = JsonValue::view_entries(m@);
                proof {
                    lemma_view_entries(m@);
                }
                let value_node = tpl.obj_get("value");
                let cast_node = tpl.obj_get("castTo");
                if m.len() == 2 && value_node.is_some() && cast_node.is_some() {
                    let valnode = value_node.unwrap();
                    let castnode = cast_node.unwrap();
                    match castnode {
                        JsonValue::Str(c) => {
                            proof {
                                lemma_obj_get_size(vm, "value"@);
                            }
                            let mid = match self.render_value(valnode, ctx) {
                                Ok(v) => v,
                                Err(e) => {
                                    return Err(e);
                                },
                            };
                            cast_value(&mid, c.as_str())
                        },
                        _ => Err(AppError::Processing("castTo must be a string".to_owned())),
                    }
                } else {
                    let mut out: Vec<(String, JsonValue)> = Vec::new();
                    let mut i: usize = 0;
                    while i < m.len()
                        invariant
                            i <= m@.len(),
                            vm == JsonValue::view_entries(m@),
                            tpl@ == SpecJson::Obj(vm),
                            !spec_is_cast_form(vm),
                            vm.len() == m@.len(),
                            forall|j: int| 0 <= j < m@.len() ==> vm[j] == (m@[j].0@, m@[j].1@),
                            out@.len() == i as int,
                            forall|j: int| 0 <= j < i ==> (#[trigger] out@[j]).0@ == m@[j].0@
                                && spec_render(vm[j].1, ctx@) == Some(out@[j].1@),
                        decreases m@.len() - i,
                    {
                        proof {
                            lemma_size_entries_elem(vm, i as int);
                        }
                        let entry = &m[i];
                        match self.render_value(&entry.1, ctx) {
                            Ok(v) => {
                                out.push((entry.0.clone(), v));
                            },
                            Err(e) => {
                                proof {
                                    lemma_render_entries_char(vm, ctx@);
                                    assert(vm[i as int] == vm[i as int]);
                                }
                                return Err(e);
                            },
                        }
                        i = i + 1;
                    }
                    let r = JsonValue::Obj(out);
                    proof {
                        lemma_view_entries(r->Obj_0@);
                        lemma_render_entries_pointwise(vm, ctx@, JsonValue::view_entries(r->Obj_0@));
                        assert(r@ =~= SpecJson::Obj(JsonValue::view_entries(r->Obj_0@)));
                    }
                    Ok(r)
                }
            },
        }
    }

    /// Renders the template against the event's body and replaces the
    /// body with the result; everything else on the event is untouched.
    /// Exact against `spec_render` of the template over the body.
    pub fn process(&self, event: PipelineEvent) -> (r: Result<Option<PipelineEvent>, AppError>)
        ensures
            match spec_render(self.spec_template(), event@.body) {
                Some(b) => r matches Ok(o) && o matches Some(e2) && {
                    &&& e2@.id == event@.id
                    &&& e2@.event_type == event@.event_type
                    &&& e2@.pk_fields == event@.pk_fields
                    &&& e2@.operation == event@.operation
                    &&& e2@.body == b
                },
                None => r matches Err(e) && e matches AppError::Processing(_),
            },
    {
        match self.render_value(&self.template, &event.body) {
            Ok(new_body) => {
                let mut updated = event;
                updated.body = new_body;
                Ok(Some(updated))
            },
            Err(e) => Err(e),
        }
    }
}

proof fn lemma_count_opens_none(s: Seq<char>)
    requires
        forall|j: int| 0 <= j < s.len() ==> s[j] != '{',
    ensures
        spec_count_opens(s) == 0,
    decreases s.len(),
{
    if s.len() >= 2 {
        assert forall|j: int| 0 <= j < s.skip(1).len() implies s.skip(1)[j] != '{' by {
            assert(s.skip(1)[j] == s[j + 1]);
        }
        lemma_count_opens_none(s.skip(1));
    }
}

/// A single-expression string node whose path resolves keeps the resolved
/// value's JSON type: the mapper's output for such a node is the resolved
/// value itself, whatever its type.
pub proof fn lemma_mapper_type_preservation(s: Seq<char>, ctx: SpecJson)
    requires
        spec_single_expr(spec_trim(s)),
        spec_inner(spec_trim(s)) != "@this"@,
        spec_extract(ctx, spec_split_path(spec_inner(spec_trim(s)))) is Some,
    ensures
        spec_render(SpecJson::Str(s), ctx) == spec_extract(
            ctx,
            spec_split_path(spec_inner(spec_trim(s))),
        ),
{
}

/// Mapping the identity template gives back the context unchanged.
pub proof fn lemma_identity_template(s: Seq<char>, ctx: SpecJson)
    requires
        s == "{{ @this }}"@,
    ensures
        spec_render(SpecJson::Str(s), ctx) == Some(ctx),
{
    reveal_strlit("{{ @this }}");
    reveal_strlit("@this");
    assert(s.len() == 11);
    assert(s[0] == '{' && s[1] == '{' && s[2] == ' ' && s[3] == '@' && s[4] == 't' && s[5] == 'h'
        && s[6] == 'i' && s[7] == 's' && s[8] == ' ' && s[9] == '}' && s[10] == '}');
    assert(spec_trim_start(s) == s);
    assert(spec_trim_end(s) == s);
    let t = spec_trim(s);
    assert(t == s);
    let after = s.skip(2);
    assert forall|j: int| 0 <= j < after.len() implies after[j] != '{' by {
        assert(after[j] == s[j + 2]);
    }
    lemma_count_opens_none(after);
    assert(spec_count_opens(s) == 1);
    let sub = s.subrange(2, 9);
    assert(sub.len() == 7);
    assert(sub[0] == ' ' && sub[1] == '@' && sub[2] == 't' && sub[3] == 'h' && sub[4] == 'i'
        && sub[5] == 's' && sub[6] == ' ');
    lemma_trim_start_at(sub, 1);
    let u = sub.skip(1);
    assert(u.len() == 6);
    assert(u[0] == '@' && u[1] == 't' && u[2] == 'h' && u[3] == 'i' && u[4] == 's'
        && u[5] == ' ');
    lemma_trim_end_at(u, 5);
    assert(u.take(5) =~= "@this"@);
    assert(spec_inner(t) == "@this"@);
    assert(forall|j: int| 0 <= j < spec_inner(t).len() ==> spec_inner(t)[j] != '|');
    assert(spec_single_expr(t));
}

} // verus!
