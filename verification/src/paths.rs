use vstd::prelude::*;

use crate::error::AppError;
use crate::event::{spec_pk_views, PkField, PkFields};
use crate::json::{spec_obj_get, JsonValue, SpecJson};
use crate::json::lemma_view_seq;
use crate::numbers::{parse_usize, spec_parse_usize};
use crate::serialize::{spec_json_text, to_json_text};
use crate::text::{
    lemma_first_index_at, lemma_first_index_none, spec_first_index, str_chars, views_of,
};

verus! {

/// Dotted-path lookup in a JSON document: the path splits on `.`, and the
/// descent goes through objects by key and through arrays by decimal index.

/// The segments of a dotted path, exactly as `split('.')` yields them:
/// empty segments are kept, and the empty path has one empty segment.
pub open spec fn spec_split_path(s: Seq<char>) -> Seq<Seq<char>>
    decreases s.len(),
{
    let i = spec_first_index(s, '.');
    if 0 <= i < s.len() {
        seq![s.take(i)] + spec_split_path(s.skip(i + 1))
    } else {
        seq![s]
    }
}

/// Splits a path on `.`, as the string's `split` method would.
pub fn split_path(path: &str) -> (r: Vec<String>)
    ensures
        views_of(r@) == spec_split_path(path@),
{
    let n = path.unicode_len();
    let mut parts: Vec<String> = Vec::new();
    let mut start: usize = 0;
    let mut i: usize = 0;
    proof {
        assert(path@.skip(0) =~= path@);
        assert(views_of(parts@).len() == 0);
        assert(views_of(parts@) + spec_split_path(path@) =~= spec_split_path(path@));
    }
    while i < n
        invariant
            start <= i <= n == path@.len(),
            views_of(parts@) + spec_split_path(path@.skip(start as int))
                =~= spec_split_path(path@),
            forall|j: int| start <= j < i ==> path@[j] != '.',
        decreases n - i,
    {
        let c = path.get_char(i);
        if c == '.' {
            let seg = path.substring_char(start, i);
            let ghost before = parts@;
            parts.push(seg.to_owned());
            proof {
                let rest = path@.skip(start as int);
                assert forall|j: int| 0 <= j < i - start implies rest[j] != '.' by {
                    assert(rest[j] == path@[start + j]);
                }
                assert(rest[i - start] == path@[i as int]);
                lemma_first_index_at(rest, '.', i - start);
                assert(rest.take(i - start) =~= path@.subrange(start as int, i as int));
                assert(rest.skip(i - start + 1) =~= path@.skip(i as int + 1));
                assert(views_of(parts@)
                    =~= views_of(before) + seq![path@.subrange(start as int, i as int)]);
                assert(views_of(parts@) + spec_split_path(path@.skip(i as int + 1))
                    =~= spec_split_path(path@));
            }
            start = i + 1;
        }
        i = i + 1;
    }
    let seg = path.substring_char(start, n);
    let ghost before = parts@;
    parts.push(seg.to_owned());
    proof {
        let rest = path@.skip(start as int);
        assert forall|j: int| 0 <= j < rest.len() implies rest[j] != '.' by {
            assert(rest[j] == path@[start + j]);
        }
        lemma_first_index_none(rest, '.');
        assert(rest =~= path@.subrange(start as int, n as int));
        assert(views_of(parts@) =~= views_of(before) + seq![rest]);
        assert(views_of(parts@) =~= spec_split_path(path@));
    }
    parts
}

/// The value a dotted path denotes, if every segment resolves: an object
/// gives the first binding of the segment, an array gives the element at
/// the segment read as a decimal index.
pub open spec fn spec_extract(v: SpecJson, parts: Seq<Seq<char>>) -> Option<SpecJson>
    decreases parts.len(),
{
    if parts.len() == 0 {
        Some(v)
    } else {
        match v {
            SpecJson::Obj(m) => match spec_obj_get(m, parts[0]) {
                Some(x) => spec_extract(x, parts.skip(1)),
                None => None,
            },
            SpecJson::Arr(a) => match spec_parse_usize(parts[0]) {
                Some(i) => if 0 <= i < a.len() {
                    spec_extract(a[i], parts.skip(1))
                } else {
                    None
                },
                None => None,
            },
            _ => None,
        }
    }
}

/// Resolves `path` in `body`. Succeeds exactly on the paths whose every
/// prefix is a defined object key or an in-range array index; any other
/// path reports `PrimaryKeyPathNotFound`.
pub fn extract_value_by_path<'a>(body: &'a JsonValue, path: &str) -> (r: Result<
    &'a JsonValue,
    AppError,
>)
    ensures
        match r {
            Ok(v) => spec_extract(body@, spec_split_path(path@)) == Some(v@),
            Err(e) => {
                &&& spec_extract(body@, spec_split_path(path@)) is None
                &&& e matches AppError::PrimaryKeyPathNotFound(p) && p@ == path@
            },
        },
{
    let parts = split_path(path);
    let ghost specparts = spec_split_path(path@);
    let mut cur: &JsonValue = body;
    let mut k: usize = 0;
    proof {
        assert(specparts.skip(0) =~= specparts);
    }
    while k < parts.len()
        invariant
            k <= parts@.len(),
            specparts == spec_split_path(path@),
            views_of(parts@) == specparts,
            spec_extract(body@, specparts) == spec_extract(cur@, specparts.skip(k as int)),
        decreases parts@.len() - k,
    {
        let ghost rest = specparts.skip(k as int);
        proof {
            assert(rest[0] == specparts[k as int]);
            assert(rest.skip(1) =~= specparts.skip(k as int + 1));
        }
        let seg: &String = &parts[k];
        match cur {
            JsonValue::Obj(_) => {
                match cur.obj_get(seg.as_str()) {
                    Some(v) => {
                        cur = v;
                    },
                    None => {
                        return Err(AppError::PrimaryKeyPathNotFound(path.to_owned()));
                    },
                }
            },
            JsonValue::Arr(a) => {
                proof {
                    lemma_view_seq(a@);
                }
                let chars = str_chars(seg.as_str());
                match parse_usize(&chars) {
                    Some(i) => {
                        if i < a.len() {
                            cur = &a[i];
                        } else {
                            return Err(AppError::PrimaryKeyPathNotFound(path.to_owned()));
                        }
                    },
                    None => {
                        return Err(AppError::PrimaryKeyPathNotFound(path.to_owned()));
                    },
                }
            },
            _ => {
                return Err(AppError::PrimaryKeyPathNotFound(path.to_owned()));
            },
        }
        k = k + 1;
    }
    proof {
        assert(specparts.skip(k as int).len() == 0);
        assert(specparts.skip(k as int) =~= Seq::<Seq<char>>::empty());
    }
    Ok(cur)
}


/// How an extracted value is rendered as a primary-key text: strings as
/// they are, numbers and booleans by their canonical text, anything else
/// by its compact JSON serialization.
pub open spec fn spec_stringify(v: SpecJson) -> Seq<char> {
    match v {
        SpecJson::Str(s) => s,
        SpecJson::Num(s) => s,
        SpecJson::Bool(b) => if b {
            seq!['t', 'r', 'u', 'e']
        } else {
            seq!['f', 'a', 'l', 's', 'e']
        },
        _ => spec_json_text(v),
    }
}

/// Renders an extracted value as text, per `spec_stringify`.
pub fn stringify_value(v: &JsonValue) -> (r: String)
    ensures
        r@ == spec_stringify(v@),
{
    match v {
        JsonValue::Str(s) => s.clone(),
        JsonValue::Num(s) => s.clone(),
        JsonValue::Bool(b) => {
            proof {
                reveal_strlit("true");
                reveal_strlit("false");
                assert("true"@ =~= seq!['t', 'r', 'u', 'e']);
                assert("false"@ =~= seq!['f', 'a', 'l', 's', 'e']);
            }
            if *b {
                "true".to_owned()
            } else {
                "false".to_owned()
            }
        },
        _ => to_json_text(v),
    }
}

/// Resolves `path` in `body` and wraps the rendered value in a single
/// primary-key field whose key is the path itself.
pub fn get_primary_key_by_path(path: &str, body: &JsonValue) -> (r: Result<PkFields, AppError>)
    ensures
        match r {
            Ok(fields) => {
                &&& spec_extract(body@, spec_split_path(path@)) matches Some(v)
                    && spec_pk_views(fields@) == seq![(path@, spec_stringify(v))]
            },
            Err(e) => {
                &&& spec_extract(body@, spec_split_path(path@)) is None
                &&& e matches AppError::PrimaryKeyPathNotFound(p) && p@ == path@
            },
        },
{
    match extract_value_by_path(body, path) {
        Ok(v) => {
            let field = PkField { key: path.to_owned(), value: stringify_value(v) };
            let mut fields: PkFields = Vec::new();
            fields.push(field);
            proof {
                assert(spec_pk_views(fields@)
                    =~= seq![(path@, spec_stringify(spec_extract(body@, spec_split_path(path@))->Some_0))]);
            }
            Ok(fields)
        },
        Err(e) => Err(e),
    }
}

} // verus!
