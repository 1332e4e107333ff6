use vstd::prelude::*;

use crate::error::AppError;
use crate::json::{spec_obj_get, JsonValue, SpecJson};
use crate::secret::SecretSource;
use crate::text::{
    chars_to_string, lemma_first_index_at, lemma_first_index_none, lemma_first_index, find_char,
    spec_first_index, str_chars, sub_chars,
};
use vstd::string::StrSliceExecFns;

verus! {

/// Sink configuration, MongoDB URL parsing, and the write protocol: every
/// event is applied to a collection keyed by a document id — the body's
/// top-level `id` field if it has one, otherwise the event's
/// content-address. The collection itself lives behind the database
/// driver; its observable content is modelled here as a sequence of
/// documents, and the idempotence laws of the protocol are proved over
/// that model. (The driver-internal object id that updates preserve is
/// not part of the model.)

#[derive(Debug)]
pub enum DatabaseProvider {
    Mongo,
}

#[derive(Debug)]
pub enum SinkConfig {
    Mongo { url: SecretSource, collection: String, insert_only: bool },
    Database { provider: DatabaseProvider },
}

/// What `parse_mongo_url` accepts: `mongodb://` or `mongodb+srv://`, a
/// host part up to the first `/`, then a non-empty database and a
/// non-empty collection (the collection cut at a `?`).
pub open spec fn spec_parse_mongo_url(u: Seq<char>) -> Option<(Seq<char>, Seq<char>)> {
    let stripped = if u.len() >= 10 && u.take(10) == "mongodb://"@ {
        Some(u.skip(10))
    } else if u.len() >= 14 && u.take(14) == "mongodb+srv://"@ {
        Some(u.skip(14))
    } else {
        None
    };
    match stripped {
        None => None,
        Some(rest) => {
            let sl = spec_first_index(rest, '/');
            if sl >= rest.len() {
                None
            } else {
                let path = rest.skip(sl + 1);
                let d1 = spec_first_index(path, '/');
                if d1 >= path.len() {
                    None
                } else {
                    let db = path.take(d1);
                    let after = path.skip(d1 + 1);
                    let d2 = spec_first_index(after, '/');
                    let part1 = if d2 < after.len() {
                        after.take(d2)
                    } else {
                        after
                    };
                    let q = spec_first_index(part1, '?');
                    let coll = if q < part1.len() {
                        part1.take(q)
                    } else {
                        part1
                    };
                    if db.len() == 0 || coll.len() == 0 {
                        None
                    } else {
                        Some((db, coll))
                    }
                }
            }
        },
    }
}

/// What `parse_mongo_url_for_sink` accepts: the same protocols; the
/// result is the URL up to the first path `/` (the connection base) and a
/// non-empty database name, the first path segment cut at a `?`.
pub open spec fn spec_parse_mongo_url_for_sink(u: Seq<char>) -> Option<(Seq<char>, Seq<char>)> {
    let plen: int = if u.len() >= 10 && u.take(10) == "mongodb://"@ {
        10
    } else if u.len() >= 14 && u.take(14) == "mongodb+srv://"@ {
        14
    } else {
        0
    };
    if plen == 0 {
        None
    } else {
        let rest = u.skip(plen);
        let sl = spec_first_index(rest, '/');
        if sl >= rest.len() {
            None
        } else {
            let base = u.take(plen + sl);
            let path = rest.skip(sl + 1);
            let q = spec_first_index(path, '?');
            let p1 = if q < path.len() {
                path.take(q)
            } else {
                path
            };
            let d = spec_first_index(p1, '/');
            let db = if d < p1.len() {
                p1.take(d)
            } else {
                p1
            };
            if db.len() == 0 {
                None
            } else {
                Some((base, db))
            }
        }
    }
}

/// Recognizes the protocol prefix; returns its length in characters.
fn strip_protocol(url: &str) -> (r: Option<usize>)
    ensures
        match r {
            Some(p) => (p == 10 && url@.len() >= 10 && url@.take(10) == "mongodb://"@)
                || (p == 14 && !(url@.len() >= 10 && url@.take(10) == "mongodb://"@)
                    && url@.len() >= 14 && url@.take(14) == "mongodb+srv://"@),
            None => !(url@.len() >= 10 && url@.take(10) == "mongodb://"@) && !(url@.len() >= 14
                && url@.take(14) == "mongodb+srv://"@),
        },
{
    let n = url.unicode_len();
    if n >= 10 && crate::json::str_eq(url.substring_char(0, 10), "mongodb://") {
        proof {
            assert(url@.subrange(0, 10) =~= url@.take(10));
        }
        return Some(10);
    }
    proof {
        if n >= 10 {
            assert(url@.subrange(0, 10) =~= url@.take(10));
        }
    }
    if n >= 14 && crate::json::str_eq(url.substring_char(0, 14), "mongodb+srv://") {
        proof {
            assert(url@.subrange(0, 14) =~= url@.take(14));
        }
        return Some(14);
    }
    proof {
        if n >= 14 {
            assert(url@.subrange(0, 14) =~= url@.take(14));
        }
    }
    None
}

/// Splits a sink URL into database and collection, as
/// `spec_parse_mongo_url` lays out; anything else is a configuration
/// error.
pub fn parse_mongo_url(url: &str) -> (r: Result<(String, String), AppError>)
    ensures
        match r {
            Ok((db, coll)) => spec_parse_mongo_url(url@) == Some((db@, coll@)),
            Err(e) => spec_parse_mongo_url(url@) is None && e matches AppError::Config(_),
        },
{
    let chars = str_chars(url);
    let n = chars.len();
    let plen = match strip_protocol(url) {
        Some(p) => p,
        None => {
            return Err(
                AppError::Config(
                    "invalid MongoDB URL: it must start with mongodb:// or mongodb+srv://".to_owned(),
                ),
            );
        },
    };
    let ghost rest = url@.skip(plen as int);
    let sl = find_char(&chars, '/', plen);
    proof {
        assert(spec_first_index(rest, '/') == sl - plen);
    }
    if sl == n {
        return Err(AppError::Config("invalid MongoDB URL: missing database path".to_owned()));
    }
    let ghost path = rest.skip(sl - plen + 1);
    proof {
        assert(path =~= url@.skip(sl as int + 1));
    }
    let d1 = find_char(&chars, '/', sl + 1);
    proof {
        assert(spec_first_index(path, '/') == d1 - (sl + 1));
    }
    if d1 == n {
        return Err(
            AppError::Config(
                "invalid MongoDB URL: it must name both a database and a collection".to_owned(),
            ),
        );
    }
    let db_chars = sub_chars(&chars, sl + 1, d1);
    proof {
        assert(db_chars@ =~= path.take(d1 - (sl + 1)));
    }
    let ghost after = path.skip(d1 - (sl + 1) + 1);
    proof {
        assert(after =~= url@.skip(d1 as int + 1));
    }
    let d2 = find_char(&chars, '/', d1 + 1);
    proof {
        assert(spec_first_index(after, '/') == d2 - (d1 + 1));
    }
    let e1 = d2;
    let ghost part1 = if d2 - (d1 + 1) < after.len() {
        after.take(d2 - (d1 + 1))
    } else {
        after
    };
    proof {
        assert(part1 =~= url@.subrange(d1 as int + 1, e1 as int));
    }
    let q = find_char(&chars, '?', d1 + 1);
    let coll_end = if q < e1 {
        q
    } else {
        e1
    };
    proof {
        let qsuf = url@.skip(d1 as int + 1);
        lemma_first_index(qsuf, '?');
        assert(spec_first_index(qsuf, '?') == q - (d1 + 1));
        if q < e1 {
            assert forall|j: int| 0 <= j < q - (d1 + 1) implies part1[j] != '?' by {
                assert(part1[j] == qsuf[j]);
            }
            assert(part1[q - (d1 + 1)] == qsuf[q - (d1 + 1)]);
            lemma_first_index_at(part1, '?', q - (d1 + 1));
        } else {
            assert forall|j: int| 0 <= j < part1.len() implies part1[j] != '?' by {
                assert(part1[j] == qsuf[j]);
            }
            lemma_first_index_none(part1, '?');
        }
    }
    let coll_chars = sub_chars(&chars, d1 + 1, coll_end);
    proof {
        let qq = spec_first_index(part1, '?');
        if qq < part1.len() {
            assert(coll_chars@ =~= part1.take(qq));
        } else {
            assert(coll_chars@ =~= part1);
        }
    }
    if db_chars.len() == 0 || coll_chars.len() == 0 {
        return Err(
            AppError::Config(
                "invalid MongoDB URL: the database and the collection cannot be empty".to_owned(),
            ),
        );
    }
    Ok((chars_to_string(&db_chars), chars_to_string(&coll_chars)))
}

/// Splits a sink URL into connection base and database, as
/// `spec_parse_mongo_url_for_sink` lays out.
pub fn parse_mongo_url_for_sink(url: &str) -> (r: Result<(String, String), AppError>)
    ensures
        match r {
            Ok((base, db)) => spec_parse_mongo_url_for_sink(url@) == Some((base@, db@)),
            Err(e) => spec_parse_mongo_url_for_sink(url@) is None && e matches AppError::Config(
                _,
            ),
        },
{
    let chars = str_chars(url);
    let n = chars.len();
    let plen = match strip_protocol(url) {
        Some(p) => p,
        None => {
            return Err(
                AppError::Config(
                    "invalid MongoDB URL: it must start with mongodb:// or mongodb+srv://".to_owned(),
                ),
            );
        },
    };
    let ghost rest = url@.skip(plen as int);
    let sl = find_char(&chars, '/', plen);
    proof {
        assert(spec_first_index(rest, '/') == sl - plen);
    }
    if sl == n {
        return Err(
            AppError::Config("the MongoDB URL must include a database name".to_owned()),
        );
    }
    let base_chars = sub_chars(&chars, 0, sl);
    proof {
        assert(base_chars@ =~= url@.take(plen as int + (sl - plen)));
    }
    let ghost path = rest.skip(sl - plen + 1);
    proof {
        assert(path =~= url@.skip(sl as int + 1));
    }
    let q = find_char(&chars, '?', sl + 1);
    proof {
        assert(spec_first_index(path, '?') == q - (sl + 1));
    }
    let e1 = q;
    let ghost p1 = if q - (sl + 1) < path.len() {
        path.take(q - (sl + 1))
    } else {
        path
    };
    proof {
        assert(p1 =~= url@.subrange(sl as int + 1, e1 as int));
    }
    let d = find_char(&chars, '/', sl + 1);
    let db_end = if d < e1 {
        d
    } else {
        e1
    };
    proof {
        let dsuf = url@.skip(sl as int + 1);
        lemma_first_index(dsuf, '/');
        assert(spec_first_index(dsuf, '/') == d - (sl + 1));
        if d < e1 {
            assert forall|j: int| 0 <= j < d - (sl + 1) implies p1[j] != '/' by {
                assert(p1[j] == dsuf[j]);
            }
            assert(p1[d - (sl + 1)] == dsuf[d - (sl + 1)]);
            lemma_first_index_at(p1, '/', d - (sl + 1));
        } else {
            assert forall|j: int| 0 <= j < p1.len() implies p1[j] != '/' by {
                assert(p1[j] == dsuf[j]);
            }
            lemma_first_index_none(p1, '/');
        }
    }
    let db_chars = sub_chars(&chars, sl + 1, db_end);
    proof {
        let dd = spec_first_index(p1, '/');
        if dd < p1.len() {
            assert(db_chars@ =~= p1.take(dd));
        } else {
            assert(db_chars@ =~= p1);
        }
    }
    if db_chars.len() == 0 {
        return Err(
            AppError::Config("the MongoDB URL must include a database name".to_owned()),
        );
    }
    Ok((chars_to_string(&base_chars), chars_to_string(&db_chars)))
}

/// The key a document is stored and looked up under: the body's top-level
/// `id` value if there is one, otherwise the event's content-address as a
/// string.
pub open spec fn spec_doc_key(body: SpecJson, event_id: Seq<char>) -> SpecJson {
    match body {
        SpecJson::Obj(m) => match spec_obj_get(m, "id"@) {
            Some(v) => v,
            None => SpecJson::Str(event_id),
        },
        _ => SpecJson::Str(event_id),
    }
}

/// Computes the document key for an event body.
pub fn document_key(body: &JsonValue, event_id: &str) -> (r: JsonValue)
    ensures
        r@ == spec_doc_key(body@, event_id@),
{
    match body.obj_get("id") {
        Some(v) => v.deep_copy(),
        None => JsonValue::Str(event_id.to_owned()),
    }
}

/// Whether a stored document answers a lookup by `key`.
pub open spec fn doc_matches(doc: SpecJson, key: SpecJson) -> bool {
    doc matches SpecJson::Obj(m) && spec_obj_get(m, "id"@) == Some(key)
}

/// Index of the first document matching `key`, or the length.
pub open spec fn spec_find_doc(c: Seq<SpecJson>, key: SpecJson) -> int
    decreases c.len(),
{
    if c.len() == 0 {
        0
    } else if doc_matches(c[0], key) {
        0
    } else {
        1 + spec_find_doc(c.skip(1), key)
    }
}

/// How many stored documents match `key`.
pub open spec fn spec_count_docs(c: Seq<SpecJson>, key: SpecJson) -> int
    decreases c.len(),
{
    if c.len() == 0 {
        0
    } else {
        (if doc_matches(c[0], key) {
            1int
        } else {
            0int
        }) + spec_count_docs(c.skip(1), key)
    }
}

/// The stored form of a body: its `id` field set to the key if it had
/// none.
pub open spec fn spec_with_id(body: SpecJson, key: SpecJson) -> SpecJson {
    match body {
        SpecJson::Obj(m) => if spec_obj_get(m, "id"@) is Some {
            body
        } else {
            SpecJson::Obj(m.push(("id"@, key)))
        },
        _ => body,
    }
}

/// What a `Write` does to the collection. A body that is not an object
/// fails BSON conversion before any database operation, so it leaves the
/// collection unchanged. Insert-only appends the body unchanged;
/// otherwise the first document under the body's key is replaced, or the
/// body (with its `id` ensured) is appended.
pub open spec fn apply_write(
    c: Seq<SpecJson>,
    body: SpecJson,
    event_id: Seq<char>,
    insert_only: bool,
) -> Seq<SpecJson> {
    if !(body is Obj) {
        c
    } else if insert_only {
        c.push(body)
    } else {
        let key = spec_doc_key(body, event_id);
        let w = spec_with_id(body, key);
        let i = spec_find_doc(c, key);
        if i < c.len() {
            c.update(i, w)
        } else {
            c.push(w)
        }
    }
}

/// What a `Delete` does to the collection: the first document under the
/// body's key is removed, if there is one. A body that is not an object
/// fails BSON conversion first and leaves the collection unchanged.
pub open spec fn apply_delete(c: Seq<SpecJson>, body: SpecJson, event_id: Seq<char>) -> Seq<
    SpecJson,
> {
    if !(body is Obj) {
        c
    } else {
        let key = spec_doc_key(body, event_id);
        let i = spec_find_doc(c, key);
        if i < c.len() {
            c.remove(i)
        } else {
            c
        }
    }
}

proof fn lemma_obj_get_push(m: Seq<(Seq<char>, SpecJson)>, p: (Seq<char>, SpecJson), k: Seq<char>)
    ensures
        spec_obj_get(m.push(p), k) == match spec_obj_get(m, k) {
            Some(v) => Some(v),
            None => if p.0 == k {
                Some(p.1)
            } else {
                None
            },
        },
    decreases m.len(),
{
    if m.len() == 0 {
        assert(m.push(p)[0] == p);
        assert(m.push(p).skip(1) =~= Seq::<(Seq<char>, SpecJson)>::empty());
        assert(spec_obj_get(m, k) is None);
        assert(spec_obj_get(m.push(p).skip(1), k) is None);
        if p.0 == k {
            assert(spec_obj_get(m.push(p), k) == Some(p.1));
        } else {
            assert(spec_obj_get(m.push(p), k) is None);
        }
    } else {
        assert(m.push(p)[0] == m[0]);
        assert(m.push(p).skip(1) =~= m.skip(1).push(p));
        lemma_obj_get_push(m.skip(1), p, k);
        if m[0].0 == k {
            assert(spec_obj_get(m.push(p), k) == Some(m[0].1));
            assert(spec_obj_get(m, k) == Some(m[0].1));
        } else {
            assert(spec_obj_get(m.push(p), k) == spec_obj_get(m.skip(1).push(p), k));
            assert(spec_obj_get(m, k) == spec_obj_get(m.skip(1), k));
        }
    }
}

/// The stored form of an object body answers a lookup by its own key.
proof fn lemma_with_id_matches(body: SpecJson, event_id: Seq<char>)
    requires
        body is Obj,
    ensures
        doc_matches(spec_with_id(body, spec_doc_key(body, event_id)), spec_doc_key(body, event_id)),
{
    let m = body->Obj_0;
    let key = spec_doc_key(body, event_id);
    if spec_obj_get(m, "id"@) is Some {
    } else {
        lemma_obj_get_push(m, ("id"@, key), "id"@);
    }
}

/// Where the first match sits: in range, matching, with none before it.
proof fn lemma_find_doc(c: Seq<SpecJson>, key: SpecJson)
    ensures
        0 <= spec_find_doc(c, key) <= c.len(),
        spec_find_doc(c, key) < c.len() ==> doc_matches(c[spec_find_doc(c, key)], key),
        forall|j: int| 0 <= j < spec_find_doc(c, key) ==> !doc_matches(c[j], key),
    decreases c.len(),
{
    if c.len() > 0 && !doc_matches(c[0], key) {
        lemma_find_doc(c.skip(1), key);
        let f = spec_find_doc(c, key);
        assert forall|j: int| 0 <= j < f implies !doc_matches(c[j], key) by {
            if j > 0 {
                assert(c.skip(1)[j - 1] == c[j]);
            }
        }
        if f < c.len() {
            assert(c.skip(1)[f - 1] == c[f]);
        }
    }
}

/// A known first match determines `spec_find_doc`.
proof fn lemma_find_doc_at(c: Seq<SpecJson>, key: SpecJson, k: int)
    requires
        0 <= k < c.len(),
        doc_matches(c[k], key),
        forall|j: int| 0 <= j < k ==> !doc_matches(c[j], key),
    ensures
        spec_find_doc(c, key) == k,
    decreases k,
{
    if k > 0 {
        assert forall|j: int| 0 <= j < k - 1 implies !doc_matches(c.skip(1)[j], key) by {
            assert(c.skip(1)[j] == c[j + 1]);
        }
        assert(c.skip(1)[k - 1] == c[k]);
        lemma_find_doc_at(c.skip(1), key, k - 1);
    }
}

/// A collection without a match counts zero, and conversely.
proof fn lemma_count_zero(c: Seq<SpecJson>, key: SpecJson)
    ensures
        (spec_count_docs(c, key) == 0) <==> (forall|j: int|
            0 <= j < c.len() ==> !doc_matches(c[j], key)),
    decreases c.len(),
{
    if c.len() > 0 {
        lemma_count_zero(c.skip(1), key);
        lemma_count_nonneg(c.skip(1), key);
        assert forall|j: int| 1 <= j < c.len() implies c[j] == c.skip(1)[j - 1] by {}
        if spec_count_docs(c, key) == 0 {
            assert forall|j: int| 0 <= j < c.len() implies !doc_matches(c[j], key) by {
                if j > 0 {
                    assert(c.skip(1)[j - 1] == c[j]);
                }
            }
        }
    }
}

proof fn lemma_count_nonneg(c: Seq<SpecJson>, key: SpecJson)
    ensures
        spec_count_docs(c, key) >= 0,
    decreases c.len(),
{
    if c.len() > 0 {
        lemma_count_nonneg(c.skip(1), key);
    }
}

/// Writing the same object body twice (not insert-only) leaves the
/// collection exactly as one write leaves it: identical writes make no
/// duplicates.
pub proof fn lemma_write_idempotent(c: Seq<SpecJson>, body: SpecJson, event_id: Seq<char>)
    requires
        body is Obj,
    ensures
        apply_write(apply_write(c, body, event_id, false), body, event_id, false) == apply_write(
            c,
            body,
            event_id,
            false,
        ),
{
    let key = spec_doc_key(body, event_id);
    let w = spec_with_id(body, key);
    lemma_find_doc(c, key);
    lemma_with_id_matches(body, event_id);
    let i = spec_find_doc(c, key);
    let c1 = apply_write(c, body, event_id, false);
    if i < c.len() {
        assert(c1 == c.update(i, w));
        assert forall|j: int| 0 <= j < i implies !doc_matches(c1[j], key) by {
            assert(c1[j] == c[j]);
        }
        lemma_find_doc_at(c1, key, i);
        assert(apply_write(c1, body, event_id, false) =~= c1.update(i, w));
        assert(c1.update(i, w) =~= c1);
    } else {
        assert(c1 == c.push(w));
        assert forall|j: int| 0 <= j < c.len() implies !doc_matches(c1[j], key) by {
            assert(c1[j] == c[j]);
        }
        assert(c1[c.len() as int] == w);
        lemma_find_doc_at(c1, key, c.len() as int);
        assert(apply_write(c1, body, event_id, false) =~= c1.update(c.len() as int, w));
        assert(c1.update(c.len() as int, w) =~= c1);
    }
}

/// A `Write` followed by a `Delete` under the same key leaves a
/// collection that had no document under that key exactly as it was:
/// nothing under the key remains.
pub proof fn lemma_write_then_delete(
    c: Seq<SpecJson>,
    write_body: SpecJson,
    delete_body: SpecJson,
    event_id: Seq<char>,
)
    requires
        write_body is Obj,
        delete_body is Obj,
        spec_doc_key(write_body, event_id) == spec_doc_key(delete_body, event_id),
        spec_count_docs(c, spec_doc_key(write_body, event_id)) == 0,
    ensures
        apply_delete(apply_write(c, write_body, event_id, false), delete_body, event_id) == c,
        spec_count_docs(
            apply_delete(apply_write(c, write_body, event_id, false), delete_body, event_id),
            spec_doc_key(write_body, event_id),
        ) == 0,
{
    let key = spec_doc_key(write_body, event_id);
    let w = spec_with_id(write_body, key);
    lemma_count_zero(c, key);
    lemma_find_doc(c, key);
    assert(spec_find_doc(c, key) == c.len()) by {
        lemma_find_doc(c, key);
        if spec_find_doc(c, key) < c.len() {
            assert(doc_matches(c[spec_find_doc(c, key)], key));
        }
    }
    let c1 = apply_write(c, write_body, event_id, false);
    assert(c1 == c.push(w));
    lemma_with_id_matches(write_body, event_id);
    assert forall|j: int| 0 <= j < c.len() implies !doc_matches(c1[j], key) by {
        assert(c1[j] == c[j]);
    }
    assert(c1[c.len() as int] == w);
    lemma_find_doc_at(c1, key, c.len() as int);
    assert(apply_delete(c1, delete_body, event_id) == c1.remove(c.len() as int));
    assert(c1.remove(c.len() as int) =~= c);
}


/// The stored form of a body, executably: its `id` field set to `key` if
/// it had none; exact against `spec_with_id`.
pub fn with_id(body: &JsonValue, key: &JsonValue) -> (r: JsonValue)
    ensures
        r@ == spec_with_id(body@, key@),
{
    match body {
        JsonValue::Obj(_) => {
            match body.obj_get("id") {
                Some(_) => body.deep_copy(),
                None => {
                    let copied = body.deep_copy();
                    match copied {
                        JsonValue::Obj(mut entries) => {
                            let ghost pre = entries@;
                            entries.push(("id".to_owned(), key.deep_copy()));
                            let r = JsonValue::Obj(entries);
                            proof {
                                crate::json::lemma_view_entries(pre);
                                crate::json::lemma_view_entries(r->Obj_0@);
                                assert(JsonValue::view_entries(r->Obj_0@)
                                    =~= JsonValue::view_entries(pre).push(("id"@, key@)));
                                assert(r@ =~= spec_with_id(body@, key@));
                            }
                            r
                        },
                        other => {
                            proof {
                                assert(false);
                            }
                            other
                        },
                    }
                },
            }
        },
        _ => body.deep_copy(),
    }
}

} // verus!
