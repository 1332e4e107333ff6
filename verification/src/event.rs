use vstd::prelude::*;

use crate::digest::{hex_encode, sha256_digest, spec_hex_of, spec_sha256};
use crate::json::{JsonValue, SpecJson};
use vstd::string::StrSliceExecFns;

verus! {

/// The canonical in-flight event, and its deterministic content-address:
/// the event id is the lower-case hex SHA-256 of
/// `key ":" value ";"` for every primary-key field, in order, over the
/// fields' UTF-8 bytes.

#[derive(Debug, Clone, Copy, PartialEq, Eq, Structural)]
pub enum Operation {
    Write,
    Delete,
}

/// One primary-key field: the dotted path that produced it and the
/// extracted value rendered as text.
#[derive(Debug)]
pub struct PkField {
    pub key: String,
    pub value: String,
}

impl View for PkField {
    type V = (Seq<char>, Seq<char>);

    open spec fn view(&self) -> (Seq<char>, Seq<char>) {
        (self.key@, self.value@)
    }
}

pub type PkFields = Vec<PkField>;

/// The views of a primary-key field list.
pub open spec fn spec_pk_views(s: Seq<PkField>) -> Seq<(Seq<char>, Seq<char>)> {
    Seq::new(s.len(), |i: int| s[i]@)
}

/// The bytes one field contributes to the hash: the UTF-8 bytes of `key`,
/// a `:`, the UTF-8 bytes of `value`, a `;`.
pub open spec fn spec_pk_one(f: (Seq<char>, Seq<char>)) -> Seq<u8> {
    vstd::utf8::encode_utf8(f.0) + seq![58u8] + vstd::utf8::encode_utf8(f.1) + seq![59u8]
}

/// The bytes hashed for the event id: every field's contribution, in order.
pub open spec fn spec_pk_bytes(fields: Seq<(Seq<char>, Seq<char>)>) -> Seq<u8>
    decreases fields.len(),
{
    if fields.len() == 0 {
        Seq::empty()
    } else {
        spec_pk_one(fields[0]) + spec_pk_bytes(fields.skip(1))
    }
}

/// The event id for a primary-key field list.
pub open spec fn spec_event_id(fields: Seq<(Seq<char>, Seq<char>)>) -> Seq<char> {
    spec_hex_of(spec_sha256(spec_pk_bytes(fields)))
}

/// The mathematical content of a `PipelineEvent`.
#[verifier::ext_equal]
pub struct SpecEvent {
    pub id: Seq<char>,
    pub body: SpecJson,
    pub event_type: Seq<char>,
    pub pk_fields: Seq<(Seq<char>, Seq<char>)>,
    pub operation: Operation,
}

/// A canonical event travelling through the pipeline.
#[derive(Debug)]
pub struct PipelineEvent {
    pub id: String,
    pub body: JsonValue,
    pub event_type: String,
    pub pk_fields: PkFields,
    pub operation: Operation,
}

impl View for PipelineEvent {
    type V = SpecEvent;

    open spec fn view(&self) -> SpecEvent {
        SpecEvent {
            id: self.id@,
            body: self.body@,
            event_type: self.event_type@,
            pk_fields: spec_pk_views(self.pk_fields@),
            operation: self.operation,
        }
    }
}

/// A well-formed event carries the id its primary-key fields determine.
pub open spec fn spec_event_wf(e: SpecEvent) -> bool {
    e.id == spec_event_id(e.pk_fields)
}

proof fn lemma_pk_bytes_snoc(fields: Seq<(Seq<char>, Seq<char>)>, x: (Seq<char>, Seq<char>))
    ensures
        spec_pk_bytes(fields.push(x)) == spec_pk_bytes(fields) + spec_pk_one(x),
    decreases fields.len(),
{
    if fields.len() == 0 {
        assert(fields.push(x)[0] == x);
        assert(fields.push(x).skip(1) =~= Seq::<(Seq<char>, Seq<char>)>::empty());
        assert(spec_pk_bytes(fields.push(x).skip(1)) == Seq::<u8>::empty());
        assert(spec_pk_bytes(fields) == Seq::<u8>::empty());
        assert(spec_pk_one(x) + Seq::<u8>::empty() =~= Seq::<u8>::empty() + spec_pk_one(x));
    } else {
        assert(fields.push(x)[0] == fields[0]);
        assert(fields.push(x).skip(1) =~= fields.skip(1).push(x));
        lemma_pk_bytes_snoc(fields.skip(1), x);
        assert(spec_pk_bytes(fields.push(x)) == spec_pk_one(fields[0])
            + (spec_pk_bytes(fields.skip(1)) + spec_pk_one(x)));
        assert(spec_pk_one(fields[0]) + (spec_pk_bytes(fields.skip(1)) + spec_pk_one(x))
            =~= (spec_pk_one(fields[0]) + spec_pk_bytes(fields.skip(1))) + spec_pk_one(x));
    }
}

impl PipelineEvent {
    /// Builds the event, computing the content-address from the
    /// primary-key fields.
    pub fn new(
        body: JsonValue,
        event_type: String,
        pk_fields: PkFields,
        operation: Operation,
    ) -> (r: Self)
        ensures
            r@.body == body@,
            r@.event_type == event_type@,
            r@.pk_fields == spec_pk_views(pk_fields@),
            r@.operation == operation,
            r@.id == spec_event_id(spec_pk_views(pk_fields@)),
            spec_event_wf(r@),
    {
        let id = Self::generate_id(&pk_fields);
        PipelineEvent { id, body, event_type, pk_fields, operation }
    }

    /// The lower-case hex SHA-256 of `key ":" value ";"` for every field,
    /// in order, over UTF-8 bytes.
    pub fn generate_id(pk_fields: &PkFields) -> (r: String)
        ensures
            r@ == spec_event_id(spec_pk_views(pk_fields@)),
    {
        let ghost views = spec_pk_views(pk_fields@);
        let mut bytes: Vec<u8> = Vec::new();
        let mut i: usize = 0;
        proof {
            assert(spec_pk_bytes(views.take(0)) =~= Seq::<u8>::empty());
        }
        while i < pk_fields.len()
            invariant
                i <= pk_fields@.len(),
                views == spec_pk_views(pk_fields@),
                views.len() == pk_fields@.len(),
                bytes@ == spec_pk_bytes(views.take(i as int)),
            decreases pk_fields@.len() - i,
        {
            let field = &pk_fields[i];
            let ghost pre = bytes@;
            let mut kb = field.key.as_str().as_bytes_vec();
            bytes.append(&mut kb);
            bytes.push(58u8);
            let mut vb = field.value.as_str().as_bytes_vec();
            bytes.append(&mut vb);
            bytes.push(59u8);
            proof {
                lemma_pk_bytes_snoc(views.take(i as int), views[i as int]);
                assert(views.take(i as int).push(views[i as int]) =~= views.take(i as int + 1));
                assert(bytes@ =~= pre + spec_pk_one(views[i as int]));
                assert(bytes@ =~= spec_pk_bytes(views.take(i as int + 1)));
            }
            i = i + 1;
        }
        proof {
            assert(views.take(views.len() as int) =~= views);
        }
        let digest = sha256_digest(bytes.as_slice());
        hex_encode(digest.as_slice())
    }

    /// An exact copy; the original stays usable.
    pub fn duplicate(&self) -> (r: Self)
        ensures
            r@ == self@,
    {
        let mut pk: PkFields = Vec::new();
        let mut i: usize = 0;
        while i < self.pk_fields.len()
            invariant
                i <= self.pk_fields@.len(),
                pk@.len() == i as int,
                forall|j: int| 0 <= j < i ==> pk@[j]@ == self.pk_fields@[j]@,
            decreases self.pk_fields@.len() - i,
        {
            let f = &self.pk_fields[i];
            pk.push(PkField { key: f.key.clone(), value: f.value.clone() });
            i = i + 1;
        }
        let r = PipelineEvent {
            id: self.id.clone(),
            body: self.body.deep_copy(),
            event_type: self.event_type.clone(),
            pk_fields: pk,
            operation: self.operation,
        };
        proof {
            assert(spec_pk_views(r.pk_fields@) =~= spec_pk_views(self.pk_fields@));
            assert(r@ =~= self@);
        }
        r
    }
}

} // verus!
