//! Command and response envelopes: a function code in field 1 and at most
//! one payload field, the protocol's `oneof`.

use vstd::prelude::*;
use crate::wire::{
    decode_fields, encode_fields, fields_bytes, fields_view, lemma_fields_round_trip,
    parse_fields, valid_field, valid_fields, CodecError, Field, FieldValue, WireField, WireValue,
};

verus! {

/// One request or response: the function it concerns and its payload.
pub struct Envelope {
    pub function: u32,
    pub payload: Option<Field>,
}

/// The mathematical content of an [`Envelope`].
pub struct EnvelopeModel {
    pub function: u32,
    pub payload: Option<WireField>,
}

impl View for Envelope {
    type V = EnvelopeModel;

    open spec fn view(&self) -> EnvelopeModel {
        EnvelopeModel {
            function: self.function,
            payload: match &self.payload {
                Some(f) => Some(f@),
                None => None,
            },
        }
    }
}

impl EnvelopeModel {
    /// The payload, if any, is a valid field other than the function code.
    pub open spec fn wf(self) -> bool {
        match self.payload {
            Some(p) => valid_field(p) && p.number >= 2,
            None => true,
        }
    }

    /// The fields the envelope is written as.
    pub open spec fn fields(self) -> Seq<WireField> {
        let head = WireField { number: 1, value: WireValue::Varint(self.function as u64) };
        match self.payload {
            Some(p) => seq![head, p],
            None => seq![head],
        }
    }
}

/// Folds one more field into a partly read envelope: field 1 is the function
/// code (a varint), any other field is the payload; a later field replaces an
/// earlier one.
pub open spec fn envelope_step(m: EnvelopeModel, f: WireField) -> Option<EnvelopeModel> {
    if f.number == 1 {
        match f.value {
            WireValue::Varint(v) => if v <= u32::MAX {
                Some(EnvelopeModel { function: v as u32, ..m })
            } else {
                None
            },
            WireValue::Bytes(_) => None,
        }
    } else {
        Some(EnvelopeModel { payload: Some(f), ..m })
    }
}

/// The envelope that a sequence of fields describes.
pub open spec fn envelope_of(fs: Seq<WireField>) -> Option<EnvelopeModel>
    decreases fs.len(),
{
    if fs.len() == 0 {
        Some(EnvelopeModel { function: 0, payload: None })
    } else {
        match envelope_of(fs.drop_last()) {
            Some(m) => envelope_step(m, fs.last()),
            None => None,
        }
    }
}

/// The bytes an envelope is sent as.
pub open spec fn envelope_bytes(m: EnvelopeModel) -> Seq<u8> {
    fields_bytes(m.fields())
}

/// The envelope that bytes decode to, if any.
pub open spec fn envelope_decoding(b: Seq<u8>) -> Option<EnvelopeModel> {
    match parse_fields(b) {
        Some(fs) => envelope_of(fs),
        None => None,
    }
}

/// Decoding the encoding of a well-formed envelope gives the same envelope.
pub proof fn lemma_envelope_round_trip(m: EnvelopeModel)
    requires
        m.wf(),
    ensures
        envelope_decoding(envelope_bytes(m)) == Some(m),
{
    let fs = m.fields();
    assert(valid_fields(fs));
    lemma_fields_round_trip(fs);
    let head = fs[0];
    assert(fs.drop_last().drop_last().len() == 0 || fs.len() == 1);
    match m.payload {
        Some(p) => {
            assert(fs.drop_last() =~= seq![head]);
            assert(seq![head].drop_last() =~= Seq::<WireField>::empty());
            assert(seq![head].last() == head);
            assert(envelope_of(Seq::<WireField>::empty()) == Some(
                EnvelopeModel { function: 0, payload: None },
            ));
            assert(envelope_of(seq![head]) == Some(EnvelopeModel { function: m.function, payload: None }));
        },
        None => {
            assert(fs.drop_last() =~= Seq::<WireField>::empty());
        },
    }
}

proof fn lemma_envelope_failure_persists(fs: Seq<WireField>, k: int)
    requires
        0 <= k <= fs.len(),
        envelope_of(fs.take(k)) is None,
    ensures
        envelope_of(fs) is None,
    decreases fs.len() - k,
{
    if k < fs.len() {
        assert(fs.take(k + 1).drop_last() =~= fs.take(k));
        lemma_envelope_failure_persists(fs, k + 1);
    } else {
        assert(fs.take(k) =~= fs);
    }
}

impl Envelope {
    /// An envelope with no payload.
    pub fn bare(function: u32) -> (r: Envelope)
        ensures
            r@ == (EnvelopeModel { function, payload: None }),
    {
        Envelope { function, payload: None }
    }

    /// Encodes the envelope.
    pub fn encode(&self) -> (r: Vec<u8>)
        requires
            self@.wf(),
        ensures
            r@ == envelope_bytes(self@),
    {
        let mut fs: Vec<Field> = Vec::new();
        fs.push(Field { number: 1, value: FieldValue::Varint(self.function as u64) });
        match &self.payload {
            Some(p) => {
                let q = copy_field(p);
                fs.push(q);
            },
            None => {},
        }
        assert(fields_view(fs@) =~= self@.fields());
        encode_fields(&fs)
    }

    /// Decodes an envelope: `Malformed` where the bytes are not fields,
    /// `Unexpected` where the function code is not a 32-bit varint.
    pub fn decode(b: &[u8]) -> (r: Result<Envelope, CodecError>)
        ensures
            match r {
                Ok(e) => envelope_decoding(b@) == Some(e@),
                Err(CodecError::Malformed) => parse_fields(b@) is None,
                Err(CodecError::Unexpected) => parse_fields(b@) is Some && envelope_decoding(
                    b@,
                ) is None,
            },
    {
        let fs = match decode_fields(b) {
            Ok(fs) => fs,
            Err(e) => {
                return Err(e);
            },
        };
        let ghost all = fields_view(fs@);
        let mut function: u32 = 0;
        let mut payload: Option<Field> = None;
        let mut i: usize = 0;
        assert(all.take(0) =~= Seq::<WireField>::empty());
        while i < fs.len()
            invariant
                i <= fs@.len(),
                all == fields_view(fs@),
                parse_fields(b@) == Some(all),
                envelope_of(all.take(i as int)) == Some(
                    (Envelope { function, payload: payload }@),
                ),
            decreases fs@.len() - i,
        {
            let f = &fs[i];
            assert(f@ == all[i as int]);
            assert(all.take(i + 1).drop_last() =~= all.take(i as int));
            assert(all.take(i + 1).last() == all[i as int]);
            if f.number == 1 {
                match &f.value {
                    FieldValue::Varint(v) => {
                        if *v > u32::MAX as u64 {
                            proof {
                                assert(envelope_of(all.take(i + 1)) is None);
                                lemma_envelope_failure_persists(all, i + 1);
                            }
                            return Err(CodecError::Unexpected);
                        }
                        function = *v as u32;
                    },
                    FieldValue::Bytes(_) => {
                        proof {
                            assert(envelope_of(all.take(i + 1)) is None);
                            lemma_envelope_failure_persists(all, i + 1);
                        }
                        return Err(CodecError::Unexpected);
                    },
                }
            } else {
                payload = Some(copy_field(f));
            }
            i = i + 1;
        }
        assert(all.take(i as int) =~= all);
        Ok(Envelope { function, payload })
    }
}

/// A field equal to the given one.
pub fn copy_field(f: &Field) -> (r: Field)
    ensures
        r@ == f@,
{
    let value = match &f.value {
        FieldValue::Varint(v) => FieldValue::Varint(*v),
        FieldValue::Bytes(b) => {
            let mut c: Vec<u8> = Vec::new();
            c.extend_from_slice(b.as_slice());
            assert(c@ =~= b@);
            FieldValue::Bytes(c)
        },
    };
    Field { number: f.number, value }
}

} // verus!
