//! The bytes of a transition output.
//!
//! An output is written as its tag, in two bytes, its identifier, of a record
//! the checksum, and one byte that tells whether the payload follows. A payload
//! is written as the number of its bits, in eight bytes, and one byte for each
//! bit; the nonce of a record goes before the bits. Numbers and field elements
//! are written least significant byte first. No other string of bytes is the
//! encoding of an output.
use crate::error::Error;
use crate::field::{Field, Group, FIELD_BYTES};
use crate::output::{Output, OutputView};
use crate::value::{Ciphertext, EncryptedRecord, EncryptedRecordView, Plaintext};
use vstd::bytes::*;
use vstd::prelude::*;
use vstd::slice::*;

verus! {

/// The byte that stands for a bit.
pub open spec fn bit_byte(bit: bool) -> u8 {
    if bit {
        1
    } else {
        0
    }
}

/// The bytes of a string of bits: its length, and a byte for each bit.
pub open spec fn encode_bits(bits: Seq<bool>) -> Seq<u8> {
    spec_u64_to_le_bytes(bits.len() as u64) + Seq::new(bits.len(), |i: int| bit_byte(bits[i]))
}

/// The string of bits that the bytes encode, if they encode one.
pub open spec fn decode_bits(bytes: Seq<u8>) -> Option<Seq<bool>> {
    if bytes.len() >= 8 && spec_u64_from_le_bytes(bytes.subrange(0, 8)) == bytes.len() - 8
        && forall|i: int| 8 <= i < bytes.len() ==> #[trigger] bytes[i] <= 1 {
        Some(Seq::new((bytes.len() - 8) as nat, |i: int| bytes[i + 8] == 1))
    } else {
        None
    }
}

/// The bytes of the payload of a constant, public or private output.
pub open spec fn encode_payload(payload: Option<Seq<bool>>) -> Seq<u8> {
    match payload {
        None => seq![0u8],
        Some(bits) => seq![1u8] + encode_bits(bits),
    }
}

/// The payload that the bytes encode, if they encode one.
pub open spec fn decode_payload(bytes: Seq<u8>) -> Option<Option<Seq<bool>>> {
    if bytes.len() == 1 && bytes[0] == 0 {
        Some(None)
    } else if bytes.len() >= 1 && bytes[0] == 1 {
        match decode_bits(bytes.subrange(1, bytes.len() as int)) {
            Some(bits) => Some(Some(bits)),
            None => None,
        }
    } else {
        None
    }
}

/// The bytes of the payload of a record output.
pub open spec fn encode_record(payload: Option<EncryptedRecordView>) -> Seq<u8> {
    match payload {
        None => seq![0u8],
        Some(record) => seq![1u8] + record.nonce.x.bytes_le() + encode_bits(record.bits),
    }
}

/// The payload of a record output that the bytes encode, if they encode one.
pub open spec fn decode_record(bytes: Seq<u8>) -> Option<Option<EncryptedRecordView>> {
    if bytes.len() == 1 && bytes[0] == 0 {
        Some(None)
    } else if bytes.len() >= 1 + FIELD_BYTES && bytes[0] == 1 {
        match decode_bits(bytes.subrange(1 + FIELD_BYTES, bytes.len() as int)) {
            Some(bits) => Some(
                Some(
                    EncryptedRecordView {
                        nonce: Group { x: Field::parse_le(bytes.subrange(1, 1 + FIELD_BYTES)) },
                        bits,
                    },
                ),
            ),
            None => None,
        }
    } else {
        None
    }
}

/// What follows the tag and the identifier of an output.
pub open spec fn encode_body(output: OutputView) -> Seq<u8> {
    match output {
        OutputView::Constant(_, payload) => encode_payload(payload),
        OutputView::Public(_, payload) => encode_payload(payload),
        OutputView::Private(_, payload) => encode_payload(payload),
        OutputView::Record(_, checksum, payload) => checksum.bytes_le() + encode_record(payload),
        OutputView::ExternalRecord(_) => Seq::empty(),
    }
}

/// The bytes of an output.
pub open spec fn encode(output: OutputView) -> Seq<u8> {
    spec_u16_to_le_bytes(output.variant()) + output.id().bytes_le() + encode_body(output)
}

/// The output that the bytes encode, if they encode one.
pub open spec fn decode(bytes: Seq<u8>) -> Option<OutputView> {
    if bytes.len() < 2 + FIELD_BYTES {
        None
    } else {
        let variant = spec_u16_from_le_bytes(bytes.subrange(0, 2));
        let id = Field::parse_le(bytes.subrange(2, 2 + FIELD_BYTES));
        let body = bytes.subrange(2 + FIELD_BYTES, bytes.len() as int);
        if variant == 0 {
            match decode_payload(body) {
                Some(payload) => Some(OutputView::Constant(id, payload)),
                None => None,
            }
        } else if variant == 1 {
            match decode_payload(body) {
                Some(payload) => Some(OutputView::Public(id, payload)),
                None => None,
            }
        } else if variant == 2 {
            match decode_payload(body) {
                Some(payload) => Some(OutputView::Private(id, payload)),
                None => None,
            }
        } else if variant == 3 {
            if body.len() < FIELD_BYTES {
                None
            } else {
                match decode_record(body.subrange(FIELD_BYTES as int, body.len() as int)) {
                    Some(payload) => Some(
                        OutputView::Record(
                            id,
                            Field::parse_le(body.subrange(0, FIELD_BYTES as int)),
                            payload,
                        ),
                    ),
                    None => None,
                }
            }
        } else if variant == 4 && body.len() == 0 {
            Some(OutputView::ExternalRecord(id))
        } else {
            None
        }
    }
}

/// Tells whether an output can be written: the number of the bits of its
/// payload fits in eight bytes. This holds of every output in memory.
pub open spec fn encodable(output: OutputView) -> bool {
    output.preimage() matches Some(bits) ==> bits.len() <= u64::MAX
}

/// A string of bits is read back from its bytes.
pub proof fn lemma_bits_round_trip(bits: Seq<bool>)
    requires
        bits.len() <= u64::MAX,
    ensures
        decode_bits(encode_bits(bits)) == Some(bits),
        encode_bits(bits).len() == 8 + bits.len(),
{
    lemma_auto_spec_u64_to_from_le_bytes();
    let bytes = encode_bits(bits);
    let count = spec_u64_to_le_bytes(bits.len() as u64);
    assert(bytes.subrange(0, 8) =~= count);
    assert(Seq::new((bytes.len() - 8) as nat, |i: int| bytes[i + 8] == 1) =~= bits);
}

/// Bytes that encode a string of bits are the bytes of that string.
pub proof fn lemma_bits_canonical(bytes: Seq<u8>)
    requires
        decode_bits(bytes) is Some,
    ensures
        encode_bits(decode_bits(bytes).unwrap()) == bytes,
        decode_bits(bytes).unwrap().len() == bytes.len() - 8,
        decode_bits(bytes).unwrap().len() <= u64::MAX,
{
    lemma_auto_spec_u64_to_from_le_bytes();
    let bits = decode_bits(bytes).unwrap();
    let head = bytes.subrange(0, 8);
    assert(spec_u64_to_le_bytes(spec_u64_from_le_bytes(head)) == head);
    assert(encode_bits(bits) =~= bytes);
}

/// A payload is read back from its bytes.
pub proof fn lemma_payload_round_trip(payload: Option<Seq<bool>>)
    requires
        payload matches Some(bits) ==> bits.len() <= u64::MAX,
    ensures
        decode_payload(encode_payload(payload)) == Some(payload),
{
    match payload {
        None => {},
        Some(bits) => {
            lemma_bits_round_trip(bits);
            let bytes = encode_payload(payload);
            assert(bytes.subrange(1, bytes.len() as int) =~= encode_bits(bits));
        },
    }
}

/// Bytes that encode a payload are the bytes of that payload.
pub proof fn lemma_payload_canonical(bytes: Seq<u8>)
    requires
        decode_payload(bytes) is Some,
    ensures
        encode_payload(decode_payload(bytes).unwrap()) == bytes,
        decode_payload(bytes).unwrap() matches Some(bits) ==> bits.len() <= u64::MAX,
{
    if bytes.len() == 1 && bytes[0] == 0 {
        assert(seq![0u8] =~= bytes);
    } else {
        let tail = bytes.subrange(1, bytes.len() as int);
        lemma_bits_canonical(tail);
        assert(seq![1u8] + tail =~= bytes);
    }
}

/// The payload of a record output is read back from its bytes.
pub proof fn lemma_record_round_trip(payload: Option<EncryptedRecordView>)
    requires
        payload matches Some(record) ==> record.bits.len() <= u64::MAX,
    ensures
        decode_record(encode_record(payload)) == Some(payload),
{
    match payload {
        None => {},
        Some(record) => {
            lemma_bits_round_trip(record.bits);
            record.nonce.x.lemma_write_then_parse();
            let bytes = encode_record(payload);
            assert(bytes.subrange(1, 1 + FIELD_BYTES) =~= record.nonce.x.bytes_le());
            assert(bytes.subrange(1 + FIELD_BYTES, bytes.len() as int) =~= encode_bits(
                record.bits,
            ));
        },
    }
}

/// Bytes that encode the payload of a record output are the bytes of that
/// payload.
pub proof fn lemma_record_canonical(bytes: Seq<u8>)
    requires
        decode_record(bytes) is Some,
    ensures
        encode_record(decode_record(bytes).unwrap()) == bytes,
        decode_record(bytes).unwrap() matches Some(record) ==> record.bits.len() <= u64::MAX,
{
    if bytes.len() == 1 && bytes[0] == 0 {
        assert(seq![0u8] =~= bytes);
    } else {
        let nonce = bytes.subrange(1, 1 + FIELD_BYTES);
        let tail = bytes.subrange(1 + FIELD_BYTES, bytes.len() as int);
        lemma_bits_canonical(tail);
        Field::lemma_parse_then_write(nonce);
        assert(seq![1u8] + nonce + tail =~= bytes);
    }
}

/// Round trip. An output that is written and read again is the same output,
/// with the same variant and the same identifier.
pub proof fn lemma_round_trip(output: OutputView)
    requires
        encodable(output),
    ensures
        decode(encode(output)) == Some(output),
        decode(encode(output)) matches Some(read) && read.variant() == output.variant()
            && read.id() == output.id(),
{
    lemma_auto_spec_u16_to_from_le_bytes();
    let bytes = encode(output);
    let tag = spec_u16_to_le_bytes(output.variant());
    let id = output.id().bytes_le();
    let body = encode_body(output);
    output.id().lemma_write_then_parse();
    assert(bytes.subrange(0, 2) =~= tag);
    assert(bytes.subrange(2, 2 + FIELD_BYTES) =~= id);
    assert(bytes.subrange(2 + FIELD_BYTES, bytes.len() as int) =~= body);
    match output {
        OutputView::Constant(_, payload) => {
            lemma_payload_round_trip(payload);
        },
        OutputView::Public(_, payload) => {
            lemma_payload_round_trip(payload);
        },
        OutputView::Private(_, payload) => {
            lemma_payload_round_trip(payload);
        },
        OutputView::Record(_, checksum, payload) => {
            lemma_record_round_trip(payload);
            checksum.lemma_write_then_parse();
            assert(body.subrange(0, FIELD_BYTES as int) =~= checksum.bytes_le());
            assert(body.subrange(FIELD_BYTES as int, body.len() as int) =~= encode_record(
                payload,
            ));
        },
        OutputView::ExternalRecord(_) => {},
    }
}

/// Bytes that encode an output are the bytes of that output, and of no other.
pub proof fn lemma_canonical(bytes: Seq<u8>)
    requires
        decode(bytes) is Some,
    ensures
        encode(decode(bytes).unwrap()) == bytes,
        encodable(decode(bytes).unwrap()),
{
    lemma_auto_spec_u16_to_from_le_bytes();
    let output = decode(bytes).unwrap();
    let tag = bytes.subrange(0, 2);
    let id = bytes.subrange(2, 2 + FIELD_BYTES);
    let body = bytes.subrange(2 + FIELD_BYTES, bytes.len() as int);
    Field::lemma_parse_then_write(id);
    assert(spec_u16_to_le_bytes(spec_u16_from_le_bytes(tag)) == tag);
    let variant = spec_u16_from_le_bytes(tag);
    if variant == 0 || variant == 1 || variant == 2 {
        lemma_payload_canonical(body);
    } else if variant == 3 {
        let checksum = body.subrange(0, FIELD_BYTES as int);
        let tail = body.subrange(FIELD_BYTES as int, body.len() as int);
        Field::lemma_parse_then_write(checksum);
        lemma_record_canonical(tail);
        assert(checksum + tail =~= body);
    } else {
        assert(body =~= Seq::<u8>::empty());
    }
    assert(tag + id + body =~= bytes);
}

/// Two outputs with the same bytes are the same output.
pub proof fn lemma_encoding_is_injective(a: OutputView, b: OutputView)
    requires
        encodable(a),
        encodable(b),
        encode(a) == encode(b),
    ensures
        a == b,
{
    lemma_round_trip(a);
    lemma_round_trip(b);
}

/// Every output in memory can be written.
pub proof fn lemma_encodable(output: &Output)
    ensures
        encodable(output@),
{
    match output.payload_bits() {
        Some(bits) => {
            assert(bits.len() == bits@.len());
        },
        None => {},
    }
}

/// Appends the bytes of a string of bits.
fn write_bits(out: &mut Vec<u8>, bits: &Vec<bool>)
    ensures
        final(out)@ == old(out)@ + encode_bits(bits@),
{
    let mut count = u64_to_le_bytes(bits.len() as u64);
    out.append(&mut count);
    let ghost head = out@;
    let mut i: usize = 0;
    while i < bits.len()
        invariant
            i <= bits@.len(),
            out@ == head + Seq::new(i as nat, |j: int| bit_byte(bits@[j])),
        decreases bits@.len() - i,
    {
        out.push(if bits[i] { 1u8 } else { 0u8 });
        i = i + 1;
        assert(out@ =~= head + Seq::new(i as nat, |j: int| bit_byte(bits@[j])));
    }
    assert(out@ =~= old(out)@ + encode_bits(bits@));
}

/// Reads a string of bits from all of the given bytes.
fn read_bits(bytes: &[u8]) -> (r: Option<Vec<bool>>)
    ensures
        match decode_bits(bytes@) {
            Some(bits) => r matches Some(read) && read@ == bits,
            None => r is None,
        },
{
    if bytes.len() < 8 {
        return None;
    }
    let count = u64_from_le_bytes(slice_subrange(bytes, 0, 8));
    if count != (bytes.len() - 8) as u64 {
        return None;
    }
    let mut bits: Vec<bool> = Vec::new();
    let mut i: usize = 8;
    while i < bytes.len()
        invariant
            8 <= i <= bytes@.len(),
            bits@.len() == i - 8,
            forall|j: int| 8 <= j < i ==> #[trigger] bytes@[j] <= 1,
            forall|j: int| 0 <= j < i - 8 ==> bits@[j] == (bytes@[j + 8] == 1),
        decreases bytes@.len() - i,
    {
        let byte = bytes[i];
        if byte > 1 {
            return None;
        }
        bits.push(byte == 1);
        i = i + 1;
    }
    assert(bits@ =~= decode_bits(bytes@).unwrap());
    Some(bits)
}

/// Reads the payload of a constant, public or private output from all of the
/// given bytes.
fn read_payload(bytes: &[u8]) -> (r: Option<Option<Vec<bool>>>)
    ensures
        match decode_payload(bytes@) {
            Some(Some(bits)) => r matches Some(Some(read)) && read@ == bits,
            Some(None) => r == Some(None::<Vec<bool>>),
            None => r is None,
        },
{
    if bytes.len() == 0 {
        return None;
    }
    let flag = bytes[0];
    if flag == 0 {
        if bytes.len() == 1 {
            Some(None)
        } else {
            None
        }
    } else if flag == 1 {
        match read_bits(slice_subrange(bytes, 1, bytes.len())) {
            Some(bits) => Some(Some(bits)),
            None => None,
        }
    } else {
        None
    }
}

/// Reads the payload of a record output from all of the given bytes.
fn read_record(bytes: &[u8]) -> (r: Option<Option<EncryptedRecord>>)
    ensures
        match decode_record(bytes@) {
            Some(Some(record)) => r matches Some(Some(read)) && read@ == record,
            Some(None) => r == Some(None::<EncryptedRecord>),
            None => r is None,
        },
{
    if bytes.len() == 0 {
        return None;
    }
    let flag = bytes[0];
    if flag == 0 {
        if bytes.len() == 1 {
            Some(None)
        } else {
            None
        }
    } else if flag == 1 {
        if bytes.len() < 1 + FIELD_BYTES {
            return None;
        }
        let x = match Field::from_bytes_le(slice_subrange(bytes, 1, 1 + FIELD_BYTES)) {
            Some(x) => x,
            None => {
                return None;
            },
        };
        match read_bits(slice_subrange(bytes, 1 + FIELD_BYTES, bytes.len())) {
            Some(bits) => Some(Some(EncryptedRecord { nonce: Group { x }, bits })),
            None => None,
        }
    } else {
        None
    }
}

impl Output {
    /// Writes the output out.
    pub fn to_bytes_le(&self) -> (r: Vec<u8>)
        ensures
            r@ == encode(self@),
            encodable(self@),
            decode(r@) == Some(self@),
    {
        let mut out = u16_to_le_bytes(self.variant());
        let mut id = self.id().to_bytes_le();
        out.append(&mut id);
        match self {
            Output::Constant(_, None) | Output::Public(_, None) | Output::Private(_, None) => {
                out.push(0u8);
            },
            Output::Constant(_, Some(plaintext)) | Output::Public(_, Some(plaintext)) => {
                out.push(1u8);
                write_bits(&mut out, &plaintext.bits);
            },
            Output::Private(_, Some(ciphertext)) => {
                out.push(1u8);
                write_bits(&mut out, &ciphertext.bits);
            },
            Output::Record(_, checksum, None) => {
                let mut checksum = checksum.to_bytes_le();
                out.append(&mut checksum);
                out.push(0u8);
            },
            Output::Record(_, checksum, Some(record)) => {
                let mut checksum = checksum.to_bytes_le();
                out.append(&mut checksum);
                out.push(1u8);
                let mut nonce = record.nonce.x.to_bytes_le();
                out.append(&mut nonce);
                write_bits(&mut out, &record.bits);
            },
            Output::ExternalRecord(_) => {},
        }
        proof {
            assert(out@ =~= encode(self@));
            lemma_encodable(self);
            lemma_round_trip(self@);
        }
        out
    }

    /// Reads an output from all of the given bytes.
    ///
    /// The bytes are taken if and only if they are the bytes of an output, and
    /// the output that is returned is that output.
    pub fn from_bytes_le(bytes: &[u8]) -> (r: Result<Output, Error>)
        ensures
            match decode(bytes@) {
                Some(output) => r matches Ok(read) && read@ == output,
                None => r == Err::<Output, Error>(Error::SerializationError),
            },
            r matches Ok(read) ==> encode(read@) == bytes@,
            r is Err ==> forall|output: OutputView|
                encodable(output) ==> #[trigger] encode(output) != bytes@,
    {
        proof {
            if decode(bytes@) is Some {
                lemma_canonical(bytes@);
            } else {
                assert forall|output: OutputView| encodable(output) implies #[trigger] encode(
                    output,
                ) != bytes@ by {
                    lemma_round_trip(output);
                }
            }
        }
        if bytes.len() < 2 + FIELD_BYTES {
            return Err(Error::SerializationError);
        }
        let variant = u16_from_le_bytes(slice_subrange(bytes, 0, 2));
        let id = match Field::from_bytes_le(slice_subrange(bytes, 2, 2 + FIELD_BYTES)) {
            Some(id) => id,
            None => {
                return Err(Error::SerializationError);
            },
        };
        let body = slice_subrange(bytes, 2 + FIELD_BYTES, bytes.len());
        if variant == 0 {
            match read_payload(body) {
                Some(Some(bits)) => Ok(Output::Constant(id, Some(Plaintext { bits }))),
                Some(None) => Ok(Output::Constant(id, None)),
                None => Err(Error::SerializationError),
            }
        } else if variant == 1 {
            match read_payload(body) {
                Some(Some(bits)) => Ok(Output::Public(id, Some(Plaintext { bits }))),
                Some(None) => Ok(Output::Public(id, None)),
                None => Err(Error::SerializationError),
            }
        } else if variant == 2 {
            match read_payload(body) {
                Some(Some(bits)) => Ok(Output::Private(id, Some(Ciphertext { bits }))),
                Some(None) => Ok(Output::Private(id, None)),
                None => Err(Error::SerializationError),
            }
        } else if variant == 3 {
            if body.len() < FIELD_BYTES {
                return Err(Error::SerializationError);
            }
            let checksum = match Field::from_bytes_le(slice_subrange(body, 0, FIELD_BYTES)) {
                Some(checksum) => checksum,
                None => {
                    return Err(Error::SerializationError);
                },
            };
            match read_record(slice_subrange(body, FIELD_BYTES, body.len())) {
                Some(payload) => Ok(Output::Record(id, checksum, payload)),
                None => Err(Error::SerializationError),
            }
        } else if variant == 4 && body.len() == 0 {
            Ok(Output::ExternalRecord(id))
        } else {
            Err(Error::SerializationError)
        }
    }
}

} // verus!
