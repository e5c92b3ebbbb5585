//! The hash line of a record:
//! `$pdf$V*R*length*P*flag*id_len*id*u_len*u*o_len*o`, then `*oe_len*oe` and
//! `*ue_len*ue` for the seeds that the record holds.

use vstd::prelude::*;
use vstd::string::*;

use crate::extract::{extraction, integer_at, optional_bytes, Entries, PdfHashExtractor, Record};
use crate::limits::low32_signed;
use crate::pdf::key_of;
use crate::text::{decimal, decimal_of_nat, hex_encode, hex_text, join, lemma_decimal_star_free,
    lemma_hex_star_free, lemma_join_push, lemma_join_stars, push_signed, push_unsigned,
    star_free, stars, SEPARATOR};

verus! {

/// The text that every hash line starts with.
pub open spec fn pdf_prefix() -> Seq<char> {
    seq!['$', 'p', 'd', 'f', '$']
}

/// The metadata flag: `1` for true, `0` for false.
pub open spec fn flag(encrypt_metadata: bool) -> Seq<char> {
    if encrypt_metadata {
        seq!['1']
    } else {
        seq!['0']
    }
}

/// The two fields of a byte string: its length in bytes, in decimal, and
/// its bytes in hexadecimal.
pub open spec fn byte_fields(data: Seq<u8>) -> Seq<Seq<char>> {
    seq![decimal(data.len() as int), hex_text(data)]
}

/// The fields of an optional byte string: two where it is there, none where
/// it is not.
pub open spec fn optional_fields(data: Option<Seq<u8>>) -> Seq<Seq<char>> {
    match data {
        Some(bytes) => byte_fields(bytes),
        None => Seq::empty(),
    }
}

/// The eleven fields that every hash line has, in order.
pub open spec fn required_fields(record: Record) -> Seq<Seq<char>> {
    seq![
        decimal(record.algorithm),
        decimal(record.revision),
        decimal(record.length),
        decimal(record.permissions),
        flag(record.encrypt_metadata),
    ] + byte_fields(record.document_id) + byte_fields(record.user_password) + byte_fields(
        record.owner_password,
    )
}

/// All fields of a hash line, in order: the required ones, then those of
/// the owner seed, then those of the user seed.
pub open spec fn fields(record: Record) -> Seq<Seq<char>> {
    required_fields(record) + optional_fields(record.owner_encryption_seed) + optional_fields(
        record.user_encryption_seed,
    )
}

/// The hash line of a record.
pub open spec fn hash_line(record: Record) -> Seq<char> {
    pdf_prefix() + join(fields(record))
}

/// The number of fields that the separators divide a text into.
pub open spec fn field_count(text: Seq<char>) -> nat {
    stars(text) + 1
}

/// The number of fields in the hash line of a record: eleven, and two more
/// for each seed that the record holds.
pub open spec fn expected_field_count(record: Record) -> nat {
    let owner: nat = if record.owner_encryption_seed is Some {
        2
    } else {
        0
    };
    let user: nat = if record.user_encryption_seed is Some {
        2
    } else {
        0
    };
    11 + owner + user
}

proof fn lemma_join_byte_fields(done: Seq<Seq<char>>, data: Seq<u8>)
    requires
        done.len() >= 1,
    ensures
        join(done + byte_fields(data)) == join(done) + seq![SEPARATOR] + decimal(
            data.len() as int,
        ) + seq![SEPARATOR] + hex_text(data),
{
    let length = decimal(data.len() as int);
    assert(done + byte_fields(data) == done.push(length).push(hex_text(data)));
    lemma_join_push(done, length);
    lemma_join_push(done.push(length), hex_text(data));
}

/// Starts a line: the prefix and the first field.
fn start_line(first: i64) -> (out: String)
    ensures
        out@ == pdf_prefix() + join(seq![decimal(first as int)]),
{
    let mut out = String::new();
    out.push('$');
    out.push('p');
    out.push('d');
    out.push('f');
    out.push('$');
    assert(out@ == pdf_prefix());
    push_signed(&mut out, first);
    out
}

/// Appends a separator and a number to a line that holds the fields `done`.
fn push_number_field(out: &mut String, n: i64, Ghost(done): Ghost<Seq<Seq<char>>>)
    requires
        done.len() >= 1,
        old(out)@ == pdf_prefix() + join(done),
    ensures
        final(out)@ == pdf_prefix() + join(done.push(decimal(n as int))),
{
    out.push(SEPARATOR);
    push_signed(out, n);
    proof {
        lemma_join_push(done, decimal(n as int));
    }
}

/// Appends a separator and the metadata flag.
fn push_flag_field(out: &mut String, encrypt_metadata: bool, Ghost(done): Ghost<Seq<Seq<char>>>)
    requires
        done.len() >= 1,
        old(out)@ == pdf_prefix() + join(done),
    ensures
        final(out)@ == pdf_prefix() + join(done.push(flag(encrypt_metadata))),
{
    out.push(SEPARATOR);
    out.push(if encrypt_metadata { '1' } else { '0' });
    proof {
        lemma_join_push(done, flag(encrypt_metadata));
    }
}

/// Appends the length and the hexadecimal text of a byte string, each
/// after a separator.
fn push_byte_fields(out: &mut String, data: &Vec<u8>, Ghost(done): Ghost<Seq<Seq<char>>>)
    requires
        done.len() >= 1,
        old(out)@ == pdf_prefix() + join(done),
    ensures
        final(out)@ == pdf_prefix() + join(done + byte_fields(data@)),
{
    out.push(SEPARATOR);
    push_unsigned(out, data.len() as u64);
    out.push(SEPARATOR);
    let hex = hex_encode(data.as_slice());
    out.append(hex.as_str());
    proof {
        lemma_join_byte_fields(done, data@);
    }
}

/// Appends the fields of a seed, if the record holds it.
fn push_optional_fields(out: &mut String, data: &Option<Vec<u8>>, Ghost(done): Ghost<
    Seq<Seq<char>>,
>)
    requires
        done.len() >= 1,
        old(out)@ == pdf_prefix() + join(done),
    ensures
        final(out)@ == pdf_prefix() + join(done + optional_fields(optional_bytes(*data))),
{
    match data {
        Some(bytes) => {
            push_byte_fields(out, bytes, Ghost(done));
        },
        None => {
            assert(done + Seq::<Seq<char>>::empty() == done);
        },
    }
}

impl PdfHashExtractor {
    /// Renders the record as one hash line, without a newline.
    pub fn format_hash(&self) -> (line: String)
        ensures
            line@ == hash_line(self@),
    {
        let ghost record = self@;
        let mut out = start_line(self.algorithm);
        let ghost f1 = seq![decimal(record.algorithm)];
        push_number_field(&mut out, self.revision, Ghost(f1));
        let ghost f2 = f1.push(decimal(record.revision));
        push_number_field(&mut out, self.length, Ghost(f2));
        let ghost f3 = f2.push(decimal(record.length));
        push_number_field(&mut out, self.permissions, Ghost(f3));
        let ghost f4 = f3.push(decimal(record.permissions));
        push_flag_field(&mut out, self.encrypt_metadata, Ghost(f4));
        let ghost f5 = f4.push(flag(record.encrypt_metadata));
        push_byte_fields(&mut out, &self.document_id, Ghost(f5));
        let ghost f7 = f5 + byte_fields(record.document_id);
        push_byte_fields(&mut out, &self.user_password, Ghost(f7));
        let ghost f9 = f7 + byte_fields(record.user_password);
        push_byte_fields(&mut out, &self.owner_password, Ghost(f9));
        let ghost f11 = f9 + byte_fields(record.owner_password);
        assert(f11 == required_fields(record));
        push_optional_fields(&mut out, &self.owner_encryption_seed, Ghost(f11));
        let ghost f13 = f11 + optional_fields(record.owner_encryption_seed);
        push_optional_fields(&mut out, &self.user_encryption_seed, Ghost(f13));
        out
    }
}

/// Every field of a hash line is free of separators, and there are eleven
/// of them, plus two for each seed that the record holds.
pub proof fn lemma_fields(record: Record)
    ensures
        fields(record).len() == expected_field_count(record),
        forall|i: int| 0 <= i < fields(record).len() ==> star_free(#[trigger] fields(record)[i]),
{
    let required = required_fields(record);
    lemma_decimal_star_free(record.algorithm);
    lemma_decimal_star_free(record.revision);
    lemma_decimal_star_free(record.length);
    lemma_decimal_star_free(record.permissions);
    lemma_byte_fields_star_free(record.document_id);
    lemma_byte_fields_star_free(record.user_password);
    lemma_byte_fields_star_free(record.owner_password);
    assert(required.len() == 11);
    assert forall|i: int| 0 <= i < required.len() implies star_free(#[trigger] required[i]) by {
        if i >= 9 {
            assert(required[i] == byte_fields(record.owner_password)[i - 9]);
        } else if i >= 7 {
            assert(required[i] == byte_fields(record.user_password)[i - 7]);
        } else if i >= 5 {
            assert(required[i] == byte_fields(record.document_id)[i - 5]);
        }
    }
    lemma_optional_fields_star_free(record.owner_encryption_seed);
    lemma_optional_fields_star_free(record.user_encryption_seed);
}

proof fn lemma_byte_fields_star_free(data: Seq<u8>)
    ensures
        byte_fields(data).len() == 2,
        star_free(byte_fields(data)[0]),
        star_free(byte_fields(data)[1]),
{
    lemma_decimal_star_free(data.len() as int);
    lemma_hex_star_free(data);
}

proof fn lemma_optional_fields_star_free(data: Option<Seq<u8>>)
    ensures
        optional_fields(data).len() == if data is Some {
            2nat
        } else {
            0nat
        },
        forall|i: int|
            0 <= i < optional_fields(data).len() ==> star_free(#[trigger] optional_fields(data)[i]),
{
    if let Some(bytes) = data {
        lemma_byte_fields_star_free(bytes);
    }
}

/// After its prefix, the hash line of a record falls into exactly eleven
/// fields where the record holds no seed, thirteen where it holds one, and
/// fifteen where it holds both; the seed fields come last, the owner's
/// before the user's, and an absent seed leaves nothing behind.
pub proof fn lemma_field_count(record: Record)
    ensures
        hash_line(record) == pdf_prefix() + join(
            required_fields(record) + optional_fields(record.owner_encryption_seed)
                + optional_fields(record.user_encryption_seed),
        ),
        required_fields(record).len() == 11,
        field_count(join(fields(record))) == expected_field_count(record),
        field_count(hash_line(record).skip(5)) == expected_field_count(record),
{
    lemma_fields(record);
    lemma_join_stars(fields(record));
    assert(hash_line(record).skip(5) == join(fields(record)));
}

/// Records with the same content have the same hash line.
pub proof fn lemma_format_deterministic(a: PdfHashExtractor, b: PdfHashExtractor)
    requires
        a@ == b@,
    ensures
        hash_line(a@) == hash_line(b@),
{
}

/// The permission field of the hash line is the stored mask read as 32
/// signed bits: where bit 31 of the stored value is set, whatever the higher
/// bits are, the field is a minus sign and the digits of the magnitude.
pub proof fn lemma_signed_permissions(encrypt: Entries, trailer: Entries)
    requires
        extraction(Some(encrypt), trailer) is Ok,
    ensures
        ({
            let raw = integer_at(encrypt, key_of("P")).unwrap() as int;
            let record = extraction(Some(encrypt), trailer).unwrap();
            &&& record.permissions == low32_signed(raw)
            &&& fields(record)[3] == decimal(low32_signed(raw))
            &&& raw % 0x1_0000_0000 >= 0x8000_0000 ==> fields(record)[3] == seq!['-']
                + decimal_of_nat((0x1_0000_0000 - raw % 0x1_0000_0000) as nat)
        }),
{
}

} // verus!
