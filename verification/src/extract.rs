//! From a parsed document to the record of its encryption parameters.

use vstd::prelude::*;
use vstd::slice::slice_to_vec;

use crate::error::{field_error, field_failure, Absent, ExtractError};
use crate::limits::{low32_signed, max_len, max_password_length, prefix, signed_permissions,
    truncate};
use crate::pdf::{dictionary_entries, encryption_entries, key_of, trailer, trailer_entries,
    Value};

verus! {

/// The key length that a document without a `/Length` entry is taken to have.
pub const DEFAULT_KEY_LENGTH: i64 = 40;

/// The encryption parameters of one document.
pub struct PdfHashExtractor {
    pub algorithm: i64,
    pub revision: i64,
    pub length: i64,
    pub permissions: i64,
    pub encrypt_metadata: bool,
    pub document_id: Vec<u8>,
    pub user_password: Vec<u8>,
    pub owner_password: Vec<u8>,
    pub owner_encryption_seed: Option<Vec<u8>>,
    pub user_encryption_seed: Option<Vec<u8>>,
}

/// The mathematical content of a [`PdfHashExtractor`].
pub struct Record {
    pub algorithm: int,
    pub revision: int,
    pub length: int,
    pub permissions: int,
    pub encrypt_metadata: bool,
    pub document_id: Seq<u8>,
    pub user_password: Seq<u8>,
    pub owner_password: Seq<u8>,
    pub owner_encryption_seed: Option<Seq<u8>>,
    pub user_encryption_seed: Option<Seq<u8>>,
}

/// The bytes of an optional field, if it is there.
pub open spec fn optional_bytes(field: Option<Vec<u8>>) -> Option<Seq<u8>> {
    match field {
        Some(bytes) => Some(bytes@),
        None => None,
    }
}

impl View for PdfHashExtractor {
    type V = Record;

    open spec fn view(&self) -> Record {
        Record {
            algorithm: self.algorithm as int,
            revision: self.revision as int,
            length: self.length as int,
            permissions: self.permissions as int,
            encrypt_metadata: self.encrypt_metadata,
            document_id: self.document_id@,
            user_password: self.user_password@,
            owner_password: self.owner_password@,
            owner_encryption_seed: optional_bytes(self.owner_encryption_seed),
            user_encryption_seed: optional_bytes(self.user_encryption_seed),
        }
    }
}

impl Record {
    /// What extraction guarantees of every record it returns: the permission
    /// mask is a 32-bit signed value, and no hash or seed is longer than the
    /// revision allows.
    pub open spec fn well_formed(self) -> bool {
        &&& -0x8000_0000 <= self.permissions < 0x8000_0000
        &&& self.user_password.len() <= max_len(self.revision)
        &&& self.owner_password.len() <= max_len(self.revision)
        &&& self.owner_encryption_seed matches Some(seed) ==> seed.len() <= max_len(self.revision)
        &&& self.user_encryption_seed matches Some(seed) ==> seed.len() <= max_len(self.revision)
    }
}

/// The entries of a dictionary, by key.
pub type Entries = Map<Seq<u8>, Value>;

/// The integer stored under `key`.
pub open spec fn integer_at(entries: Entries, key: Seq<u8>) -> Result<i64, Absent> {
    if !entries.contains_key(key) {
        Err(Absent::Missing)
    } else {
        match entries[key] {
            Value::Integer(n) => Ok(n),
            _ => Err(Absent::Invalid),
        }
    }
}

/// The boolean stored under `key`.
pub open spec fn boolean_at(entries: Entries, key: Seq<u8>) -> Result<bool, Absent> {
    if !entries.contains_key(key) {
        Err(Absent::Missing)
    } else {
        match entries[key] {
            Value::Boolean(b) => Ok(b),
            _ => Err(Absent::Invalid),
        }
    }
}

/// The byte string stored under `key`.
pub open spec fn bytes_at(entries: Entries, key: Seq<u8>) -> Result<Seq<u8>, Absent> {
    if !entries.contains_key(key) {
        Err(Absent::Missing)
    } else {
        match entries[key] {
            Value::Bytes(bytes) => Ok(bytes),
            _ => Err(Absent::Invalid),
        }
    }
}

/// The byte string that is the first element of the array stored under `key`.
pub open spec fn first_bytes_at(entries: Entries, key: Seq<u8>) -> Result<Seq<u8>, Absent> {
    if !entries.contains_key(key) {
        Err(Absent::Missing)
    } else {
        match entries[key] {
            Value::Array(items) => if items.len() == 0 {
                Err(Absent::Invalid)
            } else {
                match items[0] {
                    Value::Bytes(bytes) => Ok(bytes),
                    _ => Err(Absent::Invalid),
                }
            },
            _ => Err(Absent::Invalid),
        }
    }
}

/// The key length: the integer under `/Length`, or the default without
/// one. An entry of another kind yields no value.
pub open spec fn key_length_of(encrypt: Entries) -> Result<i64, Absent> {
    if !encrypt.contains_key(key_of("Length")) {
        Ok(DEFAULT_KEY_LENGTH)
    } else {
        integer_at(encrypt, key_of("Length"))
    }
}

/// Whether metadata is encrypted: the boolean under `/EncryptMetadata`, and
/// `true` where there is none.
pub open spec fn encrypt_metadata_of(encrypt: Entries) -> bool {
    match boolean_at(encrypt, key_of("EncryptMetadata")) {
        Ok(b) => b,
        Err(_) => true,
    }
}

/// An optional seed: the byte string under `key`, cut to `max` bytes, or
/// nothing where the entry is absent or of another kind.
pub open spec fn seed_of(encrypt: Entries, key: Seq<u8>, max: nat) -> Option<Seq<u8>> {
    match bytes_at(encrypt, key) {
        Ok(bytes) => Some(prefix(bytes, max)),
        Err(_) => None,
    }
}

/// The failure that extraction reports, if any. The entries that cannot be
/// done without are looked at first, in the order `/V`, `/R`, `/P`, `/ID`,
/// `/U`, `/O`, and the first of them that yields no value is reported. A
/// `/Length` of the wrong kind is reported only where all of those are in
/// order.
pub open spec fn first_failure(encrypt: Entries, trailer: Entries) -> Option<ExtractError> {
    if let Err(why) = integer_at(encrypt, key_of("V")) {
        Some(field_failure("/V", why))
    } else if let Err(why) = integer_at(encrypt, key_of("R")) {
        Some(field_failure("/R", why))
    } else if let Err(why) = integer_at(encrypt, key_of("P")) {
        Some(field_failure("/P", why))
    } else if let Err(why) = first_bytes_at(trailer, key_of("ID")) {
        Some(field_failure("/ID", why))
    } else if let Err(why) = bytes_at(encrypt, key_of("U")) {
        Some(field_failure("/U", why))
    } else if let Err(why) = bytes_at(encrypt, key_of("O")) {
        Some(field_failure("/O", why))
    } else if let Err(why) = key_length_of(encrypt) {
        Some(field_failure("/Length", why))
    } else {
        None
    }
}

/// The record that the two dictionaries describe, where no required field fails.
pub open spec fn record_of(encrypt: Entries, trailer: Entries) -> Record {
    let revision = integer_at(encrypt, key_of("R")).unwrap() as int;
    let max = max_len(revision);
    Record {
        algorithm: integer_at(encrypt, key_of("V")).unwrap() as int,
        revision,
        length: key_length_of(encrypt).unwrap() as int,
        permissions: low32_signed(integer_at(encrypt, key_of("P")).unwrap() as int),
        encrypt_metadata: encrypt_metadata_of(encrypt),
        document_id: first_bytes_at(trailer, key_of("ID")).unwrap(),
        user_password: prefix(bytes_at(encrypt, key_of("U")).unwrap(), max),
        owner_password: prefix(bytes_at(encrypt, key_of("O")).unwrap(), max),
        owner_encryption_seed: seed_of(encrypt, key_of("OE"), max),
        user_encryption_seed: seed_of(encrypt, key_of("UE"), max),
    }
}

/// What extraction yields for an encryption dictionary, if the document has
/// one, and a trailer.
pub open spec fn extraction(encrypt: Option<Entries>, trailer: Entries) -> Result<
    Record,
    ExtractError,
> {
    match encrypt {
        None => Err(ExtractError::NotEncrypted),
        Some(entries) => match first_failure(entries, trailer) {
            Some(failure) => Err(failure),
            None => Ok(record_of(entries, trailer)),
        },
    }
}

/// What extraction yields for a parsed document.
pub open spec fn extracted(doc: lopdf::Document) -> Result<Record, ExtractError> {
    extraction(encryption_entries(doc), trailer_entries(doc))
}

/// Whether an outcome of extraction is the one that `expected` describes.
pub open spec fn agrees(
    outcome: Result<PdfHashExtractor, ExtractError>,
    expected: Result<Record, ExtractError>,
) -> bool {
    match outcome {
        Ok(record) => expected == Ok::<Record, ExtractError>(record@),
        Err(failure) => expected == Err::<Record, ExtractError>(failure),
    }
}

/// Every record that extraction yields is well formed: its hashes and seeds
/// are the first `min(length, limit)` bytes of what the dictionary holds,
/// and its permission mask is the stored one read as 32 signed bits.
pub proof fn lemma_extraction_well_formed(encrypt: Entries, trailer: Entries)
    requires
        extraction(Some(encrypt), trailer) is Ok,
    ensures
        extraction(Some(encrypt), trailer).unwrap().well_formed(),
        extraction(Some(encrypt), trailer).unwrap() == record_of(encrypt, trailer),
{
}

/// A document identifier that is there but is no array is reported as
/// such wherever the algorithm, the revision, the permissions and the two
/// hashes are in order, whatever `/Length` holds.
pub proof fn lemma_invalid_document_id(encrypt: Entries, trailer: Entries)
    requires
        integer_at(encrypt, key_of("V")) is Ok,
        integer_at(encrypt, key_of("R")) is Ok,
        integer_at(encrypt, key_of("P")) is Ok,
        bytes_at(encrypt, key_of("U")) is Ok,
        bytes_at(encrypt, key_of("O")) is Ok,
        trailer.contains_key(key_of("ID")),
        !(trailer[key_of("ID")] is Array),
    ensures
        extraction(Some(encrypt), trailer) == Err::<Record, ExtractError>(
            ExtractError::InvalidField("/ID"),
        ),
{
}

/// Reads the integer stored under `key`.
pub fn get_integer(dict: &lopdf::Dictionary, key: &str) -> (r: Result<i64, Absent>)
    ensures
        r == integer_at(dictionary_entries(*dict), key_of(key)),
{
    match dict.get(key.as_bytes()) {
        Err(_) => Err(Absent::Missing),
        Ok(object) => match object.as_i64() {
            Ok(n) => Ok(n),
            Err(_) => Err(Absent::Invalid),
        },
    }
}

/// Reads the boolean stored under `key`.
pub fn get_boolean(dict: &lopdf::Dictionary, key: &str) -> (r: Result<bool, Absent>)
    ensures
        r == boolean_at(dictionary_entries(*dict), key_of(key)),
{
    match dict.get(key.as_bytes()) {
        Err(_) => Err(Absent::Missing),
        Ok(object) => match object.as_bool() {
            Ok(b) => Ok(b),
            Err(_) => Err(Absent::Invalid),
        },
    }
}

/// Reads a copy of the byte string stored under `key`.
pub fn get_bytes(dict: &lopdf::Dictionary, key: &str) -> (r: Result<Vec<u8>, Absent>)
    ensures
        match r {
            Ok(bytes) => bytes_at(dictionary_entries(*dict), key_of(key)) == Ok::<
                Seq<u8>,
                Absent,
            >(bytes@),
            Err(why) => bytes_at(dictionary_entries(*dict), key_of(key)) == Err::<
                Seq<u8>,
                Absent,
            >(why),
        },
{
    match dict.get(key.as_bytes()) {
        Err(_) => Err(Absent::Missing),
        Ok(object) => match object.as_str() {
            Ok(bytes) => Ok(slice_to_vec(bytes)),
            Err(_) => Err(Absent::Invalid),
        },
    }
}

/// Reads a copy of the byte string that is the first element of the array
/// stored under `key`.
pub fn get_first_bytes(dict: &lopdf::Dictionary, key: &str) -> (r: Result<Vec<u8>, Absent>)
    ensures
        match r {
            Ok(bytes) => first_bytes_at(dictionary_entries(*dict), key_of(key)) == Ok::<
                Seq<u8>,
                Absent,
            >(bytes@),
            Err(why) => first_bytes_at(dictionary_entries(*dict), key_of(key)) == Err::<
                Seq<u8>,
                Absent,
            >(why),
        },
{
    let object = match dict.get(key.as_bytes()) {
        Err(_) => { return Err(Absent::Missing); },
        Ok(object) => object,
    };
    let items = match object.as_array() {
        Err(_) => { return Err(Absent::Invalid); },
        Ok(items) => items,
    };
    if items.len() == 0 {
        return Err(Absent::Invalid);
    }
    match items[0].as_str() {
        Ok(bytes) => Ok(slice_to_vec(bytes)),
        Err(_) => Err(Absent::Invalid),
    }
}

/// Reads an optional seed and cuts it to `max` bytes.
pub fn get_seed(dict: &lopdf::Dictionary, key: &str, max: usize) -> (r: Option<Vec<u8>>)
    ensures
        optional_bytes(r) == seed_of(dictionary_entries(*dict), key_of(key), max as nat),
{
    match get_bytes(dict, key) {
        Ok(bytes) => Some(truncate(bytes.as_slice(), max)),
        Err(_) => None,
    }
}

impl PdfHashExtractor {
    /// Extracts the record from an encryption dictionary and a trailer.
    pub fn from_dictionaries(encrypt: &lopdf::Dictionary, trailer: &lopdf::Dictionary) -> (r:
        Result<Self, ExtractError>)
        ensures
            agrees(
                r,
                extraction(Some(dictionary_entries(*encrypt)), dictionary_entries(*trailer)),
            ),
            r matches Ok(record) ==> record@.well_formed(),
    {
        let algorithm = match get_integer(encrypt, "V") {
            Ok(n) => n,
            Err(why) => { return Err(field_error("/V", why)); },
        };
        let revision = match get_integer(encrypt, "R") {
            Ok(n) => n,
            Err(why) => { return Err(field_error("/R", why)); },
        };
        let raw_permissions = match get_integer(encrypt, "P") {
            Ok(n) => n,
            Err(why) => { return Err(field_error("/P", why)); },
        };
        let permissions = signed_permissions(raw_permissions);
        let encrypt_metadata = match get_boolean(encrypt, "EncryptMetadata") {
            Ok(b) => b,
            Err(_) => true,
        };
        let document_id = match get_first_bytes(trailer, "ID") {
            Ok(bytes) => bytes,
            Err(why) => { return Err(field_error("/ID", why)); },
        };
        let max = max_password_length(revision);
        let user_password = match get_bytes(encrypt, "U") {
            Ok(bytes) => truncate(bytes.as_slice(), max),
            Err(why) => { return Err(field_error("/U", why)); },
        };
        let owner_password = match get_bytes(encrypt, "O") {
            Ok(bytes) => truncate(bytes.as_slice(), max),
            Err(why) => { return Err(field_error("/O", why)); },
        };
        let length = match get_integer(encrypt, "Length") {
            Ok(n) => n,
            Err(Absent::Missing) => DEFAULT_KEY_LENGTH,
            Err(Absent::Invalid) => { return Err(field_error("/Length", Absent::Invalid)); },
        };
        let owner_encryption_seed = get_seed(encrypt, "OE", max);
        let user_encryption_seed = get_seed(encrypt, "UE", max);
        Ok(
            PdfHashExtractor {
                algorithm,
                revision,
                length,
                permissions,
                encrypt_metadata,
                document_id,
                user_password,
                owner_password,
                owner_encryption_seed,
                user_encryption_seed,
            },
        )
    }

    /// Extracts the record from a parsed document.
    pub fn from_document(doc: &lopdf::Document) -> (r: Result<Self, ExtractError>)
        ensures
            agrees(r, extracted(*doc)),
            r matches Ok(record) ==> record@.well_formed(),
    {
        match doc.get_encrypted() {
            Err(_) => Err(ExtractError::NotEncrypted),
            Ok(encrypt) => Self::from_dictionaries(encrypt, trailer(doc)),
        }
    }
}

} // verus!
