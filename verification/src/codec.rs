//! The wire codec: client JSON to canonical records and back.
//!
//! Decoding accepts both the flat envelope and the nested
//! `{cipher: {...}, collectionIds: [...]}` shape, coerces boolean-like fields
//! from native booleans or the integers 0/1, and ignores unknown fields.
//! Encoding emits the exact response field set, in a fixed order, with the
//! payload variant selected by the record kind and the other variants null.

use vstd::prelude::*;

use crate::cipher::{Cipher, CipherData, CipherRequestData, CreateCipherRequest};
use crate::cipher::{opt_i32_json, opt_string_json, payload_matches};
use crate::error::DecodeError;
use crate::json::{lemma_lookup_at_first_match, lemma_lookup_no_match};
use crate::json::{take_field, JsonValue};

verus! {

// ---------------------------------------------------------------------------
// Field conversions
// ---------------------------------------------------------------------------
/// An optional string field: absent and null read as absent.
pub open spec fn spec_opt_string(o: Option<JsonValue>) -> Result<Option<String>, DecodeError> {
    match o {
        None => Ok(None),
        Some(JsonValue::Null) => Ok(None),
        Some(JsonValue::Str(s)) => Ok(Some(s)),
        Some(_) => Err(DecodeError::BadString),
    }
}

/// A boolean-like value: a native boolean, or the integers 0/1.
pub open spec fn spec_bool_coerce(v: JsonValue) -> Result<bool, DecodeError> {
    match v {
        JsonValue::Bool(b) => Ok(b),
        JsonValue::Int(n) => if n == 0 {
            Ok(false)
        } else if n == 1 {
            Ok(true)
        } else {
            Err(DecodeError::BadBool)
        },
        _ => Err(DecodeError::BadBool),
    }
}

/// A boolean-like field with a default for an absent value.
pub open spec fn spec_opt_bool(o: Option<JsonValue>, default: bool) -> Result<bool, DecodeError> {
    match o {
        None => Ok(default),
        Some(v) => spec_bool_coerce(v),
    }
}

/// An optional 32-bit integer field: absent and null read as absent.
pub open spec fn spec_opt_i32(o: Option<JsonValue>) -> Result<Option<i32>, DecodeError> {
    match o {
        None => Ok(None),
        Some(JsonValue::Null) => Ok(None),
        Some(JsonValue::Int(n)) => if i32::MIN as i64 <= n && n <= i32::MAX as i64 {
            Ok(Some(n as i32))
        } else {
            Err(DecodeError::BadInt)
        },
        Some(_) => Err(DecodeError::BadInt),
    }
}

/// An opaque optional field: absent and null read as absent, anything else is
/// carried unchanged.
pub open spec fn spec_opt_value(o: Option<JsonValue>) -> Option<JsonValue> {
    match o {
        None => None,
        Some(JsonValue::Null) => None,
        Some(v) => Some(v),
    }
}

/// The mandatory record kind: an integer naming one of the four payload
/// variants. An out-of-domain value is a client error, never stored.
pub open spec fn spec_kind_field(o: Option<JsonValue>) -> Result<i32, DecodeError> {
    match o {
        Some(JsonValue::Int(n)) => if 1 <= n && n <= 4 {
            Ok(n as i32)
        } else {
            Err(DecodeError::BadKind)
        },
        _ => Err(DecodeError::BadKind),
    }
}

/// A decoded kind is always in the enum's domain.
pub proof fn lemma_kind_field_in_domain(o: Option<JsonValue>)
    ensures
        spec_kind_field(o) matches Ok(k) ==> crate::valid_kind(k),
{
}

/// The mandatory record name: a string.
pub open spec fn spec_name_field(o: Option<JsonValue>) -> Result<String, DecodeError> {
    match o {
        Some(JsonValue::Str(s)) => Ok(s),
        _ => Err(DecodeError::BadName),
    }
}

/// Every element is a string.
pub open spec fn all_strings(items: Seq<JsonValue>) -> bool {
    forall|i: int| 0 <= i < items.len() ==> items[i] is Str
}

/// A list of strings, defaulting to empty when absent.
pub open spec fn spec_string_seq(o: Option<JsonValue>) -> Result<Seq<String>, DecodeError> {
    match o {
        None => Ok(Seq::empty()),
        Some(JsonValue::Arr(items)) => if all_strings(items@) {
            Ok(items@.map_values(|x: JsonValue| x->Str_0))
        } else {
            Err(DecodeError::BadStringArray)
        },
        Some(_) => Err(DecodeError::BadStringArray),
    }
}

/// The wire field names that share a length differ; names of different
/// lengths differ without help once their literals are revealed.
pub(crate) proof fn lemma_wire_keys_distinct()
    ensures
        "type"@ != "name"@,
        "type"@ != "card"@,
        "type"@ != "edit"@,
        "name"@ != "card"@,
        "name"@ != "edit"@,
        "card"@ != "edit"@,
        "notes"@ != "login"@,
        "favorite"@ != "folderId"@,
        "favorite"@ != "reprompt"@,
        "favorite"@ != "identity"@,
        "folderId"@ != "reprompt"@,
        "folderId"@ != "identity"@,
        "reprompt"@ != "identity"@,
        "fields"@ != "cipher"@,
        "fields"@ != "Cipher"@,
        "fields"@ != "object"@,
        "fields"@ != "userId"@,
        "cipher"@ != "Cipher"@,
        "cipher"@ != "object"@,
        "cipher"@ != "userId"@,
        "Cipher"@ != "object"@,
        "Cipher"@ != "userId"@,
        "object"@ != "userId"@,
        "collectionIds"@ != "CollectionIds"@,
        "viewPassword"@ != "revisionDate"@,
        "viewPassword"@ != "creationDate"@,
        "revisionDate"@ != "creationDate"@,
        "permissions"@ != "deletedDate"@,
        "folders"@ != "ciphers"@,
{
    reveal_strlit("type");
    reveal_strlit("name");
    reveal_strlit("card");
    reveal_strlit("edit");
    reveal_strlit("notes");
    reveal_strlit("login");
    reveal_strlit("favorite");
    reveal_strlit("folderId");
    reveal_strlit("reprompt");
    reveal_strlit("identity");
    reveal_strlit("fields");
    reveal_strlit("cipher");
    reveal_strlit("Cipher");
    reveal_strlit("object");
    reveal_strlit("userId");
    reveal_strlit("collectionIds");
    reveal_strlit("CollectionIds");
    reveal_strlit("viewPassword");
    reveal_strlit("revisionDate");
    reveal_strlit("creationDate");
    reveal_strlit("permissions");
    reveal_strlit("deletedDate");
    reveal_strlit("folders");
    reveal_strlit("ciphers");
    assert("type"@[0] == 't' && "name"@[0] == 'n' && "card"@[0] == 'c' && "edit"@[0] == 'e');
    assert("notes"@[0] == 'n' && "login"@[0] == 'l');
    assert("favorite"@[1] == 'a' && "folderId"@[1] == 'o');
    assert("favorite"@[0] == 'f' && "reprompt"@[0] == 'r' && "identity"@[0] == 'i');
    assert("folderId"@[0] == 'f');
    assert("fields"@[1] == 'i' && "cipher"@[1] == 'i' && "fields"@[0] == 'f');
    assert("cipher"@[0] == 'c' && "Cipher"@[0] == 'C');
    assert("object"@[0] == 'o' && "userId"@[0] == 'u');
    assert("collectionIds"@[0] == 'c' && "CollectionIds"@[0] == 'C');
    assert("viewPassword"@[0] == 'v' && "revisionDate"@[0] == 'r' && "creationDate"@[0] == 'c');
    assert("permissions"@[0] == 'p' && "deletedDate"@[0] == 'd');
    assert("folders"@[0] == 'f' && "ciphers"@[0] == 'c');
}

pub(crate) fn conv_opt_string(o: Option<JsonValue>) -> (r: Result<Option<String>, DecodeError>)
    ensures
        r == spec_opt_string(o),
{
    match o {
        None => Ok(None),
        Some(JsonValue::Null) => Ok(None),
        Some(JsonValue::Str(s)) => Ok(Some(s)),
        Some(_) => Err(DecodeError::BadString),
    }
}

pub(crate) fn conv_opt_bool(o: Option<JsonValue>, default: bool) -> (r: Result<bool, DecodeError>)
    ensures
        r == spec_opt_bool(o, default),
{
    match o {
        None => Ok(default),
        Some(JsonValue::Bool(b)) => Ok(b),
        Some(JsonValue::Int(n)) => if n == 0 {
            Ok(false)
        } else if n == 1 {
            Ok(true)
        } else {
            Err(DecodeError::BadBool)
        },
        Some(_) => Err(DecodeError::BadBool),
    }
}

pub(crate) fn conv_opt_i32(o: Option<JsonValue>) -> (r: Result<Option<i32>, DecodeError>)
    ensures
        r == spec_opt_i32(o),
{
    match o {
        None => Ok(None),
        Some(JsonValue::Null) => Ok(None),
        Some(JsonValue::Int(n)) => if i32::MIN as i64 <= n && n <= i32::MAX as i64 {
            Ok(Some(n as i32))
        } else {
            Err(DecodeError::BadInt)
        },
        Some(_) => Err(DecodeError::BadInt),
    }
}

pub(crate) fn conv_opt_value(o: Option<JsonValue>) -> (r: Option<JsonValue>)
    ensures
        r == spec_opt_value(o),
{
    match o {
        None => None,
        Some(JsonValue::Null) => None,
        Some(v) => Some(v),
    }
}

pub(crate) fn conv_kind(o: Option<JsonValue>) -> (r: Result<i32, DecodeError>)
    ensures
        r == spec_kind_field(o),
{
    match o {
        Some(JsonValue::Int(n)) => if 1 <= n && n <= 4 {
            Ok(n as i32)
        } else {
            Err(DecodeError::BadKind)
        },
        _ => Err(DecodeError::BadKind),
    }
}

pub(crate) fn conv_name(o: Option<JsonValue>) -> (r: Result<String, DecodeError>)
    ensures
        r == spec_name_field(o),
{
    match o {
        Some(JsonValue::Str(s)) => Ok(s),
        _ => Err(DecodeError::BadName),
    }
}

fn conv_string_vec(o: Option<JsonValue>) -> (r: Result<Vec<String>, DecodeError>)
    ensures
        match r {
            Ok(vs) => spec_string_seq(o) == Ok::<Seq<String>, DecodeError>(vs@),
            Err(e) => spec_string_seq(o) == Err::<Seq<String>, DecodeError>(e),
        },
{
    let av = match o {
        None => {
            let vs: Vec<String> = Vec::new();
            assert(vs@ =~= Seq::<String>::empty());
            return Ok(vs);
        },
        Some(av) => av,
    };
    match av {
        JsonValue::Arr(items) => {
            let ghost items0 = items@;
            let mut items = items;
            let mut out: Vec<String> = Vec::new();
            while items.len() > 0
                invariant
                    o is Some && o->Some_0 is Arr && o->Some_0->Arr_0@ == items0,
                    items@ =~= items0.skip(items0.len() - items.len()),
                    items.len() <= items0.len(),
                    forall|j: int| 0 <= j < items0.len() - items.len() ==> items0[j] is Str,
                    out@ =~= items0.take(items0.len() - items.len()).map_values(
                        |x: JsonValue| x->Str_0,
                    ),
                decreases items.len(),
            {
                let ghost k: int = items0.len() - items.len();
                let e = items.remove(0);
                proof {
                    assert(e == items0.skip(k)[0]);
                    assert(e == items0[k]);
                }
                match e {
                    JsonValue::Str(s) => {
                        out.push(s);
                        proof {
                            assert(items0.take(k + 1) =~= items0.take(k).push(items0[k]));
                            assert(items0.take(k + 1).map_values(|x: JsonValue| x->Str_0)
                                =~= items0.take(k).map_values(|x: JsonValue| x->Str_0).push(
                                items0[k]->Str_0,
                            ));
                        }
                    },
                    _ => {
                        proof {
                            assert(0 <= k < items0.len() && !(items0[k] is Str));
                            assert(!all_strings(items0));
                            assert(spec_string_seq(o) is Err);
                        }
                        return Err(DecodeError::BadStringArray);
                    },
                }
            }
            proof {
                assert(items0.take(items0.len() as int) =~= items0);
            }
            Ok(out)
        },
        _ => Err(DecodeError::BadStringArray),
    }
}

// ---------------------------------------------------------------------------
// Decoding
// ---------------------------------------------------------------------------
/// What decoding a flat request record yields: the mandatory kind and name,
/// coerced and typed optional fields, opaque payload fields carried through,
/// unknown fields ignored.
pub open spec fn spec_decode_request_data(v: JsonValue) -> Result<
    CipherRequestData,
    DecodeError,
> {
    if !(v is Obj) {
        Err(DecodeError::NotAnObject)
    } else {
        match spec_kind_field(v.get_spec("type"@)) {
            Err(e) => Err(e),
            Ok(kind) => match spec_name_field(v.get_spec("name"@)) {
                Err(e) => Err(e),
                Ok(name) => match spec_opt_string(v.get_spec("notes"@)) {
                    Err(e) => Err(e),
                    Ok(notes) => match spec_opt_bool(v.get_spec("favorite"@), false) {
                        Err(e) => Err(e),
                        Ok(favorite) => match spec_opt_string(v.get_spec("folderId"@)) {
                            Err(e) => Err(e),
                            Ok(folder_id) => match spec_opt_string(v.get_spec("organizationId"@)) {
                                Err(e) => Err(e),
                                Ok(organization_id) => match spec_opt_i32(
                                    v.get_spec("reprompt"@),
                                ) {
                                    Err(e) => Err(e),
                                    Ok(reprompt) => match spec_opt_string(
                                        v.get_spec("lastKnownRevisionDate"@),
                                    ) {
                                        Err(e) => Err(e),
                                        Ok(last_known_revision_date) => match spec_opt_string(
                                            v.get_spec("key"@),
                                        ) {
                                            Err(e) => Err(e),
                                            Ok(key) => Ok(
                                                CipherRequestData {
                                                    kind,
                                                    folder_id,
                                                    organization_id,
                                                    name,
                                                    notes,
                                                    favorite,
                                                    login: spec_opt_value(v.get_spec("login"@)),
                                                    card: spec_opt_value(v.get_spec("card"@)),
                                                    identity: spec_opt_value(
                                                        v.get_spec("identity"@),
                                                    ),
                                                    secure_note: spec_opt_value(
                                                        v.get_spec("secureNote"@),
                                                    ),
                                                    fields: spec_opt_value(v.get_spec("fields"@)),
                                                    password_history: spec_opt_value(
                                                        v.get_spec("passwordHistory"@),
                                                    ),
                                                    reprompt,
                                                    last_known_revision_date,
                                                    key,
                                                },
                                            ),
                                        },
                                    },
                                },
                            },
                        },
                    },
                },
            },
        }
    }
}

/// Decodes a flat request record.
pub fn decode_cipher_request_data(v: JsonValue) -> (r: Result<CipherRequestData, DecodeError>)
    ensures
        r == spec_decode_request_data(v),
{
    proof {
        reveal_strlit("type");
        reveal_strlit("name");
        reveal_strlit("notes");
        reveal_strlit("favorite");
        reveal_strlit("folderId");
        reveal_strlit("organizationId");
        reveal_strlit("reprompt");
        reveal_strlit("lastKnownRevisionDate");
        reveal_strlit("key");
        reveal_strlit("login");
        reveal_strlit("card");
        reveal_strlit("identity");
        reveal_strlit("secureNote");
        reveal_strlit("fields");
        reveal_strlit("passwordHistory");
        lemma_wire_keys_distinct();
    }
    let mut entries = match v {
        JsonValue::Obj(es) => es,
        _ => {
            return Err(DecodeError::NotAnObject);
        },
    };
    let f_type = take_field(&mut entries, "type");
    let f_name = take_field(&mut entries, "name");
    let f_notes = take_field(&mut entries, "notes");
    let f_favorite = take_field(&mut entries, "favorite");
    let f_folder_id = take_field(&mut entries, "folderId");
    let f_organization_id = take_field(&mut entries, "organizationId");
    let f_reprompt = take_field(&mut entries, "reprompt");
    let f_last_known = take_field(&mut entries, "lastKnownRevisionDate");
    let f_key = take_field(&mut entries, "key");
    let f_login = take_field(&mut entries, "login");
    let f_card = take_field(&mut entries, "card");
    let f_identity = take_field(&mut entries, "identity");
    let f_secure_note = take_field(&mut entries, "secureNote");
    let f_fields = take_field(&mut entries, "fields");
    let f_password_history = take_field(&mut entries, "passwordHistory");
    proof {
        assert("type"@.len() == 4 && "name"@.len() == 4 && "notes"@.len() == 5 && "favorite"@.len()
            == 8 && "folderId"@.len() == 8 && "organizationId"@.len() == 14 && "reprompt"@.len()
            == 8 && "lastKnownRevisionDate"@.len() == 21 && "key"@.len() == 3 && "login"@.len()
            == 5 && "card"@.len() == 4 && "identity"@.len() == 8 && "secureNote"@.len() == 10
            && "fields"@.len() == 6 && "passwordHistory"@.len() == 15);
        assert(f_type == v.get_spec("type"@));
        assert(f_name == v.get_spec("name"@));
        assert(f_notes == v.get_spec("notes"@));
        assert(f_favorite == v.get_spec("favorite"@));
        assert(f_folder_id == v.get_spec("folderId"@));
        assert(f_organization_id == v.get_spec("organizationId"@));
        assert(f_reprompt == v.get_spec("reprompt"@));
        assert(f_last_known == v.get_spec("lastKnownRevisionDate"@));
        assert(f_key == v.get_spec("key"@));
        assert(f_login == v.get_spec("login"@));
        assert(f_card == v.get_spec("card"@));
        assert(f_identity == v.get_spec("identity"@));
        assert(f_secure_note == v.get_spec("secureNote"@));
        assert(f_fields == v.get_spec("fields"@));
        assert(f_password_history == v.get_spec("passwordHistory"@));
    }
    let kind = match conv_kind(f_type) {
        Ok(k) => k,
        Err(e) => {
            return Err(e);
        },
    };
    let name = match conv_name(f_name) {
        Ok(s) => s,
        Err(e) => {
            return Err(e);
        },
    };
    let notes = match conv_opt_string(f_notes) {
        Ok(x) => x,
        Err(e) => {
            return Err(e);
        },
    };
    let favorite = match conv_opt_bool(f_favorite, false) {
        Ok(b) => b,
        Err(e) => {
            return Err(e);
        },
    };
    let folder_id = match conv_opt_string(f_folder_id) {
        Ok(x) => x,
        Err(e) => {
            return Err(e);
        },
    };
    let organization_id = match conv_opt_string(f_organization_id) {
        Ok(x) => x,
        Err(e) => {
            return Err(e);
        },
    };
    let reprompt = match conv_opt_i32(f_reprompt) {
        Ok(x) => x,
        Err(e) => {
            return Err(e);
        },
    };
    let last_known_revision_date = match conv_opt_string(f_last_known) {
        Ok(x) => x,
        Err(e) => {
            return Err(e);
        },
    };
    let key = match conv_opt_string(f_key) {
        Ok(x) => x,
        Err(e) => {
            return Err(e);
        },
    };
    Ok(
        CipherRequestData {
            kind,
            folder_id,
            organization_id,
            name,
            notes,
            favorite,
            login: conv_opt_value(f_login),
            card: conv_opt_value(f_card),
            identity: conv_opt_value(f_identity),
            secure_note: conv_opt_value(f_secure_note),
            fields: conv_opt_value(f_fields),
            password_history: conv_opt_value(f_password_history),
            reprompt,
            last_known_revision_date,
            key,
        },
    )
}

/// The first of two spellings of a field that is present.
pub open spec fn spec_alias(a: Option<JsonValue>, b: Option<JsonValue>) -> Option<JsonValue> {
    if a is Some {
        a
    } else {
        b
    }
}

/// What decoding a full create request yields. A payload carrying a `cipher`
/// (or `Cipher`) field is the nested shape, with its collection ids beside
/// it; any other object is the flat shape with no collection ids.
pub open spec fn spec_decode_create_request(v: JsonValue) -> Result<
    (CipherRequestData, Seq<String>),
    DecodeError,
> {
    if !(v is Obj) {
        Err(DecodeError::NotAnObject)
    } else {
        match spec_alias(v.get_spec("cipher"@), v.get_spec("Cipher"@)) {
            Some(cv) => match spec_decode_request_data(cv) {
                Err(e) => Err(e),
                Ok(req) => match spec_string_seq(
                    spec_alias(v.get_spec("collectionIds"@), v.get_spec("CollectionIds"@)),
                ) {
                    Err(e) => Err(e),
                    Ok(coll) => Ok((req, coll)),
                },
            },
            None => match spec_decode_request_data(v) {
                Err(e) => Err(e),
                Ok(req) => Ok((req, Seq::empty())),
            },
        }
    }
}

/// Two objects whose request fields read the same decode the same.
proof fn lemma_decode_request_congruence(a: JsonValue, b: JsonValue)
    requires
        a is Obj,
        b is Obj,
        a.get_spec("type"@) == b.get_spec("type"@),
        a.get_spec("name"@) == b.get_spec("name"@),
        a.get_spec("notes"@) == b.get_spec("notes"@),
        a.get_spec("favorite"@) == b.get_spec("favorite"@),
        a.get_spec("folderId"@) == b.get_spec("folderId"@),
        a.get_spec("organizationId"@) == b.get_spec("organizationId"@),
        a.get_spec("reprompt"@) == b.get_spec("reprompt"@),
        a.get_spec("lastKnownRevisionDate"@) == b.get_spec("lastKnownRevisionDate"@),
        a.get_spec("key"@) == b.get_spec("key"@),
        a.get_spec("login"@) == b.get_spec("login"@),
        a.get_spec("card"@) == b.get_spec("card"@),
        a.get_spec("identity"@) == b.get_spec("identity"@),
        a.get_spec("secureNote"@) == b.get_spec("secureNote"@),
        a.get_spec("fields"@) == b.get_spec("fields"@),
        a.get_spec("passwordHistory"@) == b.get_spec("passwordHistory"@),
    ensures
        spec_decode_request_data(a) == spec_decode_request_data(b),
{
}

/// Decodes a create request, accepting the nested and the flat shape.
pub fn decode_create_cipher_request(v: JsonValue) -> (r: Result<CreateCipherRequest, DecodeError>)
    ensures
        match r {
            Ok(req) => spec_decode_create_request(v) == Ok::<
                (CipherRequestData, Seq<String>),
                DecodeError,
            >((req.cipher, req.collection_ids@)),
            Err(e) => spec_decode_create_request(v) == Err::<
                (CipherRequestData, Seq<String>),
                DecodeError,
            >(e),
        },
{
    proof {
        reveal_strlit("cipher");
        reveal_strlit("Cipher");
        reveal_strlit("collectionIds");
        reveal_strlit("CollectionIds");
        reveal_strlit("type");
        reveal_strlit("name");
        reveal_strlit("notes");
        reveal_strlit("favorite");
        reveal_strlit("folderId");
        reveal_strlit("organizationId");
        reveal_strlit("reprompt");
        reveal_strlit("lastKnownRevisionDate");
        reveal_strlit("key");
        reveal_strlit("login");
        reveal_strlit("card");
        reveal_strlit("identity");
        reveal_strlit("secureNote");
        reveal_strlit("fields");
        reveal_strlit("passwordHistory");
        lemma_wire_keys_distinct();
    }
    let ghost v0 = v;
    let mut entries = match v {
        JsonValue::Obj(es) => es,
        _ => {
            return Err(DecodeError::NotAnObject);
        },
    };
    let f_cipher = take_field(&mut entries, "cipher");
    let f_cipher = match f_cipher {
        Some(cv) => Some(cv),
        None => take_field(&mut entries, "Cipher"),
    };
    proof {
        assert("cipher"@.len() == 6 && "Cipher"@.len() == 6 && "collectionIds"@.len() == 13
            && "CollectionIds"@.len() == 13);
    }
    match f_cipher {
        Some(cv) => {
            let req = match decode_cipher_request_data(cv) {
                Ok(req) => req,
                Err(e) => {
                    return Err(e);
                },
            };
            let f_coll = take_field(&mut entries, "collectionIds");
            let f_coll = match f_coll {
                Some(x) => Some(x),
                None => take_field(&mut entries, "CollectionIds"),
            };
            let coll = match conv_string_vec(f_coll) {
                Ok(vs) => vs,
                Err(e) => {
                    return Err(e);
                },
            };
            Ok(CreateCipherRequest { cipher: req, collection_ids: coll })
        },
        None => {
            let rest = JsonValue::Obj(entries);
            proof {
                assert("type"@.len() == 4 && "name"@.len() == 4 && "notes"@.len() == 5
                    && "favorite"@.len() == 8 && "folderId"@.len() == 8 && "organizationId"@.len()
                    == 14 && "reprompt"@.len() == 8 && "lastKnownRevisionDate"@.len() == 21
                    && "key"@.len() == 3 && "login"@.len() == 5 && "card"@.len() == 4
                    && "identity"@.len() == 8 && "secureNote"@.len() == 10 && "fields"@.len() == 6
                    && "passwordHistory"@.len() == 15 && "cipher"@.len() == 6 && "Cipher"@.len()
                    == 6);
                lemma_decode_request_congruence(rest, v0);
            }
            match decode_cipher_request_data(rest) {
                Ok(req) => {
                    let coll: Vec<String> = Vec::new();
                    assert(coll@ =~= Seq::<String>::empty());
                    Ok(CreateCipherRequest { cipher: req, collection_ids: coll })
                },
                Err(e) => Err(e),
            }
        },
    }
}

// ---------------------------------------------------------------------------
// Encoding
// ---------------------------------------------------------------------------
/// A payload-derived response field: the blob's field when the blob is an
/// object, null otherwise (a malformed blob degrades to null, it never fails
/// the response).
pub open spec fn encoded_payload_field(data: JsonValue, key: Seq<char>) -> JsonValue {
    if data is Obj {
        match data.get_spec(key) {
            Some(v) => v,
            None => JsonValue::Null,
        }
    } else {
        JsonValue::Null
    }
}

/// The `reprompt` response field: absent (or stored as null) defaults to the
/// number 0; a malformed blob degrades to null like every payload field.
pub open spec fn encoded_reprompt(data: JsonValue) -> JsonValue {
    if data is Obj {
        match data.get_spec("reprompt"@) {
            Some(JsonValue::Null) => JsonValue::Int(0),
            Some(v) => v,
            None => JsonValue::Int(0),
        }
    } else {
        JsonValue::Null
    }
}

/// A payload variant field: carries the blob's field only when the record
/// kind selects it, and is an explicit null otherwise.
pub open spec fn encoded_variant(data: JsonValue, kind: i32, sel: i32, key: Seq<char>) -> JsonValue {
    if kind == sel {
        encoded_payload_field(data, key)
    } else {
        JsonValue::Null
    }
}

/// The compatibility `permissions` object: `delete` and `restore` both mirror
/// the `edit` flag.
pub open spec fn permissions_matches(p: JsonValue, edit: bool) -> bool {
    &&& p is Obj
    &&& p->Obj_0@.len() == 2
    &&& p->Obj_0@[0].0@ == "delete"@ && p->Obj_0@[0].1 == JsonValue::Bool(edit)
    &&& p->Obj_0@[1].0@ == "restore"@ && p->Obj_0@[1].1 == JsonValue::Bool(edit)
}

/// The `collectionIds` response field: null when absent or empty, otherwise
/// the ids as an array of strings.
pub open spec fn collection_ids_json_matches(v: JsonValue, ids: Option<Vec<String>>) -> bool {
    match ids {
        Some(ids) => if ids@.len() == 0 {
            v == JsonValue::Null
        } else {
            v matches JsonValue::Arr(a) && a@ =~= ids@.map_values(|s: String| JsonValue::Str(s))
        },
        None => v == JsonValue::Null,
    }
}

/// The encoded response of a stored record: the exact field set, in order.
/// Exactly one of the four payload variants carries the blob's field, per the
/// record kind; the other three are explicit null.
pub open spec fn encoded_cipher_matches(r: JsonValue, c: Cipher) -> bool {
    &&& r is Obj
    &&& {
        let es = r->Obj_0@;
        let u: int = if c.user_id is Some {
            1
        } else {
            0
        };
        &&& es.len() == 23 + u
        &&& es[0].0@ == "object"@ && es[0].1 == JsonValue::Str(c.object)
        &&& es[1].0@ == "id"@ && es[1].1 == JsonValue::Str(c.id)
        &&& (c.user_id matches Some(uid) ==> es[2].0@ == "userId"@ && es[2].1 == JsonValue::Str(
            uid,
        ))
        &&& es[2 + u].0@ == "organizationId"@ && es[2 + u].1 == opt_string_json(c.organization_id)
        &&& es[3 + u].0@ == "folderId"@ && es[3 + u].1 == opt_string_json(c.folder_id)
        &&& es[4 + u].0@ == "type"@ && es[4 + u].1 == JsonValue::Int(c.kind as i64)
        &&& es[5 + u].0@ == "favorite"@ && es[5 + u].1 == JsonValue::Bool(c.favorite)
        &&& es[6 + u].0@ == "edit"@ && es[6 + u].1 == JsonValue::Bool(c.edit)
        &&& es[7 + u].0@ == "viewPassword"@ && es[7 + u].1 == JsonValue::Bool(c.view_password)
        &&& es[8 + u].0@ == "permissions"@ && permissions_matches(es[8 + u].1, c.edit)
        &&& es[9 + u].0@ == "organizationUseTotp"@ && es[9 + u].1 == JsonValue::Bool(
            c.organization_use_totp,
        )
        &&& es[10 + u].0@ == "collectionIds"@ && collection_ids_json_matches(
            es[10 + u].1,
            c.collection_ids,
        )
        &&& es[11 + u].0@ == "revisionDate"@ && es[11 + u].1 == JsonValue::Str(c.updated_at)
        &&& es[12 + u].0@ == "creationDate"@ && es[12 + u].1 == JsonValue::Str(c.created_at)
        &&& es[13 + u].0@ == "deletedDate"@ && es[13 + u].1 == opt_string_json(c.deleted_at)
        &&& es[14 + u].0@ == "name"@ && es[14 + u].1 == encoded_payload_field(c.data, "name"@)
        &&& es[15 + u].0@ == "notes"@ && es[15 + u].1 == encoded_payload_field(c.data, "notes"@)
        &&& es[16 + u].0@ == "fields"@ && es[16 + u].1 == encoded_payload_field(c.data, "fields"@)
        &&& es[17 + u].0@ == "passwordHistory"@ && es[17 + u].1 == encoded_payload_field(
            c.data,
            "passwordHistory"@,
        )
        &&& es[18 + u].0@ == "reprompt"@ && es[18 + u].1 == encoded_reprompt(c.data)
        &&& es[19 + u].0@ == "login"@ && es[19 + u].1 == encoded_variant(c.data, c.kind, 1, "login"@)
        &&& es[20 + u].0@ == "secureNote"@ && es[20 + u].1 == encoded_variant(
            c.data,
            c.kind,
            2,
            "secureNote"@,
        )
        &&& es[21 + u].0@ == "card"@ && es[21 + u].1 == encoded_variant(c.data, c.kind, 3, "card"@)
        &&& es[22 + u].0@ == "identity"@ && es[22 + u].1 == encoded_variant(
            c.data,
            c.kind,
            4,
            "identity"@,
        )
    }
}

/// The nine payload-derived response fields of one record.
struct PayloadParts {
    name: JsonValue,
    notes: JsonValue,
    fields: JsonValue,
    password_history: JsonValue,
    reprompt: JsonValue,
    login: JsonValue,
    secure_note: JsonValue,
    card: JsonValue,
    identity: JsonValue,
}

fn encoded_payload_parts(data: JsonValue, kind: i32) -> (p: PayloadParts)
    ensures
        p.name == encoded_payload_field(data, "name"@),
        p.notes == encoded_payload_field(data, "notes"@),
        p.fields == encoded_payload_field(data, "fields"@),
        p.password_history == encoded_payload_field(data, "passwordHistory"@),
        p.reprompt == encoded_reprompt(data),
        p.login == encoded_variant(data, kind, 1, "login"@),
        p.secure_note == encoded_variant(data, kind, 2, "secureNote"@),
        p.card == encoded_variant(data, kind, 3, "card"@),
        p.identity == encoded_variant(data, kind, 4, "identity"@),
{
    proof {
        reveal_strlit("name");
        reveal_strlit("notes");
        reveal_strlit("fields");
        reveal_strlit("passwordHistory");
        reveal_strlit("reprompt");
        reveal_strlit("login");
        reveal_strlit("secureNote");
        reveal_strlit("card");
        reveal_strlit("identity");
        lemma_wire_keys_distinct();
        assert("name"@.len() == 4 && "notes"@.len() == 5 && "fields"@.len() == 6
            && "passwordHistory"@.len() == 15 && "reprompt"@.len() == 8 && "login"@.len() == 5
            && "secureNote"@.len() == 10 && "card"@.len() == 4 && "identity"@.len() == 8);
    }
    let mut es = match data {
        JsonValue::Obj(es) => es,
        _ => {
            return PayloadParts {
                name: JsonValue::Null,
                notes: JsonValue::Null,
                fields: JsonValue::Null,
                password_history: JsonValue::Null,
                reprompt: JsonValue::Null,
                login: JsonValue::Null,
                secure_note: JsonValue::Null,
                card: JsonValue::Null,
                identity: JsonValue::Null,
            };
        },
    };
    let name = opt_value_entry_or_null(take_field(&mut es, "name"));
    let notes = opt_value_entry_or_null(take_field(&mut es, "notes"));
    let fields = opt_value_entry_or_null(take_field(&mut es, "fields"));
    let password_history = opt_value_entry_or_null(take_field(&mut es, "passwordHistory"));
    let reprompt = match take_field(&mut es, "reprompt") {
        None => JsonValue::Int(0),
        Some(JsonValue::Null) => JsonValue::Int(0),
        Some(v) => v,
    };
    let login = if kind == 1 {
        opt_value_entry_or_null(take_field(&mut es, "login"))
    } else {
        JsonValue::Null
    };
    let secure_note = if kind == 2 {
        opt_value_entry_or_null(take_field(&mut es, "secureNote"))
    } else {
        JsonValue::Null
    };
    let card = if kind == 3 {
        opt_value_entry_or_null(take_field(&mut es, "card"))
    } else {
        JsonValue::Null
    };
    let identity = if kind == 4 {
        opt_value_entry_or_null(take_field(&mut es, "identity"))
    } else {
        JsonValue::Null
    };
    PayloadParts { name, notes, fields, password_history, reprompt, login, secure_note, card, identity }
}

fn opt_value_entry_or_null(o: Option<JsonValue>) -> (r: JsonValue)
    ensures
        r == match o {
            Some(v) => v,
            None => JsonValue::Null,
        },
{
    match o {
        Some(v) => v,
        None => JsonValue::Null,
    }
}

fn collection_ids_entry(ids: Option<Vec<String>>) -> (r: JsonValue)
    ensures
        collection_ids_json_matches(r, ids),
{
    let ids = match ids {
        None => {
            return JsonValue::Null;
        },
        Some(ids) => ids,
    };
    if ids.len() == 0 {
        return JsonValue::Null;
    }
    let ghost ids0 = ids@;
    let mut ids = ids;
    let mut arr: Vec<JsonValue> = Vec::new();
    while ids.len() > 0
        invariant
            ids@ =~= ids0.skip(ids0.len() - ids.len()),
            ids.len() <= ids0.len(),
            arr@ =~= ids0.take(ids0.len() - ids.len()).map_values(|s: String| JsonValue::Str(s)),
        decreases ids.len(),
    {
        let ghost k: int = ids0.len() - ids.len();
        let s = ids.remove(0);
        proof {
            assert(s == ids0.skip(k)[0]);
            assert(s == ids0[k]);
        }
        arr.push(JsonValue::Str(s));
        proof {
            assert(ids0.take(k + 1) =~= ids0.take(k).push(ids0[k]));
            assert(ids0.take(k + 1).map_values(|s: String| JsonValue::Str(s)) =~= ids0.take(
                k,
            ).map_values(|s: String| JsonValue::Str(s)).push(JsonValue::Str(ids0[k])));
        }
    }
    proof {
        assert(ids0.take(ids0.len() as int) =~= ids0);
    }
    JsonValue::Arr(arr)
}

fn opt_string_entry_enc(o: Option<String>) -> (r: JsonValue)
    ensures
        r == opt_string_json(o),
{
    match o {
        Some(s) => JsonValue::Str(s),
        None => JsonValue::Null,
    }
}

/// Encodes a stored record into its client response shape.
pub fn encode_cipher(c: Cipher) -> (r: JsonValue)
    ensures
        encoded_cipher_matches(r, c),
{
    let Cipher {
        id,
        user_id,
        organization_id,
        kind,
        data,
        favorite,
        folder_id,
        deleted_at,
        created_at,
        updated_at,
        object,
        organization_use_totp,
        edit,
        view_password,
        collection_ids,
    } = c;
    let parts = encoded_payload_parts(data, kind);
    let mut es: Vec<(String, JsonValue)> = Vec::new();
    es.push((String::from_str("object"), JsonValue::Str(object)));
    es.push((String::from_str("id"), JsonValue::Str(id)));
    match user_id {
        Some(uid) => es.push((String::from_str("userId"), JsonValue::Str(uid))),
        None => (),
    }
    es.push((String::from_str("organizationId"), opt_string_entry_enc(organization_id)));
    es.push((String::from_str("folderId"), opt_string_entry_enc(folder_id)));
    es.push((String::from_str("type"), JsonValue::Int(kind as i64)));
    es.push((String::from_str("favorite"), JsonValue::Bool(favorite)));
    es.push((String::from_str("edit"), JsonValue::Bool(edit)));
    es.push((String::from_str("viewPassword"), JsonValue::Bool(view_password)));
    let mut perm: Vec<(String, JsonValue)> = Vec::new();
    perm.push((String::from_str("delete"), JsonValue::Bool(edit)));
    perm.push((String::from_str("restore"), JsonValue::Bool(edit)));
    es.push((String::from_str("permissions"), JsonValue::Obj(perm)));
    es.push((String::from_str("organizationUseTotp"), JsonValue::Bool(organization_use_totp)));
    es.push((String::from_str("collectionIds"), collection_ids_entry(collection_ids)));
    es.push((String::from_str("revisionDate"), JsonValue::Str(updated_at)));
    es.push((String::from_str("creationDate"), JsonValue::Str(created_at)));
    es.push((String::from_str("deletedDate"), opt_string_entry_enc(deleted_at)));
    es.push((String::from_str("name"), parts.name));
    es.push((String::from_str("notes"), parts.notes));
    es.push((String::from_str("fields"), parts.fields));
    es.push((String::from_str("passwordHistory"), parts.password_history));
    es.push((String::from_str("reprompt"), parts.reprompt));
    es.push((String::from_str("login"), parts.login));
    es.push((String::from_str("secureNote"), parts.secure_note));
    es.push((String::from_str("card"), parts.card));
    es.push((String::from_str("identity"), parts.identity));
    JsonValue::Obj(es)
}

// ---------------------------------------------------------------------------
// Laws
// ---------------------------------------------------------------------------
/// The canonical payload blob reads back its nine fields by name.
pub proof fn lemma_payload_lookup(data: JsonValue, d: CipherData)
    requires
        payload_matches(data, d),
    ensures
        data.get_spec("name"@) == Some(JsonValue::Str(d.name)),
        data.get_spec("notes"@) == Some(opt_string_json(d.notes)),
        data.get_spec("login"@) == Some(crate::cipher::opt_value_json(d.login)),
        data.get_spec("card"@) == Some(crate::cipher::opt_value_json(d.card)),
        data.get_spec("identity"@) == Some(crate::cipher::opt_value_json(d.identity)),
        data.get_spec("secureNote"@) == Some(crate::cipher::opt_value_json(d.secure_note)),
        data.get_spec("fields"@) == Some(crate::cipher::opt_value_json(d.fields)),
        data.get_spec("passwordHistory"@) == Some(
            crate::cipher::opt_value_json(d.password_history),
        ),
        data.get_spec("reprompt"@) == Some(opt_i32_json(d.reprompt)),
{
    reveal_strlit("name");
    reveal_strlit("notes");
    reveal_strlit("login");
    reveal_strlit("card");
    reveal_strlit("identity");
    reveal_strlit("secureNote");
    reveal_strlit("fields");
    reveal_strlit("passwordHistory");
    reveal_strlit("reprompt");
    lemma_wire_keys_distinct();
    assert("name"@.len() == 4 && "notes"@.len() == 5 && "login"@.len() == 5 && "card"@.len() == 4
        && "identity"@.len() == 8 && "secureNote"@.len() == 10 && "fields"@.len() == 6
        && "passwordHistory"@.len() == 15 && "reprompt"@.len() == 8);
    let es = data->Obj_0@;
    lemma_lookup_at_first_match(es, "name"@, 0);
    lemma_lookup_at_first_match(es, "notes"@, 1);
    lemma_lookup_at_first_match(es, "login"@, 2);
    lemma_lookup_at_first_match(es, "card"@, 3);
    lemma_lookup_at_first_match(es, "identity"@, 4);
    lemma_lookup_at_first_match(es, "secureNote"@, 5);
    lemma_lookup_at_first_match(es, "fields"@, 6);
    lemma_lookup_at_first_match(es, "passwordHistory"@, 7);
    lemma_lookup_at_first_match(es, "reprompt"@, 8);
}

/// An encoded response reads back its fields by name, and carries no request
/// field beyond those it emits.
pub proof fn lemma_encoded_lookup(r: JsonValue, c: Cipher)
    requires
        encoded_cipher_matches(r, c),
    ensures
        r.get_spec("type"@) == Some(JsonValue::Int(c.kind as i64)),
        r.get_spec("favorite"@) == Some(JsonValue::Bool(c.favorite)),
        r.get_spec("folderId"@) == Some(opt_string_json(c.folder_id)),
        r.get_spec("organizationId"@) == Some(opt_string_json(c.organization_id)),
        r.get_spec("name"@) == Some(encoded_payload_field(c.data, "name"@)),
        r.get_spec("notes"@) == Some(encoded_payload_field(c.data, "notes"@)),
        r.get_spec("fields"@) == Some(encoded_payload_field(c.data, "fields"@)),
        r.get_spec("passwordHistory"@) == Some(encoded_payload_field(c.data, "passwordHistory"@)),
        r.get_spec("reprompt"@) == Some(encoded_reprompt(c.data)),
        r.get_spec("login"@) == Some(encoded_variant(c.data, c.kind, 1, "login"@)),
        r.get_spec("secureNote"@) == Some(encoded_variant(c.data, c.kind, 2, "secureNote"@)),
        r.get_spec("card"@) == Some(encoded_variant(c.data, c.kind, 3, "card"@)),
        r.get_spec("identity"@) == Some(encoded_variant(c.data, c.kind, 4, "identity"@)),
        r.get_spec("lastKnownRevisionDate"@) is None,
        r.get_spec("key"@) is None,
{
    reveal_strlit("object");
    reveal_strlit("id");
    reveal_strlit("userId");
    reveal_strlit("organizationId");
    reveal_strlit("folderId");
    reveal_strlit("type");
    reveal_strlit("favorite");
    reveal_strlit("edit");
    reveal_strlit("viewPassword");
    reveal_strlit("permissions");
    reveal_strlit("organizationUseTotp");
    reveal_strlit("collectionIds");
    reveal_strlit("revisionDate");
    reveal_strlit("creationDate");
    reveal_strlit("deletedDate");
    reveal_strlit("name");
    reveal_strlit("notes");
    reveal_strlit("fields");
    reveal_strlit("passwordHistory");
    reveal_strlit("reprompt");
    reveal_strlit("login");
    reveal_strlit("secureNote");
    reveal_strlit("card");
    reveal_strlit("identity");
    reveal_strlit("lastKnownRevisionDate");
    reveal_strlit("key");
    lemma_wire_keys_distinct();
    assert("object"@.len() == 6 && "id"@.len() == 2 && "userId"@.len() == 6
        && "organizationId"@.len() == 14 && "folderId"@.len() == 8 && "type"@.len() == 4
        && "favorite"@.len() == 8 && "edit"@.len() == 4 && "viewPassword"@.len() == 12
        && "permissions"@.len() == 11 && "organizationUseTotp"@.len() == 19
        && "collectionIds"@.len() == 13 && "revisionDate"@.len() == 12 && "creationDate"@.len()
        == 12 && "deletedDate"@.len() == 11 && "name"@.len() == 4 && "notes"@.len() == 5
        && "fields"@.len() == 6 && "passwordHistory"@.len() == 15 && "reprompt"@.len() == 8
        && "login"@.len() == 5 && "secureNote"@.len() == 10 && "card"@.len() == 4
        && "identity"@.len() == 8 && "lastKnownRevisionDate"@.len() == 21 && "key"@.len() == 3);
    let es = r->Obj_0@;
    let u: int = if c.user_id is Some {
        1
    } else {
        0
    };
    lemma_lookup_at_first_match(es, "type"@, 4 + u);
    lemma_lookup_at_first_match(es, "favorite"@, 5 + u);
    lemma_lookup_at_first_match(es, "organizationId"@, 2 + u);
    lemma_lookup_at_first_match(es, "folderId"@, 3 + u);
    lemma_lookup_at_first_match(es, "name"@, 14 + u);
    lemma_lookup_at_first_match(es, "notes"@, 15 + u);
    lemma_lookup_at_first_match(es, "fields"@, 16 + u);
    lemma_lookup_at_first_match(es, "passwordHistory"@, 17 + u);
    lemma_lookup_at_first_match(es, "reprompt"@, 18 + u);
    lemma_lookup_at_first_match(es, "login"@, 19 + u);
    lemma_lookup_at_first_match(es, "secureNote"@, 20 + u);
    lemma_lookup_at_first_match(es, "card"@, 21 + u);
    lemma_lookup_at_first_match(es, "identity"@, 22 + u);
    lemma_lookup_no_match(es, "lastKnownRevisionDate"@);
    lemma_lookup_no_match(es, "key"@);
}

/// For every valid record kind, an encoded response populates exactly the
/// payload variant named for that kind; the other three variants are
/// explicit null.
pub proof fn lemma_variant_exclusive(r: JsonValue, c: Cipher)
    requires
        encoded_cipher_matches(r, c),
        crate::valid_kind(c.kind),
    ensures
        c.kind == 1 ==> r.get_spec("login"@) == Some(encoded_payload_field(c.data, "login"@))
            && r.get_spec("secureNote"@) == Some(JsonValue::Null) && r.get_spec("card"@) == Some(
            JsonValue::Null,
        ) && r.get_spec("identity"@) == Some(JsonValue::Null),
        c.kind == 2 ==> r.get_spec("secureNote"@) == Some(
            encoded_payload_field(c.data, "secureNote"@),
        ) && r.get_spec("login"@) == Some(JsonValue::Null) && r.get_spec("card"@) == Some(
            JsonValue::Null,
        ) && r.get_spec("identity"@) == Some(JsonValue::Null),
        c.kind == 3 ==> r.get_spec("card"@) == Some(encoded_payload_field(c.data, "card"@))
            && r.get_spec("login"@) == Some(JsonValue::Null) && r.get_spec("secureNote"@) == Some(
            JsonValue::Null,
        ) && r.get_spec("identity"@) == Some(JsonValue::Null),
        c.kind == 4 ==> r.get_spec("identity"@) == Some(encoded_payload_field(c.data, "identity"@))
            && r.get_spec("login"@) == Some(JsonValue::Null) && r.get_spec("secureNote"@) == Some(
            JsonValue::Null,
        ) && r.get_spec("card"@) == Some(JsonValue::Null),
{
    lemma_encoded_lookup(r, c);
}

/// Decoding an encoded record restores its canonical payload: the name,
/// notes, fields, password history and the kind-selected variant come back
/// exactly, unset optional fields come back absent, and an unset reprompt
/// reads back as the default 0.
pub proof fn lemma_codec_round_trip(c: Cipher, d: CipherData, r: JsonValue)
    requires
        crate::valid_kind(c.kind),
        payload_matches(c.data, d),
        crate::cipher::payload_data_wf(d),
        encoded_cipher_matches(r, c),
    ensures
        spec_decode_request_data(r) matches Ok(req) && {
            &&& req.kind == c.kind
            &&& req.name == d.name
            &&& req.notes == d.notes
            &&& req.favorite == c.favorite
            &&& req.folder_id == c.folder_id
            &&& req.organization_id == c.organization_id
            &&& req.fields == d.fields
            &&& req.password_history == d.password_history
            &&& req.reprompt == (if d.reprompt is Some {
                d.reprompt
            } else {
                Some(0)
            })
            &&& req.last_known_revision_date is None
            &&& req.key is None
            &&& (c.kind == 1 ==> req.login == d.login)
            &&& (c.kind == 2 ==> req.secure_note == d.secure_note)
            &&& (c.kind == 3 ==> req.card == d.card)
            &&& (c.kind == 4 ==> req.identity == d.identity)
        },
{
    lemma_encoded_lookup(r, c);
    lemma_payload_lookup(c.data, d);
}

/// Coercing the integer 1 and the boolean true read the same canonical
/// boolean; every integer other than 0 and 1 is a decode error.
pub proof fn lemma_bool_coercion()
    ensures
        spec_bool_coerce(JsonValue::Int(1)) == spec_bool_coerce(JsonValue::Bool(true)),
        spec_bool_coerce(JsonValue::Int(0)) == spec_bool_coerce(JsonValue::Bool(false)),
        spec_bool_coerce(JsonValue::Int(1)) == Ok::<bool, DecodeError>(true),
        forall|n: i64|
            n != 0 && n != 1 ==> spec_bool_coerce(JsonValue::Int(n)) == Err::<bool, DecodeError>(
                DecodeError::BadBool,
            ),
{
}

} // verus!
