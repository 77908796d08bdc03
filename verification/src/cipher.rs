//! The canonical vault item model.
//!
//! A stored record (`Cipher`) carries its payload as an opaque structured
//! blob; the canonical payload shape (`CipherData`) pins which fields the
//! blob holds and in which order. Requests arrive as `CipherRequestData`
//! (flat) or `CreateCipherRequest` (nested, with collection ids).

use vstd::prelude::*;

use crate::json::JsonValue;

verus! {

/// The canonical payload of a vault item: a mandatory name, everything else
/// optional and carried opaquely.
#[derive(Debug, PartialEq)]
pub struct CipherData {
    pub name: String,
    pub notes: Option<String>,
    pub login: Option<JsonValue>,
    pub card: Option<JsonValue>,
    pub identity: Option<JsonValue>,
    pub secure_note: Option<JsonValue>,
    pub fields: Option<JsonValue>,
    pub password_history: Option<JsonValue>,
    pub reprompt: Option<i32>,
}

/// One stored vault item, as the handlers and the wire codec see it.
#[derive(Debug, PartialEq)]
pub struct Cipher {
    pub id: String,
    pub user_id: Option<String>,
    pub organization_id: Option<String>,
    /// Selects the payload variant: 1 login, 2 secure note, 3 card, 4 identity.
    pub kind: i32,
    /// The payload blob; normally an object in the `CipherData` shape, but
    /// carried and encoded gracefully even when malformed.
    pub data: JsonValue,
    pub favorite: bool,
    pub folder_id: Option<String>,
    pub deleted_at: Option<String>,
    pub created_at: String,
    pub updated_at: String,
    pub object: String,
    pub organization_use_totp: bool,
    pub edit: bool,
    pub view_password: bool,
    pub collection_ids: Option<Vec<String>>,
}

/// One row of the persistence layer. `favorite` is stored as an integer;
/// zero reads as false, anything else as true.
#[derive(Debug, PartialEq)]
pub struct CipherDBModel {
    pub id: String,
    pub user_id: String,
    pub organization_id: Option<String>,
    pub kind: i32,
    pub data: JsonValue,
    pub favorite: i32,
    pub folder_id: Option<String>,
    pub deleted_at: Option<String>,
    pub created_at: String,
    pub updated_at: String,
}

/// The record inside an incoming create or update request.
#[derive(Debug, PartialEq)]
pub struct CipherRequestData {
    pub kind: i32,
    pub folder_id: Option<String>,
    pub organization_id: Option<String>,
    pub name: String,
    pub notes: Option<String>,
    pub favorite: bool,
    pub login: Option<JsonValue>,
    pub card: Option<JsonValue>,
    pub identity: Option<JsonValue>,
    pub secure_note: Option<JsonValue>,
    pub fields: Option<JsonValue>,
    pub password_history: Option<JsonValue>,
    pub reprompt: Option<i32>,
    pub last_known_revision_date: Option<String>,
    pub key: Option<String>,
}

/// The full create request: the record plus the collections it joins.
#[derive(Debug, PartialEq)]
pub struct CreateCipherRequest {
    pub cipher: CipherRequestData,
    pub collection_ids: Vec<String>,
}

/// The constant `object` marker a response carries.
pub fn default_object() -> (r: String)
    ensures
        r@ == "cipher"@,
{
    String::from_str("cipher")
}

/// The default for the `edit` and `viewPassword` flags.
pub fn default_true() -> (r: bool)
    ensures
        r,
{
    true
}

/// An optional string, as the payload blob stores it.
pub open spec fn opt_string_json(o: Option<String>) -> JsonValue {
    match o {
        Some(s) => JsonValue::Str(s),
        None => JsonValue::Null,
    }
}

/// An optional opaque value, as the payload blob stores it.
pub open spec fn opt_value_json(o: Option<JsonValue>) -> JsonValue {
    match o {
        Some(v) => v,
        None => JsonValue::Null,
    }
}

/// An optional integer, as the payload blob stores it.
pub open spec fn opt_i32_json(o: Option<i32>) -> JsonValue {
    match o {
        Some(n) => JsonValue::Int(n as i64),
        None => JsonValue::Null,
    }
}

/// The payload blob `d` is the canonical encoding of `data`: an object with
/// exactly these nine fields, in this order, absent fields stored as null.
pub open spec fn payload_matches(d: JsonValue, data: CipherData) -> bool {
    &&& d is Obj
    &&& {
        let es = d->Obj_0@;
        &&& es.len() == 9
        &&& es[0].0@ == "name"@ && es[0].1 == JsonValue::Str(data.name)
        &&& es[1].0@ == "notes"@ && es[1].1 == opt_string_json(data.notes)
        &&& es[2].0@ == "login"@ && es[2].1 == opt_value_json(data.login)
        &&& es[3].0@ == "card"@ && es[3].1 == opt_value_json(data.card)
        &&& es[4].0@ == "identity"@ && es[4].1 == opt_value_json(data.identity)
        &&& es[5].0@ == "secureNote"@ && es[5].1 == opt_value_json(data.secure_note)
        &&& es[6].0@ == "fields"@ && es[6].1 == opt_value_json(data.fields)
        &&& es[7].0@ == "passwordHistory"@ && es[7].1 == opt_value_json(data.password_history)
        &&& es[8].0@ == "reprompt"@ && es[8].1 == opt_i32_json(data.reprompt)
    }
}

fn opt_string_entry(o: Option<String>) -> (r: JsonValue)
    ensures
        r == opt_string_json(o),
{
    match o {
        Some(s) => JsonValue::Str(s),
        None => JsonValue::Null,
    }
}

fn opt_value_entry(o: Option<JsonValue>) -> (r: JsonValue)
    ensures
        r == opt_value_json(o),
{
    match o {
        Some(v) => v,
        None => JsonValue::Null,
    }
}

fn opt_i32_entry(o: Option<i32>) -> (r: JsonValue)
    ensures
        r == opt_i32_json(o),
{
    match o {
        Some(n) => JsonValue::Int(n as i64),
        None => JsonValue::Null,
    }
}

/// Builds the canonical payload blob of `data`.
pub fn payload_to_json(data: CipherData) -> (r: JsonValue)
    ensures
        payload_matches(r, data),
{
    let mut es: Vec<(String, JsonValue)> = Vec::new();
    es.push((String::from_str("name"), JsonValue::Str(data.name)));
    es.push((String::from_str("notes"), opt_string_entry(data.notes)));
    es.push((String::from_str("login"), opt_value_entry(data.login)));
    es.push((String::from_str("card"), opt_value_entry(data.card)));
    es.push((String::from_str("identity"), opt_value_entry(data.identity)));
    es.push((String::from_str("secureNote"), opt_value_entry(data.secure_note)));
    es.push((String::from_str("fields"), opt_value_entry(data.fields)));
    es.push((String::from_str("passwordHistory"), opt_value_entry(data.password_history)));
    es.push((String::from_str("reprompt"), opt_i32_entry(data.reprompt)));
    JsonValue::Obj(es)
}

/// A canonical payload never stores an explicit null inside an opaque
/// optional field: an absent field is `None`, and decoding maps a wire null
/// to `None` as well.
pub open spec fn payload_data_wf(d: CipherData) -> bool {
    &&& d.login != Some(JsonValue::Null)
    &&& d.card != Some(JsonValue::Null)
    &&& d.identity != Some(JsonValue::Null)
    &&& d.secure_note != Some(JsonValue::Null)
    &&& d.fields != Some(JsonValue::Null)
    &&& d.password_history != Some(JsonValue::Null)
}

/// The canonical payload a request asks to store.
pub open spec fn spec_request_payload(req: CipherRequestData) -> CipherData {
    CipherData {
        name: req.name,
        notes: req.notes,
        login: req.login,
        card: req.card,
        identity: req.identity,
        secure_note: req.secure_note,
        fields: req.fields,
        password_history: req.password_history,
        reprompt: req.reprompt,
    }
}

/// `c` is the freshly created record for request `req`: a new identity, the
/// requesting principal as owner, both timestamps set to `now`, the canonical
/// payload blob, and an empty collection list normalized to absent.
pub open spec fn new_cipher_matches(
    c: Cipher,
    req: CipherRequestData,
    coll: Seq<String>,
    id: String,
    principal: String,
    now: String,
) -> bool {
    &&& c.id == id
    &&& c.user_id == Some(principal)
    &&& c.organization_id == req.organization_id
    &&& c.kind == req.kind
    &&& payload_matches(c.data, spec_request_payload(req))
    &&& c.favorite == req.favorite
    &&& c.folder_id == req.folder_id
    &&& c.deleted_at is None
    &&& c.created_at == now
    &&& c.updated_at == now
    &&& c.object@ == "cipher"@
    &&& !c.organization_use_totp
    &&& c.edit
    &&& c.view_password
    &&& if coll.len() == 0 {
        c.collection_ids is None
    } else {
        c.collection_ids matches Some(v) && v@ == coll
    }
}

/// Builds the stored record for a create request.
pub fn build_cipher(
    req: CipherRequestData,
    collection_ids: Vec<String>,
    id: String,
    principal: String,
    now: String,
) -> (c: Cipher)
    ensures
        new_cipher_matches(c, req, collection_ids@, id, principal, now),
{
    let data = payload_to_json(
        CipherData {
            name: req.name,
            notes: req.notes,
            login: req.login,
            card: req.card,
            identity: req.identity,
            secure_note: req.secure_note,
            fields: req.fields,
            password_history: req.password_history,
            reprompt: req.reprompt,
        },
    );
    Cipher {
        id,
        user_id: Some(principal),
        organization_id: req.organization_id,
        kind: req.kind,
        data,
        favorite: req.favorite,
        folder_id: req.folder_id,
        deleted_at: None,
        created_at: now.clone(),
        updated_at: now,
        object: default_object(),
        organization_use_totp: false,
        edit: default_true(),
        view_password: default_true(),
        collection_ids: if collection_ids.len() == 0 {
            None
        } else {
            Some(collection_ids)
        },
    }
}

/// `c` is the updated record for request `req` against an existing row:
/// the identity and creation time are kept, `updatedAt` is refreshed, and the
/// payload is replaced by the request's canonical blob.
pub open spec fn updated_cipher_matches(
    c: Cipher,
    req: CipherRequestData,
    id: String,
    principal: String,
    created_at: String,
    now: String,
) -> bool {
    &&& c.id == id
    &&& c.user_id == Some(principal)
    &&& c.organization_id == req.organization_id
    &&& c.kind == req.kind
    &&& payload_matches(c.data, spec_request_payload(req))
    &&& c.favorite == req.favorite
    &&& c.folder_id == req.folder_id
    &&& c.deleted_at is None
    &&& c.created_at == created_at
    &&& c.updated_at == now
    &&& c.object@ == "cipher"@
    &&& !c.organization_use_totp
    &&& c.edit
    &&& c.view_password
    &&& c.collection_ids is None
}

/// Builds the replacement record for an update request. `created_at` comes
/// from the existing row; everything else from the request.
pub fn update_cipher_record(
    req: CipherRequestData,
    id: String,
    principal: String,
    created_at: String,
    now: String,
) -> (c: Cipher)
    ensures
        updated_cipher_matches(c, req, id, principal, created_at, now),
{
    let data = payload_to_json(
        CipherData {
            name: req.name,
            notes: req.notes,
            login: req.login,
            card: req.card,
            identity: req.identity,
            secure_note: req.secure_note,
            fields: req.fields,
            password_history: req.password_history,
            reprompt: req.reprompt,
        },
    );
    Cipher {
        id,
        user_id: Some(principal),
        organization_id: req.organization_id,
        kind: req.kind,
        data,
        favorite: req.favorite,
        folder_id: req.folder_id,
        deleted_at: None,
        created_at,
        updated_at: now,
        object: default_object(),
        organization_use_totp: false,
        edit: default_true(),
        view_password: default_true(),
        collection_ids: None,
    }
}

/// Creates the stored record for a create request, drawing a fresh identity
/// and reading the clock once. Whatever identity and timestamp came back,
/// the record is the canonical build under them.
pub fn new_cipher(req: CipherRequestData, collection_ids: Vec<String>, principal: String) -> (c:
    Cipher)
    ensures
        exists|id: String, now: String|
            id@.len() == 36 && #[trigger] new_cipher_matches(
                c,
                req,
                collection_ids@,
                id,
                principal,
                now,
            ),
{
    let id = crate::ids::fresh_id();
    let now = crate::ids::timestamp_now();
    let ghost gid = id;
    let ghost gnow = now;
    let c = build_cipher(req, collection_ids, id, principal, now);
    proof {
        assert(new_cipher_matches(c, req, collection_ids@, gid, principal, gnow));
    }
    c
}

/// Creates the replacement record for an update request, reading the clock
/// once; the identity and creation time of the existing row are kept.
pub fn revise_cipher(req: CipherRequestData, id: String, principal: String, created_at: String) -> (c:
    Cipher)
    ensures
        exists|now: String|
            #[trigger] updated_cipher_matches(c, req, id, principal, created_at, now),
{
    let now = crate::ids::timestamp_now();
    let ghost gnow = now;
    let c = update_cipher_record(req, id, principal, created_at, now);
    proof {
        assert(updated_cipher_matches(c, req, id, principal, created_at, gnow));
    }
    c
}

impl CipherDBModel {
    /// Reads a stored row back into the handler-facing record. The integer
    /// favorite flag becomes a boolean; response-only flags take their
    /// defaults.
    pub fn into_cipher(self) -> (c: Cipher)
        ensures
            c.id == self.id,
            c.user_id == Some(self.user_id),
            c.organization_id == self.organization_id,
            c.kind == self.kind,
            c.data == self.data,
            c.favorite == (self.favorite != 0),
            c.folder_id == self.folder_id,
            c.deleted_at == self.deleted_at,
            c.created_at == self.created_at,
            c.updated_at == self.updated_at,
            c.object@ == "cipher"@,
            !c.organization_use_totp,
            c.edit,
            c.view_password,
            c.collection_ids is None,
    {
        Cipher {
            id: self.id,
            user_id: Some(self.user_id),
            organization_id: self.organization_id,
            kind: self.kind,
            data: self.data,
            favorite: self.favorite != 0,
            folder_id: self.folder_id,
            deleted_at: self.deleted_at,
            created_at: self.created_at,
            updated_at: self.updated_at,
            object: default_object(),
            organization_use_totp: false,
            edit: default_true(),
            view_password: default_true(),
            collection_ids: None,
        }
    }
}

} // verus!
