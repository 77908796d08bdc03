//! The bulk-import reconciler.
//!
//! An import batch carries folder descriptors, item descriptors, and
//! positional relationships `(itemIndex, folderIndex)` into those two
//! sequences. Reconciliation assigns fresh identities, resolves the
//! relationships against the original input positions, rejects the whole
//! batch when any item was encrypted for another principal, and emits the
//! folder records before the item records.

use vstd::prelude::*;

use crate::cipher::{payload_matches, Cipher, CipherData};
use crate::codec::{
    spec_kind_field, spec_name_field, spec_opt_i32, spec_opt_string, spec_opt_value,
};
use crate::error::{DecodeError, ImportError};
use crate::ids::{fresh_id, timestamp_now};
use crate::json::{take_field, JsonValue};

verus! {

/// A stored folder record.
#[derive(Debug, PartialEq)]
pub struct Folder {
    pub id: String,
    pub user_id: String,
    pub name: String,
    pub created_at: String,
    pub updated_at: String,
}

/// One folder descriptor of an import batch, with its client-supplied
/// temporary id.
#[derive(Debug, PartialEq)]
pub struct ImportFolder {
    pub id: String,
    pub name: String,
}

/// One item descriptor of an import batch, tagged with the principal it was
/// encrypted for.
#[derive(Debug, PartialEq)]
pub struct ImportCipher {
    pub encrypted_for: String,
    pub kind: i32,
    pub name: String,
    pub notes: Option<String>,
    pub favorite: bool,
    pub login: Option<JsonValue>,
    pub card: Option<JsonValue>,
    pub identity: Option<JsonValue>,
    pub secure_note: Option<JsonValue>,
    pub fields: Option<JsonValue>,
    pub password_history: Option<JsonValue>,
    pub reprompt: Option<i32>,
    pub folder_id: Option<String>,
    pub organization_id: Option<String>,
}

/// A positional reference: the item at `key` joins the folder at `value`.
#[derive(Debug, PartialEq)]
pub struct FolderRelationship {
    pub key: usize,
    pub value: usize,
}

/// One bulk import batch.
#[derive(Debug, PartialEq)]
pub struct ImportRequest {
    pub folders: Vec<ImportFolder>,
    pub ciphers: Vec<ImportCipher>,
    pub folder_relationships: Vec<FolderRelationship>,
}

/// The records an accepted batch persists: all folders, then all items.
#[derive(Debug, PartialEq)]
pub struct ImportPlan {
    pub folders: Vec<Folder>,
    pub ciphers: Vec<Cipher>,
}

/// The canonical payload of one imported item.
pub open spec fn spec_import_payload(item: ImportCipher) -> CipherData {
    CipherData {
        name: item.name,
        notes: item.notes,
        login: item.login,
        card: item.card,
        identity: item.identity,
        secure_note: item.secure_note,
        fields: item.fields,
        password_history: item.password_history,
        reprompt: item.reprompt,
    }
}

/// The folder id of item `i` once every relationship is applied in order:
/// the last in-range relationship naming the item wins; items named by no
/// relationship keep the folder id they arrived with. A relationship whose
/// folder index is out of range is ignored.
pub open spec fn resolved_folder_id(
    rels: Seq<FolderRelationship>,
    folder_ids: Seq<String>,
    orig: Option<String>,
    item: int,
) -> Option<String>
    decreases rels.len(),
{
    if rels.len() == 0 {
        orig
    } else {
        let last = rels.last();
        if last.key == item && last.value < folder_ids.len() {
            Some(folder_ids[last.value as int])
        } else {
            resolved_folder_id(rels.drop_last(), folder_ids, orig, item)
        }
    }
}

/// The stored folder for descriptor `f`, under fresh id `id`.
pub open spec fn spec_import_folder(f: ImportFolder, id: String, principal: String, now: String) -> Folder {
    Folder { id, user_id: principal, name: f.name, created_at: now, updated_at: now }
}

/// `c` is the stored record for imported item `item`: a fresh identity, the
/// requesting principal as owner, the batch-wide timestamp, the canonical
/// payload blob, and the folder id resolved from the relationships.
pub open spec fn import_cipher_matches(
    c: Cipher,
    item: ImportCipher,
    id: String,
    principal: String,
    folder: Option<String>,
    now: String,
) -> bool {
    &&& c.id == id
    &&& c.user_id == Some(principal)
    &&& c.organization_id == item.organization_id
    &&& c.kind == item.kind
    &&& payload_matches(c.data, spec_import_payload(item))
    &&& c.favorite == item.favorite
    &&& c.folder_id == folder
    &&& c.deleted_at is None
    &&& c.created_at == now
    &&& c.updated_at == now
    &&& c.object@ == "cipher"@
    &&& !c.organization_use_totp
    &&& c.edit
    &&& c.view_password
    &&& c.collection_ids is None
}

/// Any item of the batch was encrypted for someone else.
pub open spec fn has_foreign_item(items: Seq<ImportCipher>, principal: String) -> bool {
    exists|i: int| 0 <= i < items.len() && items[i].encrypted_for@ != principal@
}

/// `p` is the reconciled plan of `req` under the given fresh ids and the
/// batch-wide timestamp.
pub open spec fn plan_matches(
    req: ImportRequest,
    principal: String,
    folder_ids: Seq<String>,
    cipher_ids: Seq<String>,
    now: String,
    p: ImportPlan,
) -> bool {
    &&& p.folders@.len() == req.folders@.len()
    &&& forall|i: int|
        0 <= i < req.folders@.len() ==> p.folders@[i] == spec_import_folder(
            req.folders@[i],
            folder_ids[i],
            principal,
            now,
        )
    &&& p.ciphers@.len() == req.ciphers@.len()
    &&& forall|i: int|
        0 <= i < req.ciphers@.len() ==> import_cipher_matches(
            p.ciphers@[i],
            req.ciphers@[i],
            cipher_ids[i],
            principal,
            resolved_folder_id(
                req.folder_relationships@,
                folder_ids,
                req.ciphers@[i].folder_id,
                i,
            ),
            now,
        )
}

fn clone_string(s: &String) -> (r: String)
    ensures
        r == *s,
{
    s.clone()
}

fn clone_opt_string(o: &Option<String>) -> (r: Option<String>)
    ensures
        r == *o,
{
    match o {
        Some(s) => Some(s.clone()),
        None => None,
    }
}

/// Resolves the folder id of item `item` by walking every relationship in
/// order, exactly as the batch's wire contract fixes it.
fn resolve_folder_for_item(
    rels: &Vec<FolderRelationship>,
    folder_ids: &Vec<String>,
    orig: &Option<String>,
    item: usize,
) -> (r: Option<String>)
    ensures
        r == resolved_folder_id(rels@, folder_ids@, *orig, item as int),
{
    let mut r = clone_opt_string(orig);
    let n = rels.len();
    let mut j: usize = 0;
    while j < n
        invariant
            n == rels@.len(),
            j <= n,
            r == resolved_folder_id(rels@.take(j as int), folder_ids@, *orig, item as int),
        decreases n - j,
    {
        let rel = &rels[j];
        if rel.key == item && rel.value < folder_ids.len() {
            r = Some(clone_string(&folder_ids[rel.value]));
        }
        proof {
            assert(rels@.take(j + 1).drop_last() =~= rels@.take(j as int));
            assert(rels@.take(j + 1).last() == rels@[j as int]);
        }
        j += 1;
    }
    proof {
        assert(rels@.take(n as int) =~= rels@);
    }
    r
}

/// Reconciles one import batch into its persistence plan.
///
/// The caller supplies one fresh id per folder and per item, and the single
/// timestamp the whole batch shares. The batch is rejected, and nothing is
/// planned, exactly when some item was encrypted for another principal.
pub fn reconcile_import(
    req: ImportRequest,
    principal: &String,
    folder_ids: Vec<String>,
    cipher_ids: Vec<String>,
    now: &String,
) -> (r: Result<ImportPlan, ImportError>)
    requires
        folder_ids@.len() == req.folders@.len(),
        cipher_ids@.len() == req.ciphers@.len(),
    ensures
        r is Err <==> has_foreign_item(req.ciphers@, *principal),
        r matches Ok(p) ==> plan_matches(req, *principal, folder_ids@, cipher_ids@, *now, p),
        r is Err ==> r == Err::<ImportPlan, ImportError>(ImportError::Unauthorized),
{
    let ImportRequest { folders, ciphers, folder_relationships } = req;
    let ghost folders0 = folders@;
    let ghost ciphers0 = ciphers@;

    // Ownership check before anything is planned: a single foreign item
    // rejects the whole batch.
    let n_items = ciphers.len();
    let mut i: usize = 0;
    while i < n_items
        invariant
            n_items == ciphers@.len(),
            ciphers@ == ciphers0,
            ciphers0 == req.ciphers@,
            i <= n_items,
            forall|j: int| 0 <= j < i ==> ciphers@[j].encrypted_for@ == principal@,
        decreases n_items - i,
    {
        if !crate::json::key_is(&ciphers[i].encrypted_for, principal.as_str()) {
            proof {
                assert(ciphers0[i as int].encrypted_for@ != principal@);
                assert(has_foreign_item(ciphers0, *principal)) by {
                    assert(0 <= i < ciphers0.len() && (#[trigger] ciphers0[i as int]).encrypted_for@
                        != principal@);
                };
            }
            return Err(ImportError::Unauthorized);
        }
        i += 1;
    }

    // Folder records, in input order, each under its fresh id.
    let mut out_folders: Vec<Folder> = Vec::new();
    let n_folders = folders.len();
    let mut i: usize = 0;
    let mut folders = folders;
    while i < n_folders
        invariant
            n_folders == folders0.len(),
            folders@ == folders0,
            i <= n_folders,
            folder_ids@.len() == folders0.len(),
            out_folders@.len() == i,
            forall|j: int|
                0 <= j < i ==> out_folders@[j] == spec_import_folder(
                    folders0[j],
                    folder_ids@[j],
                    *principal,
                    *now,
                ),
        decreases n_folders - i,
    {
        let f = Folder {
            id: clone_string(&folder_ids[i]),
            user_id: clone_string(principal),
            name: clone_string(&folders[i].name),
            created_at: clone_string(now),
            updated_at: clone_string(now),
        };
        out_folders.push(f);
        i += 1;
    }

    // Item records: resolve each folder reference against the original
    // positions, then canonicalize under the fresh id and shared timestamp.
    let mut out_ciphers: Vec<Cipher> = Vec::new();
    let mut ciphers = ciphers;
    let mut i: usize = 0;
    while i < n_items
        invariant
            n_items == ciphers0.len(),
            ciphers@ =~= ciphers0.skip(i as int),
            i <= n_items,
            cipher_ids@.len() == ciphers0.len(),
            folder_ids@.len() == folders0.len(),
            out_ciphers@.len() == i,
            forall|j: int|
                0 <= j < i ==> import_cipher_matches(
                    out_ciphers@[j],
                    ciphers0[j],
                    cipher_ids@[j],
                    *principal,
                    resolved_folder_id(
                        folder_relationships@,
                        folder_ids@,
                        ciphers0[j].folder_id,
                        j,
                    ),
                    *now,
                ),
        decreases n_items - i,
    {
        let item = ciphers.remove(0);
        proof {
            assert(item == ciphers0.skip(i as int)[0]);
            assert(item == ciphers0[i as int]);
        }
        let folder = resolve_folder_for_item(
            &folder_relationships,
            &folder_ids,
            &item.folder_id,
            i,
        );
        let data = crate::cipher::payload_to_json(
            CipherData {
                name: item.name,
                notes: item.notes,
                login: item.login,
                card: item.card,
                identity: item.identity,
                secure_note: item.secure_note,
                fields: item.fields,
                password_history: item.password_history,
                reprompt: item.reprompt,
            },
        );
        let c = Cipher {
            id: clone_string(&cipher_ids[i]),
            user_id: Some(clone_string(principal)),
            organization_id: item.organization_id,
            kind: item.kind,
            data,
            favorite: item.favorite,
            folder_id: folder,
            deleted_at: None,
            created_at: clone_string(now),
            updated_at: clone_string(now),
            object: crate::cipher::default_object(),
            organization_use_totp: false,
            edit: crate::cipher::default_true(),
            view_password: crate::cipher::default_true(),
            collection_ids: None,
        };
        out_ciphers.push(c);
        i += 1;
    }
    Ok(ImportPlan { folders: out_folders, ciphers: out_ciphers })
}

/// Reconciles an import batch, drawing one fresh identity per folder and per
/// item and reading the clock once for the whole batch. The batch is
/// rejected, whatever identities were drawn, exactly when some item was
/// encrypted for another principal.
pub fn import_plan(req: ImportRequest, principal: &String) -> (r: Result<ImportPlan, ImportError>)
    ensures
        r is Err <==> has_foreign_item(req.ciphers@, *principal),
        r is Err ==> r == Err::<ImportPlan, ImportError>(ImportError::Unauthorized),
        r matches Ok(p) ==> exists|folder_ids: Seq<String>, cipher_ids: Seq<String>, now: String|
            folder_ids.len() == req.folders@.len() && cipher_ids.len() == req.ciphers@.len() && (
            forall|i: int| 0 <= i < folder_ids.len() ==> folder_ids[i]@.len() == 36) && (forall|
                i: int,
            | 0 <= i < cipher_ids.len() ==> cipher_ids[i]@.len() == 36) && #[trigger] plan_matches(
                req,
                *principal,
                folder_ids,
                cipher_ids,
                now,
                p,
            ),
{
    let now = timestamp_now();
    let n_folders = req.folders.len();
    let n_items = req.ciphers.len();
    let mut folder_ids: Vec<String> = Vec::new();
    while folder_ids.len() < n_folders
        invariant
            folder_ids@.len() <= n_folders,
            forall|i: int| 0 <= i < folder_ids@.len() ==> (#[trigger] folder_ids@[i])@.len() == 36,
        decreases n_folders - folder_ids.len(),
    {
        folder_ids.push(fresh_id());
    }
    let mut cipher_ids: Vec<String> = Vec::new();
    while cipher_ids.len() < n_items
        invariant
            cipher_ids@.len() <= n_items,
            forall|i: int| 0 <= i < cipher_ids@.len() ==> (#[trigger] cipher_ids@[i])@.len() == 36,
        decreases n_items - cipher_ids.len(),
    {
        cipher_ids.push(fresh_id());
    }
    let ghost g_folder_ids = folder_ids@;
    let ghost g_cipher_ids = cipher_ids@;
    let ghost g_now = now;
    match reconcile_import(req, principal, folder_ids, cipher_ids, &now) {
        Ok(p) => {
            proof {
                assert(plan_matches(req, *principal, g_folder_ids, g_cipher_ids, g_now, p));
            }
            Ok(p)
        },
        Err(e) => Err(e),
    }
}

// ---------------------------------------------------------------------------
// Decoding the import wire shape
// ---------------------------------------------------------------------------
/// A mandatory string field.
pub open spec fn spec_req_string(o: Option<JsonValue>) -> Result<String, DecodeError> {
    match o {
        Some(JsonValue::Str(s)) => Ok(s),
        _ => Err(DecodeError::BadString),
    }
}

/// A mandatory non-negative index field.
pub open spec fn spec_index_field(o: Option<JsonValue>) -> Result<usize, DecodeError> {
    match o {
        Some(JsonValue::Int(n)) => if 0 <= n && n <= usize::MAX {
            Ok(n as usize)
        } else {
            Err(DecodeError::BadInt)
        },
        _ => Err(DecodeError::BadInt),
    }
}

/// What decoding one folder descriptor yields: its temporary id and name.
pub open spec fn spec_decode_import_folder(v: JsonValue) -> Result<ImportFolder, DecodeError> {
    if !(v is Obj) {
        Err(DecodeError::NotAnObject)
    } else {
        match spec_req_string(v.get_spec("id"@)) {
            Err(e) => Err(e),
            Ok(id) => match spec_name_field(v.get_spec("name"@)) {
                Err(e) => Err(e),
                Ok(name) => Ok(ImportFolder { id, name }),
            },
        }
    }
}

/// What decoding one positional relationship yields.
pub open spec fn spec_decode_relationship(v: JsonValue) -> Result<FolderRelationship, DecodeError> {
    if !(v is Obj) {
        Err(DecodeError::NotAnObject)
    } else {
        match spec_index_field(v.get_spec("key"@)) {
            Err(e) => Err(e),
            Ok(key) => match spec_index_field(v.get_spec("value"@)) {
                Err(e) => Err(e),
                Ok(value) => Ok(FolderRelationship { key, value }),
            },
        }
    }
}

/// What decoding one import item yields: the principal it was encrypted for,
/// then the same fields a single-item request carries.
pub open spec fn spec_decode_import_cipher(v: JsonValue) -> Result<ImportCipher, DecodeError> {
    if !(v is Obj) {
        Err(DecodeError::NotAnObject)
    } else {
        match spec_req_string(v.get_spec("encryptedFor"@)) {
            Err(e) => Err(e),
            Ok(encrypted_for) => match spec_kind_field(v.get_spec("type"@)) {
                Err(e) => Err(e),
                Ok(kind) => match spec_name_field(v.get_spec("name"@)) {
                    Err(e) => Err(e),
                    Ok(name) => match spec_opt_string(v.get_spec("notes"@)) {
                        Err(e) => Err(e),
                        Ok(notes) => match crate::codec::spec_opt_bool(
                            v.get_spec("favorite"@),
                            false,
                        ) {
                            Err(e) => Err(e),
                            Ok(favorite) => match spec_opt_string(v.get_spec("folderId"@)) {
                                Err(e) => Err(e),
                                Ok(folder_id) => match spec_opt_string(
                                    v.get_spec("organizationId"@),
                                ) {
                                    Err(e) => Err(e),
                                    Ok(organization_id) => match spec_opt_i32(
                                        v.get_spec("reprompt"@),
                                    ) {
                                        Err(e) => Err(e),
                                        Ok(reprompt) => Ok(
                                            ImportCipher {
                                                encrypted_for,
                                                kind,
                                                name,
                                                notes,
                                                favorite,
                                                login: spec_opt_value(v.get_spec("login"@)),
                                                card: spec_opt_value(v.get_spec("card"@)),
                                                identity: spec_opt_value(v.get_spec("identity"@)),
                                                secure_note: spec_opt_value(
                                                    v.get_spec("secureNote"@),
                                                ),
                                                fields: spec_opt_value(v.get_spec("fields"@)),
                                                password_history: spec_opt_value(
                                                    v.get_spec("passwordHistory"@),
                                                ),
                                                reprompt,
                                                folder_id,
                                                organization_id,
                                            },
                                        ),
                                    },
                                },
                            },
                        },
                    },
                },
            },
        }
    }
}

/// What decoding a sequence of folder descriptors yields: every descriptor,
/// in order, or the error of the first one that is malformed.
pub open spec fn spec_decode_folder_seq(items: Seq<JsonValue>) -> Result<
    Seq<ImportFolder>,
    DecodeError,
>
    decreases items.len(),
{
    if items.len() == 0 {
        Ok(Seq::empty())
    } else {
        match spec_decode_folder_seq(items.drop_last()) {
            Err(e) => Err(e),
            Ok(rest) => match spec_decode_import_folder(items.last()) {
                Err(e) => Err(e),
                Ok(f) => Ok(rest.push(f)),
            },
        }
    }
}

/// What decoding a sequence of import items yields.
pub open spec fn spec_decode_cipher_seq(items: Seq<JsonValue>) -> Result<
    Seq<ImportCipher>,
    DecodeError,
>
    decreases items.len(),
{
    if items.len() == 0 {
        Ok(Seq::empty())
    } else {
        match spec_decode_cipher_seq(items.drop_last()) {
            Err(e) => Err(e),
            Ok(rest) => match spec_decode_import_cipher(items.last()) {
                Err(e) => Err(e),
                Ok(c) => Ok(rest.push(c)),
            },
        }
    }
}

/// What decoding a sequence of relationships yields.
pub open spec fn spec_decode_relationship_seq(items: Seq<JsonValue>) -> Result<
    Seq<FolderRelationship>,
    DecodeError,
>
    decreases items.len(),
{
    if items.len() == 0 {
        Ok(Seq::empty())
    } else {
        match spec_decode_relationship_seq(items.drop_last()) {
            Err(e) => Err(e),
            Ok(rest) => match spec_decode_relationship(items.last()) {
                Err(e) => Err(e),
                Ok(r) => Ok(rest.push(r)),
            },
        }
    }
}

proof fn lemma_decode_folder_seq_err_extends(items: Seq<JsonValue>, j: int)
    requires
        0 <= j <= items.len(),
        spec_decode_folder_seq(items.take(j)) is Err,
    ensures
        spec_decode_folder_seq(items) == spec_decode_folder_seq(items.take(j)),
    decreases items.len() - j,
{
    if j == items.len() {
        assert(items.take(j) =~= items);
    } else {
        assert(items.take(j + 1).drop_last() =~= items.take(j));
        lemma_decode_folder_seq_err_extends(items, j + 1);
    }
}

proof fn lemma_decode_cipher_seq_err_extends(items: Seq<JsonValue>, j: int)
    requires
        0 <= j <= items.len(),
        spec_decode_cipher_seq(items.take(j)) is Err,
    ensures
        spec_decode_cipher_seq(items) == spec_decode_cipher_seq(items.take(j)),
    decreases items.len() - j,
{
    if j == items.len() {
        assert(items.take(j) =~= items);
    } else {
        assert(items.take(j + 1).drop_last() =~= items.take(j));
        lemma_decode_cipher_seq_err_extends(items, j + 1);
    }
}

proof fn lemma_decode_relationship_seq_err_extends(items: Seq<JsonValue>, j: int)
    requires
        0 <= j <= items.len(),
        spec_decode_relationship_seq(items.take(j)) is Err,
    ensures
        spec_decode_relationship_seq(items) == spec_decode_relationship_seq(items.take(j)),
    decreases items.len() - j,
{
    if j == items.len() {
        assert(items.take(j) =~= items);
    } else {
        assert(items.take(j + 1).drop_last() =~= items.take(j));
        lemma_decode_relationship_seq_err_extends(items, j + 1);
    }
}

fn conv_req_string(o: Option<JsonValue>) -> (r: Result<String, DecodeError>)
    ensures
        r == spec_req_string(o),
{
    match o {
        Some(JsonValue::Str(s)) => Ok(s),
        _ => Err(DecodeError::BadString),
    }
}

fn conv_index(o: Option<JsonValue>) -> (r: Result<usize, DecodeError>)
    ensures
        r == spec_index_field(o),
{
    match o {
        Some(JsonValue::Int(n)) => if n >= 0 && n as u128 <= usize::MAX as u128 {
            Ok(n as usize)
        } else {
            Err(DecodeError::BadInt)
        },
        _ => Err(DecodeError::BadInt),
    }
}

/// Decodes one folder descriptor.
pub fn decode_import_folder(v: JsonValue) -> (r: Result<ImportFolder, DecodeError>)
    ensures
        r == spec_decode_import_folder(v),
{
    proof {
        reveal_strlit("id");
        reveal_strlit("name");
        assert("id"@.len() == 2 && "name"@.len() == 4);
    }
    let mut entries = match v {
        JsonValue::Obj(es) => es,
        _ => {
            return Err(DecodeError::NotAnObject);
        },
    };
    let f_id = take_field(&mut entries, "id");
    let f_name = take_field(&mut entries, "name");
    let id = match conv_req_string(f_id) {
        Ok(s) => s,
        Err(e) => {
            return Err(e);
        },
    };
    let name = match crate::codec::conv_name(f_name) {
        Ok(s) => s,
        Err(e) => {
            return Err(e);
        },
    };
    Ok(ImportFolder { id, name })
}

/// Decodes one positional relationship.
pub fn decode_relationship(v: JsonValue) -> (r: Result<FolderRelationship, DecodeError>)
    ensures
        r == spec_decode_relationship(v),
{
    proof {
        reveal_strlit("key");
        reveal_strlit("value");
        assert("key"@.len() == 3 && "value"@.len() == 5);
    }
    let mut entries = match v {
        JsonValue::Obj(es) => es,
        _ => {
            return Err(DecodeError::NotAnObject);
        },
    };
    let f_key = take_field(&mut entries, "key");
    let f_value = take_field(&mut entries, "value");
    let key = match conv_index(f_key) {
        Ok(k) => k,
        Err(e) => {
            return Err(e);
        },
    };
    let value = match conv_index(f_value) {
        Ok(k) => k,
        Err(e) => {
            return Err(e);
        },
    };
    Ok(FolderRelationship { key, value })
}

/// Decodes one import item.
pub fn decode_import_cipher(v: JsonValue) -> (r: Result<ImportCipher, DecodeError>)
    ensures
        r == spec_decode_import_cipher(v),
{
    proof {
        reveal_strlit("encryptedFor");
        reveal_strlit("type");
        reveal_strlit("name");
        reveal_strlit("notes");
        reveal_strlit("favorite");
        reveal_strlit("folderId");
        reveal_strlit("organizationId");
        reveal_strlit("reprompt");
        reveal_strlit("login");
        reveal_strlit("card");
        reveal_strlit("identity");
        reveal_strlit("secureNote");
        reveal_strlit("fields");
        reveal_strlit("passwordHistory");
        crate::codec::lemma_wire_keys_distinct();
        assert("encryptedFor"@.len() == 12 && "type"@.len() == 4 && "name"@.len() == 4
            && "notes"@.len() == 5 && "favorite"@.len() == 8 && "folderId"@.len() == 8
            && "organizationId"@.len() == 14 && "reprompt"@.len() == 8 && "login"@.len() == 5
            && "card"@.len() == 4 && "identity"@.len() == 8 && "secureNote"@.len() == 10
            && "fields"@.len() == 6 && "passwordHistory"@.len() == 15);
    }
    let mut entries = match v {
        JsonValue::Obj(es) => es,
        _ => {
            return Err(DecodeError::NotAnObject);
        },
    };
    let f_encrypted_for = take_field(&mut entries, "encryptedFor");
    let f_type = take_field(&mut entries, "type");
    let f_name = take_field(&mut entries, "name");
    let f_notes = take_field(&mut entries, "notes");
    let f_favorite = take_field(&mut entries, "favorite");
    let f_folder_id = take_field(&mut entries, "folderId");
    let f_organization_id = take_field(&mut entries, "organizationId");
    let f_reprompt = take_field(&mut entries, "reprompt");
    let f_login = take_field(&mut entries, "login");
    let f_card = take_field(&mut entries, "card");
    let f_identity = take_field(&mut entries, "identity");
    let f_secure_note = take_field(&mut entries, "secureNote");
    let f_fields = take_field(&mut entries, "fields");
    let f_password_history = take_field(&mut entries, "passwordHistory");
    let encrypted_for = match conv_req_string(f_encrypted_for) {
        Ok(s) => s,
        Err(e) => {
            return Err(e);
        },
    };
    let kind = match crate::codec::conv_kind(f_type) {
        Ok(k) => k,
        Err(e) => {
            return Err(e);
        },
    };
    let name = match crate::codec::conv_name(f_name) {
        Ok(s) => s,
        Err(e) => {
            return Err(e);
        },
    };
    let notes = match crate::codec::conv_opt_string(f_notes) {
        Ok(x) => x,
        Err(e) => {
            return Err(e);
        },
    };
    let favorite = match crate::codec::conv_opt_bool(f_favorite, false) {
        Ok(b) => b,
        Err(e) => {
            return Err(e);
        },
    };
    let folder_id = match crate::codec::conv_opt_string(f_folder_id) {
        Ok(x) => x,
        Err(e) => {
            return Err(e);
        },
    };
    let organization_id = match crate::codec::conv_opt_string(f_organization_id) {
        Ok(x) => x,
        Err(e) => {
            return Err(e);
        },
    };
    let reprompt = match crate::codec::conv_opt_i32(f_reprompt) {
        Ok(x) => x,
        Err(e) => {
            return Err(e);
        },
    };
    Ok(
        ImportCipher {
            encrypted_for,
            kind,
            name,
            notes,
            favorite,
            login: crate::codec::conv_opt_value(f_login),
            card: crate::codec::conv_opt_value(f_card),
            identity: crate::codec::conv_opt_value(f_identity),
            secure_note: crate::codec::conv_opt_value(f_secure_note),
            fields: crate::codec::conv_opt_value(f_fields),
            password_history: crate::codec::conv_opt_value(f_password_history),
            reprompt,
            folder_id,
            organization_id,
        },
    )
}

/// What decoding a whole import request yields: its three sequences, each
/// mandatory, each an array.
pub open spec fn spec_decode_import_request(v: JsonValue) -> Result<
    (Seq<ImportFolder>, Seq<ImportCipher>, Seq<FolderRelationship>),
    DecodeError,
> {
    if !(v is Obj) {
        Err(DecodeError::NotAnObject)
    } else {
        match v.get_spec("folders"@) {
            Some(JsonValue::Arr(fs)) => match v.get_spec("ciphers"@) {
                Some(JsonValue::Arr(cs)) => match v.get_spec("folderRelationships"@) {
                    Some(JsonValue::Arr(rs)) => match spec_decode_folder_seq(fs@) {
                        Err(e) => Err(e),
                        Ok(folders) => match spec_decode_cipher_seq(cs@) {
                            Err(e) => Err(e),
                            Ok(ciphers) => match spec_decode_relationship_seq(rs@) {
                                Err(e) => Err(e),
                                Ok(rels) => Ok((folders, ciphers, rels)),
                            },
                        },
                    },
                    _ => Err(DecodeError::BadArray),
                },
                _ => Err(DecodeError::BadArray),
            },
            _ => Err(DecodeError::BadArray),
        }
    }
}

/// Decodes a whole import request.
pub fn decode_import_request(v: JsonValue) -> (r: Result<ImportRequest, DecodeError>)
    ensures
        match r {
            Ok(req) => spec_decode_import_request(v) == Ok::<
                (Seq<ImportFolder>, Seq<ImportCipher>, Seq<FolderRelationship>),
                DecodeError,
            >((req.folders@, req.ciphers@, req.folder_relationships@)),
            Err(e) => spec_decode_import_request(v) == Err::<
                (Seq<ImportFolder>, Seq<ImportCipher>, Seq<FolderRelationship>),
                DecodeError,
            >(e),
        },
{
    proof {
        reveal_strlit("folders");
        reveal_strlit("ciphers");
        reveal_strlit("folderRelationships");
        crate::codec::lemma_wire_keys_distinct();
        assert("folders"@.len() == 7 && "ciphers"@.len() == 7 && "folderRelationships"@.len()
            == 19);
    }
    let mut entries = match v {
        JsonValue::Obj(es) => es,
        _ => {
            return Err(DecodeError::NotAnObject);
        },
    };
    let f_folders = take_field(&mut entries, "folders");
    let f_ciphers = take_field(&mut entries, "ciphers");
    let f_rels = take_field(&mut entries, "folderRelationships");
    let fs = match f_folders {
        Some(JsonValue::Arr(fs)) => fs,
        _ => {
            return Err(DecodeError::BadArray);
        },
    };
    let cs = match f_ciphers {
        Some(JsonValue::Arr(cs)) => cs,
        _ => {
            return Err(DecodeError::BadArray);
        },
    };
    let rs = match f_rels {
        Some(JsonValue::Arr(rs)) => rs,
        _ => {
            return Err(DecodeError::BadArray);
        },
    };
    let ghost fs0 = fs@;
    let ghost cs0 = cs@;
    let ghost rs0 = rs@;
    let mut fs = fs;
    let mut folders: Vec<ImportFolder> = Vec::new();
    while fs.len() > 0
        invariant
            v is Obj,
            v.get_spec("folders"@) matches Some(av) && av is Arr && av->Arr_0@ == fs0,
            v.get_spec("ciphers"@) matches Some(av) && av is Arr && av->Arr_0@ == cs0,
            v.get_spec("folderRelationships"@) matches Some(av) && av is Arr && av->Arr_0@ == rs0,
            fs@ =~= fs0.skip(fs0.len() - fs.len()),
            fs.len() <= fs0.len(),
            spec_decode_folder_seq(fs0.take(fs0.len() - fs.len())) == Ok::<
                Seq<ImportFolder>,
                DecodeError,
            >(folders@),
        decreases fs.len(),
    {
        let ghost k: int = fs0.len() - fs.len();
        let item = fs.remove(0);
        proof {
            assert(item == fs0.skip(k)[0]);
            assert(item == fs0[k]);
            assert(fs0.take(k + 1).drop_last() =~= fs0.take(k));
            assert(fs0.take(k + 1).last() == fs0[k]);
        }
        match decode_import_folder(item) {
            Ok(f) => folders.push(f),
            Err(e) => {
                proof {
                    lemma_decode_folder_seq_err_extends(fs0, k + 1);
                }
                return Err(e);
            },
        }
    }
    proof {
        assert(fs0.take(fs0.len() as int) =~= fs0);
    }
    let mut cs = cs;
    let mut ciphers: Vec<ImportCipher> = Vec::new();
    while cs.len() > 0
        invariant
            v is Obj,
            v.get_spec("folders"@) matches Some(av) && av is Arr && av->Arr_0@ == fs0,
            v.get_spec("ciphers"@) matches Some(av) && av is Arr && av->Arr_0@ == cs0,
            v.get_spec("folderRelationships"@) matches Some(av) && av is Arr && av->Arr_0@ == rs0,
            cs@ =~= cs0.skip(cs0.len() - cs.len()),
            cs.len() <= cs0.len(),
            spec_decode_folder_seq(fs0) == Ok::<Seq<ImportFolder>, DecodeError>(folders@),
            spec_decode_cipher_seq(cs0.take(cs0.len() - cs.len())) == Ok::<
                Seq<ImportCipher>,
                DecodeError,
            >(ciphers@),
        decreases cs.len(),
    {
        let ghost k: int = cs0.len() - cs.len();
        let item = cs.remove(0);
        proof {
            assert(item == cs0.skip(k)[0]);
            assert(item == cs0[k]);
            assert(cs0.take(k + 1).drop_last() =~= cs0.take(k));
            assert(cs0.take(k + 1).last() == cs0[k]);
        }
        match decode_import_cipher(item) {
            Ok(c) => ciphers.push(c),
            Err(e) => {
                proof {
                    lemma_decode_cipher_seq_err_extends(cs0, k + 1);
                }
                return Err(e);
            },
        }
    }
    proof {
        assert(cs0.take(cs0.len() as int) =~= cs0);
    }
    let mut rs = rs;
    let mut rels: Vec<FolderRelationship> = Vec::new();
    while rs.len() > 0
        invariant
            v is Obj,
            v.get_spec("folders"@) matches Some(av) && av is Arr && av->Arr_0@ == fs0,
            v.get_spec("ciphers"@) matches Some(av) && av is Arr && av->Arr_0@ == cs0,
            v.get_spec("folderRelationships"@) matches Some(av) && av is Arr && av->Arr_0@ == rs0,
            rs@ =~= rs0.skip(rs0.len() - rs.len()),
            rs.len() <= rs0.len(),
            spec_decode_folder_seq(fs0) == Ok::<Seq<ImportFolder>, DecodeError>(folders@),
            spec_decode_cipher_seq(cs0) == Ok::<Seq<ImportCipher>, DecodeError>(ciphers@),
            spec_decode_relationship_seq(rs0.take(rs0.len() - rs.len())) == Ok::<
                Seq<FolderRelationship>,
                DecodeError,
            >(rels@),
        decreases rs.len(),
    {
        let ghost k: int = rs0.len() - rs.len();
        let item = rs.remove(0);
        proof {
            assert(item == rs0.skip(k)[0]);
            assert(item == rs0[k]);
            assert(rs0.take(k + 1).drop_last() =~= rs0.take(k));
            assert(rs0.take(k + 1).last() == rs0[k]);
        }
        match decode_relationship(item) {
            Ok(r) => rels.push(r),
            Err(e) => {
                proof {
                    lemma_decode_relationship_seq_err_extends(rs0, k + 1);
                }
                return Err(e);
            },
        }
    }
    proof {
        assert(rs0.take(rs0.len() as int) =~= rs0);
    }
    Ok(ImportRequest { folders, ciphers, folder_relationships: rels })
}

} // verus!
