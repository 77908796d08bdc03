use vault_sync::error::{DecodeError, ImportError};
use vault_sync::import::{
    decode_import_request, import_plan, reconcile_import, FolderRelationship, ImportCipher,
    ImportFolder, ImportRequest,
};
use vault_sync::json::JsonValue;

fn s(x: &str) -> String {
    x.to_string()
}

fn obj(pairs: Vec<(&str, JsonValue)>) -> JsonValue {
    JsonValue::Obj(pairs.into_iter().map(|(k, v)| (k.to_string(), v)).collect())
}

fn item(name: &str, owner: &str) -> ImportCipher {
    ImportCipher {
        encrypted_for: s(owner),
        kind: 1,
        name: s(name),
        notes: None,
        favorite: false,
        login: None,
        card: None,
        identity: None,
        secure_note: None,
        fields: None,
        password_history: None,
        reprompt: None,
        folder_id: None,
        organization_id: None,
    }
}

fn two_by_two(rels: Vec<(usize, usize)>, owner1: &str) -> ImportRequest {
    ImportRequest {
        folders: vec![
            ImportFolder { id: s("tmp-f0"), name: s("F0") },
            ImportFolder { id: s("tmp-f1"), name: s("F1") },
        ],
        ciphers: vec![item("I0", "user-1"), item("I1", owner1)],
        folder_relationships: rels
            .into_iter()
            .map(|(key, value)| FolderRelationship { key, value })
            .collect(),
    }
}

#[test]
fn relationship_assigns_resolved_folder_id() {
    let req = two_by_two(vec![(1, 0)], "user-1");
    let plan = reconcile_import(
        req,
        &s("user-1"),
        vec![s("fid-0"), s("fid-1")],
        vec![s("cid-0"), s("cid-1")],
        &s("2024-01-01T00:00:00.000Z"),
    )
    .expect("import succeeds");
    assert_eq!(plan.folders.len(), 2);
    assert_eq!(plan.folders[0].id, s("fid-0"));
    assert_eq!(plan.folders[0].name, s("F0"));
    assert_eq!(plan.folders[1].id, s("fid-1"));
    assert_eq!(plan.ciphers[1].folder_id, Some(s("fid-0")));
    assert_eq!(plan.ciphers[0].folder_id, None, "unnamed item keeps its folder id");
    assert_eq!(plan.ciphers[0].id, s("cid-0"));
    assert_eq!(plan.ciphers[0].user_id, Some(s("user-1")));
    assert_eq!(plan.ciphers[0].created_at, s("2024-01-01T00:00:00.000Z"));
}

#[test]
fn out_of_range_relationship_is_ignored() {
    let req = two_by_two(vec![(5, 0), (0, 9)], "user-1");
    let plan = reconcile_import(
        req,
        &s("user-1"),
        vec![s("fid-0"), s("fid-1")],
        vec![s("cid-0"), s("cid-1")],
        &s("2024-01-01T00:00:00.000Z"),
    )
    .expect("out-of-range indices never fail an import");
    assert_eq!(plan.ciphers[0].folder_id, None);
    assert_eq!(plan.ciphers[1].folder_id, None);
    assert_eq!(plan.ciphers.len(), 2);
}

#[test]
fn later_relationship_wins() {
    let req = two_by_two(vec![(1, 0), (1, 1)], "user-1");
    let plan = reconcile_import(
        req,
        &s("user-1"),
        vec![s("fid-0"), s("fid-1")],
        vec![s("cid-0"), s("cid-1")],
        &s("2024-01-01T00:00:00.000Z"),
    )
    .unwrap();
    assert_eq!(plan.ciphers[1].folder_id, Some(s("fid-1")));
}

#[test]
fn foreign_item_rejects_the_whole_batch() {
    let req = two_by_two(vec![], "someone-else");
    let r = reconcile_import(
        req,
        &s("user-1"),
        vec![s("fid-0"), s("fid-1")],
        vec![s("cid-0"), s("cid-1")],
        &s("2024-01-01T00:00:00.000Z"),
    );
    assert_eq!(r, Err(ImportError::Unauthorized));
    assert_eq!(
        ImportError::Unauthorized.message(),
        s("Cipher encrypted for wrong user")
    );
}

#[test]
fn import_plan_draws_hyphenated_fresh_ids() {
    let req = two_by_two(vec![(0, 1)], "user-1");
    let plan = import_plan(req, &s("user-1")).expect("plan succeeds");
    assert_eq!(plan.folders.len(), 2);
    assert_eq!(plan.ciphers.len(), 2);
    for f in &plan.folders {
        assert_eq!(f.id.chars().count(), 36);
        assert_ne!(f.id, s("tmp-f0"), "folders get fresh ids, not client ids");
    }
    for c in &plan.ciphers {
        assert_eq!(c.id.chars().count(), 36);
    }
    assert_ne!(plan.folders[0].id, plan.folders[1].id);
    assert_eq!(plan.ciphers[0].folder_id, Some(plan.folders[1].id.clone()));
    assert_eq!(
        plan.ciphers[0].created_at, plan.ciphers[1].created_at,
        "one timestamp for the whole batch"
    );
    assert_eq!(plan.folders[0].created_at, plan.ciphers[0].created_at);
}

#[test]
fn import_plan_rejects_foreign_items_before_planning() {
    let req = two_by_two(vec![], "intruder");
    assert_eq!(import_plan(req, &s("user-1")), Err(ImportError::Unauthorized));
}

#[test]
fn decode_import_request_reads_all_three_sequences() {
    let v = obj(vec![
        (
            "folders",
            JsonValue::Arr(vec![obj(vec![
                ("id", JsonValue::Str(s("tmp-1"))),
                ("name", JsonValue::Str(s("Work"))),
            ])]),
        ),
        (
            "ciphers",
            JsonValue::Arr(vec![obj(vec![
                ("encryptedFor", JsonValue::Str(s("user-1"))),
                ("type", JsonValue::Int(1)),
                ("name", JsonValue::Str(s("entry"))),
                ("favorite", JsonValue::Int(1)),
                ("login", obj(vec![("username", JsonValue::Str(s("u")))])),
            ])]),
        ),
        (
            "folderRelationships",
            JsonValue::Arr(vec![obj(vec![
                ("key", JsonValue::Int(0)),
                ("value", JsonValue::Int(0)),
            ])]),
        ),
    ]);
    let req = decode_import_request(v).unwrap();
    assert_eq!(req.folders.len(), 1);
    assert_eq!(req.folders[0].id, s("tmp-1"));
    assert_eq!(req.folders[0].name, s("Work"));
    assert_eq!(req.ciphers.len(), 1);
    assert_eq!(req.ciphers[0].encrypted_for, s("user-1"));
    assert_eq!(req.ciphers[0].favorite, true, "favorite coerces from 1");
    assert_eq!(req.folder_relationships, vec![FolderRelationship { key: 0, value: 0 }]);
}

#[test]
fn decode_import_item_rejects_out_of_domain_kind() {
    let v = obj(vec![
        ("folders", JsonValue::Arr(vec![])),
        (
            "ciphers",
            JsonValue::Arr(vec![obj(vec![
                ("encryptedFor", JsonValue::Str(s("user-1"))),
                ("type", JsonValue::Int(6)),
                ("name", JsonValue::Str(s("n"))),
            ])]),
        ),
        ("folderRelationships", JsonValue::Arr(vec![])),
    ]);
    assert_eq!(decode_import_request(v), Err(DecodeError::BadKind));
}

#[test]
fn decode_import_item_treats_null_fields_as_absent() {
    let v = obj(vec![
        ("folders", JsonValue::Arr(vec![])),
        (
            "ciphers",
            JsonValue::Arr(vec![obj(vec![
                ("encryptedFor", JsonValue::Str(s("user-1"))),
                ("type", JsonValue::Int(2)),
                ("name", JsonValue::Str(s("n"))),
                ("notes", JsonValue::Null),
                ("login", JsonValue::Null),
                ("reprompt", JsonValue::Null),
                ("favorite", JsonValue::Bool(false)),
            ])]),
        ),
        ("folderRelationships", JsonValue::Arr(vec![])),
    ]);
    let req = decode_import_request(v).unwrap();
    assert_eq!(req.ciphers[0].notes, None);
    assert_eq!(req.ciphers[0].login, None);
    assert_eq!(req.ciphers[0].reprompt, None);
    assert_eq!(req.ciphers[0].favorite, false);
}

#[test]
fn decode_import_request_rejects_bad_shapes() {
    assert_eq!(
        decode_import_request(JsonValue::Null),
        Err(DecodeError::NotAnObject)
    );
    let missing = obj(vec![("folders", JsonValue::Arr(vec![]))]);
    assert_eq!(decode_import_request(missing), Err(DecodeError::BadArray));
    let bad_rel = obj(vec![
        ("folders", JsonValue::Arr(vec![])),
        ("ciphers", JsonValue::Arr(vec![])),
        (
            "folderRelationships",
            JsonValue::Arr(vec![obj(vec![
                ("key", JsonValue::Int(-1)),
                ("value", JsonValue::Int(0)),
            ])]),
        ),
    ]);
    assert_eq!(decode_import_request(bad_rel), Err(DecodeError::BadInt));
    let bad_folder = obj(vec![
        (
            "folders",
            JsonValue::Arr(vec![obj(vec![("name", JsonValue::Str(s("no id")))])]),
        ),
        ("ciphers", JsonValue::Arr(vec![])),
        ("folderRelationships", JsonValue::Arr(vec![])),
    ]);
    assert_eq!(decode_import_request(bad_folder), Err(DecodeError::BadString));
}
