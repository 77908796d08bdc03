use vault_sync::cipher::{build_cipher, default_object, default_true, Cipher, CipherData};
use vault_sync::cipher::{payload_to_json, CipherRequestData};
use vault_sync::codec::{decode_cipher_request_data, decode_create_cipher_request, encode_cipher};
use vault_sync::error::DecodeError;
use vault_sync::json::JsonValue;

fn s(x: &str) -> String {
    x.to_string()
}

fn obj(pairs: Vec<(&str, JsonValue)>) -> JsonValue {
    JsonValue::Obj(pairs.into_iter().map(|(k, v)| (k.to_string(), v)).collect())
}

fn get<'a>(v: &'a JsonValue, key: &str) -> Option<&'a JsonValue> {
    match v {
        JsonValue::Obj(es) => es.iter().find(|e| e.0 == key).map(|e| &e.1),
        _ => None,
    }
}

fn keys(v: &JsonValue) -> Vec<String> {
    match v {
        JsonValue::Obj(es) => es.iter().map(|e| e.0.clone()).collect(),
        _ => vec![],
    }
}

fn sample_cipher(kind: i32) -> Cipher {
    let data = payload_to_json(CipherData {
        name: s("item name"),
        notes: Some(s("some notes")),
        login: Some(obj(vec![("username", JsonValue::Str(s("u")))])),
        card: Some(obj(vec![("number", JsonValue::Str(s("4111")))])),
        identity: Some(obj(vec![("firstName", JsonValue::Str(s("a")))])),
        secure_note: Some(obj(vec![("type", JsonValue::Int(0))])),
        fields: Some(JsonValue::Arr(vec![JsonValue::Str(s("f1"))])),
        password_history: Some(JsonValue::Arr(vec![])),
        reprompt: Some(1),
    });
    Cipher {
        id: s("id-1"),
        user_id: Some(s("user-1")),
        organization_id: None,
        kind,
        data,
        favorite: true,
        folder_id: Some(s("folder-1")),
        deleted_at: None,
        created_at: s("2024-01-01T00:00:00.000Z"),
        updated_at: s("2024-01-02T00:00:00.000Z"),
        object: default_object(),
        organization_use_totp: false,
        edit: default_true(),
        view_password: default_true(),
        collection_ids: None,
    }
}

#[test]
fn encode_populates_exactly_the_selected_variant() {
    let variant_keys = ["login", "secureNote", "card", "identity"];
    for kind in 1..=4 {
        let r = encode_cipher(sample_cipher(kind));
        for (i, key) in variant_keys.iter().enumerate() {
            let v = get(&r, key).expect("variant key present");
            if i as i32 + 1 == kind {
                assert!(*v != JsonValue::Null, "kind {kind} must populate {key}");
            } else {
                assert_eq!(*v, JsonValue::Null, "kind {kind} must null out {key}");
            }
        }
    }
}

#[test]
fn encode_emits_the_exact_field_set_in_order() {
    let r = encode_cipher(sample_cipher(1));
    let expected = vec![
        "object",
        "id",
        "userId",
        "organizationId",
        "folderId",
        "type",
        "favorite",
        "edit",
        "viewPassword",
        "permissions",
        "organizationUseTotp",
        "collectionIds",
        "revisionDate",
        "creationDate",
        "deletedDate",
        "name",
        "notes",
        "fields",
        "passwordHistory",
        "reprompt",
        "login",
        "secureNote",
        "card",
        "identity",
    ];
    assert_eq!(keys(&r), expected);
    assert_eq!(get(&r, "object"), Some(&JsonValue::Str(s("cipher"))));
    assert_eq!(get(&r, "organizationId"), Some(&JsonValue::Null));
    assert_eq!(get(&r, "folderId"), Some(&JsonValue::Str(s("folder-1"))));
    assert_eq!(get(&r, "type"), Some(&JsonValue::Int(1)));
    assert_eq!(get(&r, "favorite"), Some(&JsonValue::Bool(true)));
    assert_eq!(get(&r, "collectionIds"), Some(&JsonValue::Null));
    assert_eq!(
        get(&r, "revisionDate"),
        Some(&JsonValue::Str(s("2024-01-02T00:00:00.000Z")))
    );
    assert_eq!(
        get(&r, "creationDate"),
        Some(&JsonValue::Str(s("2024-01-01T00:00:00.000Z")))
    );
    assert_eq!(get(&r, "deletedDate"), Some(&JsonValue::Null));
    assert_eq!(
        get(&r, "permissions"),
        Some(&obj(vec![
            ("delete", JsonValue::Bool(true)),
            ("restore", JsonValue::Bool(true)),
        ]))
    );
}

#[test]
fn encode_of_malformed_payload_degrades_to_null() {
    let mut c = sample_cipher(1);
    c.data = JsonValue::Str(s("not an object"));
    let r = encode_cipher(c);
    for key in [
        "name",
        "notes",
        "fields",
        "passwordHistory",
        "reprompt",
        "login",
        "secureNote",
        "card",
        "identity",
    ] {
        assert_eq!(get(&r, key), Some(&JsonValue::Null), "{key} must degrade to null");
    }
}

#[test]
fn encode_defaults_absent_reprompt_to_zero() {
    let mut c = sample_cipher(2);
    c.data = payload_to_json(CipherData {
        name: s("n"),
        notes: None,
        login: None,
        card: None,
        identity: None,
        secure_note: None,
        fields: None,
        password_history: None,
        reprompt: None,
    });
    let r = encode_cipher(c);
    assert_eq!(get(&r, "reprompt"), Some(&JsonValue::Int(0)));
    assert_eq!(get(&r, "notes"), Some(&JsonValue::Null));
}

#[test]
fn encode_omits_user_id_only_when_absent() {
    let with_user = encode_cipher(sample_cipher(1));
    assert!(keys(&with_user).contains(&s("userId")));
    assert_eq!(get(&with_user, "userId"), Some(&JsonValue::Str(s("user-1"))));
    let mut c = sample_cipher(1);
    c.user_id = None;
    let without = encode_cipher(c);
    assert!(!keys(&without).contains(&s("userId")));
    assert_eq!(keys(&without).len(), 23);
}

#[test]
fn decode_encode_round_trip_restores_payload_fields() {
    let c = sample_cipher(1);
    let encoded = encode_cipher(sample_cipher(1));
    let req = decode_cipher_request_data(encoded).expect("round trip decodes");
    assert_eq!(req.kind, c.kind);
    assert_eq!(req.name, s("item name"));
    assert_eq!(req.notes, Some(s("some notes")));
    assert_eq!(req.favorite, true);
    assert_eq!(req.folder_id, Some(s("folder-1")));
    assert_eq!(req.organization_id, None);
    assert_eq!(req.fields, Some(JsonValue::Arr(vec![JsonValue::Str(s("f1"))])));
    assert_eq!(req.password_history, Some(JsonValue::Arr(vec![])));
    assert_eq!(req.reprompt, Some(1));
    assert_eq!(req.login, Some(obj(vec![("username", JsonValue::Str(s("u")))])));
    assert_eq!(req.card, None, "unselected variant decodes back to absent");
    assert_eq!(req.last_known_revision_date, None);
    assert_eq!(req.key, None);
}

#[test]
fn decode_coerces_favorite_from_int_and_bool() {
    let base = |fav: JsonValue| {
        obj(vec![
            ("type", JsonValue::Int(1)),
            ("name", JsonValue::Str(s("n"))),
            ("favorite", fav),
        ])
    };
    let one = decode_cipher_request_data(base(JsonValue::Int(1))).unwrap();
    let yes = decode_cipher_request_data(base(JsonValue::Bool(true))).unwrap();
    assert_eq!(one.favorite, true);
    assert_eq!(yes.favorite, true);
    assert_eq!(one, yes);
    let zero = decode_cipher_request_data(base(JsonValue::Int(0))).unwrap();
    assert_eq!(zero.favorite, false);
    let two = decode_cipher_request_data(base(JsonValue::Int(2)));
    assert_eq!(two, Err(DecodeError::BadBool));
}

#[test]
fn decode_defaults_and_opaque_fields() {
    let v = obj(vec![
        ("type", JsonValue::Int(3)),
        ("name", JsonValue::Str(s("card item"))),
        ("card", obj(vec![("number", JsonValue::Str(s("4111")))])),
        ("somethingUnknown", JsonValue::Str(s("ignored"))),
        ("notes", JsonValue::Null),
    ]);
    let req = decode_cipher_request_data(v).unwrap();
    assert_eq!(req.kind, 3);
    assert_eq!(req.favorite, false, "absent favorite defaults to false");
    assert_eq!(req.notes, None, "null notes reads as absent");
    assert_eq!(req.card, Some(obj(vec![("number", JsonValue::Str(s("4111")))])));
    assert_eq!(req.login, None);
}

#[test]
fn decode_rejects_missing_name_and_kind() {
    let no_name = obj(vec![("type", JsonValue::Int(1))]);
    assert_eq!(decode_cipher_request_data(no_name), Err(DecodeError::BadName));
    let no_kind = obj(vec![("name", JsonValue::Str(s("n")))]);
    assert_eq!(decode_cipher_request_data(no_kind), Err(DecodeError::BadKind));
    assert_eq!(
        decode_cipher_request_data(JsonValue::Arr(vec![])),
        Err(DecodeError::NotAnObject)
    );
    let bad_notes = obj(vec![
        ("type", JsonValue::Int(1)),
        ("name", JsonValue::Str(s("n"))),
        ("notes", JsonValue::Int(5)),
    ]);
    assert_eq!(decode_cipher_request_data(bad_notes), Err(DecodeError::BadString));
    let bad_favorite = obj(vec![
        ("type", JsonValue::Int(1)),
        ("name", JsonValue::Str(s("n"))),
        ("reprompt", JsonValue::Int(1)),
        ("favorite", JsonValue::Str(s("x"))),
    ]);
    assert_eq!(decode_cipher_request_data(bad_favorite), Err(DecodeError::BadBool));
}

#[test]
fn decode_rejects_out_of_domain_kind() {
    let with_kind = |kind: i64| {
        obj(vec![("type", JsonValue::Int(kind)), ("name", JsonValue::Str(s("n")))])
    };
    for kind in [0, 5, 7, -1, 2_147_483_648] {
        assert_eq!(
            decode_cipher_request_data(with_kind(kind)),
            Err(DecodeError::BadKind),
            "kind {kind} is out of the enum's domain"
        );
    }
    for kind in 1..=4 {
        assert_eq!(decode_cipher_request_data(with_kind(kind)).unwrap().kind, kind as i32);
    }
    let nested = obj(vec![("cipher", with_kind(9))]);
    assert_eq!(decode_create_cipher_request(nested), Err(DecodeError::BadKind));
}

#[test]
fn nested_and_flat_shapes_decode_alike() {
    let flat = obj(vec![
        ("type", JsonValue::Int(2)),
        ("name", JsonValue::Str(s("note"))),
        ("secureNote", obj(vec![("type", JsonValue::Int(0))])),
    ]);
    let nested = obj(vec![
        (
            "cipher",
            obj(vec![
                ("type", JsonValue::Int(2)),
                ("name", JsonValue::Str(s("note"))),
                ("secureNote", obj(vec![("type", JsonValue::Int(0))])),
            ]),
        ),
        (
            "collectionIds",
            JsonValue::Arr(vec![JsonValue::Str(s("c1")), JsonValue::Str(s("c2"))]),
        ),
    ]);
    let f = decode_create_cipher_request(flat).unwrap();
    let n = decode_create_cipher_request(nested).unwrap();
    assert_eq!(f.cipher, n.cipher);
    assert_eq!(f.collection_ids, Vec::<String>::new());
    assert_eq!(n.collection_ids, vec![s("c1"), s("c2")]);
}

#[test]
fn nested_shape_accepts_pascal_case_aliases() {
    let nested = obj(vec![
        (
            "Cipher",
            obj(vec![("type", JsonValue::Int(1)), ("name", JsonValue::Str(s("n")))]),
        ),
        ("CollectionIds", JsonValue::Arr(vec![JsonValue::Str(s("c"))])),
    ]);
    let r = decode_create_cipher_request(nested).unwrap();
    assert_eq!(r.cipher.name, s("n"));
    assert_eq!(r.collection_ids, vec![s("c")]);
    let bad = obj(vec![
        ("cipher", obj(vec![("type", JsonValue::Int(1)), ("name", JsonValue::Str(s("n")))])),
        ("collectionIds", JsonValue::Arr(vec![JsonValue::Int(1)])),
    ]);
    assert_eq!(decode_create_cipher_request(bad), Err(DecodeError::BadStringArray));
}

#[test]
fn build_cipher_normalizes_empty_collections() {
    let req = CipherRequestData {
        kind: 1,
        folder_id: None,
        organization_id: None,
        name: s("n"),
        notes: None,
        favorite: false,
        login: None,
        card: None,
        identity: None,
        secure_note: None,
        fields: None,
        password_history: None,
        reprompt: None,
        last_known_revision_date: None,
        key: None,
    };
    let c = build_cipher(req, vec![], s("id-9"), s("user-9"), s("2024-01-01T00:00:00.000Z"));
    assert_eq!(c.collection_ids, None);
    assert_eq!(c.id, s("id-9"));
    assert_eq!(c.user_id, Some(s("user-9")));
    assert_eq!(c.created_at, c.updated_at);
    assert_eq!(c.object, s("cipher"));
    assert!(c.edit && c.view_password && !c.organization_use_totp);
    assert_eq!(default_true(), true);
}
