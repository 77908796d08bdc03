use vault_sync::cipher::{
    new_cipher, revise_cipher, update_cipher_record, CipherDBModel, CipherRequestData,
};
use vault_sync::error::{DecodeError, StorageError};
use vault_sync::json::JsonValue;

fn s(x: &str) -> String {
    x.to_string()
}

fn request(name: &str) -> CipherRequestData {
    CipherRequestData {
        kind: 1,
        folder_id: Some(s("folder-7")),
        organization_id: None,
        name: s(name),
        notes: Some(s("notes")),
        favorite: true,
        login: Some(JsonValue::Obj(vec![(s("username"), JsonValue::Str(s("u")))])),
        card: None,
        identity: None,
        secure_note: None,
        fields: None,
        password_history: None,
        reprompt: Some(0),
        last_known_revision_date: None,
        key: None,
    }
}

#[test]
fn db_row_reads_back_with_defaults() {
    let row = CipherDBModel {
        id: s("id-3"),
        user_id: s("user-3"),
        organization_id: None,
        kind: 2,
        data: JsonValue::Obj(vec![(s("name"), JsonValue::Str(s("n")))]),
        favorite: 1,
        folder_id: None,
        deleted_at: None,
        created_at: s("2024-01-01T00:00:00.000Z"),
        updated_at: s("2024-01-02T00:00:00.000Z"),
    };
    let c = row.into_cipher();
    assert_eq!(c.id, s("id-3"));
    assert_eq!(c.user_id, Some(s("user-3")));
    assert_eq!(c.favorite, true);
    assert_eq!(c.object, s("cipher"));
    assert!(c.edit && c.view_password && !c.organization_use_totp);
    assert_eq!(c.collection_ids, None);
}

#[test]
fn db_row_favorite_zero_reads_false() {
    let row = CipherDBModel {
        id: s("id-4"),
        user_id: s("user-4"),
        organization_id: None,
        kind: 1,
        data: JsonValue::Null,
        favorite: 0,
        folder_id: None,
        deleted_at: None,
        created_at: s("t"),
        updated_at: s("t"),
    };
    assert_eq!(row.into_cipher().favorite, false);
}

#[test]
fn update_keeps_identity_and_creation_time() {
    let c = update_cipher_record(
        request("renamed"),
        s("id-5"),
        s("user-5"),
        s("2020-05-05T05:05:05.000Z"),
        s("2024-01-01T00:00:00.000Z"),
    );
    assert_eq!(c.id, s("id-5"));
    assert_eq!(c.created_at, s("2020-05-05T05:05:05.000Z"));
    assert_eq!(c.updated_at, s("2024-01-01T00:00:00.000Z"));
    assert_eq!(c.folder_id, Some(s("folder-7")));
    assert_eq!(c.collection_ids, None);
}

#[test]
fn new_cipher_draws_a_fresh_identity_and_timestamps() {
    let a = new_cipher(request("a"), vec![s("coll-1")], s("user-6"));
    let b = new_cipher(request("b"), vec![], s("user-6"));
    assert_eq!(a.id.chars().count(), 36);
    assert_ne!(a.id, b.id, "every record draws its own identity");
    assert_eq!(a.created_at, a.updated_at);
    assert_eq!(a.collection_ids, Some(vec![s("coll-1")]));
    assert_eq!(b.collection_ids, None);
}

#[test]
fn revise_cipher_refreshes_only_the_revision_time() {
    let c = revise_cipher(request("r"), s("id-8"), s("user-8"), s("1999-01-01T00:00:00.000Z"));
    assert_eq!(c.id, s("id-8"));
    assert_eq!(c.created_at, s("1999-01-01T00:00:00.000Z"));
    assert_ne!(c.updated_at, c.created_at);
}

#[test]
fn error_messages_describe_each_failure() {
    assert_eq!(DecodeError::NotAnObject.message(), s("expected a JSON object"));
    assert_eq!(DecodeError::BadKind.message(), s("type must be an integer between 1 and 4"));
    assert_eq!(DecodeError::BadName.message(), s("name must be a string"));
    assert_eq!(DecodeError::BadString.message(), s("expected a string"));
    assert_eq!(
        DecodeError::BadBool.message(),
        s("expected a boolean or an integer 0 or 1")
    );
    assert_eq!(DecodeError::BadInt.message(), s("expected an integer"));
    assert_eq!(
        DecodeError::BadStringArray.message(),
        s("expected an array of strings")
    );
    assert_eq!(DecodeError::BadArray.message(), s("expected an array"));
    assert_eq!(StorageError::ChunkFailed.message(), s("storage batch failed"));
}
