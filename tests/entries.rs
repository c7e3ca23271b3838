use vault_core::clock::{get_current_time, stamp_of_reading, Clock, MAX_STAMP_SECS};
use vault_core::entry::{apply_edit, build, create_entry, edit_entry, validate, EntryError, Field};
use vault_core::ident::{generate_id, id_from_bytes, is_canonical_id_text, GenerationError};
use vault_core::store::{EntryStore, PersistenceError};
use vault_core::text::text_le;
use vault_core::{CreatePasswordEntry, PasswordEntry};

fn draft(title: &str, username: &str, password: &str) -> CreatePasswordEntry {
    CreatePasswordEntry {
        title: title.to_string(),
        username: username.to_string(),
        password: password.to_string(),
        website: None,
        email: None,
    }
}

fn gmail_entry(id: &str, t: &str) -> PasswordEntry {
    let v = validate(draft("Gmail", "a@b.com", "p@ss")).unwrap();
    build(v, id.to_string(), t.to_string())
}

fn assert_canonical(id: &str) {
    assert_eq!(id.len(), 36);
    for (i, c) in id.chars().enumerate() {
        if i == 8 || i == 13 || i == 18 || i == 23 {
            assert_eq!(c, '-');
        } else {
            assert!(c.is_ascii_digit() || ('a'..='f').contains(&c));
        }
    }
    assert_eq!(id.as_bytes()[14], b'4');
    assert!(matches!(id.as_bytes()[19], b'8' | b'9' | b'a' | b'b'));
    assert!(is_canonical_id_text(id));
}

#[test]
fn build_gmail_scenario() {
    let id = generate_id().unwrap();
    let t = get_current_time(&mut Clock::new()).unwrap();
    let v = validate(draft("Gmail", "a@b.com", "p@ss")).unwrap();
    let e = build(v, id.clone(), t.clone());
    assert_eq!(e.id.len(), 36);
    assert_canonical(&e.id);
    assert_eq!(e.id, id);
    assert_eq!(e.created_at, e.updated_at);
    assert_eq!(e.created_at, t);
    assert_eq!(e.title, "Gmail");
    assert_eq!(e.username, "a@b.com");
    assert_eq!(e.password, "p@ss");
    assert_eq!(e.website, None);
    assert_eq!(e.email, None);
}

#[test]
fn validate_rejects_empty_title() {
    let err = validate(draft("", "x", "y")).err().unwrap();
    assert_eq!(err.field, Field::Title);
}

#[test]
fn validate_rejects_each_field() {
    assert_eq!(validate(draft("t", "", "y")).err().unwrap().field, Field::Username);
    assert_eq!(validate(draft("t", "u", "")).err().unwrap().field, Field::Password);
    assert_eq!(validate(draft("", "", "")).err().unwrap().field, Field::Title);
    let mut d = draft("t", "u", "p");
    d.website = Some(String::new());
    assert_eq!(validate(d).err().unwrap().field, Field::Website);
    let mut d = draft("t", "u", "p");
    d.email = Some(String::new());
    assert_eq!(validate(d).err().unwrap().field, Field::Email);
}

#[test]
fn validate_accepts_absent_and_filled_optionals() {
    assert!(validate(draft("t", "u", "p")).is_ok());
    let mut d = draft("t", "u", "p");
    d.website = Some("https://example.com".to_string());
    d.email = Some("me@example.com".to_string());
    let v = validate(d).ok().unwrap();
    assert_eq!(v.draft().website.as_deref(), Some("https://example.com"));
    assert_eq!(v.draft().email.as_deref(), Some("me@example.com"));
}

#[test]
fn apply_edit_scenario() {
    let t1 = "2024-01-01T10:00:00+00:00";
    let t2 = "2024-01-02T10:00:00+00:00";
    let e = gmail_entry("0b3a1f52-8c4e-4d7a-9f10-2c3d4e5f6a7b", t1);
    let r = apply_edit(&e, draft("Gmail2", "a@b.com", "p@ss"), t2.to_string()).ok().unwrap();
    assert_eq!(r.id, e.id);
    assert_eq!(r.created_at, t1);
    assert_eq!(r.updated_at, t2);
    assert_eq!(r.title, "Gmail2");
    assert_eq!(r.username, "a@b.com");
    assert_eq!(r.password, "p@ss");
    assert!(text_le(&r.created_at, &r.updated_at));
}

#[test]
fn apply_edit_invalid_leaves_entry() {
    let e = gmail_entry("0b3a1f52-8c4e-4d7a-9f10-2c3d4e5f6a7b", "2024-01-01T10:00:00+00:00");
    let err = apply_edit(&e, draft("Gmail2", "", "p@ss"), "2024-01-02T10:00:00+00:00".to_string())
        .err()
        .unwrap();
    assert_eq!(err.field, Field::Username);
    assert_eq!(e.title, "Gmail");
    assert_eq!(e.updated_at, "2024-01-01T10:00:00+00:00");
}

#[test]
fn create_entry_fills_id_and_time() {
    let mut clock = Clock::new();
    let e = create_entry(draft("Bank", "me", "secret"), &mut clock).ok().unwrap();
    assert_canonical(&e.id);
    assert_eq!(e.created_at, e.updated_at);
    assert!(e.created_at.ends_with("+00:00"));
    assert_eq!(e.title, "Bank");
    assert_eq!(
        create_entry(draft("Bank", "me", ""), &mut clock).err().unwrap(),
        EntryError::Invalid(vault_core::entry::ValidationError { field: Field::Password })
    );
    let later = edit_entry(&e, draft("Bank2", "me", "secret2"), &mut clock).ok().unwrap();
    assert_eq!(later.id, e.id);
    assert_eq!(later.created_at, e.created_at);
    assert_eq!(later.title, "Bank2");
    assert!(e.updated_at.as_str() <= later.updated_at.as_str());
    assert_eq!(
        edit_entry(&e, draft("Bank2", "", "s"), &mut clock).err().unwrap(),
        EntryError::Invalid(vault_core::entry::ValidationError { field: Field::Username })
    );
}

#[test]
fn generated_ids_are_distinct_and_canonical() {
    let mut ids: Vec<String> = Vec::new();
    for _ in 0..200 {
        let id = generate_id().unwrap();
        assert_canonical(&id);
        assert!(!ids.contains(&id));
        ids.push(id);
    }
}

#[test]
fn canonical_id_check() {
    assert!(is_canonical_id_text("0b3a1f52-8c4e-4d7a-9f10-2c3d4e5f6a7b"));
    assert!(!is_canonical_id_text("0B3A1F52-8C4E-4D7A-9F10-2C3D4E5F6A7B"));
    assert!(!is_canonical_id_text("0b3a1f52-8c4e-3d7a-9f10-2c3d4e5f6a7b"));
    assert!(!is_canonical_id_text("0b3a1f52-8c4e-4d7a-7f10-2c3d4e5f6a7b"));
    assert!(!is_canonical_id_text("0b3a1f528c4e-4d7a-9f10-2c3d4e5f6a7b0"));
    assert!(!is_canonical_id_text(""));
}

#[test]
fn current_time_is_ordered() {
    let mut clock = Clock::new();
    let a = get_current_time(&mut clock).unwrap();
    let b = get_current_time(&mut clock).unwrap();
    assert!(a.ends_with("+00:00"));
    assert!(b.ends_with("+00:00"));
    assert!(a.len() >= 25);
    assert_eq!(&a[10..11], "T");
    assert!(text_le(&a, &b));
    assert!(a <= b);
}

#[test]
fn clock_clamps_backward_readings() {
    let mut c = Clock::new();
    let first = c.advance("2024-01-02T00:00:00+00:00".to_string());
    assert_eq!(first, "2024-01-02T00:00:00+00:00");
    let second = c.advance("2024-01-01T00:00:00+00:00".to_string());
    assert_eq!(second, "2024-01-02T00:00:00+00:00");
    let third = c.advance("2024-01-03T00:00:00+00:00".to_string());
    assert_eq!(third, "2024-01-03T00:00:00+00:00");
    let n1 = get_current_time(&mut c).unwrap();
    let n2 = get_current_time(&mut c).unwrap();
    assert!(n1.as_str() <= n2.as_str());
    assert!(third.as_str() <= n1.as_str());
    let mut future = Clock::new();
    let far = future.advance("9999-12-31T23:59:59+00:00".to_string());
    assert_eq!(get_current_time(&mut future).unwrap(), far);
}

#[test]
fn current_time_layout() {
    let t = get_current_time(&mut Clock::new()).unwrap();
    let b = t.as_bytes();
    for i in [0usize, 1, 2, 3, 5, 6, 8, 9, 11, 12, 14, 15, 17, 18] {
        assert!(b[i].is_ascii_digit());
    }
    assert_eq!(b[4], b'-');
    assert_eq!(b[7], b'-');
    assert_eq!(b[10], b'T');
    assert_eq!(b[13], b':');
    assert_eq!(b[16], b':');
    assert!(matches!(t.len(), 25 | 29 | 32 | 35));
    if t.len() > 25 {
        assert_eq!(b[19], b'.');
    }
}

#[test]
fn text_order_values() {
    assert!(text_le("", ""));
    assert!(text_le("", "a"));
    assert!(!text_le("a", ""));
    assert!(text_le("abc", "abd"));
    assert!(!text_le("abd", "abc"));
    assert!(text_le("ab", "abc"));
    assert!(text_le("2024-01-01T10:00:00+00:00", "2024-01-01T10:00:00.5+00:00"));
}

#[test]
fn store_round_trip() {
    let mut s = EntryStore::new();
    let e = gmail_entry("0b3a1f52-8c4e-4d7a-9f10-2c3d4e5f6a7b", "2024-01-01T10:00:00+00:00");
    assert_eq!(s.insert(e.clone()), Ok(()));
    let got = s.get(&e.id).unwrap();
    assert_eq!(got.id, e.id);
    assert_eq!(got.title, e.title);
    assert_eq!(got.username, e.username);
    assert_eq!(got.password, e.password);
    assert_eq!(got.website, e.website);
    assert_eq!(got.email, e.email);
    assert_eq!(got.created_at, e.created_at);
    assert_eq!(got.updated_at, e.updated_at);
    assert!(s.get(&"missing".to_string()).is_none());
}

#[test]
fn store_errors_and_edits() {
    let mut s = EntryStore::new();
    let e = gmail_entry("id-1", "2024-01-01T10:00:00+00:00");
    assert_eq!(s.insert(e.clone()), Ok(()));
    assert_eq!(s.insert(e.clone()), Err(PersistenceError::DuplicateId));
    assert_eq!(s.len(), 1);
    let other = gmail_entry("id-2", "2024-01-01T11:00:00+00:00");
    assert_eq!(s.update(other.clone()), Err(PersistenceError::NotFound));
    assert_eq!(s.delete(&"id-2".to_string()), Err(PersistenceError::NotFound));
    assert_eq!(s.insert(other), Ok(()));
    let edited = apply_edit(&e, draft("Mail", "a@b.com", "new"), "2024-01-03T00:00:00+00:00".to_string())
        .ok()
        .unwrap();
    assert_eq!(s.update(edited), Ok(()));
    assert_eq!(s.get(&"id-1".to_string()).unwrap().title, "Mail");
    let all = s.list();
    assert_eq!(all.len(), 2);
    assert_eq!(all[0].id, "id-1");
    assert_eq!(all[1].id, "id-2");
    assert_eq!(s.delete(&"id-1".to_string()), Ok(()));
    assert!(s.get(&"id-1".to_string()).is_none());
    assert_eq!(s.len(), 1);
}

#[test]
fn id_text_from_bytes() {
    let mut b = [0u8; 16];
    for (i, x) in b.iter_mut().enumerate() {
        *x = i as u8;
    }
    assert_eq!(id_from_bytes(b), "00010203-0405-4607-8809-0a0b0c0d0e0f");
    assert_eq!(id_from_bytes([0xff; 16]), "ffffffff-ffff-4fff-bfff-ffffffffffff");
    assert_eq!(id_from_bytes([0; 16]), "00000000-0000-4000-8000-000000000000");
}

#[test]
fn stamp_of_reading_values() {
    let mut c = Clock::new();
    assert_eq!(stamp_of_reading(&mut c, Some((0, 0))).unwrap(), "1970-01-01T00:00:00+00:00");
    assert_eq!(
        stamp_of_reading(&mut c, Some((1704067200, 500_000_000))).unwrap(),
        "2024-01-01T00:00:00.500+00:00"
    );
    assert_eq!(
        stamp_of_reading(&mut c, Some((1704067200, 500_123_000))).unwrap(),
        "2024-01-01T00:00:00.500123+00:00"
    );
    assert_eq!(
        stamp_of_reading(&mut c, Some((1704067200, 500_123_001))).unwrap(),
        "2024-01-01T00:00:00.500123001+00:00"
    );
    assert_eq!(
        stamp_of_reading(&mut c, Some((0, 0))).unwrap(),
        "2024-01-01T00:00:00.500123001+00:00"
    );
}

#[test]
fn stamp_of_reading_failures() {
    let mut c = Clock::new();
    assert_eq!(stamp_of_reading(&mut c, None), Err(GenerationError::Clock));
    assert_eq!(stamp_of_reading(&mut c, Some((MAX_STAMP_SECS + 1, 0))), Err(GenerationError::Clock));
    assert_eq!(stamp_of_reading(&mut c, Some((0, 1_000_000_000))), Err(GenerationError::Clock));
    assert_eq!(
        stamp_of_reading(&mut c, Some((MAX_STAMP_SECS, 0))).unwrap(),
        "9999-12-31T23:59:59+00:00"
    );
    assert_eq!(stamp_of_reading(&mut c, Some((u64::MAX, 0))), Err(GenerationError::Clock));
    assert_eq!(stamp_of_reading(&mut c, Some((5, 0))).unwrap(), "9999-12-31T23:59:59+00:00");
}
