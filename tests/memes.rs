use meme_store::{
    draft_from_parts, field_kind, rank, sample_memes, upload_file_name, upload_reference, FieldKind,
    HealthStatus, IngestError, Info, Meme, MemeDraft, MemeStore, StoreError, Submission,
};

fn draft(caption: &str, image: &str) -> MemeDraft {
    MemeDraft {
        caption: caption.to_string(),
        tags: String::new(),
        image: image.to_string(),
        evm_address: None,
    }
}

fn record(id: u64, likes: u64, comment_count: u64) -> Meme {
    Meme {
        id,
        caption: format!("m{}", id),
        tags: String::new(),
        image: "img".to_string(),
        evm_address: None,
        likes,
        comment_count,
    }
}

fn submit(parts: &[(&str, &[u8])]) -> Result<MemeDraft, IngestError> {
    let mut s = Submission::new();
    for (name, bytes) in parts {
        let kind = field_kind(name);
        s.push_chunk(kind, bytes);
        s.end_part(kind);
    }
    s.finish()
}

#[test]
fn appended_ids_strictly_increase() {
    let mut store = MemeStore::seed(Vec::new()).unwrap();
    let mut last = 0u64;
    let mut seen = Vec::new();
    for i in 0..20 {
        let m = store.append(draft(&format!("c{}", i), "u")).unwrap();
        assert!(m.id > last);
        assert!(!seen.contains(&m.id));
        last = m.id;
        seen.push(m.id);
    }
    assert_eq!(seen[0], 1);
    assert_eq!(store.list().len(), 20);
}

#[test]
fn append_after_seed_continues_above_largest_id() {
    let mut store = MemeStore::seed(vec![record(7, 0, 0), record(3, 0, 0)]).unwrap();
    assert_eq!(store.append(draft("a", "u")).unwrap().id, 8);
    assert_eq!(store.append(draft("b", "u")).unwrap().id, 9);
}

#[test]
fn seed_rejects_duplicate_ids() {
    let r = MemeStore::seed(vec![record(2, 0, 0), record(2, 1, 1)]);
    assert_eq!(r.err(), Some(StoreError::InvalidSeed));
}

#[test]
fn seed_rejects_zero_id() {
    let r = MemeStore::seed(vec![record(0, 0, 0)]);
    assert_eq!(r.err(), Some(StoreError::InvalidSeed));
}

#[test]
fn seed_rejects_largest_id() {
    let r = MemeStore::seed(vec![record(u64::MAX, 0, 0)]);
    assert_eq!(r.err(), Some(StoreError::IdsExhausted));
}

#[test]
fn append_fails_when_ids_run_out() {
    let mut store = MemeStore::seed(vec![record(u64::MAX - 1, 0, 0)]).unwrap();
    assert_eq!(store.append(draft("a", "u")).err(), Some(StoreError::IdsExhausted));
    assert_eq!(store.list().len(), 1);
}

#[test]
fn like_of_unknown_id_is_not_found_and_changes_nothing() {
    let mut store = MemeStore::seed(sample_memes()).unwrap();
    let before = store.list();
    assert_eq!(store.increment_likes(99).err(), Some(StoreError::NotFound));
    let after = store.list();
    assert_eq!(before.len(), after.len());
    for (a, b) in before.iter().zip(after.iter()) {
        assert_eq!(a.id, b.id);
        assert_eq!(a.likes, b.likes);
        assert_eq!(a.comment_count, b.comment_count);
        assert_eq!(a.caption, b.caption);
    }
    assert_eq!(store.append(draft("x", "u")).unwrap().id, 3);
}

#[test]
fn like_returns_updated_record() {
    let mut store = MemeStore::seed(sample_memes()).unwrap();
    let m = store.increment_likes(2).unwrap();
    assert_eq!(m.id, 2);
    assert_eq!(m.likes, 9);
    assert_eq!(m.caption, "Pepe the Frog");
    let listed = store.list();
    assert_eq!(listed[1].likes, 9);
    assert_eq!(listed[0].likes, 12);
}

#[test]
fn like_fails_at_largest_count() {
    let mut store = MemeStore::seed(vec![record(1, u64::MAX, 0)]).unwrap();
    assert_eq!(store.increment_likes(1).err(), Some(StoreError::LikesExhausted));
    assert_eq!(store.list()[0].likes, u64::MAX);
}

#[test]
fn repeated_likes_are_all_counted() {
    let mut store = MemeStore::seed(Vec::new()).unwrap();
    let id = store.append(draft("a", "u")).unwrap().id;
    let n = 250u64;
    for _ in 0..n {
        store.increment_likes(id).unwrap();
    }
    assert_eq!(store.list()[0].likes, n);
}

#[test]
fn rank_keeps_input_order_for_equal_scores() {
    let input = vec![
        record(1, 1, 1),
        record(2, 5, 0),
        record(3, 0, 2),
        record(4, 2, 3),
        record(5, 2, 0),
    ];
    let ranked = rank(&input);
    let ids: Vec<u64> = ranked.iter().map(|m| m.id).collect();
    assert_eq!(ids, vec![2, 4, 1, 3, 5]);
    assert_eq!(input[0].id, 1);
    assert_eq!(input.len(), 5);
}

#[test]
fn rank_of_empty_is_empty() {
    assert!(rank(&Vec::new()).is_empty());
}

#[test]
fn seeded_records_rank_by_popularity() {
    let store = MemeStore::seed(vec![
        Meme { likes: 8, comment_count: 1, ..record(2, 0, 0) },
        Meme { likes: 12, comment_count: 3, ..record(1, 0, 0) },
    ])
    .unwrap();
    let ranked = rank(&store.list());
    assert_eq!(ranked[0].id, 1);
    assert_eq!(ranked[1].id, 2);
}

#[test]
fn sample_records_rank_first_before_second() {
    let store = MemeStore::seed(sample_memes()).unwrap();
    let ranked = rank(&store.list());
    assert_eq!(ranked[0].caption, "Doge");
    assert_eq!(ranked[0].likes + ranked[0].comment_count, 15);
    assert_eq!(ranked[1].caption, "Pepe the Frog");
}

#[test]
fn url_submission_round_trips_into_store() {
    let d = submit(&[("image_url", b"http://x/y.png")]).unwrap();
    let mut store = MemeStore::seed(Vec::new()).unwrap();
    let m = store.append(d).unwrap();
    assert_eq!(m.image, "http://x/y.png");
    assert_eq!(store.list()[0].image, "http://x/y.png");
}

#[test]
fn caption_and_url_submission_yields_fresh_record() {
    let d = submit(&[("caption", b"hi"), ("image_url", b"u")]).unwrap();
    let mut store = MemeStore::seed(sample_memes()).unwrap();
    let m = store.append(d).unwrap();
    assert_eq!(m.id, 3);
    assert_eq!(m.caption, "hi");
    assert_eq!(m.image, "u");
    assert_eq!(m.likes, 0);
    assert_eq!(m.comment_count, 0);
    assert!(m.evm_address.is_none());
}

#[test]
fn chunks_of_a_part_are_joined() {
    let snow = "caf\u{e9} \u{2603}".as_bytes();
    let mut s = Submission::new();
    s.push_chunk(FieldKind::Caption, &snow[..4]);
    s.push_chunk(FieldKind::Caption, &snow[4..]);
    s.push_chunk(FieldKind::Tags, b"a,");
    s.push_chunk(FieldKind::Tags, b"b");
    s.push_chunk(FieldKind::ImageUrl, b"u");
    s.push_chunk(FieldKind::EvmAddress, b"0x");
    s.push_chunk(FieldKind::EvmAddress, b"12");
    let d = s.finish().unwrap();
    assert_eq!(d.caption, "caf\u{e9} \u{2603}");
    assert_eq!(d.tags, "a,b");
    assert_eq!(d.evm_address.as_deref(), Some("0x12"));
}

#[test]
fn unknown_parts_are_ignored() {
    let d = submit(&[("colour", b"red"), ("image_url", b"u"), ("caption", b"c")]).unwrap();
    assert_eq!(d.caption, "c");
    assert_eq!(d.image, "u");
}

#[test]
fn invalid_text_is_rejected() {
    let r = submit(&[("caption", &[0xff, 0xfe]), ("image_url", b"u")]);
    assert_eq!(r.err(), Some(IngestError::InvalidText));
}

#[test]
fn missing_image_is_rejected() {
    let r = submit(&[("caption", b"hi")]);
    assert_eq!(r.err(), Some(IngestError::MissingImage));
}

#[test]
fn empty_wallet_address_is_absent() {
    let d = submit(&[("evm_address", b""), ("image_url", b"u")]).unwrap();
    assert!(d.evm_address.is_none());
}

#[test]
fn upload_takes_precedence_over_url() {
    let mut s = Submission::new();
    s.push_chunk(field_kind("image_url"), b"http://elsewhere");
    s.push_chunk(field_kind("image"), b"\x89PNG");
    s.record_upload("upload-5-1");
    let d = s.finish().unwrap();
    assert_eq!(d.image, "/uploads/upload-5-1");
}

#[test]
fn field_names_map_to_kinds() {
    assert_eq!(field_kind("caption"), FieldKind::Caption);
    assert_eq!(field_kind("tags"), FieldKind::Tags);
    assert_eq!(field_kind("image_url"), FieldKind::ImageUrl);
    assert_eq!(field_kind("evm_address"), FieldKind::EvmAddress);
    assert_eq!(field_kind("image"), FieldKind::Image);
    assert_eq!(field_kind("Caption"), FieldKind::Ignored);
    assert_eq!(field_kind(""), FieldKind::Ignored);
}

#[test]
fn upload_names_are_built_from_stamp_and_serial() {
    assert_eq!(upload_file_name(1700000000, 42), "upload-1700000000-42");
    assert_eq!(upload_file_name(0, 0), "upload-0-0");
    assert_eq!(upload_file_name(u64::MAX, 10), "upload-18446744073709551615-10");
    assert_ne!(upload_file_name(1, 23), upload_file_name(12, 3));
    assert_eq!(upload_reference("upload-0-0"), "/uploads/upload-0-0");
}

#[test]
fn draft_from_parts_prefers_upload() {
    let d = draft_from_parts(
        "c".to_string(),
        "t".to_string(),
        "u".to_string(),
        String::new(),
        Some("/uploads/f".to_string()),
    )
    .unwrap();
    assert_eq!(d.image, "/uploads/f");
    assert!(d.evm_address.is_none());
    let e = draft_from_parts(String::new(), String::new(), String::new(), "0x1".to_string(), None);
    assert_eq!(e.err(), Some(IngestError::MissingImage));
}

#[test]
fn health_report() {
    let h = HealthStatus::current();
    assert_eq!(h.status, "ok");
    assert_eq!(h.message, "Rust Meme API is running!");
    assert_eq!(h.version, "1.0.0");
}

#[test]
fn info_names_a_meme() {
    let a = Info { id: 4 };
    let b = a;
    assert_eq!(a, b);
    assert_eq!(b.id, 4);
}

#[test]
fn duplicate_copies_every_field() {
    let m = Meme { evm_address: Some("0xab".to_string()), ..record(5, 3, 4) };
    let c = m.duplicate();
    assert_eq!(c.id, 5);
    assert_eq!(c.caption, m.caption);
    assert_eq!(c.evm_address, m.evm_address);
    assert_eq!((c.likes, c.comment_count), (3, 4));
}

#[test]
fn last_non_empty_wallet_address_is_kept() {
    let d = submit(&[("evm_address", b"a"), ("evm_address", b"b"), ("image_url", b"u")]).unwrap();
    assert_eq!(d.evm_address.as_deref(), Some("b"));
    let d = submit(&[("evm_address", b"a"), ("evm_address", b""), ("image_url", b"u")]).unwrap();
    assert_eq!(d.evm_address.as_deref(), Some("a"));
}

#[test]
fn wallet_address_part_in_two_chunks_is_one_address() {
    let mut s = Submission::new();
    s.push_chunk(FieldKind::EvmAddress, b"0x1");
    s.push_chunk(FieldKind::EvmAddress, b"f");
    s.end_part(FieldKind::EvmAddress);
    s.push_chunk(FieldKind::ImageUrl, b"u");
    s.end_part(FieldKind::ImageUrl);
    assert_eq!(s.finish().unwrap().evm_address.as_deref(), Some("0x1f"));
}

#[test]
fn likes_of_sample_records() {
    let mut store = MemeStore::seed(sample_memes()).unwrap();
    let m = store.increment_likes(1).unwrap();
    assert_eq!((m.id, m.likes, m.comment_count), (1, 13, 3));
    assert_eq!(m.tags, "classic, crypto");
    store.increment_likes(2).unwrap();
    let m = store.increment_likes(2).unwrap();
    assert_eq!((m.id, m.likes, m.comment_count), (2, 10, 1));
    assert_eq!(store.list()[0].likes, 13);
}
