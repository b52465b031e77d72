use mega::{Error, ShareKey, UserSession};

fn session(share_keys: Option<Vec<ShareKey>>) -> UserSession {
    UserSession::new(
        "sid123".to_string(),
        [1u8; 16],
        [2u8; 16],
        vec![3, 4, 5],
        "handle".to_string(),
        share_keys,
    )
}

#[test]
fn context_copies_user_secrets() {
    let s = session(None);
    let c = s.decryption_context(None, None).unwrap();
    assert_eq!(c.user_handle, "handle");
    assert_eq!(c.user_master_key, [1u8; 16]);
    assert_eq!(c.user_private_key, vec![3, 4, 5]);
    assert!(c.node_key.is_none());
    assert!(c.share_keys.is_empty());
}

#[test]
fn context_without_attributes_keeps_cached_keys() {
    let s = session(Some(vec![ShareKey::new("A".to_string(), vec![1, 1])]));
    let c = s.decryption_context(None, None).unwrap();
    assert_eq!(c.share_key(&"A".to_string()), Some(&vec![1, 1]));
    assert!(c.share_key(&"B".to_string()).is_none());
    assert_eq!(c.share_keys.len(), 1);
}

#[test]
fn context_merges_cached_and_attribute_keys() {
    let s = session(Some(vec![ShareKey::new("A".to_string(), vec![1, 1])]));
    let extracted = vec![ShareKey::new("B".to_string(), vec![2, 2])];
    let c = s.decryption_context(Some(&extracted), None).unwrap();
    assert_eq!(c.share_key(&"A".to_string()), Some(&vec![1, 1]));
    assert_eq!(c.share_key(&"B".to_string()), Some(&vec![2, 2]));
    assert!(c.share_key(&"C".to_string()).is_none());
}

#[test]
fn context_attribute_key_overrides_cached() {
    let s = session(Some(vec![ShareKey::new("A".to_string(), vec![1, 1])]));
    let extracted = vec![ShareKey::new("A".to_string(), vec![9])];
    let c = s.decryption_context(Some(&extracted), None).unwrap();
    assert_eq!(c.share_key(&"A".to_string()), Some(&vec![9]));
}

#[test]
fn context_decodes_node_key() {
    let s = session(None);
    let c = s.decryption_context(None, Some(b"node-key".to_vec())).unwrap();
    assert_eq!(c.node_key, Some("node-key".to_string()));
}

#[test]
fn context_rejects_invalid_node_key() {
    let s = session(None);
    let r = s.decryption_context(None, Some(vec![0xff, 0xfe, 0x41]));
    assert_eq!(r.err(), Some(Error::NodeKeyDecode));
}

#[test]
fn session_zeroize_wipes_secrets() {
    let mut s = session(Some(vec![ShareKey::new("A".to_string(), vec![1, 1])]));
    s.zeroize();
    assert!(s.session_id().is_empty());
    assert_eq!(s.master_key, [0u8; 16]);
    assert_eq!(s.sek, [0u8; 16]);
    assert!(s.private_key.is_empty());
    assert!(s.user_handle.is_empty());
    assert!(s.share_keys.is_none());
}

#[test]
fn context_zeroize_wipes_secrets() {
    let s = session(Some(vec![ShareKey::new("A".to_string(), vec![1, 1])]));
    let extracted = vec![ShareKey::new("B".to_string(), vec![2])];
    let mut c = s.decryption_context(Some(&extracted), Some(b"k".to_vec())).unwrap();
    c.zeroize();
    assert!(c.user_handle.is_empty());
    assert_eq!(c.user_master_key, [0u8; 16]);
    assert!(c.user_private_key.is_empty());
    assert!(c.node_key.is_none());
    assert!(c.share_keys.is_empty());
}

#[test]
fn share_key_zeroize_and_duplicate() {
    let k = ShareKey::new("A".to_string(), vec![7, 8]);
    let mut d = k.duplicate();
    assert_eq!(d.handle(), "A");
    assert_eq!(d.key(), &vec![7, 8]);
    d.zeroize();
    assert!(d.handle().is_empty());
    assert!(d.key().is_empty());
    assert_eq!(k.key(), &vec![7, 8]);
}
