use li_node_manager::digest::sha256_digest;
use li_node_manager::identity::{
    increasing_ids, parse_ids, sort_ids, texts_of_ids, unique_ids, CredentialId, DisplayName,
    EntityTimestamps, InterfaceError, NodeId, Sha256Digest, TimeSpan, UnixMilliseconds,
};
use li_node_manager::path::{
    guarded_components, guarded_path, validate_directory, DirectoryObservation,
    NodePrivateUnixPathError, UnixPath,
};
use li_node_manager::sequence::Valued;
use li_node_manager::text::{decimal, hex, is_digit_code, is_lower_hex, parse_hex_128};

fn node(last: u8) -> NodeId {
    NodeId::parse(&format!("000000000000000000000000000000{:02x}", last)).unwrap()
}

fn path(text: &str) -> UnixPath {
    UnixPath::new(text.as_bytes().to_vec())
}

#[test]
fn identity_text_is_read_back() {
    let text = "0123456789abcdef0123456789abcdef";
    let id = NodeId::parse(text).unwrap();
    assert_eq!(id.to_text(), text);
    assert_eq!(id.value, 0x0123456789abcdef0123456789abcdef);
}

#[test]
fn identity_refuses_other_texts() {
    for text in ["", "0123", "0123456789ABCDEF0123456789abcdef", "0123456789abcdef0123456789abcdefg"] {
        assert_eq!(NodeId::parse(text).unwrap_err(), InterfaceError::InvalidIdentity);
    }
}

#[test]
fn identity_order_is_text_order() {
    let low = NodeId::parse("0f000000000000000000000000000000").unwrap();
    let high = NodeId::parse("a0000000000000000000000000000000").unwrap();
    let sorted = sort_ids(vec![high, low]);
    assert!(sorted == vec![low, high]);
    assert!(increasing_ids(&sorted));
    assert!(!increasing_ids(&vec![low, low]));
}

#[test]
fn identity_lists_keep_their_order() {
    let ids = vec![node(3), node(1), node(3)];
    let texts = texts_of_ids(&ids);
    assert!(parse_ids(&texts) == Some(ids.clone()));
    assert!(unique_ids(&ids) == vec![node(3), node(1)]);
}

#[test]
fn sha256_of_known_messages() {
    assert_eq!(
        sha256_digest(b"").to_text(),
        "e3b0c44298fc1c149afbf4c8996fb92427ae41e4649b934ca495991b7852b855"
    );
    assert_eq!(
        sha256_digest(b"abc").to_text(),
        "ba7816bf8f01cfea414140de5dae2223b00361a396177a9cb410ff61f20015ad"
    );
}

#[test]
fn credential_is_spelled_by_first_half_of_digest() {
    let digest = Sha256Digest::parse(
        "ba7816bf8f01cfea414140de5dae2223b00361a396177a9cb410ff61f20015ad",
    )
    .unwrap();
    let credential: CredentialId = digest.credential_id();
    assert_eq!(credential.to_text(), "ba7816bf8f01cfea414140de5dae2223");
    assert_eq!(Sha256Digest::parse("ba78").unwrap_err(), InterfaceError::InvalidIdentity);
}

#[test]
fn names_are_not_empty() {
    assert_eq!(DisplayName::parse("").unwrap_err(), InterfaceError::InvalidName);
    assert_eq!(DisplayName::parse("Main").unwrap().as_str(), "Main");
}

#[test]
fn timestamps_never_go_back() {
    let early = UnixMilliseconds::new(1);
    let late = UnixMilliseconds::new(2);
    assert!(EntityTimestamps::new(early, late).is_ok());
    assert_eq!(
        EntityTimestamps::new(late, early).unwrap_err(),
        InterfaceError::InvalidTimestamps
    );
    assert_eq!(TimeSpan::from_millis(2).nanoseconds, 2_000_000);
}

#[test]
fn numbers_as_text() {
    assert_eq!(decimal(0), "0");
    assert_eq!(decimal(18446744073709551615), "18446744073709551615");
    assert_eq!(hex(255, 4), "00ff");
    assert_eq!(parse_hex_128("000000000000000000000000000000ff"), Some(255));
    assert_eq!(parse_hex_128("ff"), None);
    assert!(is_digit_code("042917", 6));
    assert!(!is_digit_code("04291a", 6));
    assert!(is_lower_hex("0a", 2));
    assert!(!is_lower_hex("0A", 2));
}

#[test]
fn paths_are_compared_by_parts() {
    assert!(path("/a/b").names_same_file(&path("/a//./b/")));
    assert!(!path("/a/b").names_same_file(&path("/a/../b")));
    assert!(!path("/a").names_same_file(&path("a")));
    assert!(path("/a").is_absolute());
    assert!(!path("a").is_absolute());
    assert!(path("/a//b/.").parts() == vec![b"a".to_vec(), b"b".to_vec()]);
    assert!(path("/a").copy().same(&path("/a")));
}

#[test]
fn guarded_paths_never_turn_back() {
    assert!(guarded_components(&path("/var/lib/node.sock")) == Ok(vec![b"var".to_vec(), b"lib".to_vec()]));
    assert!(guarded_components(&path("/node.sock")) == Ok(Vec::new()));
    for text in ["", "relative/file", "/", "/a/../b", "/a/.."] {
        assert!(guarded_components(&path(text)) == Err(NodePrivateUnixPathError::UnsafePath));
    }
    assert_eq!(
        NodePrivateUnixPathError::UnsafePath.message(),
        "the private Node Unix path is unsafe"
    );
}

#[test]
fn directories_are_judged_by_mode_and_owner() {
    let seen = |user_id: u32, mode: u32| DirectoryObservation { is_directory: true, user_id, mode };
    assert!(validate_directory(seen(7, 0o40700), 7, true).is_ok());
    assert!(validate_directory(seen(8, 0o40700), 7, true).is_err());
    assert!(validate_directory(seen(7, 0o40750), 7, true).is_err());
    assert!(validate_directory(seen(0, 0o40755), 7, false).is_ok());
    assert!(validate_directory(seen(0, 0o41777), 7, false).is_ok());
    assert!(validate_directory(seen(7, 0o41777), 7, false).is_err());
    assert!(validate_directory(seen(0, 0o40777), 7, false).is_err());
    let file = DirectoryObservation { is_directory: false, user_id: 7, mode: 0o700 };
    assert!(validate_directory(file, 7, true).is_err());
}

#[test]
fn walks_are_safe_from_the_root_down() {
    let root = Some(DirectoryObservation { is_directory: true, user_id: 0, mode: 0o755 });
    let home = Some(DirectoryObservation { is_directory: true, user_id: 7, mode: 0o700 });
    assert!(guarded_path(&vec![root, home], 7).is_ok());
    assert!(guarded_path(&vec![root], 7).is_err());
    assert!(guarded_path(&vec![root, None], 7).is_err());
    assert!(guarded_path(&Vec::new(), 7).is_err());
    let own_root = Some(DirectoryObservation { is_directory: true, user_id: 0, mode: 0o700 });
    assert!(guarded_path(&vec![own_root], 0).is_ok());
}
