//! SSH public keys.

use afterburn_kubevirt::cloudconfig::KubeVirtCloudConfig;
use afterburn_kubevirt::error::Error;
use afterburn_kubevirt::metadata::{MetaDataJSON, PublicKey};
use afterburn_kubevirt::provider::KubeVirtProvider;

const RSA: &str = "ssh-rsa AAAAB3NzaC1yc2EAAAADAQABAAAAgQDYVEprvtYJXVOBN0XNKVVRNCRX6BlnNbI+USLGais1sUWPwtSg7z9K9vhbYAPUZcq8c/s5S9dg5vTHbsiyPCIDOKyeHba4MUJq8Oh5b2i71/3BISpyxTBH/uZDHdslW2a+SrPDCeuMMoss9NFhBdKtDkdG9zyi0ibmCP6yMdEX8Q== Generated by Nova";

fn metadata(keys: &[(&str, &str)]) -> MetaDataJSON {
    MetaDataJSON {
        hostname: "node".to_string(),
        instance_id: "id".to_string(),
        instance_type: None,
        public_keys: Some(
            keys.iter().map(|(name, key)| (name.to_string(), key.to_string())).collect(),
        ),
    }
}

fn assert_same_key(key: &PublicKey, expect: &openssh_keys::PublicKey) {
    assert_eq!(key.key_type, expect.keytype());
    assert_eq!(key.data, expect.data());
    assert_eq!(key.options, expect.options);
    assert_eq!(key.comment, expect.comment);
}

#[test]
fn test_kubevirt_ssh_keys() {
    let parsed = metadata(&[("mykey", RSA)]);
    assert!(PublicKey::parses(RSA));
    let keys = KubeVirtProvider::public_keys(parsed).unwrap();
    let expect = openssh_keys::PublicKey::parse(RSA).unwrap();

    assert_eq!(keys.len(), 1);
    assert_same_key(&keys[0], &expect);
    assert_eq!(keys[0].key_type, "ssh-rsa");
    assert_eq!(keys[0].data.len(), 151);
    assert_eq!(keys[0].comment.as_deref(), Some("Generated by Nova"));
    assert_eq!(keys[0].options, None);
}

#[test]
fn cloud_config_lists_keys_in_order() {
    let with_options = format!("no-pty {}", RSA);
    assert!(PublicKey::parses(&with_options));
    let config = KubeVirtCloudConfig {
        meta_data: metadata(&[("a", RSA), ("b", with_options.as_str())]),
        network_data: None,
    };
    let keys = config.ssh_keys().unwrap();
    assert_eq!(keys.len(), 2);
    assert_eq!(keys[0].options, None);
    assert_eq!(keys[1].options.as_deref(), Some("no-pty"));
    assert_eq!(keys[0].data, keys[1].data);
}

#[test]
fn no_key_list_gives_no_keys() {
    let mut meta_data = metadata(&[]);
    meta_data.public_keys = None;
    let config = KubeVirtCloudConfig { meta_data, network_data: None };
    assert!(config.ssh_keys().unwrap().is_empty());
    assert!(KubeVirtProvider::public_keys(metadata(&[])).unwrap().is_empty());
}

#[test]
fn unreadable_key_is_refused() {
    let error = KubeVirtProvider::public_keys(metadata(&[("a", RSA), ("b", "nonsense")]))
        .unwrap_err();
    match error {
        Error::InvalidPublicKey(ref message) => assert_eq!(message, "invalid key format"),
        _ => panic!("another error was given"),
    }
    assert_eq!(error.message(), "invalid key format");
    assert_eq!(error.cause(), None);
}

#[test]
fn key_order_decides_neither_keys_nor_refusal() {
    let ed25519 =
        "ssh-ed25519 AAAAC3NzaC1lZDI1NTE5AAAAIAABAgMEBQYHCAkKCwwNDg8QERITFBUWFxgZGhscHR4f";
    let forth = KubeVirtProvider::public_keys(metadata(&[("a", RSA), ("b", ed25519)])).unwrap();
    let back = KubeVirtProvider::public_keys(metadata(&[("b", ed25519), ("a", RSA)])).unwrap();
    assert_eq!(forth.len(), 2);
    assert_eq!(back.len(), 2);
    assert_eq!(forth[0].data, back[1].data);
    assert_eq!(forth[1].data, back[0].data);
    assert_eq!(forth[1].key_type, "ssh-ed25519");
    assert!(KubeVirtProvider::public_keys(metadata(&[("a", RSA), ("b", "")])).is_err());
    assert!(KubeVirtProvider::public_keys(metadata(&[("b", ""), ("a", RSA)])).is_err());
}

#[test]
fn comments_may_hold_any_character() {
    let line = RSA.replace("Generated by Nova", "J\u{fc}rgen");
    assert!(PublicKey::parses(&line));
    let key = PublicKey::parse(&line).unwrap();
    assert_eq!(key.comment.as_deref(), Some("J\u{fc}rgen"));
}

#[test]
fn cuts_inside_characters_are_foreseen() {
    // The blank has number 1 among the characters, so the cut is at byte 2: inside the letter.
    assert!(!PublicKey::parses("\u{4e2d} ssh-rsa AAAA"));
    // The cut is at a place between characters, but the one before it is not.
    let line = format!("\u{4e2d}\u{4e2d}\u{4e2d}\u{4e2d}{}", RSA);
    assert!(!PublicKey::parses(&line));
    // What follows the cut is no key, so that the cut before it is not made.
    assert!(PublicKey::parses("\u{e9} ssh-rsa AAAA"));
    assert!(PublicKey::parse("\u{e9} ssh-rsa AAAA").is_err());
    // What follows the cut starts like a key and is none.
    assert!(PublicKey::parses("a\u{e9}\u{e9}s x"));
    assert!(PublicKey::parse("a\u{e9}\u{e9}s x").is_err());
    // No cut at all.
    assert!(PublicKey::parses("\u{4e2d}"));
    assert!(PublicKey::parse("\u{4e2d}").is_err());
}

#[test]
fn quotes_escapes_and_markers_belong_to_options() {
    let quoted = format!("command=\"echo \\\"hi\\\"\",no-pty {}", RSA);
    assert!(PublicKey::parses(&quoted));
    let key = PublicKey::parse(&quoted).unwrap();
    assert_eq!(key.options.as_deref(), Some("command=\"echo \\\"hi\\\"\",no-pty"));
    let marked = format!("@cert-authority * {}", RSA);
    assert!(PublicKey::parses(&marked));
    let key = PublicKey::parse(&marked).unwrap();
    assert_eq!(key.options.as_deref(), Some("@cert-authority *"));
}

#[test]
fn key_without_options_need_not_be_cut() {
    let words: Vec<&str> = RSA.split(' ').collect();
    let line = format!("{}\u{2003}{}\u{2003}\u{e9} x", words[0], words[1]);
    assert!(PublicKey::parses(&line));
    let key = PublicKey::parse(&line).unwrap();
    assert_same_key(&key, &openssh_keys::PublicKey::parse(&line).unwrap());
    assert_eq!(key.comment.as_deref(), Some("\u{e9} x"));
    assert_eq!(key.options, None);
}

#[test]
fn keys_are_read_where_the_parser_returns() {
    let cut = format!("\u{4e2d}\u{4e2d}\u{4e2d}\u{4e2d}{}", RSA);
    assert!(PublicKey::try_parse(&cut).is_none());
    assert!(matches!(PublicKey::try_parse("nonsense"), Some(Err(Error::InvalidPublicKey(_)))));
    assert_eq!(PublicKey::try_parse(RSA).unwrap().unwrap().key_type, "ssh-rsa");

    let reached = metadata(&[("a", RSA), ("b", cut.as_str())]);
    assert!(!reached.keys_parse());
    assert!(KubeVirtProvider::try_public_keys(reached).is_none());
    let hidden = || metadata(&[("a", "nonsense"), ("b", cut.as_str())]);
    assert!(hidden().keys_parse());
    assert!(matches!(KubeVirtProvider::try_public_keys(hidden()), Some(Err(_))));

    let config = |meta_data| KubeVirtCloudConfig { meta_data, network_data: None };
    assert!(matches!(config(hidden()).try_ssh_keys(), Some(Err(_))));
    assert!(config(metadata(&[("b", cut.as_str())])).try_ssh_keys().is_none());
    let keys = config(metadata(&[("a", RSA), ("b", RSA)])).try_ssh_keys().unwrap().unwrap();
    assert_eq!(keys.len(), 2);
    assert_eq!(keys[0].data, keys[1].data);
}
