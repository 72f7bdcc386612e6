use blocknet_core::names::{
    active_name_from_pointer, contains_char, contains_parent_token, default_wallet_name,
    has_wallet_suffix, import_name, is_valid_wallet_name, same_text,
};
use blocknet_core::store::{Step, WalletDir, WalletFault};

fn dir(files: &[&str], pointer: Option<&str>) -> WalletDir {
    WalletDir::new(files.iter().map(|f| f.to_string()).collect(), pointer.map(|p| p.to_string()))
}

#[test]
fn name_rules() {
    assert!(is_valid_wallet_name("wallet.dat"));
    assert!(is_valid_wallet_name("savings.dat"));
    assert!(!is_valid_wallet_name("../wallet.dat"));
    assert!(!is_valid_wallet_name("a/b.dat"));
    assert!(!is_valid_wallet_name("a\\b.dat"));
    assert!(!is_valid_wallet_name("a..b.dat"));
    assert!(!is_valid_wallet_name("wallet.txt"));
    assert!(!is_valid_wallet_name("dat"));
    assert!(!is_valid_wallet_name(""));
    assert!(is_valid_wallet_name(".dat"));
    assert!(contains_char("x/y", '/'));
    assert!(!contains_char("xy", '/'));
    assert!(contains_parent_token("a..b"));
    assert!(!contains_parent_token("a.b.c"));
    assert!(!contains_parent_token("."));
    assert!(has_wallet_suffix("k.dat"));
    assert!(!has_wallet_suffix("k.da"));
    assert!(same_text("abc", "abc"));
    assert!(!same_text("abc", "abd"));
    assert!(!same_text("abc", "ab"));
}

#[test]
fn pointer_reading() {
    assert_eq!(default_wallet_name(), "wallet.dat");
    assert_eq!(active_name_from_pointer(&None), "wallet.dat");
    assert_eq!(active_name_from_pointer(&Some(String::new())), "wallet.dat");
    assert_eq!(active_name_from_pointer(&Some("  \n".to_string())), "wallet.dat");
    assert_eq!(active_name_from_pointer(&Some(" main.dat\n".to_string())), "main.dat");
}

#[test]
fn import_names() {
    assert_eq!(import_name("keys"), "keys.dat");
    assert_eq!(import_name("keys.dat"), "keys.dat");
    assert_eq!(import_name("keys.da"), "keys.da.dat");
}

#[test]
fn list_is_sorted_and_filtered() {
    let d = dir(&["b.dat", "notes.txt", "a.dat", "active_wallet", "C.dat"], None);
    assert_eq!(d.list(), vec!["C.dat".to_string(), "a.dat".to_string(), "b.dat".to_string()]);
}

#[test]
fn unsafe_names_are_refused_everywhere() {
    let d = dir(&["wallet.dat", "other.dat"], None);
    for bad in ["../x.dat", "a/x.dat", "a\\x.dat", "x..y.dat"] {
        assert_eq!(d.switch(bad), Err(WalletFault::InvalidName(bad.to_string())));
        assert_eq!(d.delete(bad), Err(WalletFault::InvalidName(bad.to_string())));
        assert_eq!(d.rename(bad, "new.dat"), Err(WalletFault::InvalidName(bad.to_string())));
        assert_eq!(d.rename("other.dat", bad), Err(WalletFault::InvalidName(bad.to_string())));
        assert!(matches!(d.import(bad), Err(WalletFault::InvalidName(_))));
    }
    assert_eq!(d.list(), vec!["other.dat".to_string(), "wallet.dat".to_string()]);
}

#[test]
fn rename_of_active_wallet_moves_pointer() {
    let mut d = dir(&["wallet.dat", "other.dat"], Some("other.dat"));
    let step = d.rename("other.dat", "renamed.dat").unwrap();
    assert_eq!(
        step,
        Step::Rename { from: "other.dat".to_string(), to: "renamed.dat".to_string(), repoint: true }
    );
    d.apply(step);
    assert_eq!(d.list(), vec!["renamed.dat".to_string(), "wallet.dat".to_string()]);
    assert_eq!(d.active_name(), "renamed.dat");
}

#[test]
fn rename_of_other_wallet_keeps_pointer() {
    let mut d = dir(&["wallet.dat", "other.dat"], None);
    let step = d.rename("other.dat", "second.dat").unwrap();
    d.apply(step);
    assert!(!d.list().contains(&"other.dat".to_string()));
    assert_eq!(d.active_name(), "wallet.dat");
}

#[test]
fn rename_errors() {
    let d = dir(&["wallet.dat", "other.dat"], None);
    assert_eq!(
        d.rename("missing.dat", "x.dat"),
        Err(WalletFault::NotFound("missing.dat".to_string()))
    );
    assert_eq!(
        d.rename("other.dat", "wallet.dat"),
        Err(WalletFault::AlreadyExists("wallet.dat".to_string()))
    );
    assert_eq!(
        d.rename("other.dat", "other.dat"),
        Err(WalletFault::AlreadyExists("other.dat".to_string()))
    );
}

#[test]
fn active_wallet_cannot_be_deleted() {
    let d = dir(&["wallet.dat", "other.dat"], Some("other.dat\n"));
    let active = d.active_name();
    assert_eq!(d.delete(&active), Err(WalletFault::CannotDeleteActive("other.dat".to_string())));
    let d = dir(&["wallet.dat"], None);
    assert_eq!(d.delete("wallet.dat"), Err(WalletFault::CannotDeleteActive("wallet.dat".to_string())));
    assert_eq!(d.list(), vec!["wallet.dat".to_string()]);
}

#[test]
fn delete_of_other_wallet() {
    let mut d = dir(&["wallet.dat", "other.dat"], None);
    assert_eq!(d.delete("gone.dat"), Err(WalletFault::NotFound("gone.dat".to_string())));
    let step = d.delete("other.dat").unwrap();
    assert_eq!(step, Step::Remove("other.dat".to_string()));
    d.apply(step);
    assert_eq!(d.list(), vec!["wallet.dat".to_string()]);
}

#[test]
fn switch_to_missing_wallet_is_not_found() {
    let d = dir(&["wallet.dat"], Some("wallet.dat"));
    assert_eq!(d.switch("nope.dat"), Err(WalletFault::NotFound("nope.dat".to_string())));
    assert_eq!(d.active_name(), "wallet.dat");
}

#[test]
fn switch_writes_pointer() {
    let mut d = dir(&["wallet.dat", "b.dat"], None);
    let step = d.switch("b.dat").unwrap();
    assert_eq!(step, Step::WritePointer("b.dat".to_string()));
    d.apply(step);
    assert_eq!(d.active_name(), "b.dat");
}

#[test]
fn import_into_empty_directory() {
    let mut d = dir(&[], None);
    assert!(d.list().is_empty());
    let before = d.active_name();
    let step = d.import("keys").unwrap();
    assert_eq!(step, Step::Import("keys.dat".to_string()));
    d.apply(step);
    assert_eq!(d.list(), vec!["keys.dat".to_string()]);
    assert_eq!(d.active_name(), before);
}

#[test]
fn import_of_taken_name() {
    let d = dir(&["keys.dat"], None);
    assert_eq!(d.import("keys"), Err(WalletFault::AlreadyExists("keys.dat".to_string())));
    assert_eq!(d.import("keys.dat"), Err(WalletFault::AlreadyExists("keys.dat".to_string())));
}
