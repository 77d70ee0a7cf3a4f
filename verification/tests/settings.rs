use runslate::errors::Error;
use runslate::utils::env_loader::{clear_empty_env, load, load_env_file, load_or_default, load_or_panic};

#[test]
fn a_setting_that_was_found_is_loaded() {
    assert_eq!(load("KEY", Some(String::from("value"))), Ok(String::from("value")));
    assert_eq!(load("KEY", Some(String::new())), Ok(String::new()));
    assert_eq!(load("KEY", None), Err(Error::EnvNotExist(String::from("KEY"))));
    assert_eq!(load_or_panic(Some(String::from("value"))), "value");
}

#[test]
fn a_missing_or_empty_setting_falls_back_to_the_default() {
    assert_eq!(load_or_default(Some(String::from("value")), "default"), "value");
    assert_eq!(load_or_default(Some(String::new()), "default"), "default");
    assert_eq!(load_or_default(None, "default"), "default");
    assert_eq!(load_or_default(Some(String::from(" ")), "default"), " ");
}

#[test]
fn the_first_file_that_exists_is_loaded() {
    assert_eq!(load_env_file(".env", &vec![false, true, false, true]), Ok(1));
    assert_eq!(load_env_file(".env", &vec![true]), Ok(0));
    assert_eq!(load_env_file(".env", &vec![false, false, false, true]), Ok(3));
    assert_eq!(load_env_file(".env", &vec![false, false]), Err(Error::EnvNotExist(String::from(".env"))));
    assert_eq!(load_env_file(".env", &vec![]), Err(Error::EnvNotExist(String::from(".env"))));
}

#[test]
fn a_blank_setting_is_cleared() {
    assert!(clear_empty_env(&Some(String::new())));
    assert!(clear_empty_env(&Some(String::from("  \t"))));
    assert!(!clear_empty_env(&Some(String::from(" x "))));
    assert!(!clear_empty_env(&None));
}
