use cpl_string_list::{CplError, CslStringList};

#[test]
fn set_then_fetch_returns_value() -> Result<(), CplError> {
    let mut l = CslStringList::new();
    l.set_name_value("NAME", "value_1")?;
    assert!(matches!(l.fetch_name_value("NAME"), Ok(Some(s)) if s == *"value_1"));
    Ok(())
}

#[test]
fn last_write_wins() -> Result<(), CplError> {
    let mut l = CslStringList::new();
    l.set_name_value("KEY", "first")?;
    assert_eq!(l.len(), 1);
    l.set_name_value("KEY", "second")?;
    assert_eq!(l.len(), 1);
    assert!(matches!(l.fetch_name_value("KEY"), Ok(Some(s)) if s == *"second"));
    let mut it = l.iter();
    assert_eq!(it.next(), Some(("KEY".to_string(), "second".to_string())));
    assert_eq!(it.next(), None);
    Ok(())
}

#[test]
fn keys_match_case_insensitively() -> Result<(), CplError> {
    let mut l = CslStringList::new();
    l.set_name_value("Foo", "1")?;
    assert!(matches!(l.fetch_name_value("FOO"), Ok(Some(s)) if s == *"1"));
    assert!(matches!(l.fetch_name_value("foo"), Ok(Some(s)) if s == *"1"));
    l.set_name_value("FOO", "2")?;
    assert_eq!(l.len(), 1);
    assert!(matches!(l.fetch_name_value("foo"), Ok(Some(s)) if s == *"2"));
    // Storage keeps the case of the latest assignment.
    let mut it = l.iter();
    assert_eq!(it.next(), Some(("FOO".to_string(), "2".to_string())));
    Ok(())
}

#[test]
fn absent_key_is_not_an_error() {
    let l = CslStringList::new();
    assert!(matches!(l.fetch_name_value("NEVER_SET"), Ok(None)));
}

#[test]
fn is_empty_agrees_with_len() -> Result<(), CplError> {
    let mut l = CslStringList::new();
    assert!(l.is_empty());
    assert_eq!(l.len(), 0);
    l.set_name_value("A", "1")?;
    assert!(!l.is_empty());
    assert_eq!(l.len(), 1);
    Ok(())
}

#[test]
fn iteration_stops_at_raw_token() -> Result<(), CplError> {
    let mut l = CslStringList::new();
    l.set_name_value("ONE", "1")?;
    l.add_string("raw_token")?;
    l.set_name_value("TWO", "2")?;
    assert_eq!(l.len(), 3);
    let mut it = l.iter();
    assert_eq!(it.next(), Some(("ONE".to_string(), "1".to_string())));
    // A raw token without `=` yields no pair, and exhaustion is sticky.
    assert_eq!(it.next(), None);
    assert_eq!(it.next(), None);
    Ok(())
}

#[test]
fn value_may_contain_equals() -> Result<(), CplError> {
    let mut l = CslStringList::new();
    l.set_name_value("K", "a=b")?;
    assert!(matches!(l.fetch_name_value("K"), Ok(Some(s)) if s == *"a=b"));
    let mut it = l.iter();
    assert_eq!(it.next(), Some(("K".to_string(), "a=b".to_string())));
    Ok(())
}

#[test]
fn empty_value_is_kept() -> Result<(), CplError> {
    let mut l = CslStringList::new();
    l.set_name_value("K", "")?;
    assert!(matches!(l.fetch_name_value("K"), Ok(Some(s)) if s.is_empty()));
    Ok(())
}

#[test]
fn clone_is_independent() -> Result<(), CplError> {
    let mut original = CslStringList::new();
    original.set_name_value("ONE", "1")?;
    original.set_name_value("TWO", "2")?;
    let mut copy = original.clone();
    copy.set_name_value("ONE", "changed")?;
    copy.set_name_value("THREE", "3")?;
    assert_eq!(original.len(), 2);
    assert!(matches!(original.fetch_name_value("ONE"), Ok(Some(s)) if s == *"1"));
    assert!(matches!(original.fetch_name_value("THREE"), Ok(None)));
    assert_eq!(copy.len(), 3);
    assert!(matches!(copy.fetch_name_value("ONE"), Ok(Some(s)) if s == *"changed"));
    Ok(())
}

#[test]
fn rejected_inputs_leave_list_unchanged() -> Result<(), CplError> {
    let mut l = CslStringList::new();
    l.set_name_value("GOOD", "old")?;
    assert_eq!(l.set_name_value("has space", "x"), Err(CplError::InvalidArgument));
    assert_eq!(l.set_name_value("has=sep", "x"), Err(CplError::InvalidArgument));
    assert_eq!(l.set_name_value("GOOD", "with\nnewline"), Err(CplError::InvalidArgument));
    assert_eq!(l.set_name_value("GOOD", "with\rreturn"), Err(CplError::InvalidArgument));
    assert_eq!(l.len(), 1);
    assert!(matches!(l.fetch_name_value("GOOD"), Ok(Some(s)) if s == *"old"));
    Ok(())
}

#[test]
fn embedded_nul_is_rejected() -> Result<(), CplError> {
    let mut l = CslStringList::new();
    assert_eq!(l.add_string("a\0b"), Err(CplError::InvalidArgument));
    assert_eq!(l.set_name_value("K", "a\0b"), Err(CplError::InvalidArgument));
    assert!(l.is_empty());
    l.set_name_value("K", "v")?;
    assert_eq!(l.fetch_name_value("a\0b"), Err(CplError::InvalidArgument));
    Ok(())
}

#[test]
fn three_pairs_scenario() -> Result<(), CplError> {
    let mut l = CslStringList::new();
    l.set_name_value("ONE", "1")?;
    l.set_name_value("TWO", "2")?;
    l.set_name_value("THREE", "3")?;
    assert_eq!(l.len(), 3);
    let mut it = l.iter();
    assert_eq!(it.next(), Some(("ONE".to_string(), "1".to_string())));
    assert_eq!(it.next(), Some(("TWO".to_string(), "2".to_string())));
    assert_eq!(it.next(), Some(("THREE".to_string(), "3".to_string())));
    assert_eq!(it.next(), None);
    assert!(matches!(l.fetch_name_value("FOUR"), Ok(None)));
    Ok(())
}

#[test]
fn bulk_construction_len() -> Result<(), CplError> {
    let l = CslStringList::try_from(&[("ONE", "1"), ("TWO", "2")])?;
    assert_eq!(l.len(), 2);
    Ok(())
}

#[test]
fn bulk_construction_fails_atomically() {
    let r = CslStringList::try_from(&[("OK", "1"), ("NOT OK", "2")]);
    assert_eq!(r.err(), Some(CplError::InvalidArgument));
}

#[test]
fn renders_entries_as_lines() -> Result<(), CplError> {
    let mut l = CslStringList::new();
    assert_eq!(l.to_text(), "");
    l.set_name_value("ONE", "1")?;
    l.set_name_value("TWO", "2")?;
    assert_eq!(l.to_text(), "ONE=1\nTWO=2\n");
    Ok(())
}

#[test]
fn default_is_empty() {
    let l = CslStringList::default();
    assert!(l.is_empty());
}
