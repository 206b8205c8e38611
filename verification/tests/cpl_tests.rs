use cpl_string_list::{CplError, CslStringList};

fn fixture() -> Result<CslStringList, CplError> {
    let mut l = CslStringList::new();
    l.set_name_value("ONE", "1")?;
    l.set_name_value("TWO", "2")?;
    l.set_name_value("THREE", "3")?;

    Ok(l)
}

#[test]
fn basic_list() -> Result<(), CplError> {
    let l = fixture()?;
    assert!(matches!(l.fetch_name_value("ONE"), Ok(Some(s)) if s == *"1"));
    assert!(matches!(l.fetch_name_value("THREE"), Ok(Some(s)) if s == *"3"));
    assert!(matches!(l.fetch_name_value("FOO"), Ok(None)));

    Ok(())
}

#[test]
fn has_length() -> Result<(), CplError> {
    let l = fixture()?;
    assert_eq!(l.len(), 3);

    Ok(())
}

#[test]
fn can_be_empty() -> Result<(), CplError> {
    let l = CslStringList::new();
    assert!(l.is_empty());

    let l = fixture()?;
    assert!(!l.is_empty());

    Ok(())
}

#[test]
fn has_iterator() -> Result<(), CplError> {
    let f = fixture()?;
    let mut it = f.iter();
    assert_eq!(it.next(), Some(("ONE".to_string(), "1".to_string())));
    assert_eq!(it.next(), Some(("TWO".to_string(), "2".to_string())));
    assert_eq!(it.next(), Some(("THREE".to_string(), "3".to_string())));
    assert_eq!(it.next(), None);
    assert_eq!(it.next(), None);
    Ok(())
}

#[test]
fn invalid_keys() -> Result<(), CplError> {
    let mut l = fixture()?;
    assert!(l.set_name_value("l==t", "2").is_err());
    assert!(l.set_name_value("foo", "2\n4\r5").is_err());

    Ok(())
}

#[test]
fn try_from_impl() -> Result<(), CplError> {
    let l = CslStringList::try_from(&[("ONE", "1"), ("TWO", "2")])?;
    assert!(matches!(l.fetch_name_value("ONE"), Ok(Some(s)) if s == *"1"));
    assert!(matches!(l.fetch_name_value("TWO"), Ok(Some(s)) if s == *"2"));

    Ok(())
}

#[test]
fn debug_fmt() -> Result<(), CplError> {
    let l = fixture()?;
    let s = format!("{l:?}");
    assert!(s.contains("ONE=1"));
    assert!(s.contains("TWO=2"));
    assert!(s.contains("THREE=3"));

    Ok(())
}

#[test]
fn can_add_strings() -> Result<(), CplError> {
    let mut l = CslStringList::new();
    assert!(l.is_empty());
    l.add_string("-abc")?;
    l.add_string("-d_ef")?;
    l.add_string("A")?;
    l.add_string("B")?;
    assert_eq!(l.len(), 4);

    Ok(())
}
