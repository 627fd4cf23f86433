use zoog::comment_list::DiscreteCommentList;
use zoog::Error;

#[test]
fn replace_appends_on_missing() -> Result<(), Error> {
    let key = "foo";
    let value = "bar";

    let mut list_1 = DiscreteCommentList::default();
    list_1.append("v0", "k0")?;
    list_1.append(key, value)?;
    list_1.append("v1", "k1")?;

    let mut list_2 = DiscreteCommentList::default();
    list_2.append("v0", "k0")?;
    list_2.replace(key, value)?;
    list_2.append("v1", "k1")?;

    assert_eq!(list_1, list_2);
    Ok(())
}

#[test]
fn replace_replaces_on_duplicates() -> Result<(), Error> {
    let mut list_1 = DiscreteCommentList::default();
    list_1.append("v0", "k0")?;
    list_1.append("v1", "k1")?;
    list_1.append("v2", "k2")?;
    list_1.append("v3", "k3")?;
    list_1.append("v2", "k4")?;
    list_1.append("v5", "k5")?;
    list_1.append("v2", "k6")?;
    list_1.append("v7", "k7")?;
    list_1.replace("v2", "k8")?;

    let mut list_2 = DiscreteCommentList::default();
    list_2.append("v0", "k0")?;
    list_2.append("v1", "k1")?;
    list_2.append("v2", "k8")?;
    list_2.append("v3", "k3")?;
    list_2.append("v5", "k5")?;
    list_2.append("v7", "k7")?;

    assert_eq!(list_1, list_2);
    Ok(())
}

#[test]
fn get_first_case_insensitive() -> Result<(), Error> {
    let mut list_1 = DiscreteCommentList::default();
    list_1.append("FooBar", "1")?;
    list_1.append("FOOBAR", "2")?;
    list_1.append("foobar", "3")?;

    assert_eq!(list_1.get_first("FooBar"), Some("1"));
    assert_eq!(list_1.get_first("FOOBAR"), Some("1"));
    assert_eq!(list_1.get_first("foobar"), Some("1"));
    assert_eq!(list_1.get_first("FoObAr"), Some("1"));
    Ok(())
}

#[test]
fn replace_case_insensitive() -> Result<(), Error> {
    let mut list_1 = DiscreteCommentList::default();
    list_1.append("FooBar", "1")?;
    list_1.append("FOOBAR", "2")?;
    list_1.append("foobar", "3")?;
    list_1.replace("FoObAr", "42")?;

    assert_eq!(list_1.get_first("FOObar"), Some("42"));
    assert_eq!(list_1.len(), 1);
    Ok(())
}

#[test]
fn remove_all_case_insensitive() -> Result<(), Error> {
    let mut list_1 = DiscreteCommentList::default();
    list_1.append("FooBar", "1")?;
    list_1.append("FOOBAR", "2")?;
    list_1.append("v0", "k0")?;
    list_1.append("foobar", "3")?;
    list_1.append("v5", "k5")?;
    list_1.remove_all("FOObar");

    let mut list_2 = DiscreteCommentList::default();
    list_2.append("v0", "k0")?;
    list_2.append("v5", "k5")?;

    assert_eq!(list_1, list_2);
    Ok(())
}

#[test]
fn replace_keeps_first_spelling_and_order() -> Result<(), Error> {
    let mut list = DiscreteCommentList::new();
    list.push("Artist", "A")?;
    list.push("TITLE", "T")?;
    list.push("ARTIST", "B")?;
    list.push("genre", "G")?;
    list.replace("artist", "C")?;
    assert_eq!(list.len(), 3);
    assert_eq!(list.get(0), ("Artist", "C"));
    assert_eq!(list.get(1), ("TITLE", "T"));
    assert_eq!(list.get(2), ("genre", "G"));
    Ok(())
}

#[test]
fn replace_on_empty_list_appends() -> Result<(), Error> {
    let mut list = DiscreteCommentList::new();
    assert!(list.is_empty());
    list.replace("KEY", "value")?;
    assert_eq!(list.len(), 1);
    assert_eq!(list.get(0), ("KEY", "value"));
    Ok(())
}

#[test]
fn push_rejects_invalid_field_names() {
    let mut list = DiscreteCommentList::new();
    assert!(matches!(list.push("A=B", "x"), Err(Error::InvalidOpusCommentFieldName(_))));
    assert!(matches!(list.push("~", "x"), Err(Error::InvalidOpusCommentFieldName(_))));
    assert!(matches!(list.push("caf\u{e9}", "x"), Err(Error::InvalidOpusCommentFieldName(_))));
    assert!(list.push(" <>}", "x").is_ok());
    assert_eq!(list.len(), 1);
}

#[test]
fn get_first_missing_is_none() -> Result<(), Error> {
    let mut list = DiscreteCommentList::new();
    list.push("A", "1")?;
    assert_eq!(list.get_first("B"), None);
    Ok(())
}

#[test]
fn parse_comment_splits_at_first_separator() {
    assert_eq!(zoog::parse_comment("KEY=a=b").unwrap(), ("KEY", "a=b"));
    assert_eq!(zoog::parse_comment("KEY=").unwrap(), ("KEY", ""));
    assert!(matches!(zoog::parse_comment("KEY"), Err(Error::MissingCommentSeparator)));
    assert!(matches!(zoog::parse_comment("K\u{1}Y=v"), Err(Error::InvalidOpusCommentFieldName(_))));
}

#[test]
fn text_form_with_and_without_escapes() -> Result<(), Error> {
    let mut list = DiscreteCommentList::new();
    list.push("ARTIST", "Alice")?;
    list.push("NOTE", "a\nb")?;
    assert_eq!(list.to_text(false), "ARTIST=Alice\nNOTE=a\nb\n");
    assert_eq!(list.to_text(true), "ARTIST=Alice\nNOTE=a\\nb\n");
    Ok(())
}

#[test]
fn extend_appends_in_order() -> Result<(), Error> {
    let mut a = DiscreteCommentList::new();
    a.push("A", "1")?;
    let mut b = DiscreteCommentList::new();
    b.push("B", "2")?;
    b.push("A", "3")?;
    a.extend(&b);
    assert_eq!(a.len(), 3);
    assert_eq!(a.get(2), ("A", "3"));
    Ok(())
}

#[test]
fn gain_tag_round_trip() -> Result<(), Error> {
    let mut list = DiscreteCommentList::new();
    list.push("R128_TRACK_GAIN", "junk")?;
    assert!(matches!(list.get_gain_from_tag("R128_TRACK_GAIN"), Err(Error::InvalidR128Tag(_))));
    list.set_tag_to_gain("R128_TRACK_GAIN", zoog::FixedPointGain::from_fixed_point(-768))?;
    assert_eq!(list.get_first("r128_track_gain"), Some("-768"));
    assert_eq!(
        list.get_gain_from_tag("R128_TRACK_GAIN")?,
        Some(zoog::FixedPointGain::from_fixed_point(-768))
    );
    assert_eq!(list.get_gain_from_tag("R128_ALBUM_GAIN")?, None);
    Ok(())
}
