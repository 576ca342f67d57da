use lzcr::dates::{can_cut_date, normalize_release_date, release_date_from_tag};
use lzcr::release;

#[test]
fn dates_in_front_of_timestamps() {
    assert_eq!(normalize_release_date("2024-05-06T07:08:09Z"), Some("2024-05-06".to_string()));
    assert_eq!(normalize_release_date("  2024-05-06  "), Some("2024-05-06".to_string()));
    assert_eq!(normalize_release_date("2024/05/06T"), None);
    assert_eq!(normalize_release_date("2024-5-6"), None);
    assert_eq!(normalize_release_date("1234567890123"), Some("1234567890".to_string()));
    assert_eq!(normalize_release_date(""), None);
    assert_eq!(release::normalize_release_date(Some("2024-05-06T07:08:09Z")), Some("2024-05-06".to_string()));
    assert_eq!(release::normalize_release_date(None), None);
}

#[test]
fn a_cut_through_a_character_is_noticed() {
    assert!(can_cut_date("2024-05-06"));
    assert!(can_cut_date("短"));
    assert!(can_cut_date("2024-05-é"));
    assert!(!can_cut_date("2024-05-0é"));
    assert!(can_cut_date(" 2024-05-06語 "));
    assert!(!can_cut_date("語語語語"));
}

#[test]
fn dates_in_tags() {
    assert_eq!(release_date_from_tag("v20240506"), Some("2024-05-06".to_string()));
    assert_eq!(release_date_from_tag("2024.05.06-1"), Some("2024-05-06".to_string()));
    assert_eq!(release_date_from_tag("v1.2.3"), None);
    assert_eq!(release_date_from_tag(""), None);
}

#[test]
fn a_date_is_its_own_date() {
    let date = normalize_release_date("\t2023-11-30T00:00:00Z").unwrap();
    assert_eq!(normalize_release_date(&date), Some(date.clone()));
    let date = release_date_from_tag("20231130001").unwrap();
    assert_eq!(date.chars().count(), 10);
    assert_eq!(normalize_release_date(&date), Some(date));
}
