use doit::assets::{custom_icon, list_with_custom};

#[test]
fn cloud_icon_is_served() {
    let svg = custom_icon("icons/cloud.svg").expect("served");
    assert!(svg.starts_with("<svg"));
    assert!(svg.contains("lucide-cloud"));
    assert!(svg.ends_with("</svg>"));
    assert_eq!(custom_icon("icons/other.svg"), None);
}

#[test]
fn cloud_icon_is_listed_once() {
    let listed = vec!["icons/a.svg".to_string()];
    assert_eq!(list_with_custom("icons", listed.clone()), vec!["icons/a.svg".to_string(), "icons/cloud.svg".to_string()]);
    assert_eq!(list_with_custom("", Vec::new()), vec!["icons/cloud.svg".to_string()]);
    assert_eq!(list_with_custom("fonts", listed.clone()), listed);
    let with = vec!["icons/cloud.svg".to_string()];
    assert_eq!(list_with_custom("icons", with.clone()), with);
}
