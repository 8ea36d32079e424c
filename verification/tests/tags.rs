use pristimer::tags::{migrate_goals, normalize_tag, validate_goals};

fn goals(list: &[(&str, u64)]) -> Vec<(String, u64)> {
    list.iter().map(|(k, v)| (k.to_string(), *v)).collect()
}

fn sorted(mut v: Vec<(String, u64)>) -> Vec<(String, u64)> {
    v.sort();
    v
}

#[test]
fn tags_are_trimmed_cut_and_emptied_to_none() {
    assert_eq!(normalize_tag("  数学  ").as_deref(), Some("数学"));
    assert_eq!(normalize_tag("   "), None);
    assert_eq!(normalize_tag(""), None);
    assert_eq!(
        normalize_tag("一二三四五六七八九十一二三四五六七八九十多余").as_deref(),
        Some("一二三四五六七八九十一二三四五六七八九十")
    );
    // The cut happens after trimming, so a space inside the first twenty
    // characters may end the stored tag.
    let t = normalize_tag("aaaaaaaaaaaaaaaaaaa bc").unwrap();
    assert_eq!(t, "aaaaaaaaaaaaaaaaaaa ");
    assert_eq!(t.chars().count(), 20);
}

#[test]
fn goals_are_normalized_and_checked() {
    let ok = validate_goals(&goals(&[(" 英语 ", 30), ("数学", 60)])).unwrap();
    assert_eq!(sorted(ok), goals(&[("数学", 60), ("英语", 30)]));

    assert_eq!(
        validate_goals(&goals(&[("  ", 30)])).unwrap_err(),
        "科目名不能为空"
    );
    assert_eq!(
        validate_goals(&goals(&[("数学", 0)])).unwrap_err(),
        "目标分钟数越界: 数学 → 0（应为 1–1440）"
    );
    assert_eq!(
        validate_goals(&goals(&[(" 数学", 1441)])).unwrap_err(),
        "目标分钟数越界: 数学 → 1441（应为 1–1440）"
    );
    assert!(validate_goals(&goals(&[("a", 1), ("b", 1440)])).is_ok());
}

#[test]
fn at_most_eight_goals() {
    let eight: Vec<(String, u64)> = (0..8).map(|i| (format!("t{i}"), 10)).collect();
    assert_eq!(validate_goals(&eight).unwrap().len(), 8);
    let nine: Vec<(String, u64)> = (0..9).map(|i| (format!("t{i}"), 10)).collect();
    assert_eq!(validate_goals(&nine).unwrap_err(), "目标最多 8 个科目");
}

#[test]
fn tags_that_normalize_alike_keep_the_later_goal() {
    let v = validate_goals(&goals(&[(" a", 10), ("a ", 20)])).unwrap();
    assert_eq!(v, goals(&[("a", 20)]));
}

#[test]
fn renaming_moves_the_goal() {
    let moved = migrate_goals(goals(&[("旧", 30), ("别的", 10)]), "旧", Some("新")).unwrap();
    assert_eq!(sorted(moved), goals(&[("别的", 10), ("新", 30)]));
}

#[test]
fn merging_keeps_the_larger_goal() {
    let merged = migrate_goals(goals(&[("a", 30), ("b", 45)]), "a", Some("b")).unwrap();
    assert_eq!(merged, goals(&[("b", 45)]));
    let merged = migrate_goals(goals(&[("a", 50), ("b", 45)]), "a", Some("b")).unwrap();
    assert_eq!(merged, goals(&[("b", 50)]));
}

#[test]
fn clearing_a_tag_drops_its_goal_and_untouched_goals_need_no_write() {
    let cleared = migrate_goals(goals(&[("a", 30), ("b", 45)]), "a", None).unwrap();
    assert_eq!(cleared, goals(&[("b", 45)]));
    assert!(migrate_goals(goals(&[("b", 45)]), "a", Some("c")).is_none());
}
