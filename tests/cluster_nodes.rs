use corvus::{max_stat, ClusterNodes, EntityData};

fn triples(c: &ClusterNodes, prefix: &str) -> Vec<(String, String, String, String)> {
    c.get_dev_id_prefix(prefix)
        .into_iter()
        .map(|(n, e, d)| (n, e, d.stat, d.attr))
        .collect()
}

#[test]
fn last_write_wins_per_field() {
    let mut c = ClusterNodes::new();
    c.update_stat("node1", "abc_1", "1".to_string());
    c.update_attr("node2", "abc_1", "{\"a\":1}".to_string());
    c.update_stat("node1", "abc_1", "2".to_string());
    c.update_attr("node1", "abc_1", "{\"b\":2}".to_string());
    c.update_stat("node2", "abc_1", "7".to_string());
    c.update_stat("node1", "abc_1", "3".to_string());
    let got = triples(&c, "abc");
    assert_eq!(
        got,
        vec![
            ("node1".to_string(), "abc_1".to_string(), "3".to_string(), "{\"b\":2}".to_string()),
            ("node2".to_string(), "abc_1".to_string(), "7".to_string(), "{\"a\":1}".to_string()),
        ]
    );
}

#[test]
fn first_write_creates_with_empty_other_field() {
    let mut c = ClusterNodes::new();
    c.update_attr("n", "e", "{}".to_string());
    assert_eq!(triples(&c, ""), vec![("n".to_string(), "e".to_string(), String::new(), "{}".to_string())]);
}

#[test]
fn prefix_query_returns_exactly_matching_entities() {
    let mut c = ClusterNodes::new();
    c.update_stat("node1", "abc_1", "a".to_string());
    c.update_stat("node1", "xabc", "b".to_string());
    c.update_stat("node2", "abc", "c".to_string());
    c.update_stat("node2", "ab", "d".to_string());
    c.update_stat("node3", "abcdef", "e".to_string());
    let mut got: Vec<(String, String, String)> = c
        .get_dev_id_prefix("abc")
        .into_iter()
        .map(|(n, e, d)| (n, e, d.stat))
        .collect();
    got.sort();
    assert_eq!(
        got,
        vec![
            ("node1".to_string(), "abc_1".to_string(), "a".to_string()),
            ("node2".to_string(), "abc".to_string(), "c".to_string()),
            ("node3".to_string(), "abcdef".to_string(), "e".to_string()),
        ]
    );
    assert!(c.get_dev_id_prefix("zzz").is_empty());
}

#[test]
fn nodes_and_entities_listed_once() {
    let mut c = ClusterNodes::new();
    c.update_stat("node1", "a", "1".to_string());
    c.update_stat("node2", "a", "1".to_string());
    c.update_stat("node1", "b", "1".to_string());
    assert_eq!(c.get_nodes(), vec!["node1".to_string(), "node2".to_string()]);
    assert_eq!(c.get_entities(), vec!["a".to_string(), "b".to_string()]);
    assert!(ClusterNodes::new().get_nodes().is_empty());
}

#[test]
fn leader_aggregation_max_stat_wins() {
    let mut c = ClusterNodes::new();
    c.update_stat("node1", "abc_1", "10".to_string());
    c.update_stat("node2", "abc_1", "20".to_string());
    let entries = c.get_dev_id_prefix("abc");
    assert_eq!(max_stat(&entries), Some(("20".to_string(), "node2".to_string())));
}

#[test]
fn max_stat_skips_non_numbers_and_keeps_first_of_ties() {
    let e = |n: &str, s: &str| (n.to_string(), "x".to_string(), EntityData { stat: s.to_string(), attr: String::new() });
    let entries = vec![e("a", "on"), e("b", "-5"), e("c", "12"), e("d", "12"), e("f", "")];
    assert_eq!(max_stat(&entries), Some(("12".to_string(), "c".to_string())));
    assert_eq!(max_stat(&vec![e("a", "on")]), None);
    assert_eq!(max_stat(&vec![e("a", "-70"), e("b", "-80")]), Some(("-70".to_string(), "a".to_string())));
}

#[test]
fn leader_pass_over_store_reports_value_and_origin() {
    let mut c = ClusterNodes::new();
    c.update_stat("node1", "abc_1", "10".to_string());
    c.update_stat("node2", "abc_1", "20".to_string());
    c.update_stat("node3", "xyz", "99".to_string());
    assert_eq!(c.max_stat_with_prefix("abc"), Some(("20".to_string(), "node2".to_string())));
    assert_eq!(c.max_stat_with_prefix("nothing"), None);
}
