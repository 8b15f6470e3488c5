use restate_sdk::test_utils::TestRestateServer;

#[test]
fn journal_query_text() {
    let q = TestRestateServer {}.journal_query(&"inv_13F4CrYOOGbN1HKesxBpxbiTJVbb46eQ25".to_string());
    let expected = format!("SELECT\n            sj.index,\n            sj.entry_type,\n            sj.raw\n        FROM sys_journal sj\n        WHERE\n            sj.id = '{}'\n        ORDER BY index DESC\n        LIMIT {}", "inv_13F4CrYOOGbN1HKesxBpxbiTJVbb46eQ25", 100);
    assert_eq!(q.query, expected);
}
