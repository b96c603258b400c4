use irodori_lakehouse::sql::{
    clean_identifier, create_table_view, parquet_pattern, quote_identifier, scan_location,
    sql_string,
};

#[test]
fn builds_safe_view_names_and_sql_strings() {
    assert_eq!(clean_identifier("1 a-b"), "_1_a_b");
    assert_eq!(sql_string("s3://bucket/a'b"), "'s3://bucket/a''b'");
    assert_eq!(
        parquet_pattern("s3://bucket/table"),
        "s3://bucket/table/**/*.parquet"
    );
}

#[test]
fn strips_file_scheme_for_duckdb_scans() {
    assert_eq!(
        scan_location("file:///wh/t/metadata.json"),
        "/wh/t/metadata.json"
    );
    assert_eq!(
        scan_location("file:/wh/t/metadata.json"),
        "/wh/t/metadata.json"
    );
    assert_eq!(
        scan_location("s3://bucket/t/metadata.json"),
        "s3://bucket/t/metadata.json"
    );
}

#[test]
fn cleans_identifiers() {
    assert_eq!(clean_identifier(""), "lakehouse_table");
    assert_eq!(clean_identifier("Ünï"), "_n_");
    assert_eq!(clean_identifier("9"), "_9");
    assert_eq!(clean_identifier("a_b1"), "a_b1");
    let once = clean_identifier("7 seas; drop");
    assert_eq!(clean_identifier(&once), once);
}

#[test]
fn keeps_patterns_and_files() {
    assert_eq!(parquet_pattern("a/*.x"), "a/*.x");
    assert_eq!(parquet_pattern("a/b.parquet"), "a/b.parquet");
    assert_eq!(parquet_pattern("a/b//"), "a/b/**/*.parquet");
}

#[test]
fn quotes_what_a_statement_holds() {
    assert_eq!(quote_identifier("a\"b"), "\"a\"\"b\"");
    assert_eq!(sql_string(""), "''");
    assert_eq!(
        create_table_view("a.b", "t\"", "file:///wh/it's.json"),
        "create schema if not exists \"a.b\"; create or replace view \"a.b\".\"t\"\"\" as \
         select * from iceberg_scan('/wh/it''s.json')"
    );
}

#[test]
fn quoted_content_is_read_back() {
    for content in ["", "a", "it's", "''", "\"q\""] {
        let quoted = sql_string(content);
        assert_eq!(quoted[1..quoted.len() - 1].replace("''", "'"), content);
        let quoted = quote_identifier(content);
        assert_eq!(quoted[1..quoted.len() - 1].replace("\"\"", "\""), content);
    }
}

#[test]
fn cleaned_names_are_identifiers() {
    for value in ["", "1", "a b", "ü", "select * from x", "_"] {
        let name = clean_identifier(value);
        assert!(!name.is_empty());
        assert!(name.chars().all(|c| c.is_ascii_alphanumeric() || c == '_'));
        assert!(!name.starts_with(|c: char| c.is_ascii_digit()));
        assert_eq!(clean_identifier(&name), name);
    }
}
