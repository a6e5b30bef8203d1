use phantomdb::client::{
    commit_endpoint, database_endpoint, databases_endpoint, query_endpoint, rollback_endpoint,
    rows_endpoint, table_endpoint, tables_endpoint, transactions_endpoint,
};
use phantomdb::{Column, DatabaseInfo, PhantomDB, PhantomDBError, TableInfo};

#[test]
fn test_new_client() {
    let db = PhantomDB::new("http://localhost:8080").unwrap();
    assert_eq!(db.base_url(), "http://localhost:8080");
}

#[test]
fn test_column_struct() {
    let column = Column {
        name: "test".to_string(),
        type_: "string".to_string(),
    };

    assert_eq!(column.name, "test");
    assert_eq!(column.type_, "string");
}

#[test]
fn test_error_types() {
    let custom_error = PhantomDBError::custom("test error");
    match custom_error {
        PhantomDBError::Custom(msg) => assert_eq!(msg, "test error"),
        _ => panic!("Expected Custom error"),
    }
}

#[test]
fn info_records_hold_names() {
    let d = DatabaseInfo { name: "db".to_string() };
    let t = TableInfo { name: "users".to_string() };
    assert_eq!(d.name, "db");
    assert_eq!(t.name, "users");
}

#[test]
fn url_joins_base_and_endpoint() {
    let db = PhantomDB::new("http://localhost:8080").unwrap();
    assert_eq!(db.url_for("/health"), "http://localhost:8080/health");
    assert_eq!(db.url_for(&databases_endpoint()), "http://localhost:8080/databases");
}

#[test]
fn resource_paths() {
    assert_eq!(databases_endpoint(), "/databases");
    assert_eq!(database_endpoint("shop"), "/databases/shop");
    assert_eq!(tables_endpoint("shop"), "/databases/shop/tables");
    assert_eq!(table_endpoint("shop", "users"), "/databases/shop/tables/users");
    assert_eq!(query_endpoint("shop"), "/databases/shop/query");
    assert_eq!(transactions_endpoint(), "/transactions");
    assert_eq!(commit_endpoint("t1"), "/transactions/t1/commit");
    assert_eq!(rollback_endpoint("t1"), "/transactions/t1/rollback");
}

#[test]
fn row_paths_with_and_without_condition() {
    assert_eq!(rows_endpoint("shop", "users", None), "/databases/shop/tables/users");
    assert_eq!(
        rows_endpoint("shop", "users", Some("id=1")),
        "/databases/shop/tables/users?condition=id=1"
    );
}
