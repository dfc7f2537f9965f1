use midnight::db::{create_database_statement, database_target, trim_leading_slashes, BootstrapError};

#[test]
fn target_of_url_with_database() {
    let target = database_target("postgres://localhost/test").unwrap();
    assert_eq!(target.name, "test");
    assert_eq!(target.maintenance_url, "postgres://localhost/postgres");
}

#[test]
fn target_keeps_credentials_and_port() {
    let target = database_target("postgres://user:pw@db.example.com:5433/app").unwrap();
    assert_eq!(target.name, "app");
    assert_eq!(target.maintenance_url, "postgres://user:pw@db.example.com:5433/postgres");
}

#[test]
fn url_without_database_name_is_refused() {
    assert_eq!(
        database_target("postgres://localhost").unwrap_err(),
        BootstrapError::MissingDatabaseName
    );
    assert_eq!(
        database_target("postgres://localhost/").unwrap_err(),
        BootstrapError::MissingDatabaseName
    );
}

#[test]
fn text_that_is_no_url_is_refused() {
    let err = database_target("not a url").unwrap_err();
    assert_eq!(err, BootstrapError::InvalidUrl);
    assert_eq!(err.to_string(), "invalid DATABASE_URL");
    assert_eq!(
        BootstrapError::MissingDatabaseName.to_string(),
        "DATABASE_URL must include a database name"
    );
}

#[test]
fn leading_slashes_removed() {
    assert_eq!(trim_leading_slashes("//db/x"), "db/x");
    assert_eq!(trim_leading_slashes("///"), "");
    assert_eq!(trim_leading_slashes("db"), "db");
}

#[test]
fn create_statement_quotes_name() {
    assert_eq!(create_database_statement("test"), "CREATE DATABASE \"test\"");
}
