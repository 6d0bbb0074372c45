use hpn_indexer::chain::DbWrite;
use hpn_indexer::db::{
    check_schema, get_all, get_by_category, get_category, insert_category, insert_provider,
    insert_provider_facts, is_provisioned, like_pattern, plan_write, provider_category,
    provider_statement, search_provider, table_names, write_db_schema, DbError, Row, SqlValue,
    Statement, WritePlan,
};
use hpn_indexer::string_map::StringMap;

fn texts(statement: &Statement) -> Vec<String> {
    statement
        .params
        .iter()
        .map(|p| match p {
            SqlValue::Text(t) => t.clone(),
            SqlValue::Integer(n) => format!("#{}", n),
            SqlValue::Null => "null".to_string(),
        })
        .collect()
}

fn row(cells: &[(&str, SqlValue)]) -> Row {
    let mut out: Row = StringMap::new();
    for (k, v) in cells {
        let v = match v {
            SqlValue::Text(t) => SqlValue::Text(t.clone()),
            SqlValue::Integer(n) => SqlValue::Integer(*n),
            SqlValue::Null => SqlValue::Null,
        };
        out.insert(k.to_string(), v);
    }
    out
}

#[test]
fn category_insert_binds_name_then_hash() {
    let s = insert_category("0xB".to_string(), "weather".to_string());
    assert_eq!(s.sql, "INSERT OR IGNORE INTO categories(name, hash) VALUES (?1, ?2);");
    assert_eq!(texts(&s), vec!["weather", "0xB"]);
}

#[test]
fn provider_insert_binds_hash_name_category_and_time() {
    let s = insert_provider(
        SqlValue::Text("weather".to_string()),
        "0xC".to_string(),
        "WeatherAPI.com".to_string(),
        1_700_000_000,
    );
    assert_eq!(
        s.sql,
        "INSERT OR IGNORE INTO providers(hash, name, category, created) VALUES (?1, ?2, ?3, ?4);"
    );
    assert_eq!(texts(&s), vec!["0xC", "WeatherAPI.com", "weather", "#1700000000"]);
}

#[test]
fn fact_update_names_its_column_in_the_text() {
    let s = insert_provider_facts(
        "site".to_string(),
        "https://one.example".to_string(),
        "0xC".to_string(),
    )
    .ok()
    .unwrap();
    assert_eq!(s.sql, "UPDATE providers SET 'site' = ?1 WHERE hash = ?2");
    assert_eq!(texts(&s), vec!["https://one.example", "0xC"]);
    for (key, text) in [
        ("provider_name", "UPDATE providers SET 'provider_name' = ?1 WHERE hash = ?2"),
        ("description", "UPDATE providers SET 'description' = ?1 WHERE hash = ?2"),
    ] {
        let s = insert_provider_facts(key.to_string(), "v".to_string(), "0xC".to_string());
        assert_eq!(s.ok().unwrap().sql, text);
    }
}

#[test]
fn fact_update_takes_no_other_column() {
    for key in ["", "price", "Site", "site ", "hash", "x' = 'y' --", "provider-name"] {
        let r = insert_provider_facts(key.to_string(), "v".to_string(), "0xC".to_string());
        assert_eq!(r.err(), Some(DbError::NoColumn));
        let plan = plan_write(DbWrite::SetFact {
            key: key.to_string(),
            value: "v".to_string(),
            hash: "0xC".to_string(),
        });
        assert_eq!(plan.err(), Some(DbError::NoColumn));
    }
    assert!(is_provisioned("site") && is_provisioned("description"));
    assert!(is_provisioned("provider_name") && !is_provisioned("name"));
    assert_eq!(DbError::NoColumn.message(), "no such column");
}

#[test]
fn read_queries() {
    let all = get_all();
    assert_eq!(all.sql, "SELECT * FROM providers");
    assert!(all.params.is_empty());
    let category = get_category("0xB".to_string());
    assert_eq!(category.sql, "SELECT * FROM categories WHERE hash = ?1");
    assert_eq!(texts(&category), vec!["0xB"]);
    let by_category = get_by_category("weather".to_string());
    assert_eq!(by_category.sql, "SELECT * FROM providers WHERE category= ?1");
    assert_eq!(texts(&by_category), vec!["weather"]);
    let tables = table_names();
    assert_eq!(tables.sql, "SELECT name from sqlite_master WHERE type='table';");
    assert!(tables.params.is_empty());
}

#[test]
fn search_covers_five_columns_whatever_the_case() {
    let s = search_provider("rain".to_string());
    assert_eq!(
        s.sql,
        "SELECT * FROM providers WHERE (category LIKE ?1 ESCAPE '\\' COLLATE NOCASE) \
         OR (name LIKE ?1 ESCAPE '\\' COLLATE NOCASE) \
         OR (provider_name LIKE ?1 ESCAPE '\\' COLLATE NOCASE) \
         OR (site LIKE ?1 ESCAPE '\\' COLLATE NOCASE) \
         OR (description LIKE ?1 ESCAPE '\\' COLLATE NOCASE)"
    );
    assert_eq!(texts(&s), vec!["%rain%"]);
}

#[test]
fn search_text_does_not_depend_on_the_query() {
    let plain = search_provider("rain".to_string()).sql;
    for query in ["", "'", "x' OR '1'='1", "%", "_", "\\", "'; DROP TABLE providers; --"] {
        let s = search_provider(query.to_string());
        assert_eq!(s.sql, plain);
        assert_eq!(s.params.len(), 1);
    }
}

#[test]
fn search_query_is_taken_for_itself() {
    assert_eq!(like_pattern(""), "%%");
    assert_eq!(like_pattern("rain"), "%rain%");
    assert_eq!(like_pattern("%"), "%\\%%");
    assert_eq!(like_pattern("_"), "%\\_%");
    assert_eq!(like_pattern("\\"), "%\\\\%");
    assert_eq!(like_pattern("50%_off\\now"), "%50\\%\\_off\\\\now%");
    assert_eq!(like_pattern("it's"), "%it's%");
    assert_eq!(like_pattern("caf\u{e9} %"), "%caf\u{e9} \\%%");
    assert_eq!(texts(&search_provider("a_b".to_string())), vec!["%a\\_b%"]);
}

#[test]
fn schema_is_two_tables_and_an_index() {
    let s = write_db_schema();
    assert_eq!(s.len(), 3);
    assert!(s[0].sql.starts_with("CREATE TABLE categories(name TEXT PRIMARY KEY"));
    assert!(s[1].sql.starts_with("CREATE TABLE providers(id INTEGER PRIMARY KEY AUTOINCREMENT"));
    for column in ["provider_name TEXT", "site TEXT", "description TEXT", "created INTEGER"] {
        assert!(s[1].sql.contains(column));
    }
    assert!(s[1].sql.contains("FOREIGN KEY (category) REFERENCES categories(name)"));
    assert_eq!(s[2].sql, "CREATE INDEX idx_providers_category ON providers (id, category);");
    assert!(s.iter().all(|x| x.params.is_empty()));
}

#[test]
fn schema_is_left_alone_where_providers_exist() {
    let tables = vec![
        row(&[("name", SqlValue::Text("categories".to_string()))]),
        row(&[("name", SqlValue::Text("providers".to_string()))]),
    ];
    assert!(check_schema(&tables).is_empty());
}

#[test]
fn schema_is_written_where_providers_are_missing() {
    assert_eq!(check_schema(&vec![]).len(), 3);
    let tables = vec![
        row(&[("name", SqlValue::Text("categories".to_string()))]),
        row(&[("name", SqlValue::Text("Providers".to_string()))]),
        row(&[("name", SqlValue::Integer(1))]),
        row(&[("table", SqlValue::Text("providers".to_string()))]),
    ];
    let needed = check_schema(&tables);
    assert_eq!(needed.len(), 3);
    assert_eq!(needed[0].sql, write_db_schema()[0].sql);
}

#[test]
fn category_of_a_provider_is_the_first_rows_name() {
    let rows = vec![
        row(&[
            ("name", SqlValue::Text("weather".to_string())),
            ("hash", SqlValue::Text("0xB".to_string())),
        ]),
        row(&[("name", SqlValue::Text("other".to_string()))]),
    ];
    assert!(matches!(provider_category(&rows), Ok(SqlValue::Text(t)) if t == "weather"));
}

#[test]
fn category_lookup_errors() {
    assert_eq!(provider_category(&vec![]).err(), Some(DbError::NoCategory));
    let nameless = vec![row(&[("hash", SqlValue::Text("0xB".to_string()))])];
    assert_eq!(provider_category(&nameless).err(), Some(DbError::NoCategoryName));
}

#[test]
fn category_and_fact_are_written_at_once() {
    let category =
        plan_write(DbWrite::InsertCategory { hash: "0xB".to_string(), name: "weather".to_string() });
    assert!(matches!(category, Ok(WritePlan::Run(s))
        if s.sql.starts_with("INSERT OR IGNORE INTO categories") && texts(&s) == ["weather", "0xB"]));
    let fact = plan_write(DbWrite::SetFact {
        key: "site".to_string(),
        value: "https://one.example".to_string(),
        hash: "0xC".to_string(),
    });
    assert!(matches!(fact, Ok(WritePlan::Run(s))
        if s.sql == "UPDATE providers SET 'site' = ?1 WHERE hash = ?2"
            && texts(&s) == ["https://one.example", "0xC"]));
}

#[test]
fn provider_is_written_after_its_category_is_looked_up() {
    let plan = plan_write(DbWrite::InsertProvider {
        parent_hash: "0xB".to_string(),
        hash: "0xC".to_string(),
        name: "WeatherAPI.com".to_string(),
    });
    let (lookup, hash, name) = match plan {
        Ok(WritePlan::ProviderUnder { lookup, hash, name }) => (lookup, hash, name),
        _ => panic!("expected a lookup"),
    };
    assert_eq!(lookup.sql, "SELECT * FROM categories WHERE hash = ?1");
    assert_eq!(texts(&lookup), vec!["0xB"]);
    let rows = vec![row(&[("name", SqlValue::Text("weather".to_string()))])];
    let insert = provider_statement(&rows, hash, name, 42).ok().unwrap();
    assert!(insert.sql.starts_with("INSERT OR IGNORE INTO providers"));
    assert_eq!(texts(&insert), vec!["0xC", "WeatherAPI.com", "weather", "#42"]);
    assert_eq!(
        provider_statement(&vec![], "0xC".to_string(), "x".to_string(), 42).err(),
        Some(DbError::NoCategory)
    );
}
