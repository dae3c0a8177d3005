use generation_mix::schema::{column_name, create_table_sql, upsert_sql, COLUMNS, FIELD_COUNT};
use generation_mix::text::{decimal, join};

#[test]
fn decimal_of_zero_is_a_single_digit() {
    assert_eq!(decimal(0), "0");
}

#[test]
fn decimal_of_single_digits() {
    assert_eq!(decimal(7), "7");
    assert_eq!(decimal(9), "9");
}

#[test]
fn decimal_has_no_leading_zero() {
    assert_eq!(decimal(10), "10");
    assert_eq!(decimal(32), "32");
    assert_eq!(decimal(1005), "1005");
}

#[test]
fn decimal_agrees_with_std_on_the_largest_number() {
    assert_eq!(decimal(usize::MAX), format!("{}", usize::MAX));
}

#[test]
fn decimal_agrees_with_std_on_a_range() {
    let mut n: usize = 0;
    while n < 2500 {
        assert_eq!(decimal(n), format!("{}", n));
        n += 1;
    }
}

#[test]
fn join_of_nothing_is_empty() {
    let parts: Vec<String> = Vec::new();
    assert_eq!(join(&parts, ", "), "");
}

#[test]
fn join_of_one_part_has_no_separator() {
    let parts = vec![String::from("GAS")];
    assert_eq!(join(&parts, ", "), "GAS");
}

#[test]
fn join_puts_the_separator_between_parts() {
    let parts = vec![String::from("a"), String::from(""), String::from("c")];
    assert_eq!(join(&parts, "--"), "a----c");
}

#[test]
fn the_table_has_thirty_two_columns() {
    assert_eq!(FIELD_COUNT, 32);
    assert_eq!(COLUMNS.len(), 32);
}

#[test]
fn the_key_comes_first() {
    assert_eq!(column_name(0), Some("DATETIME"));
}

#[test]
fn columns_follow_the_order_of_the_dataset() {
    let expected = [
        "DATETIME",
        "GAS",
        "COAL",
        "NUCLEAR",
        "WIND",
        "HYDRO",
        "IMPORTS",
        "BIOMASS",
        "OTHER",
        "SOLAR",
        "STORAGE",
        "GENERATION",
        "CARBON_INTENSITY",
        "LOW_CARBON",
        "ZERO_CARBON",
        "RENEWABLE",
        "FOSSIL",
        "GAS_perc",
        "COAL_perc",
        "NUCLEAR_perc",
        "WIND_perc",
        "HYDRO_perc",
        "IMPORTS_perc",
        "BIOMASS_perc",
        "OTHER_perc",
        "SOLAR_perc",
        "STORAGE_perc",
        "GENERATION_perc",
        "LOW_CARBON_perc",
        "ZERO_CARBON_perc",
        "RENEWABLE_perc",
        "FOSSIL_perc",
    ];
    let mut index: usize = 0;
    while index < 32 {
        assert_eq!(column_name(index), Some(expected[index]));
        index += 1;
    }
}

#[test]
fn there_is_no_column_past_the_last() {
    assert_eq!(column_name(31), Some("FOSSIL_perc"));
    assert_eq!(column_name(32), None);
    assert_eq!(column_name(usize::MAX), None);
}

#[test]
fn every_percentage_column_has_its_absolute_column() {
    let mut index: usize = 17;
    while index < 32 {
        let name = COLUMNS[index];
        assert!(name.ends_with("_perc"));
        let base = &name[..name.len() - 5];
        assert!(COLUMNS[1..17].contains(&base));
        index += 1;
    }
}

#[test]
fn create_statement_text() {
    assert_eq!(
        create_table_sql(),
        "CREATE TABLE IF NOT EXISTS energy_data (DATETIME TEXT PRIMARY KEY, GAS REAL, \
         COAL REAL, NUCLEAR REAL, WIND REAL, HYDRO REAL, IMPORTS REAL, BIOMASS REAL, \
         OTHER REAL, SOLAR REAL, STORAGE REAL, GENERATION REAL, CARBON_INTENSITY REAL, \
         LOW_CARBON REAL, ZERO_CARBON REAL, RENEWABLE REAL, FOSSIL REAL, GAS_perc REAL, \
         COAL_perc REAL, NUCLEAR_perc REAL, WIND_perc REAL, HYDRO_perc REAL, \
         IMPORTS_perc REAL, BIOMASS_perc REAL, OTHER_perc REAL, SOLAR_perc REAL, \
         STORAGE_perc REAL, GENERATION_perc REAL, LOW_CARBON_perc REAL, \
         ZERO_CARBON_perc REAL, RENEWABLE_perc REAL, FOSSIL_perc REAL)"
    );
}

#[test]
fn upsert_statement_text() {
    assert_eq!(
        upsert_sql(),
        "INSERT OR REPLACE INTO energy_data (DATETIME, GAS, COAL, NUCLEAR, WIND, HYDRO, \
         IMPORTS, BIOMASS, OTHER, SOLAR, STORAGE, GENERATION, CARBON_INTENSITY, LOW_CARBON, \
         ZERO_CARBON, RENEWABLE, FOSSIL, GAS_perc, COAL_perc, NUCLEAR_perc, WIND_perc, \
         HYDRO_perc, IMPORTS_perc, BIOMASS_perc, OTHER_perc, SOLAR_perc, STORAGE_perc, \
         GENERATION_perc, LOW_CARBON_perc, ZERO_CARBON_perc, RENEWABLE_perc, FOSSIL_perc) \
         VALUES (?, ?, ?, ?, ?, ?, ?, ?, ?, ?, ?, ?, ?, ?, ?, ?, ?, ?, ?, ?, ?, ?, ?, ?, ?, ?, \
         ?, ?, ?, ?, ?, ?)"
    );
}

#[test]
fn upsert_statement_binds_one_value_per_column() {
    let sql = upsert_sql();
    assert_eq!(sql.matches('?').count(), 32);
}
