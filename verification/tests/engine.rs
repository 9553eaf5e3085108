use churn_matrix::catalog::{Catalog, Usage};
use churn_matrix::matrix::{build_matrix, churn_matrix};
use churn_matrix::model::{App, Column, Sdk, StoreError};

fn mk_app(id: i32) -> App {
    App {
        id,
        name: format!("app-{id}"),
        company_url: format!("https://vendor-{id}.example"),
        release_date: String::from("2020-01-01"),
        genre_id: 7,
        artwork_large_url: format!("https://art.example/{id}.png"),
        seller_name: format!("seller-{id}"),
        five_star_ratings: 0,
        four_star_ratings: 0,
        three_star_ratings: 0,
        two_star_ratings: 0,
        one_star_ratings: 0,
    }
}

fn mk_sdk(id: i32, name: &str) -> Sdk {
    Sdk {
        id,
        name: String::from(name),
        slug: name.to_lowercase(),
        url: format!("https://sdk.example/{id}"),
        description: format!("the {name} kit"),
    }
}

fn usage(app_id: i32, sdk_id: i32, installed: bool) -> Usage {
    Usage { app_id, sdk_id, installed }
}

/// A1 currently uses X; A2 currently uses Y and previously used X;
/// A3 currently uses both X and Y.
fn scenario_catalog() -> Catalog {
    let apps = vec![mk_app(1), mk_app(2), mk_app(3)];
    let sdks = vec![mk_sdk(10, "SdkX"), mk_sdk(20, "SdkY")];
    let usages = vec![
        usage(1, 10, true),
        usage(2, 20, true),
        usage(2, 10, false),
        usage(3, 10, true),
        usage(3, 20, true),
    ];
    Catalog::from_rows(apps, sdks, usages).unwrap()
}

fn ids(apps: &[App]) -> Vec<i32> {
    apps.iter().map(|a| a.id).collect()
}

#[test]
fn rating_weighted_average() {
    let mut a = mk_app(1);
    a.one_star_ratings = 1;
    a.five_star_ratings = 1;
    assert_eq!(a.rating_count(), 2);
    let (num, den) = a.rating().unwrap();
    assert_eq!((num, den), (6, 2));
    assert_eq!(num as f64 / den as f64, 3.0);
}

#[test]
fn rating_zero_count_is_signalled() {
    let a = mk_app(1);
    assert_eq!(a.rating_count(), 0);
    assert!(a.rating().is_none());
}

#[test]
fn scenario_churn_cells() {
    let cat = scenario_catalog();
    let x = Column::Sdk(mk_sdk(10, "SdkX"));
    let y = Column::Sdk(mk_sdk(20, "SdkY"));
    assert_eq!(ids(&cat.churn(&x, &y)), vec![2]);
    assert_eq!(ids(&cat.churn(&x, &x)), vec![1, 3]);
    assert_eq!(ids(&cat.churn(&Column::All, &Column::All)), vec![1, 2, 3]);
}

#[test]
fn churn_empty_result_is_valid() {
    let cat = scenario_catalog();
    let x = Column::Sdk(mk_sdk(10, "SdkX"));
    let y = Column::Sdk(mk_sdk(20, "SdkY"));
    // Nobody dropped Y and picked up X.
    assert_eq!(ids(&cat.churn(&y, &x)), Vec::<i32>::new());
}

#[test]
fn diagonal_deduplicates_by_app() {
    // One app with three currently installed SDKs appears exactly once
    // under the wildcard diagonal.
    let apps = vec![mk_app(1)];
    let sdks = vec![mk_sdk(10, "SdkX"), mk_sdk(20, "SdkY"), mk_sdk(30, "SdkZ")];
    let usages = vec![usage(1, 10, true), usage(1, 20, true), usage(1, 30, true)];
    let cat = Catalog::from_rows(apps, sdks, usages).unwrap();
    assert_eq!(ids(&cat.churn(&Column::All, &Column::All)), vec![1]);
}

#[test]
fn wildcard_widens_the_result() {
    let cat = scenario_catalog();
    let x = Column::Sdk(mk_sdk(10, "SdkX"));
    let y = Column::Sdk(mk_sdk(20, "SdkY"));
    let narrow = ids(&cat.churn(&x, &y));
    let wide_from = ids(&cat.churn(&Column::All, &y));
    let wide_to = ids(&cat.churn(&x, &Column::All));
    for id in &narrow {
        assert!(wide_from.contains(id));
        assert!(wide_to.contains(id));
    }
}

#[test]
fn matrix_has_one_cell_per_ordered_pair() {
    let cat = scenario_catalog();
    let x = Column::Sdk(mk_sdk(10, "SdkX"));
    let y = Column::Sdk(mk_sdk(20, "SdkY"));
    // A repeated selector must not produce extra keys.
    let columns = vec![Column::All, x.clone(), Column::All];
    let m = churn_matrix(&cat, &columns);
    assert_eq!(m.len(), 4);
    for from in [&Column::All, &x] {
        for to in [&Column::All, &x] {
            assert!(m.get(from, to).is_some());
        }
    }
    assert!(m.get(&y, &Column::All).is_none());
}

#[test]
fn matrix_cells_hold_churn_results() {
    let cat = scenario_catalog();
    let x = Column::Sdk(mk_sdk(10, "SdkX"));
    let y = Column::Sdk(mk_sdk(20, "SdkY"));
    let m = churn_matrix(&cat, &vec![x.clone(), y.clone()]);
    assert_eq!(m.len(), 4);
    assert_eq!(ids(m.get(&x, &y).unwrap()), vec![2]);
    assert_eq!(ids(m.get(&x, &x).unwrap()), vec![1, 3]);
    assert_eq!(ids(m.get(&y, &y).unwrap()), vec![2, 3]);
    assert_eq!(ids(m.get(&y, &x).unwrap()), Vec::<i32>::new());
}

#[test]
fn empty_selector_list_yields_empty_matrix() {
    let cat = scenario_catalog();
    let m = churn_matrix(&cat, &Vec::new());
    assert_eq!(m.len(), 0);
    let built = build_matrix(&Vec::new(), &Vec::new());
    assert_eq!(built.unwrap().len(), 0);
}

#[test]
fn single_selector_yields_one_diagonal_cell() {
    let cat = scenario_catalog();
    let x = Column::Sdk(mk_sdk(10, "SdkX"));
    let m = churn_matrix(&cat, &vec![x.clone()]);
    assert_eq!(m.len(), 1);
    assert_eq!(ids(m.get(&x, &x).unwrap()), vec![1, 3]);
}

#[test]
fn one_failed_fetch_aborts_the_build() {
    let x = Column::Sdk(mk_sdk(10, "SdkX"));
    let columns = vec![Column::All, x];
    // Four pairs; the second fetch fails.
    let replies = vec![
        Ok(vec![mk_app(1)]),
        Err(StoreError::StoreUnavailable),
        Ok(vec![mk_app(2)]),
        Ok(vec![mk_app(3)]),
    ];
    let r = build_matrix(&columns, &replies);
    assert_eq!(r.unwrap_err(), StoreError::StoreUnavailable);
}

#[test]
fn first_of_several_failures_is_surfaced() {
    let x = Column::Sdk(mk_sdk(10, "SdkX"));
    let columns = vec![Column::All, x];
    let replies = vec![
        Ok(vec![]),
        Err(StoreError::MalformedRow),
        Err(StoreError::StoreUnavailable),
        Ok(vec![]),
    ];
    let r = build_matrix(&columns, &replies);
    assert_eq!(r.unwrap_err(), StoreError::MalformedRow);
}

#[test]
fn short_reply_list_is_malformed() {
    let x = Column::Sdk(mk_sdk(10, "SdkX"));
    let columns = vec![Column::All, x];
    let replies = vec![Ok(vec![mk_app(1)]), Ok(vec![]), Ok(vec![])];
    let r = build_matrix(&columns, &replies);
    assert_eq!(r.unwrap_err(), StoreError::MalformedRow);
}

#[test]
fn successful_build_keys_cells_in_row_major_order() {
    let x = Column::Sdk(mk_sdk(10, "SdkX"));
    let columns = vec![Column::All, x.clone()];
    let replies = vec![
        Ok(vec![mk_app(1)]),
        Ok(vec![mk_app(2)]),
        Ok(vec![mk_app(3)]),
        Ok(vec![mk_app(4)]),
    ];
    let m = build_matrix(&columns, &replies).unwrap();
    assert_eq!(m.len(), 4);
    assert_eq!(ids(m.get(&Column::All, &Column::All).unwrap()), vec![1]);
    assert_eq!(ids(m.get(&Column::All, &x).unwrap()), vec![2]);
    assert_eq!(ids(m.get(&x, &Column::All).unwrap()), vec![3]);
    assert_eq!(ids(m.get(&x, &x).unwrap()), vec![4]);
}

#[test]
fn duplicate_app_id_is_a_malformed_row() {
    let apps = vec![mk_app(1), mk_app(1)];
    let r = Catalog::from_rows(apps, Vec::new(), Vec::new());
    assert_eq!(r.unwrap_err(), StoreError::MalformedRow);
}

#[test]
fn duplicate_sdk_id_is_a_malformed_row() {
    let sdks = vec![mk_sdk(10, "SdkX"), mk_sdk(10, "SdkY")];
    let r = Catalog::from_rows(Vec::new(), sdks, Vec::new());
    assert_eq!(r.unwrap_err(), StoreError::MalformedRow);
}

#[test]
fn list_sdks_keeps_stored_order() {
    let cat = scenario_catalog();
    let sdks = cat.list_sdks();
    assert_eq!(sdks.len(), 2);
    assert_eq!(sdks[0], mk_sdk(10, "SdkX"));
    assert_eq!(sdks[1], mk_sdk(20, "SdkY"));
}

#[test]
fn total_apps_counts_the_catalog() {
    let cat = scenario_catalog();
    assert_eq!(cat.total_apps(), 3);
    let empty = Catalog::from_rows(Vec::new(), Vec::new(), Vec::new()).unwrap();
    assert_eq!(empty.total_apps(), 0);
}

#[test]
fn selector_equality_is_by_full_value() {
    let a = Column::Sdk(mk_sdk(10, "SdkX"));
    let b = Column::Sdk(mk_sdk(10, "SdkX"));
    let mut renamed = mk_sdk(10, "SdkX");
    renamed.name = String::from("Other");
    assert!(a == b);
    assert!(a != Column::Sdk(renamed));
    assert!(a != Column::All);
    assert!(Column::All == Column::All);
}
