use store_locator::classify::{classify, Route};
use store_locator::model::City;

fn row(store_id: Option<u64>, store_count: Option<u64>) -> City {
    City { region: String::from("CA"), name: String::from("Fresno"), store_id, store_count }
}

#[test]
fn id_without_count_is_a_leaf() {
    match classify(&row(Some(123), None)) {
        Route::Leaf(id) => assert_eq!(id, 123),
        Route::Branch(_, _) => panic!("an id without a count names one store"),
    }
}

#[test]
fn count_without_id_is_a_branch() {
    match classify(&row(None, Some(3))) {
        Route::Branch(region, name) => {
            assert_eq!(region, "CA");
            assert_eq!(name, "Fresno");
        }
        Route::Leaf(_) => panic!("a count without an id names a city"),
    }
}

#[test]
fn id_with_count_is_a_branch() {
    assert!(matches!(classify(&row(Some(7), Some(2))), Route::Branch(_, _)));
}

#[test]
fn bare_row_is_a_branch() {
    match classify(&row(None, None)) {
        Route::Branch(region, name) => {
            assert_eq!(region, "CA");
            assert_eq!(name, "Fresno");
        }
        Route::Leaf(_) => panic!("a bare row names a city"),
    }
}
