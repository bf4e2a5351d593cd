use std::collections::HashMap;

use opendp::data::Data;

#[test]
fn test_map() {
    let form: HashMap<String, i32> = vec![("foo".to_owned(), 1), ("bar".to_owned(), 2)].into_iter().collect();
    let data = Data::new(form.clone());
    let retrieved: &HashMap<String, i32> = data.as_form();
    assert_eq!(&form, retrieved);
}

#[test]
fn test_vec() {
    let form = vec![1, 2, 3];
    let data = Data::new(form.clone());
    let retrieved: &Vec<i32> = data.as_form();
    assert_eq!(&form, retrieved);
}

fn nested() -> (i32, Data) {
    (99, Data::new(vec!["foo".to_owned(), "bar".to_owned(), "baz".to_owned()]))
}

#[test]
fn test_nested() {
    let form = nested();
    let data = Data::new(nested());
    let retrieved: &(i32, Data) = data.as_form();
    assert_eq!(&form, retrieved);
    let inner: &Vec<String> = retrieved.1.as_form();
    assert_eq!(inner, &vec!["foo".to_owned(), "bar".to_owned(), "baz".to_owned()]);
}

#[test]
fn test_into_form() {
    let data = Data::new(vec![true, false]);
    let v: Vec<bool> = data.into_form();
    assert_eq!(v, vec![true, false]);
}
