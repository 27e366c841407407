use slam::github::{first_pr_number, merged, status_of, unarchived};
use slam::json::{parse, Json};

fn read(text: &str) -> Json {
    parse(&text.as_bytes().to_vec()).unwrap()
}

#[test]
fn documents_are_read_as_they_are_written() {
    let d = read("{\"a\": [1, -2, 3.5, true, null, \"x\\ny\"], \"b\": {\"c\": {}}}");
    let a = d.get("a").unwrap().elements().unwrap();
    assert_eq!(a.len(), 6);
    assert!(matches!(a[0], Json::Number(Some(1))));
    assert!(matches!(a[1], Json::Number(None)));
    assert!(matches!(a[2], Json::Number(None)));
    assert!(matches!(a[3], Json::Bool(true)));
    assert!(matches!(a[4], Json::Null));
    assert!(matches!(&a[5], Json::Text(s) if s == "x\ny"));
    assert!(d.get("b").unwrap().get("c").unwrap().elements().is_none());
    assert!(d.get("none").is_none());
    assert!(d.null_at("none"));
    assert!(d.elements().is_none());
    assert_eq!(read("18446744073709551615").number_at("x"), None);
    assert_eq!(read("{\"x\": 18446744073709551615}").number_at("x"), Some(18446744073709551615));
    assert_eq!(read("{\"x\": false}").bool_at("x"), Some(false));
    assert_eq!(read("{\"x\": 1, \"x\": 2}").number_at("x"), Some(2));
}

#[test]
fn bytes_that_are_no_document_are_refused() {
    assert!(parse(&vec![]).is_err());
    assert_eq!(
        parse(&b"[1,]".to_vec()).unwrap_err(),
        "trailing comma at line 1 column 4".to_string()
    );
    assert!(parse(&vec![b'"', 0xff, b'"']).is_err());
}

#[test]
fn documents_are_understood() {
    assert_eq!(first_pr_number(&read("[{\"number\": 5}]")), 5);
    assert_eq!(first_pr_number(&read("[{}]")), 0);
    assert!(merged(&read("{\"state\": \"MERGED\"}")));
    assert!(merged(&read("{\"state\": \"OPEN\", \"mergedAt\": \"now\"}")));
    assert!(!merged(&read("{\"state\": \"OPEN\"}")));
    assert!(status_of(&read("{\"isDraft\": true}")).draft);
    assert_eq!(
        unarchived("o", &read("[{\"name\": \"a\"}, {\"name\": \"b\", \"isArchived\": true}]")),
        vec!["o/a"]
    );
}
