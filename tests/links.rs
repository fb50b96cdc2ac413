use bsearch::links::{data_uri, icon_data_uri, web_search_url};

#[test]
fn data_uri_joins_parts() {
    assert_eq!(data_uri("image/png", "AQID"), "data:image/png;base64,AQID");
}

#[test]
fn icon_data_uri_encodes_bytes() {
    assert_eq!(icon_data_uri("png", &vec![1, 2, 3]), "data:image/png;base64,AQID");
    assert_eq!(icon_data_uri("png", &vec![1, 2]), "data:image/png;base64,AQI=");
    assert_eq!(icon_data_uri("png", &vec![1]), "data:image/png;base64,AQ==");
    assert_eq!(icon_data_uri("png", &b"Man is".to_vec()), "data:image/png;base64,TWFuIGlz");
    assert_eq!(icon_data_uri("", &vec![]), "data:application/octet-stream;base64,");
    assert_eq!(icon_data_uri("unknownext", &vec![255]), "data:application/octet-stream;base64,/w==");
}

#[test]
fn web_search_appends_query() {
    assert_eq!(web_search_url("rust"), "https://www.google.com/search?q=rust");
    assert_eq!(web_search_url(""), "https://www.google.com/search?q=");
}
