use catalog_browser::data::{
    containers, find_image_url, parse_container, parse_items, parse_set_document, set_url, CatalogSet,
    Data, Json, SetSource, HOME, NO_ITEMS, NO_REF,
};
use catalog_browser::util::Error;

fn s(v: &str) -> Json {
    Json::Str(v.to_string())
}

fn obj(members: Vec<(&str, Json)>) -> Json {
    Json::Object(members.into_iter().map(|(k, v)| (k.to_string(), v)).collect())
}

fn nest(path: &[&str], leaf: Json) -> Json {
    let mut v = leaf;
    for key in path.iter().rev() {
        v = obj(vec![(key, v)]);
    }
    v
}

fn item(kind: &str, url: &str) -> Json {
    nest(&["image", "tile", "1.78", kind, "default", "url"], s(url))
}

fn titled(title: &str, set_members: Vec<(&str, Json)>) -> Json {
    let mut members = set_members;
    members.push(("text", nest(&["title", "full", "set", "default", "content"], s(title))));
    obj(vec![("set", obj(members))])
}

#[test]
fn image_url_rules_in_priority_order() {
    assert_eq!(find_image_url(&item("series", "s.jpg")), Some("s.jpg".to_string()));
    assert_eq!(find_image_url(&item("program", "p.jpg")), Some("p.jpg".to_string()));
    assert_eq!(find_image_url(&item("default", "d.jpg")), Some("d.jpg".to_string()));
    assert_eq!(find_image_url(&item("other", "o.jpg")), None);
    let both = nest(
        &["image", "tile", "1.78"],
        obj(vec![
            ("default", nest(&["default", "url"], s("d.jpg"))),
            ("program", nest(&["default", "url"], s("p.jpg"))),
        ]),
    );
    assert_eq!(find_image_url(&both), Some("p.jpg".to_string()));
    let not_text = nest(&["image", "tile", "1.78", "series", "default", "url"], Json::Bool(true));
    assert_eq!(find_image_url(&not_text), None);
}

#[test]
fn parse_items_skips_items_without_image() {
    let items = vec![item("series", "a.jpg"), Json::Null, item("default", "b.jpg"), s("x")];
    let parsed = parse_items(&items);
    let urls: Vec<String> = parsed.into_iter().map(|i| i.image_url).collect();
    assert_eq!(urls, vec!["a.jpg", "b.jpg"]);
}

#[test]
fn get_finds_first_member() {
    let doc = Json::Object(vec![
        ("a".to_string(), Json::Number("1".to_string())),
        ("a".to_string(), Json::Number("2".to_string())),
    ]);
    assert!(matches!(doc.get("a"), Some(Json::Number(n)) if n == "1"));
    assert!(doc.get("b").is_none());
    assert!(Json::Array(vec![]).get("a").is_none());
}

#[test]
fn container_without_title_is_skipped() {
    let c = obj(vec![("set", obj(vec![("items", Json::Array(vec![]))]))]);
    assert!(parse_container(&c).is_none());
}

#[test]
fn container_with_inline_items() {
    let c = titled("New", vec![("items", Json::Array(vec![item("series", "a.jpg")]))]);
    match parse_container(&c) {
        Some(Ok(SetSource::Inline(set))) => {
            assert_eq!(set.title, "New");
            assert_eq!(set.items.len(), 1);
            assert_eq!(set.items[0].image_url, "a.jpg");
        }
        _ => panic!("expected an inline set"),
    }
}

#[test]
fn container_with_reference() {
    let c = titled("Trending", vec![("refId", s("abc-123"))]);
    match parse_container(&c) {
        Some(Ok(SetSource::Ref { title, ref_id })) => {
            assert_eq!(title, "Trending");
            assert_eq!(ref_id, "abc-123");
        }
        _ => panic!("expected a reference"),
    }
}

#[test]
fn container_without_items_or_reference_is_an_error() {
    let c = titled("Broken", vec![("refId", Json::Number("7".to_string()))]);
    match parse_container(&c) {
        Some(Err(e)) => assert_eq!(e.message, NO_REF),
        _ => panic!("expected an error"),
    }
}

#[test]
fn home_containers_are_found() {
    let home = nest(&["data", "StandardCollection", "containers"], Json::Array(vec![Json::Null, Json::Null]));
    assert_eq!(containers(&home).map(|c| c.len()), Some(2));
    assert!(containers(&obj(vec![("data", Json::Null)])).is_none());
}

#[test]
fn set_document_prefers_curated_set() {
    let doc = nest(
        &["data"],
        obj(vec![
            ("TrendingSet", obj(vec![("items", Json::Array(vec![item("series", "t.jpg")]))])),
            ("CuratedSet", obj(vec![("items", Json::Array(vec![item("series", "c.jpg")]))])),
        ]),
    );
    let set = parse_set_document(&doc, "T".to_string()).ok().unwrap();
    assert_eq!(set.title, "T");
    assert_eq!(set.items[0].image_url, "c.jpg");
}

#[test]
fn set_document_falls_back_past_null_sets() {
    let doc = nest(
        &["data"],
        obj(vec![
            ("CuratedSet", Json::Null),
            ("PersonalizedCuratedSet", obj(vec![("items", Json::Array(vec![item("program", "p.jpg")]))])),
        ]),
    );
    let set = parse_set_document(&doc, "P".to_string()).ok().unwrap();
    assert_eq!(set.items.len(), 1);
    assert_eq!(set.items[0].image_url, "p.jpg");
    let trending = nest(&["data", "TrendingSet", "items"], Json::Array(vec![]));
    assert_eq!(parse_set_document(&trending, "x".to_string()).ok().unwrap().items.len(), 0);
}

#[test]
fn set_document_without_items_is_an_error() {
    let doc = nest(&["data", "CuratedSet", "items"], Json::Null);
    match parse_set_document(&doc, "x".to_string()) {
        Err(e) => assert_eq!(e.message, NO_ITEMS),
        Ok(_) => panic!("expected an error"),
    }
    assert!(parse_set_document(&Json::Null, "x".to_string()).is_err());
}

#[test]
fn set_url_is_built_from_reference() {
    assert_eq!(
        set_url("abc"),
        "https://cd-static.bamgrid.com/dp-117731241344/sets/abc.json"
    );
    assert!(HOME.ends_with("home.json"));
}

#[test]
fn constructors_start_empty() {
    let set = CatalogSet::new("t".to_string());
    assert_eq!(set.title, "t");
    assert!(set.items.is_empty());
    assert!(Data::new().sets.is_empty());
    assert_eq!(Error::new("boom").message, "boom");
}
