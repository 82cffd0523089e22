//! Catalog items and sets, the feed document model, and the rules that read
//! sets and items out of feed documents.
use crate::util::Error;
use vstd::prelude::*;

verus! {

/// One catalog entry, reduced to its thumbnail image address.
#[derive(Clone, Debug, PartialEq, Eq, Hash, PartialOrd, Ord)]
pub struct Item {
    pub image_url: String,
}

/// A named collection of items: one row of the grid.
#[derive(Clone, Debug, PartialEq, Eq, Hash, PartialOrd, Ord)]
pub struct CatalogSet {
    pub title: String,
    pub items: Vec<Item>,
}

impl CatalogSet {
    /// A set called `title` with no items yet.
    pub fn new(title: String) -> (r: CatalogSet)
        ensures
            r.title == title,
            r.items@.len() == 0,
    {
        CatalogSet { title, items: Vec::new() }
    }
}

/// Every set discovered so far.
pub struct Data {
    pub sets: Vec<CatalogSet>,
}

impl Data {
    /// No sets yet.
    pub fn new() -> (r: Data)
        ensures
            r.sets@.len() == 0,
    {
        Data { sets: Vec::new() }
    }
}

/// The catalog's home document.
pub const HOME: &'static str = "https://cd-static.bamgrid.com/dp-117731241344/home.json";

/// Where the documents of referenced sets live.
pub const SETS_PREFIX: &'static str = "https://cd-static.bamgrid.com/dp-117731241344/sets/";

/// A parsed feed document. Numbers keep their literal text; an object keeps
/// its members in document order.
pub enum Json {
    Null,
    Bool(bool),
    Number(String),
    Str(String),
    Array(Vec<Json>),
    Object(Vec<(String, Json)>),
}

/// The value of the first member of `members` named `key`.
pub open spec fn member(members: Seq<(String, Json)>, key: Seq<char>) -> Option<Json>
    decreases members.len(),
{
    if members.len() == 0 {
        None
    } else if members[0].0@ == key {
        Some(members[0].1)
    } else {
        member(members.drop_first(), key)
    }
}

/// Field `key` of `doc`: absent unless `doc` is an object with such a member.
pub open spec fn field(doc: Option<Json>, key: Seq<char>) -> Option<Json> {
    match doc {
        Some(Json::Object(members)) => member(members@, key),
        _ => None,
    }
}

/// The text at `doc`, when it is a string.
pub open spec fn text_of(doc: Option<Json>) -> Option<Seq<char>> {
    match doc {
        Some(Json::Str(s)) => Some(s@),
        _ => None,
    }
}

/// `doc` is absent or null.
pub open spec fn is_null(doc: Option<Json>) -> bool {
    match doc {
        Some(Json::Null) => true,
        None => true,
        _ => false,
    }
}

/// The image address an item gives under `image.tile."1.78".<kind>.default.url`.
pub open spec fn tile_url(item: Json, kind: Seq<char>) -> Option<Seq<char>> {
    text_of(
        field(
            field(field(field(field(field(Some(item), "image"@), "tile"@), "1.78"@), kind), "default"@),
            "url"@,
        ),
    )
}

/// The image address of an item: the first of the series, program and
/// default tiles that gives one.
pub open spec fn image_url_of(item: Json) -> Option<Seq<char>> {
    if tile_url(item, "series"@) is Some {
        tile_url(item, "series"@)
    } else if tile_url(item, "program"@) is Some {
        tile_url(item, "program"@)
    } else {
        tile_url(item, "default"@)
    }
}

/// The image addresses of `items`, in order, skipping items that give none.
pub open spec fn image_urls(items: Seq<Json>) -> Seq<Seq<char>>
    decreases items.len(),
{
    if items.len() == 0 {
        Seq::empty()
    } else {
        let rest = image_urls(items.drop_last());
        match image_url_of(items.last()) {
            Some(u) => rest.push(u),
            None => rest,
        }
    }
}

/// The addresses of `items`, in order.
pub open spec fn item_urls(items: Seq<Item>) -> Seq<Seq<char>> {
    items.map_values(|item: Item| item.image_url@)
}

impl Json {
    /// Member `key` of this document, if it is an object that has one.
    pub fn get(&self, key: &str) -> (r: Option<&Json>)
        ensures
            match r {
                Some(v) => field(Some(*self), key@) == Some(*v),
                None => field(Some(*self), key@) is None,
            },
    {
        match self {
            Json::Object(members) => {
                let wanted = String::from_str(key);
                let mut i: usize = 0;
                proof {
                    assert(members@.subrange(0, members@.len() as int) =~= members@);
                }
                while i < members.len()
                    invariant
                        i <= members@.len(),
                        wanted@ == key@,
                        field(Some(*self), key@) == member(members@, key@),
                        member(members@, key@) == member(
                            members@.subrange(i as int, members@.len() as int),
                            key@,
                        ),
                    decreases members@.len() - i,
                {
                    let ghost rest = members@.subrange(i as int, members@.len() as int);
                    proof {
                        assert(rest[0] == members@[i as int]);
                    }
                    if members[i].0 == wanted {
                        return Some(&members[i].1);
                    }
                    proof {
                        assert(rest.drop_first() =~= members@.subrange(
                            i + 1,
                            members@.len() as int,
                        ));
                    }
                    i = i + 1;
                }
                None
            },
            _ => None,
        }
    }
}

/// Field `key` of `doc`, where `doc` may itself be absent.
fn field_of<'a>(doc: Option<&'a Json>, key: &str) -> (r: Option<&'a Json>)
    ensures
        match r {
            Some(v) => field(
                match doc {
                    Some(d) => Some(*d),
                    None => None,
                },
                key@,
            ) == Some(*v),
            None => field(
                match doc {
                    Some(d) => Some(*d),
                    None => None,
                },
                key@,
            ) is None,
        },
{
    match doc {
        Some(d) => d.get(key),
        None => None,
    }
}

/// The image address an item gives for tiles of `kind`.
fn tile_url_at(item: &Json, kind: &str) -> (r: Option<String>)
    ensures
        match r {
            Some(u) => tile_url(*item, kind@) == Some(u@),
            None => tile_url(*item, kind@) is None,
        },
{
    let image = item.get("image");
    let tile = field_of(image, "tile");
    let wide = field_of(tile, "1.78");
    let kinded = field_of(wide, kind);
    let default = field_of(kinded, "default");
    let url = field_of(default, "url");
    match url {
        Some(Json::Str(s)) => Some(s.clone()),
        _ => None,
    }
}

/// The image address of an item: tried under the series, program and
/// default tiles, in that order.
pub fn find_image_url(item: &Json) -> (r: Option<String>)
    ensures
        match r {
            Some(u) => image_url_of(*item) == Some(u@),
            None => image_url_of(*item) is None,
        },
{
    match tile_url_at(item, "series") {
        Some(u) => Some(u),
        None => match tile_url_at(item, "program") {
            Some(u) => Some(u),
            None => tile_url_at(item, "default"),
        },
    }
}

/// One item per element of `items` that gives an image address, in order.
pub fn parse_items(items: &Vec<Json>) -> (r: Vec<Item>)
    ensures
        item_urls(r@) == image_urls(items@),
{
    let mut out: Vec<Item> = Vec::new();
    let mut i: usize = 0;
    while i < items.len()
        invariant
            i <= items@.len(),
            item_urls(out@) == image_urls(items@.subrange(0, i as int)),
        decreases items@.len() - i,
    {
        let found = find_image_url(&items[i]);
        proof {
            let pre = items@.subrange(0, i + 1);
            assert(pre.drop_last() =~= items@.subrange(0, i as int));
            assert(pre.last() == items@[i as int]);
        }
        match found {
            Some(image_url) => {
                let ghost before = out@;
                out.push(Item { image_url });
                proof {
                    assert(item_urls(out@) =~= item_urls(before).push(out@.last().image_url@));
                }
            },
            None => {},
        }
        i = i + 1;
    }
    proof {
        assert(items@.subrange(0, i as int) =~= items@);
    }
    out
}

/// Where a set's items come from.
pub enum SetSource {
    /// The container lists the items itself.
    Inline(CatalogSet),
    /// The items are in the document of the set `ref_id`.
    Ref { title: String, ref_id: String },
}

/// The title of a container, at `set.text.title.full.set.default.content`.
pub open spec fn container_title(c: Json) -> Option<Seq<char>> {
    text_of(
        field(
            field(
                field(
                    field(field(field(field(Some(c), "set"@), "text"@), "title"@), "full"@),
                    "set"@,
                ),
                "default"@,
            ),
            "content"@,
        ),
    )
}

/// The inline items of a container, at `set.items`, when it is an array.
pub open spec fn container_items(c: Json) -> Option<Seq<Json>> {
    match field(field(Some(c), "set"@), "items"@) {
        Some(Json::Array(items)) => Some(items@),
        _ => None,
    }
}

/// The reference of a container, at `set.refId`, when it is a string.
pub open spec fn container_ref(c: Json) -> Option<Seq<char>> {
    text_of(field(field(Some(c), "set"@), "refId"@))
}

/// The message of a container that has a title but neither items nor a
/// reference.
pub const NO_REF: &'static str = "could not find refId for set";

/// The message of a set document without items.
pub const NO_ITEMS: &'static str = "could not find 'items'";

/// Reads one container of the home document. A container without a title is
/// skipped (`None`); one with inline items gives its set; one with a
/// reference gives the reference; any other is an error.
pub fn parse_container(c: &Json) -> (r: Option<Result<SetSource, Error>>)
    ensures
        container_title(*c) is None <==> r is None,
        container_title(*c) matches Some(title) ==> match r {
            Some(Ok(SetSource::Inline(set))) => {
                &&& container_items(*c) matches Some(items)
                &&& set.title@ == title
                &&& item_urls(set.items@) == image_urls(items)
            },
            Some(Ok(SetSource::Ref { title: t, ref_id })) => {
                &&& container_items(*c) is None
                &&& container_ref(*c) == Some(ref_id@)
                &&& t@ == title
            },
            Some(Err(e)) => {
                &&& container_items(*c) is None
                &&& container_ref(*c) is None
                &&& e.message@ == NO_REF@
            },
            None => false,
        },
{
    let set = c.get("set");
    let text = field_of(set, "text");
    let t = field_of(text, "title");
    let full = field_of(t, "full");
    let full_set = field_of(full, "set");
    let default = field_of(full_set, "default");
    let content = field_of(default, "content");
    let title = match content {
        Some(Json::Str(s)) => s.clone(),
        _ => {
            return None;
        },
    };
    match field_of(set, "items") {
        Some(Json::Array(items)) => {
            let parsed = CatalogSet { title, items: parse_items(items) };
            return Some(Ok(SetSource::Inline(parsed)));
        },
        _ => {},
    }
    match field_of(set, "refId") {
        Some(Json::Str(ref_id)) => Some(Ok(SetSource::Ref { title, ref_id: ref_id.clone() })),
        _ => Some(Err(Error::new(NO_REF))),
    }
}

/// The containers of the home document, at
/// `data.StandardCollection.containers`, when it is an array.
pub open spec fn home_containers(home: Json) -> Option<Seq<Json>> {
    match field(field(field(Some(home), "data"@), "StandardCollection"@), "containers"@) {
        Some(Json::Array(cs)) => Some(cs@),
        _ => None,
    }
}

/// The containers of the home document; `None` when it lists none.
pub fn containers(home: &Json) -> (r: Option<&Vec<Json>>)
    ensures
        match r {
            Some(cs) => home_containers(*home) == Some(cs@),
            None => home_containers(*home) is None,
        },
{
    let data = home.get("data");
    let collection = field_of(data, "StandardCollection");
    match field_of(collection, "containers") {
        Some(Json::Array(cs)) => Some(cs),
        _ => None,
    }
}

/// The set object of a set document: the first of `data.CuratedSet`,
/// `data.TrendingSet` and `data.PersonalizedCuratedSet` that is present and
/// not null.
pub open spec fn set_object(doc: Json) -> Option<Json> {
    let data = field(Some(doc), "data"@);
    if !is_null(field(data, "CuratedSet"@)) {
        field(data, "CuratedSet"@)
    } else if !is_null(field(data, "TrendingSet"@)) {
        field(data, "TrendingSet"@)
    } else {
        field(data, "PersonalizedCuratedSet"@)
    }
}

/// The items of a set document, at `items` of its set object, when it is an
/// array.
pub open spec fn set_items(doc: Json) -> Option<Seq<Json>> {
    match field(set_object(doc), "items"@) {
        Some(Json::Array(items)) => Some(items@),
        _ => None,
    }
}

fn is_null_at(doc: Option<&Json>) -> (r: bool)
    ensures
        r == is_null(
            match doc {
                Some(d) => Some(*d),
                None => None,
            },
        ),
{
    match doc {
        Some(Json::Null) => true,
        None => true,
        _ => false,
    }
}

/// Reads the set document of a referenced set called `title`.
pub fn parse_set_document(doc: &Json, title: String) -> (r: Result<CatalogSet, Error>)
    ensures
        set_items(*doc) is Some <==> r is Ok,
        r matches Ok(set) ==> set.title == title && item_urls(set.items@) == image_urls(
            set_items(*doc)->0,
        ),
        r matches Err(e) ==> e.message@ == NO_ITEMS@,
{
    let data = doc.get("data");
    let curated = field_of(data, "CuratedSet");
    let set = if !is_null_at(curated) {
        curated
    } else {
        let trending = field_of(data, "TrendingSet");
        if !is_null_at(trending) {
            trending
        } else {
            field_of(data, "PersonalizedCuratedSet")
        }
    };
    match field_of(set, "items") {
        Some(Json::Array(items)) => Ok(CatalogSet { title, items: parse_items(items) }),
        _ => Err(Error::new(NO_ITEMS)),
    }
}

/// The address of the document of set `ref_id`.
pub fn set_url(ref_id: &str) -> (r: String)
    ensures
        r@ == SETS_PREFIX@ + ref_id@ + ".json"@,
{
    let mut url = String::from_str(SETS_PREFIX);
    url.append(ref_id);
    url.append(".json");
    url
}

} // verus!
