use bytes::Bytes;
use catalog_browser::cache::{cache_set, Call, DownloadQueue, WorkerStep, QUEUE_CAPACITY};
use catalog_browser::data::{CatalogSet, Item};
use catalog_browser::pool::{decode_image, DecodedImage, TexturePool};
use std::io::Cursor;

fn jpeg_bytes() -> Bytes {
    let img = image::DynamicImage::ImageRgb8(image::RgbImage::new(3, 2));
    let mut buf = Cursor::new(Vec::new());
    img.write_to(&mut buf, image::ImageOutputFormat::Jpeg(90)).unwrap();
    Bytes::from(buf.into_inner())
}

fn fetch_url(step: WorkerStep) -> String {
    match step {
        WorkerStep::Fetch(url) => url,
        _ => panic!("expected a fetch"),
    }
}

fn set_of(urls: &[&str]) -> CatalogSet {
    let mut set = CatalogSet::new("s".to_string());
    for u in urls {
        set.items.push(Item { image_url: u.to_string() });
    }
    set
}

#[test]
fn open_empty_queue_waits() {
    let mut q = DownloadQueue::new(4);
    assert!(matches!(q.next_step(), WorkerStep::Wait));
    assert_eq!(q.len(), 0);
}

#[test]
fn ready_events_keep_request_order() {
    let mut q = DownloadQueue::new(QUEUE_CAPACITY);
    cache_set(&set_of(&["a.jpg", "b.jpg", "c.jpg", "d.jpg"]), &mut q);
    q.close();
    let outcomes = [true, false, true, true];
    let mut ready = Vec::new();
    for ok in outcomes {
        let url = fetch_url(q.next_step());
        let fetched = if ok { Some(Bytes::from_static(b"x")) } else { None };
        match q.finish_fetch(fetched) {
            Some(Call::ToTexture { url: u, bytes }) => {
                assert_eq!(u, url);
                assert_eq!(&bytes[..], b"x");
                ready.push(u);
            }
            Some(_) => panic!("unexpected event"),
            None => assert!(!ok),
        }
    }
    assert_eq!(ready, vec!["a.jpg", "c.jpg", "d.jpg"]);
    assert!(matches!(q.next_step(), WorkerStep::Finish(Call::TextureCachingBatchComplete)));
}

#[test]
fn overflow_is_dropped_without_blocking() {
    let mut q = DownloadQueue::new(2);
    assert!(q.enqueue("a.jpg".to_string()));
    assert!(q.enqueue("b.jpg".to_string()));
    assert!(!q.enqueue("c.jpg".to_string()));
    assert_eq!(q.len(), 2);
    q.close();
    assert!(!q.enqueue("d.jpg".to_string()));
    let mut served = Vec::new();
    loop {
        match q.next_step() {
            WorkerStep::Fetch(url) => {
                q.finish_fetch(Some(Bytes::new()));
                served.push(url);
            }
            WorkerStep::Finish(_) => break,
            WorkerStep::Wait => panic!("closed queue must not wait"),
        }
    }
    assert_eq!(served, vec!["a.jpg", "b.jpg"]);
}

#[test]
fn cache_set_keeps_only_what_fits() {
    let mut q = DownloadQueue::new(3);
    q.enqueue("first.jpg".to_string());
    cache_set(&set_of(&["a.jpg", "b.jpg", "c.jpg", "d.jpg"]), &mut q);
    assert_eq!(q.len(), 3);
    assert_eq!(fetch_url(q.next_step()), "first.jpg");
    q.finish_fetch(None);
    assert_eq!(fetch_url(q.next_step()), "a.jpg");
    q.finish_fetch(None);
    assert_eq!(fetch_url(q.next_step()), "b.jpg");
    q.finish_fetch(None);
    assert!(matches!(q.next_step(), WorkerStep::Wait));
}

#[test]
fn duplicates_are_fetched_each_time() {
    let mut q = DownloadQueue::new(8);
    cache_set(&set_of(&["a.jpg", "a.jpg"]), &mut q);
    assert_eq!(q.len(), 2);
    assert_eq!(fetch_url(q.next_step()), "a.jpg");
    q.finish_fetch(None);
    assert_eq!(fetch_url(q.next_step()), "a.jpg");
}

#[test]
fn failed_and_successful_fetch_end_to_end() {
    let valid = jpeg_bytes();
    let mut q = DownloadQueue::new(QUEUE_CAPACITY);
    cache_set(&set_of(&["a.jpg", "b.jpg"]), &mut q);
    q.close();
    let mut events = Vec::new();
    loop {
        match q.next_step() {
            WorkerStep::Fetch(url) => {
                let fetched = if url == "b.jpg" { Some(valid.clone()) } else { None };
                if let Some(e) = q.finish_fetch(fetched) {
                    events.push(e);
                }
            }
            WorkerStep::Finish(e) => {
                events.push(e);
                break;
            }
            WorkerStep::Wait => panic!("closed queue must not wait"),
        }
    }
    assert_eq!(events.len(), 2);
    assert!(matches!(&events[0], Call::ToTexture { url, bytes } if url == "b.jpg" && *bytes == valid));
    assert!(matches!(&events[1], Call::TextureCachingBatchComplete));

    let mut pool: TexturePool<DecodedImage> = TexturePool::new();
    for e in events {
        if let Call::ToTexture { url, bytes } = e {
            if let Some(img) = decode_image(&bytes) {
                pool.insert(url, img);
            }
        }
    }
    assert_eq!(pool.len(), 1);
    assert!(pool.contains(&"b.jpg".to_string()));
    assert!(!pool.contains(&"a.jpg".to_string()));
}

#[test]
fn decode_gives_rgba_pixels() {
    let img = decode_image(&jpeg_bytes()).expect("valid jpeg");
    assert_eq!(img.width, 3);
    assert_eq!(img.height, 2);
    assert_eq!(img.rgba.len(), 4 * 3 * 2);
}

#[test]
fn decode_rejects_garbage() {
    assert!(decode_image(&Bytes::from_static(b"not an image")).is_none());
    assert!(decode_image(&Bytes::new()).is_none());
}

#[test]
fn pool_inserts_overwrites_and_looks_up() {
    let mut pool: TexturePool<u32> = TexturePool::new();
    assert_eq!(pool.len(), 0);
    assert!(pool.get(&"a".to_string()).is_none());
    pool.insert("a".to_string(), 1);
    pool.insert("b".to_string(), 2);
    pool.insert("a".to_string(), 3);
    assert_eq!(pool.len(), 2);
    assert_eq!(pool.get(&"a".to_string()), Some(&3));
    assert_eq!(pool.get(&"b".to_string()), Some(&2));
    assert!(!pool.contains(&"c".to_string()));
}
