use asahi::bitmap::Bitmap;
use asahi::cache::{cache_key, fetch_url, nominal_size, EmoteCache};
use asahi::color::Rgba;
use asahi::emote::EmoteSource;
use asahi::worker::{prefetch_emotes, store_decoded, store_fetched, FetchWorker};

fn discord(id: &str) -> EmoteSource {
    EmoteSource::Discord(id.to_string())
}

fn png_of(width: u32, height: u32, pixel: [u8; 4]) -> Vec<u8> {
    let img = image::RgbaImage::from_pixel(width, height, image::Rgba(pixel));
    let mut bytes = Vec::new();
    image::DynamicImage::ImageRgba8(img)
        .write_to(&mut std::io::Cursor::new(&mut bytes), image::ImageFormat::Png)
        .expect("png encoding");
    bytes
}

#[test]
fn keys_of_platform_emotes_are_their_ids() {
    assert_eq!(cache_key(&discord("1277044182527246358")), "1277044182527246358");
    assert_eq!(cache_key(&discord("")), "");
}

#[test]
fn keys_of_code_points_are_prefixed_decimals() {
    assert_eq!(cache_key(&EmoteSource::Unicode('😀')), "twemoji_128512");
    assert_eq!(cache_key(&EmoteSource::Unicode('\0')), "twemoji_0");
    assert_eq!(cache_key(&EmoteSource::Unicode('\u{10ffff}')), "twemoji_1114111");
    assert_eq!(cache_key(&EmoteSource::Unicode('a')), "twemoji_97");
}

#[test]
fn key_spaces_do_not_collide() {
    let platform = cache_key(&discord("128512"));
    let unicode = cache_key(&EmoteSource::Unicode('😀'));
    assert!(unicode.contains("128512"));
    assert_ne!(platform, unicode);

    let mut cache = EmoteCache::new();
    let red = Bitmap::filled(1, 1, Rgba { r: 255, g: 0, b: 0, a: 255 }).unwrap();
    let blue = Bitmap::filled(2, 2, Rgba { r: 0, g: 0, b: 255, a: 255 }).unwrap();
    cache.insert(platform, red);
    cache.insert(unicode, blue);
    assert_eq!(cache.get_source(&discord("128512")).unwrap().width(), 1);
    assert_eq!(cache.get_source(&EmoteSource::Unicode('😀')).unwrap().width(), 2);
}

#[test]
fn addresses_follow_the_two_templates() {
    assert_eq!(
        fetch_url(&discord("1277044182527246358")),
        "https://cdn.discordapp.com/emojis/1277044182527246358.webp?size=96"
    );
    assert_eq!(
        fetch_url(&EmoteSource::Unicode('💾')),
        "https://cdnjs.cloudflare.com/ajax/libs/twemoji/16.0.1/72x72/1f4be.png"
    );
    assert_eq!(
        fetch_url(&EmoteSource::Unicode('€')),
        "https://cdnjs.cloudflare.com/ajax/libs/twemoji/16.0.1/72x72/20ac.png"
    );
    assert_eq!(nominal_size(&discord("1")), 96);
    assert_eq!(nominal_size(&EmoteSource::Unicode('💾')), 72);
}

#[test]
fn cache_finds_what_was_inserted_last() {
    let mut cache = EmoteCache::new();
    assert!(cache.get(&"k".to_string()).is_none());
    cache.insert("k".to_string(), Bitmap::filled(1, 1, Rgba { r: 1, g: 2, b: 3, a: 4 }).unwrap());
    cache.insert("other".to_string(), Bitmap::filled(3, 1, Rgba { r: 0, g: 0, b: 0, a: 0 }).unwrap());
    cache.insert("k".to_string(), Bitmap::filled(2, 1, Rgba { r: 9, g: 9, b: 9, a: 9 }).unwrap());
    let found = cache.get(&"k".to_string()).unwrap();
    assert_eq!(found.width(), 2);
    assert_eq!(found.get_pixel(0, 0), Some(Rgba { r: 9, g: 9, b: 9, a: 9 }));
    assert_eq!(cache.get(&"other".to_string()).unwrap().width(), 3);
    assert!(cache.get(&"missing".to_string()).is_none());
}

#[test]
fn worker_fetches_a_source_once() {
    let mut worker = FetchWorker::new();
    assert!(!worker.has_seen(&discord("1")));
    let first = worker.request(discord("1"));
    let fetch = first.expect("the first request leads to a fetch");
    assert_eq!(fetch.source, discord("1"));
    assert_eq!(fetch.url, "https://cdn.discordapp.com/emojis/1.webp?size=96");
    assert_eq!(fetch.key, "1");
    assert!(worker.has_seen(&discord("1")));
    assert!(worker.request(discord("1")).is_none());
    assert!(worker.request(discord("1")).is_none());
    assert!(worker.request(discord("2")).is_some());
    assert!(worker.request(EmoteSource::Unicode('1')).is_some());
    assert!(worker.request(EmoteSource::Unicode('1')).is_none());
}

#[test]
fn prefetch_plans_first_arrivals_of_unseen_sources() {
    let mut worker = FetchWorker::new();
    assert!(worker.request(discord("7")).is_some());
    let fetches = prefetch_emotes(
        &mut worker,
        vec![
            discord("1"),
            discord("7"),
            EmoteSource::Unicode('💾'),
            discord("1"),
            EmoteSource::Unicode('💾'),
            discord("2"),
        ],
    );
    let sources: Vec<EmoteSource> = fetches.iter().map(|f| f.source.clone()).collect();
    assert_eq!(sources, vec![discord("1"), EmoteSource::Unicode('💾'), discord("2")]);
    assert_eq!(fetches[1].key, "twemoji_128190");
    assert_eq!(
        fetches[1].url,
        "https://cdnjs.cloudflare.com/ajax/libs/twemoji/16.0.1/72x72/1f4be.png"
    );
    assert!(prefetch_emotes(&mut worker, vec![discord("1"), discord("2")]).is_empty());
}

#[test]
fn a_fetched_image_is_cached_under_its_key() {
    let mut cache = EmoteCache::new();
    let body = png_of(3, 2, [10, 20, 30, 255]);
    assert!(store_fetched(&mut cache, "42".to_string(), &body));
    let image = cache.get(&"42".to_string()).expect("cached");
    assert_eq!((image.width(), image.height()), (3, 2));
    assert_eq!(image.get_pixel(2, 1), Some(Rgba { r: 10, g: 20, b: 30, a: 255 }));
    assert_eq!(image.as_raw().len(), 3 * 2 * 4);
}

#[test]
fn a_failed_decode_leaves_the_cache_alone() {
    let mut cache = EmoteCache::new();
    assert!(!store_fetched(&mut cache, "42".to_string(), b"not an image"));
    assert!(cache.get(&"42".to_string()).is_none());
    assert!(!store_fetched(&mut cache, "42".to_string(), &[]));
    assert!(cache.get(&"42".to_string()).is_none());
}

#[test]
fn a_decoded_image_replaces_what_the_key_had() {
    let mut cache = EmoteCache::new();
    cache.insert("1".to_string(), Bitmap::filled(1, 1, Rgba { r: 1, g: 1, b: 1, a: 1 }).unwrap());
    cache.insert("2".to_string(), Bitmap::filled(2, 2, Rgba { r: 2, g: 2, b: 2, a: 2 }).unwrap());
    let image = Bitmap::filled(5, 4, Rgba { r: 9, g: 8, b: 7, a: 6 }).unwrap();
    assert!(store_decoded(&mut cache, "1".to_string(), Some(image)));
    let found = cache.get(&"1".to_string()).unwrap();
    assert_eq!((found.width(), found.height()), (5, 4));
    assert_eq!(found.get_pixel(4, 3), Some(Rgba { r: 9, g: 8, b: 7, a: 6 }));
    assert_eq!(cache.get(&"2".to_string()).unwrap().width(), 2);
    assert!(cache.get(&"3".to_string()).is_none());
}

#[test]
fn without_an_image_the_cache_stays() {
    let mut cache = EmoteCache::new();
    cache.insert("1".to_string(), Bitmap::filled(1, 1, Rgba { r: 1, g: 1, b: 1, a: 1 }).unwrap());
    assert!(!store_decoded(&mut cache, "1".to_string(), None));
    assert!(!store_decoded(&mut cache, "2".to_string(), None));
    assert_eq!(cache.get(&"1".to_string()).unwrap().width(), 1);
    assert!(cache.get(&"2".to_string()).is_none());
}
