use tachimi::cache::{clear_psd_cache, get_or_cache_psd, PsdCache, MAX_PSD_CACHE_ENTRIES};
use tachimi::layered::DecodeError;
use tachimi::raster::RasterImage;

fn img(v: u8) -> RasterImage {
    RasterImage { width: 1, height: 1, data: vec![v, v, v, 255] }
}

#[test]
fn eleventh_insert_clears_first() {
    let mut cache = PsdCache::new();
    for i in 0..10u8 {
        cache.insert(&format!("f{}.psd", i), img(i));
    }
    assert_eq!(cache.len(), MAX_PSD_CACHE_ENTRIES);
    cache.insert("f10.psd", img(10));
    assert_eq!(cache.len(), 1);
    assert!(cache.get("f0.psd").is_none());
    assert_eq!(cache.get("f10.psd").unwrap().data, vec![10, 10, 10, 255]);
}

#[test]
fn reinsert_replaces() {
    let mut cache = PsdCache::new();
    cache.insert("a.psd", img(1));
    cache.insert("a.psd", img(2));
    assert_eq!(cache.len(), 1);
    assert_eq!(cache.get("a.psd").unwrap().data, vec![2, 2, 2, 255]);
    clear_psd_cache(&mut cache);
    assert_eq!(cache.len(), 0);
}

#[test]
fn cached_image_is_served_without_decoding() {
    let mut cache = PsdCache::new();
    cache.insert("a.psd", img(3));
    let r = get_or_cache_psd(&mut cache, "a.psd", b"not a layered file").unwrap();
    assert_eq!(r.data, vec![3, 3, 3, 255]);
    let e = get_or_cache_psd(&mut cache, "b.psd", b"not a layered file").unwrap_err();
    assert_eq!(e, DecodeError::BadSignature);
    assert_eq!(cache.len(), 1);
}
