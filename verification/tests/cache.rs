use quarkdrive_webdav::cache::Cache;
use quarkdrive_webdav::file::QuarkFile;
use quarkdrive_webdav::fill::FillAction;
use std::collections::HashMap;
use std::sync::atomic::{AtomicUsize, Ordering};
use std::sync::{Arc, Mutex};

const KEY: &str = "/我的备份/NAS/zm/Photos/MobileBackup/iPhone/2025/01";

// Nothing here reaches the network: the listings are handed to the cache directly, standing in
// for what a read from the drive would have returned.
fn test_cache() -> Cache {
    Cache::new(64, 300)
}

fn listing(names: &[&str]) -> Vec<QuarkFile> {
    names
        .iter()
        .map(|name| QuarkFile {
            file_name: name.to_string(),
            dir: false,
            file: true,
            ..QuarkFile::new_root()
        })
        .collect()
}

fn names(files: &[QuarkFile]) -> Vec<&str> {
    files.iter().map(|f| f.file_name.as_str()).collect()
}

#[test]
fn listing_read_before_an_invalidation_is_not_kept() {
    let mut cache = test_cache();
    cache.insert(KEY.to_string(), listing(&["DSCF2100.jpg"]));

    // A read of the directory starts here and takes a while to come back.
    let stamp = cache.stamp(KEY);
    // Meanwhile DSCF2101.jpg finishes uploading and invalidates the parent.
    cache.invalidate(KEY);
    // Only now does the read land, carrying the listing from before the upload.
    cache.insert_if_current(KEY.to_string(), listing(&["DSCF2100.jpg"]), stamp);

    assert!(
        cache.get(KEY).is_none(),
        "a listing read before the invalidation must not survive it: \
         caching it hides the file that was just uploaded until the next full refresh",
    );
}

#[test]
fn listing_read_after_an_invalidation_is_kept() {
    let mut cache = test_cache();
    cache.insert(KEY.to_string(), listing(&["DSCF2100.jpg"]));

    cache.invalidate(KEY);
    let stamp = cache.stamp(KEY);
    cache.insert_if_current(KEY.to_string(), listing(&["DSCF2100.jpg", "DSCF2101.jpg"]), stamp);

    let cached = cache.get(KEY).expect("a listing read after the invalidation is current");
    assert_eq!(names(&cached), vec!["DSCF2100.jpg", "DSCF2101.jpg"]);
}

#[test]
fn a_full_refresh_also_discards_in_flight_listings() {
    let mut cache = test_cache();

    // This key was never invalidated on its own, so only the epoch tells the two sides of the
    // periodic refresh apart.
    let stamp = cache.stamp(KEY);
    cache.invalidate_all();
    cache.insert_if_current(KEY.to_string(), listing(&["DSCF2100.jpg"]), stamp);

    assert!(
        cache.get(KEY).is_none(),
        "a listing read before the periodic refresh must not survive it",
    );
}

struct Shared {
    cache: Mutex<Cache>,
    locks: Mutex<HashMap<u64, Arc<tokio::sync::Mutex<()>>>>,
}

impl Shared {
    fn new() -> Arc<Shared> {
        Arc::new(Shared { cache: Mutex::new(test_cache()), locks: Mutex::new(HashMap::new()) })
    }

    fn lock_numbered(&self, n: u64) -> Arc<tokio::sync::Mutex<()>> {
        self.locks.lock().unwrap().entry(n).or_default().clone()
    }
}

// Take the fill lock, look again, and only then read, with the read replaced by a counter.
async fn fill_once(shared: &Shared, key: &str, reads: &AtomicUsize) {
    let action = shared.cache.lock().unwrap().get_or_insert(key);
    let number = match action {
        FillAction::Answer(_) => return,
        FillAction::Lock(n) => n,
        FillAction::ReadPage { .. } => panic!("a page is read only under the lock"),
    };
    let lock = shared.lock_numbered(number);
    let _fill = lock.lock().await;
    if shared.cache.lock().unwrap().get(key).is_some() {
        return;
    }
    reads.fetch_add(1, Ordering::SeqCst);
    tokio::time::sleep(std::time::Duration::from_millis(20)).await;
    shared.cache.lock().unwrap().insert(key.to_string(), listing(&["DSCF2100.jpg"]));
}

#[test]
fn concurrent_misses_on_one_directory_read_it_once() {
    let runtime = tokio::runtime::Runtime::new().unwrap();
    let shared = Shared::new();
    let reads = Arc::new(AtomicUsize::new(0));

    // Eight uploads into the same directory finishing at once.
    runtime.block_on(async {
        let mut tasks = Vec::new();
        for _ in 0..8 {
            let shared = shared.clone();
            let reads = reads.clone();
            tasks.push(tokio::spawn(async move { fill_once(&shared, KEY, &reads).await }));
        }
        for task in tasks {
            task.await.unwrap();
        }
    });

    assert_eq!(
        reads.load(Ordering::SeqCst),
        1,
        "concurrent misses on one directory must share a single read, not ask once per upload",
    );
}

// Sharing one read between callers is only safe because of the marker: a waiter must never be
// handed a listing that was read before its own upload finished.
#[test]
fn a_shared_read_older_than_the_waiter_is_not_handed_to_it() {
    let mut cache = test_cache();

    // A finishes uploading, invalidates the parent and starts reading it.
    cache.invalidate(KEY);
    let a_read = cache.stamp(KEY);

    // B finishes while A's read is still out.
    cache.invalidate(KEY);

    // A's read lands: it has A but not B.
    cache.insert_if_current(KEY.to_string(), listing(&["DSCF2100.jpg"]), a_read);

    assert!(
        cache.get(KEY).is_none(),
        "B waits behind A's read, so that read must not be left in the cache \
         for B to conclude anything from: it predates B finishing",
    );
}

#[test]
fn misses_on_different_directories_do_not_block_each_other() {
    let runtime = tokio::runtime::Runtime::new().unwrap();
    let shared = Shared::new();
    let reads = Arc::new(AtomicUsize::new(0));

    runtime.block_on(async {
        let mut tasks = Vec::new();
        for i in 0..4 {
            let shared = shared.clone();
            let reads = reads.clone();
            let key = format!("{KEY}/{i}");
            tasks.push(tokio::spawn(async move { fill_once(&shared, &key, &reads).await }));
        }
        for task in tasks {
            task.await.unwrap();
        }
    });

    assert_eq!(
        reads.load(Ordering::SeqCst),
        4,
        "separate directories must not serialise behind one another",
    );
}

#[test]
fn invalidations_of_other_directories_do_not_discard_a_listing() {
    let mut cache = test_cache();

    let stamp = cache.stamp(KEY);
    // Sibling directories churn constantly while a photo sync runs; that must not cost every
    // other directory its listing.
    cache.invalidate("/我的备份/NAS/li/Photos");
    cache.insert_if_current(KEY.to_string(), listing(&["DSCF2100.jpg"]), stamp);

    let cached = cache.get(KEY).expect("another directory's invalidation is unrelated");
    assert_eq!(names(&cached), vec!["DSCF2100.jpg"]);
}

#[test]
fn markers_count_invalidations() {
    let mut cache = test_cache();
    assert_eq!(cache.stamp("/a"), (0, 0));
    cache.invalidate("/a");
    cache.invalidate("/a");
    assert_eq!(cache.stamp("/a"), (0, 2));
    cache.invalidate_parent("/a/b");
    assert_eq!(cache.stamp("/a"), (0, 3));
    cache.invalidate_parent("/");
    cache.invalidate_all();
    assert_eq!(cache.stamp("/a"), (1, 0));
}

#[test]
fn a_listing_is_replaced_and_removed() {
    let mut cache = test_cache();
    cache.insert("/a".to_string(), listing(&["x"]));
    cache.insert("/a".to_string(), listing(&["y", "z"]));
    cache.insert("/b".to_string(), listing(&["w"]));
    assert_eq!(names(&cache.get("/a").unwrap()), vec!["y", "z"]);
    cache.invalidate("/a");
    assert!(cache.get("/a").is_none());
    assert_eq!(names(&cache.get("/b").unwrap()), vec!["w"]);
}

#[test]
fn locks_are_numbered_by_directory() {
    let mut cache = test_cache();
    assert_eq!(cache.fill_lock("/a"), 0);
    assert_eq!(cache.fill_lock("/b"), 1);
    assert_eq!(cache.fill_lock("/a"), 0);
    assert_eq!(cache.locks_made(), 2);
    cache.invalidate_all();
    // A lock that is forgotten is never numbered again.
    assert_eq!(cache.fill_lock("/a"), 2);
}

#[test]
fn a_full_refresh_drops_what_is_older() {
    let runtime = tokio::runtime::Runtime::new().unwrap();
    let mut cache = test_cache();
    cache.insert("/a".to_string(), listing(&["x"]));
    cache.insert("/b".to_string(), listing(&["y"]));
    runtime.block_on(async { tokio::time::sleep(std::time::Duration::from_millis(50)).await });
    cache.invalidate_all();
    assert!(cache.get("/a").is_none() && cache.get("/b").is_none());
    let stamp = cache.stamp("/a");
    cache.insert_if_current("/a".to_string(), listing(&["z"]), stamp);
    assert_eq!(names(&cache.get("/a").unwrap()), vec!["z"]);
}

#[test]
fn a_full_refresh_leaves_nothing_older_than_the_rest() {
    let runtime = tokio::runtime::Runtime::new().unwrap();
    let mut cache = test_cache();
    cache.insert("/a".to_string(), listing(&["x"]));
    runtime.block_on(async { tokio::time::sleep(std::time::Duration::from_millis(50)).await });
    cache.insert("/b".to_string(), listing(&["y"]));
    cache.invalidate_all();
    assert!(cache.get("/a").is_none());
    if let Some(left) = cache.get("/b") {
        assert_eq!(names(&left), vec!["y"]);
    }
    assert_eq!((cache.stamp("/a"), cache.stamp("/b")), ((1, 0), (1, 0)));
}
