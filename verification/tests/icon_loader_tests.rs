use krun::icon_loader::{IconKey, IconLoader, ReadyIcon, Request};
use std::sync::mpsc::sync_channel;
use std::sync::{Arc, Mutex};

fn key(path: &str, size: i32) -> IconKey {
    IconKey {
        path: path.to_string(),
        size,
    }
}

#[test]
fn icons_are_requested_once_until_they_come_back() {
    let (sender, receiver) = sync_channel::<Request>(1);
    let ready: Arc<Mutex<Vec<ReadyIcon>>> = Arc::new(Mutex::new(Vec::new()));
    let mut loader = IconLoader::new(sender, Arc::clone(&ready));
    let a = key(r"C:\App.exe", 32);
    assert!(!loader.is_pending(&a));
    assert!(loader.request(a.clone()));
    assert!(loader.is_pending(&a));
    // Asking again sends nothing more.
    assert!(!loader.request(a.clone()));
    // The channel is full, so another icon is not marked as on the way.
    let b = key(r"C:\App.exe", 48);
    assert!(!loader.request(b.clone()));
    assert!(!loader.is_pending(&b));
    let first = receiver.try_recv().expect("one request was sent");
    assert_eq!(first.key, a);
    assert!(receiver.try_recv().is_err());

    ready.lock().unwrap().push(ReadyIcon {
        key: a.clone(),
        icon_value: 7,
    });
    let items = loader.drain();
    assert_eq!(items.len(), 1);
    let (done, value) = items.into_iter().next().unwrap().into_parts();
    assert_eq!(done, a);
    assert_eq!(value, 7);
    assert!(!loader.is_pending(&a));
    assert!(ready.lock().unwrap().is_empty());

    assert!(loader.request(b.clone()));
    assert!(loader.is_pending(&b));
    assert_eq!(receiver.try_recv().unwrap().key, b);
}

#[test]
fn a_request_names_its_key() {
    let k = key(r"C:\Tools\app.exe", 40);
    assert_eq!(Request::new(k.clone()).key, k);
}

#[test]
fn the_send_outcome_decides_what_stays_pending() {
    let (sender, _receiver) = sync_channel::<Request>(1);
    let ready: Arc<Mutex<Vec<ReadyIcon>>> = Arc::new(Mutex::new(Vec::new()));
    let mut loader = IconLoader::new(sender, ready);
    let a = key(r"C:\App.exe", 32);
    loader.note_sent(a.clone(), false);
    assert!(!loader.is_pending(&a));
    loader.note_sent(a.clone(), true);
    assert!(loader.is_pending(&a));
}
