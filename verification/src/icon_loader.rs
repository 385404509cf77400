//! Bookkeeping of icons loaded in the background: each icon (by path and
//! pixel size) is requested once until its result comes back.
use std::sync::mpsc::SyncSender;
use std::sync::{Arc, Mutex};
use vstd::prelude::*;

verus! {

/// A cached icon: the expanded file path and the physical pixel size.
#[derive(Clone, Debug, PartialEq, Eq, Hash)]
pub struct IconKey {
    pub path: String,
    pub size: i32,
}

/// Abstract value of an icon key.
pub open spec fn key_view(k: IconKey) -> (Seq<char>, i32) {
    (k.path@, k.size)
}

/// Pixel size of item icons at a DPI: 32 design pixels scaled, between 32
/// and 80.
pub fn icon_size(dpi: u32) -> (r: i32)
    ensures
        r == (if 32 * dpi / 96 < 32 {
            32
        } else if 32 * dpi / 96 > 80 {
            80
        } else {
            32 * dpi / 96
        }),
{
    let scaled = (32u64 * dpi as u64) / 96;
    if scaled < 32 {
        32
    } else if scaled > 80 {
        80
    } else {
        scaled as i32
    }
}

/// A request sent to the loading thread.
pub struct Request {
    pub key: IconKey,
}

impl Request {
    /// A request for the icon of `key`.
    pub fn new(key: IconKey) -> (r: Request)
        ensures
            r.key == key,
    {
        Request { key }
    }
}

/// An icon the loading thread finished: its key and the icon handle's
/// value (zero when loading failed).
pub struct ReadyIcon {
    pub key: IconKey,
    pub icon_value: usize,
}

impl ReadyIcon {
    /// The key and the icon handle's value.
    pub fn into_parts(self) -> (r: (IconKey, usize))
        ensures
            r.0 == self.key,
            r.1 == self.icon_value,
    {
        (self.key, self.icon_value)
    }
}

#[verifier::external_type_specification]
#[verifier::external_body]
#[verifier::reject_recursive_types(T)]
pub struct ExSyncSender<T>(SyncSender<T>);

#[verifier::external_type_specification]
#[verifier::external_body]
#[verifier::reject_recursive_types(T)]
pub struct ExMutex<T: ?Sized>(Mutex<T>);

/// Hands a request to the loading thread without waiting
/// (`SyncSender::try_send`); whether it is taken depends on the channel,
/// so nothing is promised of the result.
#[verifier::external_body]
fn try_send(sender: &SyncSender<Request>, request: Request) -> (sent: bool) {
    sender.try_send(request).is_ok()
}

/// Takes every finished icon out of the shared queue (`Mutex::lock` then
/// `std::mem::take`; nothing when the lock is poisoned). What the queue
/// holds depends on the loading thread, so nothing is promised of it.
#[verifier::external_body]
fn take_ready(ready: &Arc<Mutex<Vec<ReadyIcon>>>) -> (items: Vec<ReadyIcon>) {
    ready.lock().map(|mut queue| std::mem::take(&mut *queue)).unwrap_or_default()
}

/// Requests icons from a loading thread and remembers which are on the way.
pub struct IconLoader {
    sender: SyncSender<Request>,
    ready: Arc<Mutex<Vec<ReadyIcon>>>,
    pending: Vec<IconKey>,
}

/// Whether `keys` holds `k`.
pub open spec fn holds(keys: Seq<IconKey>, k: (Seq<char>, i32)) -> bool {
    exists|i: int| 0 <= i < keys.len() && key_view(#[trigger] keys[i]) == k
}

/// No key occurs twice.
pub open spec fn distinct(keys: Seq<IconKey>) -> bool {
    forall|i: int, j: int|
        0 <= i < j < keys.len() ==> key_view(#[trigger] keys[i]) != key_view(#[trigger] keys[j])
}

/// The keys of `pending` (in order) that no finished icon in `done` has.
pub open spec fn still_pending(pending: Seq<IconKey>, done: Seq<ReadyIcon>, n: int) -> Seq<IconKey>
    decreases n,
{
    if n <= 0 {
        seq![]
    } else if exists|j: int| 0 <= j < done.len() && key_view(#[trigger] done[j].key) == key_view(
        pending[n - 1],
    ) {
        still_pending(pending, done, n - 1)
    } else {
        still_pending(pending, done, n - 1).push(pending[n - 1])
    }
}

impl IconLoader {
    /// Keys requested and not yet finished.
    pub closed spec fn pending(self) -> Seq<IconKey> {
        self.pending@
    }

    /// A loader over a channel to a loading thread and the queue it fills.
    pub fn new(sender: SyncSender<Request>, ready: Arc<Mutex<Vec<ReadyIcon>>>) -> (r: Self)
        ensures
            r.pending().len() == 0,
    {
        IconLoader { sender, ready, pending: Vec::new() }
    }

    /// Whether an icon is on the way.
    pub fn is_pending(&self, key: &IconKey) -> (r: bool)
        ensures
            r == holds(self.pending(), key_view(*key)),
    {
        let mut i: usize = 0;
        while i < self.pending.len()
            invariant
                i <= self.pending@.len(),
                forall|j: int| 0 <= j < i ==> key_view(#[trigger] self.pending@[j]) != key_view(*key),
            decreases self.pending@.len() - i,
        {
            if self.pending[i].size == key.size && crate::text::same_text(
                self.pending[i].path.as_str(),
                key.path.as_str(),
            ) {
                assert(key_view(self.pending@[i as int]) == key_view(*key));
                return true;
            }
            i += 1;
        }
        false
    }

    /// Asks for an icon unless it is already on the way, and says whether a
    /// request went out. The request handed to the channel is one for `key`;
    /// when the channel does not take it, the icon is not marked as on the
    /// way, so a later request tries again.
    pub fn request(&mut self, key: IconKey) -> (sent: bool)
        requires
            distinct(old(self).pending()),
        ensures
            distinct(final(self).pending()),
            holds(old(self).pending(), key_view(key)) ==> !sent && final(self).pending() == old(
                self,
            ).pending(),
            !holds(old(self).pending(), key_view(key)) && sent ==> final(self).pending() == old(
                self,
            ).pending().push(key),
            !sent ==> final(self).pending() == old(self).pending(),
    {
        if self.is_pending(&key) {
            return false;
        }
        let copy = IconKey { path: key.path.clone(), size: key.size };
        let request = Request::new(copy);
        proof {
            assert(key_view(request.key) == key_view(key));
        }
        let sent = try_send(&self.sender, request);
        self.note_sent(key, sent);
        sent
    }

    /// Records the outcome of sending a request for `key`, which is not on
    /// the way yet: a sent request marks it as on the way, a refused one
    /// leaves the list as it was.
    pub fn note_sent(&mut self, key: IconKey, sent: bool)
        requires
            distinct(old(self).pending()),
            !holds(old(self).pending(), key_view(key)),
        ensures
            distinct(final(self).pending()),
            sent ==> final(self).pending() == old(self).pending().push(key),
            !sent ==> final(self).pending() == old(self).pending(),
    {
        if sent {
            self.pending.push(key);
            proof {
                assert forall|i: int, j: int|
                    0 <= i < j < self.pending@.len() implies key_view(#[trigger] self.pending@[i])
                    != key_view(#[trigger] self.pending@[j]) by {
                    if j == self.pending@.len() - 1 {
                        assert(self.pending@[i] == old(self).pending()[i]);
                    }
                }
            }
        }
    }

    /// Takes the finished icons; they are no longer on the way.
    pub fn drain(&mut self) -> (items: Vec<ReadyIcon>)
        requires
            distinct(old(self).pending()),
        ensures
            distinct(final(self).pending()),
            final(self).pending() == still_pending(
                old(self).pending(),
                items@,
                old(self).pending().len() as int,
            ),
    {
        let items = take_ready(&self.ready);
        let mut kept: Vec<IconKey> = Vec::new();
        let ghost old_pending = self.pending@;
        let mut i: usize = 0;
        while i < self.pending.len()
            invariant
                self.pending@ == old_pending,
                distinct(old_pending),
                i <= old_pending.len(),
                kept@ == still_pending(old_pending, items@, i as int),
                forall|k: int| 0 <= k < kept@.len() ==> exists|j: int| 0 <= j < i && #[trigger] kept@[k] == old_pending[j],
                distinct(kept@),
            decreases old_pending.len() - i,
        {
            let mut finished = false;
            let mut j: usize = 0;
            while j < items.len()
                invariant
                    i < old_pending.len(),
                    self.pending@ == old_pending,
                    j <= items@.len(),
                    finished == exists|m: int| 0 <= m < j && key_view(#[trigger] items@[m].key) == key_view(old_pending[i as int]),
                decreases items@.len() - j,
            {
                if items[j].key.size == self.pending[i].size && crate::text::same_text(
                    items[j].key.path.as_str(),
                    self.pending[i].path.as_str(),
                ) {
                    finished = true;
                }
                j += 1;
            }
            if !finished {
                let copy = IconKey { path: self.pending[i].path.clone(), size: self.pending[i].size };
                proof {
                    assert(key_view(copy) == key_view(old_pending[i as int]));
                }
                let ghost before = kept@;
                kept.push(copy);
                proof {
                    assert forall|a: int, b: int|
                        0 <= a < b < kept@.len() implies key_view(#[trigger] kept@[a]) != key_view(
                        #[trigger] kept@[b],
                    ) by {
                        if b == kept@.len() - 1 {
                            let ja = choose|ja: int| 0 <= ja < i && #[trigger] before[a] == old_pending[ja];
                            assert(kept@[a] == old_pending[ja]);
                        }
                    }
                    assert forall|k: int| 0 <= k < kept@.len() implies exists|jj: int| 0 <= jj < i + 1 && #[trigger] kept@[k] == old_pending[jj] by {
                        if k < before.len() {
                            let jj = choose|jj: int| 0 <= jj < i && #[trigger] before[k] == old_pending[jj];
                            assert(kept@[k] == old_pending[jj]);
                        } else {
                            assert(kept@[k] == copy);
                        }
                    }
                }
            }
            i += 1;
        }
        self.pending = kept;
        items
    }
}

} // verus!
