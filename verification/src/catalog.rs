//! Requests that change the catalog, and what makes one acceptable.

use crate::keys::{validate_work_id_value, MAX_DECISION_BYTES, MAX_KEY_BYTES};
use crate::outside;
use crate::tags;
use crate::text;
use vstd::prelude::*;

verus! {

/// The most messages of one publication.
pub const MAX_MESSAGES: usize = 40;

/// The most objects or works that one decision removes.
pub const MAX_REMOVALS: usize = 20;

/// The most characters that are kept of an error text.
pub const MAX_ERROR_CHARS: usize = 500;

/// The message about a stored publication that makes no sense.
pub const BAD_MAPPING: &'static str = "invalid telegram publication mapping";

/// The message about a stored receipt that makes no sense.
pub const CORRUPT_RECEIPT: &'static str = "corrupt prune receipt";

/// What stands for an error text that could give a credential away.
pub const REDACTED: &'static str = "[redacted]";

// ---------------------------------------------------------------------------
// Decisions
// ---------------------------------------------------------------------------

/// A text that names nothing: empty but for white space, or too long.
pub open spec fn bad_name(s: Seq<char>, max: nat) -> bool {
    text::trimmed(s).len() == 0 || text::byte_len(s) > max
}

fn is_bad_name(s: &str, max: usize) -> (r: bool)
    ensures
        r == bad_name(s@, max as nat),
{
    text::trim(s).is_empty() || text::count_bytes(s) > max
}

// ---------------------------------------------------------------------------
// Publications
// ---------------------------------------------------------------------------

/// A request to record the messages in which a work was published.
#[derive(Debug, Clone, PartialEq, Eq)]
pub struct CatalogPublicationRequest {
    pub work_id: String,
    pub chat_id: i64,
    pub message_ids: Vec<i64>,
    pub publish_state: String,
}

/// The mathematical value of a [`CatalogPublicationRequest`].
pub struct PublicationView {
    pub work_id: Seq<char>,
    pub chat_id: i64,
    pub message_ids: Seq<i64>,
    pub publish_state: Seq<char>,
}

impl View for CatalogPublicationRequest {
    type V = PublicationView;

    open spec fn view(&self) -> PublicationView {
        PublicationView {
            work_id: self.work_id@,
            chat_id: self.chat_id,
            message_ids: self.message_ids@,
            publish_state: self.publish_state@,
        }
    }
}

/// A stored publication.
#[derive(Debug, Clone, PartialEq, Eq)]
pub struct CatalogPublicationRow<T> {
    pub work_id: T,
    pub chat_id: i64,
    pub message_ids_json: T,
    pub publish_state: T,
}

impl View for CatalogPublicationRow<String> {
    type V = CatalogPublicationRow<Seq<char>>;

    open spec fn view(&self) -> CatalogPublicationRow<Seq<char>> {
        CatalogPublicationRow {
            work_id: self.work_id@,
            chat_id: self.chat_id,
            message_ids_json: self.message_ids_json@,
            publish_state: self.publish_state@,
        }
    }
}

/// Positive numbers, each of them once.
pub open spec fn distinct_positive(ids: Seq<i64>) -> bool {
    &&& forall|i: int| 0 <= i < ids.len() ==> (#[trigger] ids[i]) > 0
    &&& ids.no_duplicates()
}

/// What is wrong with the first bad number of a list of message numbers.
pub open spec fn ids_fault(ids: Seq<i64>) -> Option<Seq<char>>
    decreases ids.len(),
{
    if ids.len() == 0 {
        None
    } else {
        match ids_fault(ids.drop_last()) {
            Some(fault) => Some(fault),
            None => if ids.last() <= 0 {
                Some("invalid message id"@)
            } else if ids.drop_last().contains(ids.last()) {
                Some("duplicate message id"@)
            } else {
                None
            },
        }
    }
}

/// Nothing is wrong with a list exactly where its numbers are positive and distinct.
pub proof fn lemma_ids_fault(ids: Seq<i64>)
    ensures
        ids_fault(ids) is None <==> distinct_positive(ids),
    decreases ids.len(),
{
    if ids.len() > 0 {
        let front = ids.drop_last();
        lemma_ids_fault(front);
        assert(ids =~= front.push(ids.last()));
        if distinct_positive(ids) {
            assert forall|i: int| 0 <= i < front.len() implies (#[trigger] front[i]) > 0 by {
                assert(front[i] == ids[i]);
            }
            assert(ids[ids.len() - 1] > 0);
            if front.contains(ids.last()) {
                let k = choose|k: int| 0 <= k < front.len() && front[k] == ids.last();
                assert(ids[k] == ids[ids.len() - 1]);
            }
        }
        if distinct_positive(front) && ids.last() > 0 && !front.contains(ids.last()) {
            assert forall|i: int| 0 <= i < ids.len() implies (#[trigger] ids[i]) > 0 by {
                if i < front.len() {
                    assert(front[i] == ids[i]);
                }
            }
            assert forall|i: int, j: int|
                0 <= i < ids.len() && 0 <= j < ids.len() && i != j implies ids[i] != ids[j] by {
                if i < front.len() {
                    assert(front[i] == ids[i]);
                }
                if j < front.len() {
                    assert(front[j] == ids[j]);
                }
            }
        }
    }
}

/// Whether a list holds a number.
pub fn has_number(list: &[i64], n: i64) -> (r: bool)
    ensures
        r == list@.contains(n),
{
    let mut i: usize = 0;
    while i < list.len()
        invariant
            i <= list@.len(),
            forall|k: int| 0 <= k < i ==> list@[k] != n,
        decreases list@.len() - i,
    {
        if list[i] == n {
            assert(list@[i as int] == n);
            return true;
        }
        i += 1;
    }
    false
}

/// A fault is found as soon as a prefix has it.
proof fn lemma_ids_fault_front(ids: Seq<i64>, n: int)
    requires
        0 <= n <= ids.len(),
        ids_fault(ids.take(n)) is Some,
    ensures
        ids_fault(ids) == ids_fault(ids.take(n)),
    decreases ids.len() - n,
{
    if n < ids.len() {
        assert(ids.take(n + 1).drop_last() =~= ids.take(n));
        lemma_ids_fault_front(ids, n + 1);
    } else {
        assert(ids.take(n) =~= ids);
    }
}

fn message_ids_fault(ids: &[i64]) -> (r: Option<&'static str>)
    ensures
        text::view_of(r) == ids_fault(ids@),
{
    let mut seen: Vec<i64> = Vec::new();
    let mut i: usize = 0;
    assert(ids@.take(0) =~= seen@);
    while i < ids.len()
        invariant
            i <= ids@.len(),
            seen@ == ids@.take(i as int),
            ids_fault(ids@.take(i as int)) is None,
        decreases ids@.len() - i,
    {
        let ghost next = ids@.take(i + 1);
        assert(next.drop_last() =~= ids@.take(i as int));
        assert(next.last() == ids@[i as int]);
        if ids[i] <= 0 {
            proof {
                lemma_ids_fault_front(ids@, i + 1);
            }
            return Some("invalid message id");
        }
        if has_number(seen.as_slice(), ids[i]) {
            proof {
                lemma_ids_fault_front(ids@, i + 1);
            }
            return Some("duplicate message id");
        }
        seen.push(ids[i]);
        assert(seen@ =~= next);
        i += 1;
    }
    assert(ids@.take(ids@.len() as int) =~= ids@);
    None
}

/// Whether numbers are positive and distinct.
pub fn distinct_ids(ids: &[i64]) -> (r: bool)
    ensures
        r == distinct_positive(ids@),
{
    proof {
        lemma_ids_fault(ids@);
    }
    match message_ids_fault(ids) {
        Some(_) => false,
        None => true,
    }
}

/// What is wrong with a request to record a publication.
pub open spec fn publication_fault(request: PublicationView) -> Option<Seq<char>> {
    if !crate::keys::valid_work_id(request.work_id) {
        Some("invalid work id"@)
    } else if request.chat_id == 0 {
        Some("invalid chat id"@)
    } else if !(1 <= request.message_ids.len() <= MAX_MESSAGES) {
        Some("message ids must contain 1 to 40 entries"@)
    } else if ids_fault(request.message_ids) is Some {
        ids_fault(request.message_ids)
    } else if request.publish_state != "full"@ && request.publish_state != "partial"@ {
        Some("invalid publish state"@)
    } else {
        None
    }
}

/// Accepts a publication of a well-named work in some chat, of one to forty
/// distinct messages, that is full or partial.
pub fn validate_catalog_publication(request: &CatalogPublicationRequest) -> (r: Result<
    (),
    &'static str,
>)
    ensures
        text::fault_of(r) == publication_fault(request@),
{
    match validate_work_id_value(request.work_id.as_str()) {
        Ok(()) => {},
        Err(message) => {
            return Err(message);
        },
    }
    if request.chat_id == 0 {
        return Err("invalid chat id");
    }
    if request.message_ids.len() == 0 || request.message_ids.len() > MAX_MESSAGES {
        return Err("message ids must contain 1 to 40 entries");
    }
    match message_ids_fault(request.message_ids.as_slice()) {
        Some(message) => {
            return Err(message);
        },
        None => {},
    }
    if !text::same_text(request.publish_state.as_str(), "full") && !text::same_text(
        request.publish_state.as_str(),
        "partial",
    ) {
        return Err("invalid publish state");
    }
    Ok(())
}

/// Every accepted publication has one to forty distinct positive messages.
pub proof fn law_accepted_publication(request: PublicationView)
    requires
        publication_fault(request) is None,
    ensures
        crate::keys::valid_work_id(request.work_id),
        1 <= request.message_ids.len() <= MAX_MESSAGES,
        distinct_positive(request.message_ids),
{
    lemma_ids_fault(request.message_ids);
}

/// Whether a stored publication, whose message list reads as `ids`, is the
/// requested one.
pub open spec fn same_publication(
    stored: CatalogPublicationRow<Seq<char>>,
    ids: Option<Seq<i64>>,
    request: PublicationView,
) -> bool {
    &&& ids == Some(request.message_ids)
    &&& stored.work_id == request.work_id
    &&& stored.chat_id == request.chat_id
    &&& stored.publish_state == request.publish_state
}

/// The value of an optional list of numbers.
pub open spec fn opt_numbers(list: Option<Vec<i64>>) -> Option<Seq<i64>> {
    match list {
        Some(v) => Some(v@),
        None => None,
    }
}

/// Whether two lists of numbers are equal.
pub fn same_numbers(a: &[i64], b: &[i64]) -> (r: bool)
    ensures
        r == (a@ == b@),
{
    if a.len() != b.len() {
        return false;
    }
    let mut i: usize = 0;
    while i < a.len()
        invariant
            a@.len() == b@.len(),
            i <= a@.len(),
            forall|k: int| 0 <= k < i ==> a@[k] == b@[k],
        decreases a@.len() - i,
    {
        if a[i] != b[i] {
            assert(a@[i as int] != b@[i as int]);
            return false;
        }
        i += 1;
    }
    assert(a@ =~= b@);
    true
}

/// Whether a stored publication, whose message list reads as `ids`, is the
/// requested one.
pub fn same_publication_with(
    stored: &CatalogPublicationRow<String>,
    ids: Option<Vec<i64>>,
    request: &CatalogPublicationRequest,
) -> (r: bool)
    ensures
        r == same_publication(stored@, opt_numbers(ids), request@),
{
    match ids {
        None => false,
        Some(ids) => text::same_text(stored.work_id.as_str(), request.work_id.as_str())
            && stored.chat_id == request.chat_id && same_numbers(
            ids.as_slice(),
            request.message_ids.as_slice(),
        ) && text::same_text(stored.publish_state.as_str(), request.publish_state.as_str()),
    }
}

/// Whether a stored publication is the requested one.
pub fn same_catalog_publication(
    stored: &CatalogPublicationRow<String>,
    request: &CatalogPublicationRequest,
) -> (r: bool)
    ensures
        r == same_publication(
            stored@,
            outside::json_i64_list(stored.message_ids_json@),
            request@,
        ),
{
    let ids = outside::read_i64_list(stored.message_ids_json.as_str());
    same_publication_with(stored, ids, request)
}

// ---------------------------------------------------------------------------
// Removing images
// ---------------------------------------------------------------------------

/// A request to keep one image and remove others that look like it.
#[derive(Debug, Clone, PartialEq, Eq)]
pub struct CatalogPruneRequest {
    pub decision_id: String,
    pub keep_r2_key: String,
    pub remove_r2_keys: Vec<String>,
}

/// The mathematical value of a [`CatalogPruneRequest`].
pub struct PruneView {
    pub decision_id: Seq<char>,
    pub keep: Seq<char>,
    pub remove: Seq<Seq<char>>,
}

impl View for CatalogPruneRequest {
    type V = PruneView;

    open spec fn view(&self) -> PruneView {
        PruneView {
            decision_id: self.decision_id@,
            keep: self.keep_r2_key@,
            remove: text::texts(self.remove_r2_keys@),
        }
    }
}

/// What is wrong with the first bad key of a list of keys to remove.
pub open spec fn keys_fault(keys: Seq<Seq<char>>, keep: Seq<char>) -> Option<Seq<char>>
    decreases keys.len(),
{
    if keys.len() == 0 {
        None
    } else {
        match keys_fault(keys.drop_last(), keep) {
            Some(fault) => Some(fault),
            None => if bad_name(keys.last(), MAX_KEY_BYTES as nat) {
                Some("invalid remove key"@)
            } else if keys.last() == keep {
                Some("keep key cannot be removed"@)
            } else if keys.drop_last().contains(keys.last()) {
                Some("duplicate remove key"@)
            } else {
                None
            },
        }
    }
}

/// What is wrong with a request to remove images.
pub open spec fn prune_fault(request: PruneView) -> Option<Seq<char>> {
    if bad_name(request.decision_id, MAX_DECISION_BYTES as nat) {
        Some("invalid decision id"@)
    } else if bad_name(request.keep, MAX_KEY_BYTES as nat) {
        Some("invalid keep key"@)
    } else if !(1 <= request.remove.len() <= MAX_REMOVALS) {
        Some("remove keys must contain 1 to 20 entries"@)
    } else {
        keys_fault(request.remove, request.keep)
    }
}

proof fn lemma_keys_fault_front(keys: Seq<Seq<char>>, keep: Seq<char>, n: int)
    requires
        0 <= n <= keys.len(),
        keys_fault(keys.take(n), keep) is Some,
    ensures
        keys_fault(keys, keep) == keys_fault(keys.take(n), keep),
    decreases keys.len() - n,
{
    if n < keys.len() {
        assert(keys.take(n + 1).drop_last() =~= keys.take(n));
        lemma_keys_fault_front(keys, keep, n + 1);
    } else {
        assert(keys.take(n) =~= keys);
    }
}

/// Accepts a decision that keeps one image and removes one to twenty others.
pub fn validate_catalog_prune(request: &CatalogPruneRequest) -> (r: Result<(), &'static str>)
    ensures
        text::fault_of(r) == prune_fault(request@),
{
    if is_bad_name(request.decision_id.as_str(), MAX_DECISION_BYTES) {
        return Err("invalid decision id");
    }
    if is_bad_name(request.keep_r2_key.as_str(), MAX_KEY_BYTES) {
        return Err("invalid keep key");
    }
    if request.remove_r2_keys.len() == 0 || request.remove_r2_keys.len() > MAX_REMOVALS {
        return Err("remove keys must contain 1 to 20 entries");
    }
    let keys = &request.remove_r2_keys;
    let keep = &request.keep_r2_key;
    let ghost all = text::texts(keys@);
    let mut seen: Vec<String> = Vec::new();
    let mut i: usize = 0;
    assert(text::texts(seen@) =~= all.take(0));
    while i < keys.len()
        invariant
            i <= keys@.len(),
            all == text::texts(keys@),
            text::texts(seen@) == all.take(i as int),
            keys_fault(all.take(i as int), keep@) is None,
            prune_fault(request@) == keys_fault(all, keep@),
        decreases keys@.len() - i,
    {
        let ghost next = all.take(i + 1);
        assert(next.drop_last() =~= all.take(i as int));
        assert(next.last() == keys@[i as int]@);
        let key = keys[i].as_str();
        if is_bad_name(key, MAX_KEY_BYTES) {
            proof {
                lemma_keys_fault_front(all, keep@, i + 1);
            }
            return Err("invalid remove key");
        }
        if text::same_text(key, keep.as_str()) {
            proof {
                lemma_keys_fault_front(all, keep@, i + 1);
            }
            return Err("keep key cannot be removed");
        }
        if text::list_has(seen.as_slice(), key) {
            proof {
                lemma_keys_fault_front(all, keep@, i + 1);
            }
            return Err("duplicate remove key");
        }
        seen.push(key.to_owned());
        assert(text::texts(seen@) =~= next);
        i += 1;
    }
    assert(all.take(keys@.len() as int) =~= all);
    Ok(())
}

/// An accepted decision never removes the image it keeps, and names no image
/// twice.
pub proof fn law_accepted_prune(request: PruneView)
    requires
        prune_fault(request) is None,
    ensures
        1 <= request.remove.len() <= MAX_REMOVALS,
        !request.remove.contains(request.keep),
        request.remove.no_duplicates(),
{
    lemma_keys_fault(request.remove, request.keep);
}

proof fn lemma_keys_fault(keys: Seq<Seq<char>>, keep: Seq<char>)
    requires
        keys_fault(keys, keep) is None,
    ensures
        !keys.contains(keep),
        keys.no_duplicates(),
    decreases keys.len(),
{
    if keys.len() > 0 {
        let front = keys.drop_last();
        lemma_keys_fault(front, keep);
        lemma_distinct_push(front, keys.last());
        assert(keys =~= front.push(keys.last()));
        if keys.contains(keep) {
            let k = choose|k: int| 0 <= k < keys.len() && keys[k] == keep;
            if k < front.len() {
                assert(front[k] == keep);
            }
        }
    }
}

proof fn lemma_distinct_push<A>(front: Seq<A>, last: A)
    requires
        front.no_duplicates(),
        !front.contains(last),
    ensures
        front.push(last).no_duplicates(),
{
    let s = front.push(last);
    assert forall|i: int, j: int| 0 <= i < s.len() && 0 <= j < s.len() && i != j implies s[i]
        != s[j] by {
        if i < front.len() {
            assert(s[i] == front[i]);
        }
        if j < front.len() {
            assert(s[j] == front[j]);
        }
    }
}

// ---------------------------------------------------------------------------
// Removing works
// ---------------------------------------------------------------------------

/// A request to keep one work and remove others that look like it.
#[derive(Debug, Clone, PartialEq, Eq)]
pub struct CatalogWorkPruneRequest {
    pub decision_id: String,
    pub keep_work_id: String,
    pub remove_work_ids: Vec<String>,
}

impl View for CatalogWorkPruneRequest {
    type V = PruneView;

    open spec fn view(&self) -> PruneView {
        PruneView {
            decision_id: self.decision_id@,
            keep: self.keep_work_id@,
            remove: text::texts(self.remove_work_ids@),
        }
    }
}

/// What is wrong with the first bad entry of a list of works to remove.
pub open spec fn works_fault(works: Seq<Seq<char>>, keep: Seq<char>) -> Option<Seq<char>>
    decreases works.len(),
{
    if works.len() == 0 {
        None
    } else {
        match works_fault(works.drop_last(), keep) {
            Some(fault) => Some(fault),
            None => if !crate::keys::valid_work_id(works.last()) {
                Some("invalid work id"@)
            } else if works.last() == keep {
                Some("keep work cannot be removed"@)
            } else if works.drop_last().contains(works.last()) {
                Some("duplicate remove work id"@)
            } else {
                None
            },
        }
    }
}

/// What is wrong with a request to remove works.
pub open spec fn work_prune_fault(request: PruneView) -> Option<Seq<char>> {
    if bad_name(request.decision_id, MAX_DECISION_BYTES as nat) {
        Some("invalid decision id"@)
    } else if !crate::keys::valid_work_id(request.keep) {
        Some("invalid work id"@)
    } else if !(1 <= request.remove.len() <= MAX_REMOVALS) {
        Some("remove works must contain 1 to 20 entries"@)
    } else {
        works_fault(request.remove, request.keep)
    }
}

proof fn lemma_works_fault_front(works: Seq<Seq<char>>, keep: Seq<char>, n: int)
    requires
        0 <= n <= works.len(),
        works_fault(works.take(n), keep) is Some,
    ensures
        works_fault(works, keep) == works_fault(works.take(n), keep),
    decreases works.len() - n,
{
    if n < works.len() {
        assert(works.take(n + 1).drop_last() =~= works.take(n));
        lemma_works_fault_front(works, keep, n + 1);
    } else {
        assert(works.take(n) =~= works);
    }
}

/// Accepts a decision that keeps one work and removes one to twenty others.
pub fn validate_catalog_work_prune(request: &CatalogWorkPruneRequest) -> (r: Result<
    (),
    &'static str,
>)
    ensures
        text::fault_of(r) == work_prune_fault(request@),
{
    if is_bad_name(request.decision_id.as_str(), MAX_DECISION_BYTES) {
        return Err("invalid decision id");
    }
    match validate_work_id_value(request.keep_work_id.as_str()) {
        Ok(()) => {},
        Err(message) => {
            return Err(message);
        },
    }
    if request.remove_work_ids.len() == 0 || request.remove_work_ids.len() > MAX_REMOVALS {
        return Err("remove works must contain 1 to 20 entries");
    }
    let works = &request.remove_work_ids;
    let keep = &request.keep_work_id;
    let ghost all = text::texts(works@);
    let mut seen: Vec<String> = Vec::new();
    let mut i: usize = 0;
    assert(text::texts(seen@) =~= all.take(0));
    while i < works.len()
        invariant
            i <= works@.len(),
            all == text::texts(works@),
            text::texts(seen@) == all.take(i as int),
            works_fault(all.take(i as int), keep@) is None,
            work_prune_fault(request@) == works_fault(all, keep@),
        decreases works@.len() - i,
    {
        let ghost next = all.take(i + 1);
        assert(next.drop_last() =~= all.take(i as int));
        assert(next.last() == works@[i as int]@);
        let work = works[i].as_str();
        match validate_work_id_value(work) {
            Ok(()) => {},
            Err(message) => {
                proof {
                    lemma_works_fault_front(all, keep@, i + 1);
                }
                return Err(message);
            },
        }
        if text::same_text(work, keep.as_str()) {
            proof {
                lemma_works_fault_front(all, keep@, i + 1);
            }
            return Err("keep work cannot be removed");
        }
        if text::list_has(seen.as_slice(), work) {
            proof {
                lemma_works_fault_front(all, keep@, i + 1);
            }
            return Err("duplicate remove work id");
        }
        seen.push(work.to_owned());
        assert(text::texts(seen@) =~= next);
        i += 1;
    }
    assert(all.take(works@.len() as int) =~= all);
    Ok(())
}

proof fn lemma_works_fault(works: Seq<Seq<char>>, keep: Seq<char>)
    requires
        works_fault(works, keep) is None,
    ensures
        !works.contains(keep),
        works.no_duplicates(),
        forall|i: int| 0 <= i < works.len() ==> crate::keys::valid_work_id(#[trigger] works[i]),
    decreases works.len(),
{
    if works.len() > 0 {
        let front = works.drop_last();
        lemma_works_fault(front, keep);
        lemma_distinct_push(front, works.last());
        assert(works =~= front.push(works.last()));
        if works.contains(keep) {
            let k = choose|k: int| 0 <= k < works.len() && works[k] == keep;
            if k < front.len() {
                assert(front[k] == keep);
            }
        }
        assert forall|i: int| 0 <= i < works.len() implies crate::keys::valid_work_id(
            #[trigger] works[i],
        ) by {
            if i < front.len() {
                assert(front[i] == works[i]);
            }
        }
    }
}

/// An accepted decision never removes the work it keeps, and names no work twice.
pub proof fn law_accepted_work_prune(request: PruneView)
    requires
        work_prune_fault(request) is None,
    ensures
        1 <= request.remove.len() <= MAX_REMOVALS,
        !request.remove.contains(request.keep),
        request.remove.no_duplicates(),
        forall|i: int|
            0 <= i < request.remove.len() ==> crate::keys::valid_work_id(
                #[trigger] request.remove[i],
            ),
{
    lemma_works_fault(request.remove, request.keep);
}

// ---------------------------------------------------------------------------
// Retracting a work, and the result of removing its messages
// ---------------------------------------------------------------------------

/// A request to take a work back.
#[derive(Debug, Clone, PartialEq, Eq)]
pub struct CatalogRetractRequest {
    pub decision_id: String,
    pub work_id: String,
}

/// What is wrong with a request to take a work back.
pub open spec fn retract_fault(decision_id: Seq<char>, work_id: Seq<char>) -> Option<Seq<char>> {
    if bad_name(decision_id, MAX_DECISION_BYTES as nat) {
        Some("invalid decision id"@)
    } else {
        crate::keys::work_id_fault(work_id)
    }
}

/// Accepts a decision to take back a well-named work.
pub fn validate_catalog_retract(request: &CatalogRetractRequest) -> (r: Result<(), &'static str>)
    ensures
        text::fault_of(r) == retract_fault(request.decision_id@, request.work_id@),
{
    if is_bad_name(request.decision_id.as_str(), MAX_DECISION_BYTES) {
        return Err("invalid decision id");
    }
    validate_work_id_value(request.work_id.as_str())
}

/// The outcome of removing the messages of pruned works.
#[derive(Debug, Clone, PartialEq, Eq)]
pub struct CatalogTelegramResult {
    pub decision_id: String,
    pub complete: bool,
    pub error: Option<String>,
}

/// What is wrong with a reported outcome.
pub open spec fn result_fault(
    decision_id: Seq<char>,
    complete: bool,
    error: Option<Seq<char>>,
) -> Option<Seq<char>> {
    if bad_name(decision_id, MAX_DECISION_BYTES as nat) {
        Some("invalid decision id"@)
    } else if complete && error is Some && text::trimmed(error->0).len() > 0 {
        Some("successful result cannot include error"@)
    } else {
        None
    }
}

/// Accepts an outcome that is not a success and an error at once.
pub fn validate_telegram_result(value: &CatalogTelegramResult) -> (r: Result<(), &'static str>)
    ensures
        text::fault_of(r) == result_fault(
            value.decision_id@,
            value.complete,
            outside::opt_text(value.error),
        ),
{
    if is_bad_name(value.decision_id.as_str(), MAX_DECISION_BYTES) {
        return Err("invalid decision id");
    }
    if value.complete {
        match &value.error {
            Some(error) => {
                if !text::trim(error.as_str()).is_empty() {
                    return Err("successful result cannot include error");
                }
            },
            None => {},
        }
    }
    Ok(())
}

/// Whether a text in lower case holds what looks like a credential.
pub open spec fn looks_secret(lower: Seq<char>) -> bool {
    ||| text::has_part(lower, "bearer "@)
    ||| text::has_part(lower, "authorization:"@)
    ||| text::has_part(lower, "cookie:"@)
    ||| text::has_part(lower, "set-cookie:"@)
}

/// The characters of a text that are no control characters.
pub open spec fn visible(s: Seq<char>) -> Seq<char> {
    s.filter(|c: char| !text::control(c))
}

/// What is stored of an error text: nothing of an empty one, else its first
/// visible characters, unless they look like a credential.
pub open spec fn sanitized(raw: Option<Seq<char>>) -> Option<Seq<char>> {
    match raw {
        None => None,
        Some(raw) => {
            let cut = tags::prefix(visible(text::trimmed(raw)), MAX_ERROR_CHARS as nat);
            if cut.len() == 0 {
                None
            } else if looks_secret(text::ascii_lower(cut)) {
                Some(REDACTED@)
            } else {
                Some(cut)
            }
        },
    }
}

fn drop_control(s: &str) -> (r: String)
    ensures
        r@ == visible(s@),
{
    let chars = text::to_chars(s);
    let mut out = String::new();
    let mut i: usize = 0;
    proof {
        reveal(Seq::filter);
        assert(out@ =~= visible(s@.take(0)));
    }
    while i < chars.len()
        invariant
            chars@ == s@,
            i <= chars@.len(),
            out@ == visible(s@.take(i as int)),
        decreases chars@.len() - i,
    {
        proof {
            reveal(Seq::filter);
            assert(s@.take(i + 1).drop_last() =~= s@.take(i as int));
            assert(s@.take(i + 1).last() == s@[i as int]);
        }
        if !text::is_control(chars[i]) {
            out.push(chars[i]);
        }
        i += 1;
    }
    assert(s@.take(s@.len() as int) =~= s@);
    out
}

/// What is stored of an error text.
pub fn sanitize_telegram_error(raw: Option<&str>) -> (r: Option<String>)
    ensures
        outside::opt_text(r) == sanitized(text::view_of(raw)),
{
    match raw {
        None => None,
        Some(raw) => {
            let shown = drop_control(text::trim(raw));
            let cut = tags::first_chars(shown.as_str(), MAX_ERROR_CHARS);
            if cut.as_str().is_empty() {
                return None;
            }
            let lower = text::to_ascii_lower(cut.as_str());
            if text::contains(lower.as_str(), "bearer ") || text::contains(
                lower.as_str(),
                "authorization:",
            ) || text::contains(lower.as_str(), "cookie:") || text::contains(
                lower.as_str(),
                "set-cookie:",
            ) {
                return Some(REDACTED.to_owned());
            }
            Some(cut)
        },
    }
}

proof fn lemma_visible(s: Seq<char>)
    ensures
        forall|i: int| 0 <= i < visible(s).len() ==> !text::control(#[trigger] visible(s)[i]),
    decreases s.len(),
{
    reveal(Seq::filter);
    if s.len() > 0 {
        lemma_visible(s.drop_last());
    }
}

/// What is stored of an error text is not empty, has at most five hundred
/// characters, none of them a control character, and does not look like a
/// credential.
pub proof fn law_sanitized_error(raw: Option<Seq<char>>)
    requires
        sanitized(raw) is Some,
    ensures
        ({
            let t = sanitized(raw)->0;
            &&& 0 < t.len() <= MAX_ERROR_CHARS
            &&& forall|i: int| 0 <= i < t.len() ==> !text::control(#[trigger] t[i])
            &&& !looks_secret(text::ascii_lower(t))
        }),
{
    lemma_visible(text::trimmed(raw->0));
    reveal_strlit("[redacted]");
    let mask = text::ascii_lower(REDACTED@);
    assert(!looks_secret(mask)) by {
        reveal_strlit("bearer ");
        reveal_strlit("authorization:");
        reveal_strlit("cookie:");
        reveal_strlit("set-cookie:");
        assert forall|at: int| !text::stands_at(mask, "bearer "@, at) by {
            if text::stands_at(mask, "bearer "@, at) {
                assert(mask.subrange(at, at + 7)[0] == mask[at]);
            }
        }
        assert forall|at: int| !text::stands_at(mask, "cookie:"@, at) by {
            if text::stands_at(mask, "cookie:"@, at) {
                assert(mask.subrange(at, at + 7)[0] == mask[at]);
            }
        }
    }
}

// ---------------------------------------------------------------------------
// Receipts of removed works
// ---------------------------------------------------------------------------

/// The messages of a publication that are to be removed.
#[derive(Debug, Clone, PartialEq, Eq)]
pub struct TelegramPruneTarget {
    pub publication_id: String,
    pub work_id: String,
    pub chat_id: i64,
    pub message_ids: Vec<i64>,
}

/// The mathematical value of a [`TelegramPruneTarget`].
pub struct TargetView {
    pub publication_id: Seq<char>,
    pub work_id: Seq<char>,
    pub chat_id: i64,
    pub message_ids: Seq<i64>,
}

impl View for TelegramPruneTarget {
    type V = TargetView;

    open spec fn view(&self) -> TargetView {
        TargetView {
            publication_id: self.publication_id@,
            work_id: self.work_id@,
            chat_id: self.chat_id,
            message_ids: self.message_ids@,
        }
    }
}

/// The values of a list of targets.
pub open spec fn target_views(list: Seq<TelegramPruneTarget>) -> Seq<TargetView> {
    list.map_values(|t: TelegramPruneTarget| t@)
}

/// The value of an optional list of targets.
pub open spec fn opt_targets(list: Option<Vec<TelegramPruneTarget>>) -> Option<Seq<TargetView>> {
    match list {
        Some(v) => Some(target_views(v@)),
        None => None,
    }
}

/// The message numbers of a stored publication: one to forty, positive, distinct.
pub open spec fn good_ids(ids: Seq<i64>) -> bool {
    1 <= ids.len() <= MAX_MESSAGES && distinct_positive(ids)
}

/// The message numbers that a stored list holds, where it is a good one.
pub open spec fn mapping(ids: Option<Seq<i64>>) -> Option<Seq<i64>> {
    match ids {
        Some(ids) => if good_ids(ids) {
            Some(ids)
        } else {
            None
        },
        None => None,
    }
}

/// The numbers of a result, or nothing where it is the message about a bad mapping.
pub open spec fn mapping_of(r: Result<Vec<i64>, &'static str>) -> Option<Seq<i64>>
    recommends
        r is Err ==> r->Err_0@ == BAD_MAPPING@,
{
    match r {
        Ok(ids) => Some(ids@),
        Err(_) => None,
    }
}

/// Accepts the message numbers that a stored list reads as.
pub fn check_publication_ids(ids: Option<Vec<i64>>) -> (r: Result<Vec<i64>, &'static str>)
    ensures
        mapping_of(r) == mapping(opt_numbers(ids)),
        r is Err ==> r->Err_0@ == BAD_MAPPING@,
{
    match ids {
        None => Err(BAD_MAPPING),
        Some(ids) => {
            if ids.len() == 0 || ids.len() > MAX_MESSAGES {
                return Err(BAD_MAPPING);
            }
            if distinct_ids(ids.as_slice()) {
                Ok(ids)
            } else {
                Err(BAD_MAPPING)
            }
        },
    }
}

/// The message numbers of a stored publication.
pub fn parse_publication_message_ids(raw: &str) -> (r: Result<Vec<i64>, &'static str>)
    ensures
        mapping_of(r) == mapping(outside::json_i64_list(raw@)),
        r is Err ==> r->Err_0@ == BAD_MAPPING@,
{
    let ids = outside::read_i64_list(raw);
    check_publication_ids(ids)
}

/// A target of one of the given works that makes sense by itself.
pub open spec fn good_target(t: TargetView, works: Seq<Seq<char>>) -> bool {
    &&& text::trimmed(t.publication_id).len() > 0
    &&& t.chat_id != 0
    &&& works.contains(t.work_id)
    &&& good_ids(t.message_ids)
}

/// The publications of some targets.
pub open spec fn target_publications(targets: Seq<TargetView>) -> Seq<Seq<char>> {
    targets.map_values(|t: TargetView| t.publication_id)
}

/// The works of some targets.
pub open spec fn target_works(targets: Seq<TargetView>) -> Seq<Seq<char>> {
    targets.map_values(|t: TargetView| t.work_id)
}

/// Stored targets of the given works: good ones, of distinct publications, at
/// least one for each work.
pub open spec fn good_targets(targets: Seq<TargetView>, works: Seq<Seq<char>>) -> bool {
    &&& targets.len() > 0
    &&& forall|i: int| 0 <= i < targets.len() ==> good_target(#[trigger] targets[i], works)
    &&& target_publications(targets).no_duplicates()
    &&& forall|i: int|
        0 <= i < works.len() ==> target_works(targets).contains(#[trigger] works[i])
}

/// What is wrong with stored targets.
pub open spec fn targets_fault(targets: Seq<TargetView>, works: Seq<Seq<char>>) -> Option<
    Seq<char>,
> {
    if good_targets(targets, works) {
        None
    } else {
        Some(CORRUPT_RECEIPT@)
    }
}

fn is_good_target(t: &TelegramPruneTarget, works: &[String]) -> (r: bool)
    ensures
        r == good_target(t@, text::texts(works@)),
{
    if text::trim(t.publication_id.as_str()).is_empty() || t.chat_id == 0 || !text::list_has(
        works,
        t.work_id.as_str(),
    ) {
        return false;
    }
    match outside::write_i64_list(t.message_ids.as_slice()) {
        None => false,
        Some(encoded) => match parse_publication_message_ids(encoded.as_str()) {
            Ok(_) => true,
            Err(_) => false,
        },
    }
}

/// Accepts stored targets that cover exactly the given works.
pub fn validate_stored_telegram_targets(
    targets: &[TelegramPruneTarget],
    remove_work_ids: &[String],
) -> (r: Result<(), &'static str>)
    ensures
        text::fault_of(r) == targets_fault(
            target_views(targets@),
            text::texts(remove_work_ids@),
        ),
{
    if targets.len() == 0 {
        return Err(CORRUPT_RECEIPT);
    }
    let ghost views = target_views(targets@);
    let ghost works = text::texts(remove_work_ids@);
    let mut publications: Vec<String> = Vec::new();
    let mut covered: Vec<String> = Vec::new();
    let mut i: usize = 0;
    assert(text::texts(publications@) =~= target_publications(views).take(0));
    assert(text::texts(covered@) =~= target_works(views).take(0));
    while i < targets.len()
        invariant
            i <= targets@.len(),
            views == target_views(targets@),
            works == text::texts(remove_work_ids@),
            text::texts(publications@) == target_publications(views).take(i as int),
            text::texts(covered@) == target_works(views).take(i as int),
            target_publications(views).take(i as int).no_duplicates(),
            forall|k: int| 0 <= k < i ==> good_target(#[trigger] views[k], works),
        decreases targets@.len() - i,
    {
        let target = &targets[i];
        let ghost pubs = target_publications(views);
        assert(views[i as int] == target@);
        if !is_good_target(target, remove_work_ids) {
            return Err(CORRUPT_RECEIPT);
        }
        if text::list_has(publications.as_slice(), target.publication_id.as_str()) {
            proof {
                let front = pubs.take(i as int);
                assert(front.contains(target.publication_id@));
                let k = choose|k: int| 0 <= k < front.len() && front[k] == target.publication_id@;
                assert(pubs[k] == pubs[i as int]);
            }
            return Err(CORRUPT_RECEIPT);
        }
        let ghost before = target_works(views).take(i as int);
        publications.push(target.publication_id.clone());
        covered.push(target.work_id.clone());
        proof {
            lemma_distinct_push(pubs.take(i as int), target.publication_id@);
            assert(pubs.take(i + 1) =~= pubs.take(i as int).push(target.publication_id@));
            assert(text::texts(publications@) =~= pubs.take(i + 1));
            assert(text::texts(covered@) =~= before.push(target.work_id@));
            assert(target_works(views).take(i + 1) =~= before.push(target.work_id@));
        }
        i += 1;
    }
    assert(target_publications(views).take(i as int) =~= target_publications(views));
    assert(target_works(views).take(i as int) =~= target_works(views));
    let mut j: usize = 0;
    while j < remove_work_ids.len()
        invariant
            j <= remove_work_ids@.len(),
            views == target_views(targets@),
            works == text::texts(remove_work_ids@),
            text::texts(covered@) == target_works(views),
            forall|k: int|
                0 <= k < j ==> target_works(views).contains(#[trigger] works[k]),
        decreases remove_work_ids@.len() - j,
    {
        assert(works[j as int] == remove_work_ids@[j as int]@);
        if !text::list_has(covered.as_slice(), remove_work_ids[j].as_str()) {
            return Err(CORRUPT_RECEIPT);
        }
        j += 1;
    }
    Ok(())
}

/// A stored receipt of removed works. The targets are absent where the stored
/// ones could not be read.
#[derive(Debug, Clone, PartialEq, Eq)]
pub struct CatalogWorkPruneReceiptRow {
    pub keep_work_id: String,
    pub remove_work_ids_json: String,
    pub removed_r2_keys_json: String,
    pub telegram_targets: Option<Vec<TelegramPruneTarget>>,
}

/// The mathematical value of a [`CatalogWorkPruneReceiptRow`].
pub struct WorkReceiptView {
    pub keep: Seq<char>,
    pub works: Seq<char>,
    pub keys: Seq<char>,
    pub targets: Option<Seq<TargetView>>,
}

impl View for CatalogWorkPruneReceiptRow {
    type V = WorkReceiptView;

    open spec fn view(&self) -> WorkReceiptView {
        WorkReceiptView {
            keep: self.keep_work_id@,
            works: self.remove_work_ids_json@,
            keys: self.removed_r2_keys_json@,
            targets: opt_targets(self.telegram_targets),
        }
    }
}

/// What a receipt of removed works says.
#[derive(Debug, Clone, PartialEq, Eq)]
pub struct ParsedWorkPruneReceipt {
    pub remove_work_ids: Vec<String>,
    pub removed_r2_keys: Vec<String>,
    pub telegram_targets: Vec<TelegramPruneTarget>,
}

/// The mathematical value of a [`ParsedWorkPruneReceipt`].
pub struct ParsedView {
    pub works: Seq<Seq<char>>,
    pub keys: Seq<Seq<char>>,
    pub targets: Seq<TargetView>,
}

impl View for ParsedWorkPruneReceipt {
    type V = ParsedView;

    open spec fn view(&self) -> ParsedView {
        ParsedView {
            works: text::texts(self.remove_work_ids@),
            keys: text::texts(self.removed_r2_keys@),
            targets: target_views(self.telegram_targets@),
        }
    }
}

/// One to twenty distinct well-named works.
pub open spec fn good_works(works: Seq<Seq<char>>) -> bool {
    &&& 1 <= works.len() <= MAX_REMOVALS
    &&& works.no_duplicates()
    &&& forall|i: int| 0 <= i < works.len() ==> crate::keys::valid_work_id(#[trigger] works[i])
}

/// What a receipt says whose parts read as the given lists, where that makes
/// sense.
pub open spec fn parsed_receipt(
    works: Option<Seq<Seq<char>>>,
    keys: Option<Seq<Seq<char>>>,
    targets: Option<Seq<TargetView>>,
) -> Option<ParsedView> {
    match (works, keys, targets) {
        (Some(works), Some(keys), Some(targets)) => if good_works(works) && good_targets(
            targets,
            works,
        ) {
            Some(ParsedView { works, keys, targets })
        } else {
            None
        },
        _ => None,
    }
}

/// What a stored receipt says.
pub open spec fn receipt_says(receipt: WorkReceiptView) -> Option<ParsedView> {
    parsed_receipt(
        outside::json_string_list(receipt.works),
        outside::json_string_list(receipt.keys),
        receipt.targets,
    )
}

/// The receipt of a result, or nothing where it is the message about a corrupt one.
pub open spec fn parsed_of(r: Result<ParsedWorkPruneReceipt, &'static str>) -> Option<ParsedView>
    recommends
        r is Err ==> r->Err_0@ == CORRUPT_RECEIPT@,
{
    match r {
        Ok(p) => Some(p@),
        Err(_) => None,
    }
}

fn are_good_works(works: &[String]) -> (r: bool)
    ensures
        r == good_works(text::texts(works@)),
{
    if works.len() == 0 || works.len() > MAX_REMOVALS {
        return false;
    }
    let ghost all = text::texts(works@);
    let mut seen: Vec<String> = Vec::new();
    let mut i: usize = 0;
    assert(text::texts(seen@) =~= all.take(0));
    while i < works.len()
        invariant
            i <= works@.len(),
            all == text::texts(works@),
            text::texts(seen@) == all.take(i as int),
            all.take(i as int).no_duplicates(),
            forall|k: int| 0 <= k < i ==> crate::keys::valid_work_id(#[trigger] all[k]),
        decreases works@.len() - i,
    {
        let work = works[i].as_str();
        assert(all[i as int] == work@);
        match validate_work_id_value(work) {
            Ok(()) => {},
            Err(_) => {
                return false;
            },
        }
        if text::list_has(seen.as_slice(), work) {
            proof {
                let front = all.take(i as int);
                let k = choose|k: int| 0 <= k < front.len() && front[k] == work@;
                assert(all[k] == all[i as int]);
            }
            return false;
        }
        seen.push(work.to_owned());
        proof {
            lemma_distinct_push(all.take(i as int), work@);
            assert(all.take(i + 1) =~= all.take(i as int).push(work@));
            assert(text::texts(seen@) =~= all.take(i + 1));
        }
        i += 1;
    }
    assert(all.take(i as int) =~= all);
    true
}

/// What a receipt says whose parts read as the given lists.
pub fn check_work_prune_receipt(
    works: Option<Vec<String>>,
    keys: Option<Vec<String>>,
    targets: Option<Vec<TelegramPruneTarget>>,
) -> (r: Result<ParsedWorkPruneReceipt, &'static str>)
    ensures
        parsed_of(r) == parsed_receipt(
            outside::opt_texts(works),
            outside::opt_texts(keys),
            opt_targets(targets),
        ),
        r is Err ==> r->Err_0@ == CORRUPT_RECEIPT@,
{
    match (works, keys, targets) {
        (Some(works), Some(keys), Some(targets)) => {
            if !are_good_works(works.as_slice()) {
                return Err(CORRUPT_RECEIPT);
            }
            match validate_stored_telegram_targets(targets.as_slice(), works.as_slice()) {
                Ok(()) => Ok(
                    ParsedWorkPruneReceipt {
                        remove_work_ids: works,
                        removed_r2_keys: keys,
                        telegram_targets: targets,
                    },
                ),
                Err(message) => Err(message),
            }
        },
        _ => Err(CORRUPT_RECEIPT),
    }
}

/// A copy of a list of numbers.
pub fn copy_numbers(list: &[i64]) -> (r: Vec<i64>)
    ensures
        r@ == list@,
{
    let mut out: Vec<i64> = Vec::new();
    let mut i: usize = 0;
    while i < list.len()
        invariant
            i <= list@.len(),
            out@ == list@.take(i as int),
        decreases list@.len() - i,
    {
        out.push(list[i]);
        assert(out@ =~= list@.take(i + 1));
        i += 1;
    }
    assert(list@.take(i as int) =~= list@);
    out
}

/// A copy of a list of targets.
pub fn copy_targets(list: &[TelegramPruneTarget]) -> (r: Vec<TelegramPruneTarget>)
    ensures
        target_views(r@) == target_views(list@),
{
    let mut out: Vec<TelegramPruneTarget> = Vec::new();
    let mut i: usize = 0;
    assert(target_views(out@) =~= target_views(list@).take(0));
    while i < list.len()
        invariant
            i <= list@.len(),
            target_views(out@) == target_views(list@).take(i as int),
        decreases list@.len() - i,
    {
        let t = TelegramPruneTarget {
            publication_id: list[i].publication_id.clone(),
            work_id: list[i].work_id.clone(),
            chat_id: list[i].chat_id,
            message_ids: copy_numbers(list[i].message_ids.as_slice()),
        };
        let ghost before = target_views(out@);
        out.push(t);
        proof {
            assert(t@ == list@[i as int]@);
            assert(target_views(out@) =~= before.push(t@));
            assert(target_views(list@).take(i + 1) =~= target_views(list@).take(i as int).push(
                list@[i as int]@,
            ));
        }
        i += 1;
    }
    assert(target_views(list@).take(i as int) =~= target_views(list@));
    out
}

/// What a stored receipt says.
pub fn parse_work_prune_receipt(receipt: &CatalogWorkPruneReceiptRow) -> (r: Result<
    ParsedWorkPruneReceipt,
    &'static str,
>)
    ensures
        parsed_of(r) == receipt_says(receipt@),
        r is Err ==> r->Err_0@ == CORRUPT_RECEIPT@,
{
    let works = outside::read_string_list(receipt.remove_work_ids_json.as_str());
    let keys = outside::read_string_list(receipt.removed_r2_keys_json.as_str());
    let targets = match &receipt.telegram_targets {
        Some(list) => Some(copy_targets(list.as_slice())),
        None => None,
    };
    check_work_prune_receipt(works, keys, targets)
}

/// Whether two decisions keep the same work and remove the same works, in any
/// order.
pub open spec fn same_plan(
    keep: Seq<char>,
    remove: Seq<Seq<char>>,
    stored_keep: Seq<char>,
    stored_remove: Seq<Seq<char>>,
) -> bool {
    keep == stored_keep && remove.to_multiset() == stored_remove.to_multiset()
}

fn position_of(list: &[String], t: &str) -> (r: Option<usize>)
    ensures
        match r {
            Some(i) => i < list@.len() && list@[i as int]@ == t@,
            None => !text::texts(list@).contains(t@),
        },
{
    let mut i: usize = 0;
    while i < list.len()
        invariant
            i <= list@.len(),
            forall|k: int| 0 <= k < i ==> (#[trigger] list@[k])@ != t@,
        decreases list@.len() - i,
    {
        if text::same_text(list[i].as_str(), t) {
            return Some(i);
        }
        i += 1;
    }
    assert(forall|k: int|
        0 <= k < text::texts(list@).len() ==> text::texts(list@)[k] == list@[k]@);
    None
}

/// Whether two decisions keep the same work and remove the same works.
pub fn same_work_prune_plan(
    keep_work_id: &str,
    remove_work_ids: &[String],
    stored_keep_work_id: &str,
    stored_remove_work_ids: &[String],
) -> (r: bool)
    ensures
        r == same_plan(
            keep_work_id@,
            text::texts(remove_work_ids@),
            stored_keep_work_id@,
            text::texts(stored_remove_work_ids@),
        ),
{
    if !text::same_text(keep_work_id, stored_keep_work_id) {
        return false;
    }
    let ghost left = text::texts(remove_work_ids@);
    let ghost right = text::texts(stored_remove_work_ids@);
    let mut rest = text::copy_texts(stored_remove_work_ids);
    let mut i: usize = 0;
    proof {
        assert(left.take(0) =~= Seq::<Seq<char>>::empty());
        left.take(0).to_multiset_ensures();
        assert(left.take(0).to_multiset().len() == 0);
        assert(left.take(0).to_multiset().add(text::texts(rest@).to_multiset())
            =~= right.to_multiset());
    }
    while i < remove_work_ids.len()
        invariant
            i <= remove_work_ids@.len(),
            left == text::texts(remove_work_ids@),
            keep_work_id@ == stored_keep_work_id@,
            right == text::texts(stored_remove_work_ids@),
            left.take(i as int).to_multiset().add(text::texts(rest@).to_multiset())
                == right.to_multiset(),
        decreases remove_work_ids@.len() - i,
    {
        let ghost done = left.take(i as int);
        let ghost others = text::texts(rest@);
        let ghost item = remove_work_ids@[i as int]@;
        proof {
            assert(left.take(i + 1) =~= done.push(item));
            done.to_multiset_ensures();
            others.to_multiset_ensures();
        }
        match position_of(rest.as_slice(), remove_work_ids[i].as_str()) {
            Some(at) => {
                let _ = rest.remove(at);
                proof {
                    assert(text::texts(rest@) =~= others.remove(at as int));
                    assert(others[at as int] == item);
                    assert(done.push(item).to_multiset() =~= done.to_multiset().insert(item));
                    assert(others.remove(at as int).to_multiset() =~= others.to_multiset().remove(
                        item,
                    ));
                    assert(others.to_multiset().count(item) > 0) by {
                        assert(others.contains(item));
                    }
                    assert(left.take(i + 1).to_multiset().add(text::texts(rest@).to_multiset())
                        =~= done.to_multiset().add(others.to_multiset()));
                }
            },
            None => {
                proof {
                    lemma_prefix_counts(left, i + 1, item);
                    assert(done.push(item).to_multiset() =~= done.to_multiset().insert(item));
                    assert(others.to_multiset().count(item) == 0);
                    assert(right.to_multiset().count(item) == done.to_multiset().count(item));
                    assert(left.to_multiset().count(item) > right.to_multiset().count(item));
                }
                return false;
            },
        }
        i += 1;
    }
    let r = rest.len() == 0;
    proof {
        let others = text::texts(rest@);
        assert(left.take(i as int) =~= left);
        others.to_multiset_ensures();
        left.to_multiset_ensures();
        right.to_multiset_ensures();
        if r {
            assert(others.to_multiset().len() == 0);
            assert(left.to_multiset().add(others.to_multiset()) =~= left.to_multiset());
        } else {
            assert(left.to_multiset().add(others.to_multiset()).len() == left.len() + others.len());
            if left.to_multiset() == right.to_multiset() {
                assert(false);
            }
        }
    }
    r
}

proof fn lemma_prefix_counts<A>(s: Seq<A>, n: int, x: A)
    requires
        0 <= n <= s.len(),
    ensures
        s.take(n).to_multiset().count(x) <= s.to_multiset().count(x),
    decreases s.len() - n,
{
    if n < s.len() {
        lemma_prefix_counts(s, n + 1, x);
        assert(s.take(n + 1) =~= s.take(n).push(s[n]));
        s.take(n).to_multiset_ensures();
        assert(s.take(n).push(s[n]).to_multiset() =~= s.take(n).to_multiset().insert(s[n]));
    } else {
        assert(s.take(n) =~= s);
    }
}

// ---------------------------------------------------------------------------
// What is accepted, and why the rest is not
// ---------------------------------------------------------------------------

/// A name is one that says something and is short enough.
pub proof fn law_good_names(s: Seq<char>, max: nat)
    ensures
        bad_name(s, max) <==> (text::trimmed(s).len() == 0 || vstd::utf8::encode_utf8(s).len() > max),
{
}

proof fn lemma_ids_accepted(ids: Seq<i64>)
    ensures
        ids_fault(ids) is None <==> ids.no_duplicates() && forall|k: int|
            0 <= k < ids.len() ==> (#[trigger] ids[k]) > 0,
{
    lemma_ids_fault(ids);
}

proof fn lemma_keys_accepted(keys: Seq<Seq<char>>, keep: Seq<char>)
    ensures
        keys_fault(keys, keep) is None <==> keys.no_duplicates() && forall|k: int|
            0 <= k < keys.len() ==> (#[trigger] keys[k]) != keep && !bad_name(keys[k], 1024),
    decreases keys.len(),
{
    if keys.len() > 0 {
        let front = keys.drop_last();
        lemma_keys_accepted(front, keep);
        assert forall|k: int| 0 <= k < front.len() implies #[trigger] front[k] == keys[k] by {}
        if keys_fault(keys, keep) is None {
            lemma_keys_fault(keys, keep);
            assert forall|k: int| 0 <= k < keys.len() implies (#[trigger] keys[k]) != keep
                && !bad_name(keys[k], 1024) by {
                if k < front.len() {
                    assert(front[k] == keys[k]);
                }
            }
        } else if keys.no_duplicates() && forall|k: int|
            0 <= k < keys.len() ==> (#[trigger] keys[k]) != keep && !bad_name(keys[k], 1024) {
            assert forall|k: int| 0 <= k < front.len() implies (#[trigger] front[k]) != keep
                && !bad_name(front[k], 1024) by {
                assert(front[k] == keys[k]);
            }
            lemma_distinct_front(keys);
            assert(keys[keys.len() - 1] == keys.last());
        }
    }
}

proof fn lemma_works_accepted(works: Seq<Seq<char>>, keep: Seq<char>)
    ensures
        works_fault(works, keep) is None <==> works.no_duplicates() && forall|k: int|
            0 <= k < works.len() ==> (#[trigger] works[k]) != keep && crate::keys::valid_work_id(
                works[k],
            ),
    decreases works.len(),
{
    if works.len() > 0 {
        let front = works.drop_last();
        lemma_works_accepted(front, keep);
        assert forall|k: int| 0 <= k < front.len() implies #[trigger] front[k] == works[k] by {}
        if works_fault(works, keep) is None {
            lemma_works_fault(works, keep);
            assert forall|k: int| 0 <= k < works.len() implies (#[trigger] works[k]) != keep by {
                assert(works.contains(works[k]));
            }
        } else if works.no_duplicates() && forall|k: int|
            0 <= k < works.len() ==> (#[trigger] works[k]) != keep && crate::keys::valid_work_id(
                works[k],
            ) {
            assert forall|k: int| 0 <= k < front.len() implies (#[trigger] front[k]) != keep
                && crate::keys::valid_work_id(front[k]) by {
                assert(front[k] == works[k]);
            }
            lemma_distinct_front(works);
            assert(works[works.len() - 1] == works.last());
        }
    }
}

proof fn lemma_distinct_front<A>(list: Seq<A>)
    requires
        list.len() > 0,
        list.no_duplicates(),
    ensures
        list.drop_last().no_duplicates(),
        !list.drop_last().contains(list.last()),
{
    let front = list.drop_last();
    assert forall|i: int, j: int| 0 <= i < front.len() && 0 <= j < front.len() && i != j implies front[i]
        != front[j] by {
        assert(list[i] != list[j]);
    }
    if front.contains(list.last()) {
        let k = choose|k: int| 0 <= k < front.len() && front[k] == list.last();
        assert(list[k] == list[list.len() - 1]);
    }
}

/// Message numbers are accepted where they are positive and distinct; else the
/// first one that is not says why.
pub proof fn law_message_list(ids: Seq<i64>, i: int)
    requires
        0 <= i < ids.len(),
    ensures
        ids_fault(ids) is None <==> ids.no_duplicates() && forall|k: int|
            0 <= k < ids.len() ==> (#[trigger] ids[k]) > 0,
        ids_fault(ids.take(i)) is None && ids[i] <= 0 ==> ids_fault(ids) == Some(
            "invalid message id"@,
        ),
        ids_fault(ids.take(i)) is None && ids[i] > 0 && ids.take(i).contains(ids[i]) ==> ids_fault(ids) == Some(
            "duplicate message id"@,
        ),
{
    lemma_ids_accepted(ids);
    if ids_fault(ids.take(i)) is None {
        assert(ids.take(i + 1).drop_last() =~= ids.take(i));
        assert(ids.take(i + 1).last() == ids[i]);
        if ids_fault(ids.take(i + 1)) is Some {
            lemma_ids_fault_front(ids, i + 1);
        }
    }
}

/// Keys to remove are accepted where they are good names, distinct, and not the
/// key to keep; else the first one that is not says why.
pub proof fn law_key_list(keys: Seq<Seq<char>>, keep: Seq<char>, i: int)
    requires
        0 <= i < keys.len(),
    ensures
        keys_fault(keys, keep) is None <==> keys.no_duplicates() && forall|k: int|
            0 <= k < keys.len() ==> (#[trigger] keys[k]) != keep && !bad_name(keys[k], 1024),
        keys_fault(keys.take(i), keep) is None && bad_name(keys[i], 1024) ==> keys_fault(keys, keep) == Some(
            "invalid remove key"@,
        ),
        keys_fault(keys.take(i), keep) is None && !bad_name(keys[i], 1024) && keys[i] == keep ==> keys_fault(keys, keep) == Some(
            "keep key cannot be removed"@,
        ),
        keys_fault(keys.take(i), keep) is None && !bad_name(keys[i], 1024) && keys[i] != keep && keys.take(i).contains(keys[i]) ==> keys_fault(keys, keep) == Some(
            "duplicate remove key"@,
        ),
{
    lemma_keys_accepted(keys, keep);
    if keys_fault(keys.take(i), keep) is None {
        assert(keys.take(i + 1).drop_last() =~= keys.take(i));
        assert(keys.take(i + 1).last() == keys[i]);
        if keys_fault(keys.take(i + 1), keep) is Some {
            lemma_keys_fault_front(keys, keep, i + 1);
        }
    }
}

/// Works to remove are accepted where they are works, distinct, and not the work
/// to keep; else the first one that is not says why.
pub proof fn law_work_list(works: Seq<Seq<char>>, keep: Seq<char>, i: int)
    requires
        0 <= i < works.len(),
    ensures
        works_fault(works, keep) is None <==> works.no_duplicates() && forall|k: int|
            0 <= k < works.len() ==> (#[trigger] works[k]) != keep && crate::keys::valid_work_id(
                works[k],
            ),
        works_fault(works.take(i), keep) is None && !crate::keys::valid_work_id(works[i]) ==> works_fault(works, keep) == Some(
            "invalid work id"@,
        ),
        works_fault(works.take(i), keep) is None && crate::keys::valid_work_id(works[i]) && works[i] == keep ==> works_fault(works, keep) == Some(
            "keep work cannot be removed"@,
        ),
        works_fault(works.take(i), keep) is None && crate::keys::valid_work_id(works[i]) && works[i] != keep && works.take(i).contains(works[i]) ==> works_fault(works, keep) == Some(
            "duplicate remove work id"@,
        ),
{
    lemma_works_accepted(works, keep);
    if works_fault(works.take(i), keep) is None {
        assert(works.take(i + 1).drop_last() =~= works.take(i));
        assert(works.take(i + 1).last() == works[i]);
        if works_fault(works.take(i + 1), keep) is Some {
            lemma_works_fault_front(works, keep, i + 1);
        }
    }
}

/// Which publications are accepted, and why the others are not: the work, the
/// chat, the number of messages, the messages and the state are looked at in this
/// order.
pub proof fn law_publication_requests(request: PublicationView)
    ensures
        ({
            let n = request.message_ids.len();
            let fault = publication_fault(request);
            let work = crate::keys::valid_work_id(request.work_id);
            let chat = request.chat_id != 0;
            let ids = request.message_ids.no_duplicates() && forall|k: int|
                0 <= k < n ==> (#[trigger] request.message_ids[k]) > 0;
            let state = request.publish_state == "full"@ || request.publish_state == "partial"@;
            &&& fault is None <==> work && chat && 1 <= n <= 40 && ids && state
            &&& !work ==> fault == Some("invalid work id"@)
            &&& work && !chat ==> fault == Some("invalid chat id"@)
            &&& work && chat && !(1 <= n <= 40) ==> fault == Some(
                "message ids must contain 1 to 40 entries"@,
            )
            &&& work && chat && 1 <= n <= 40 && !ids ==> fault == ids_fault(request.message_ids)
            &&& work && chat && 1 <= n <= 40 && ids && !state ==> fault == Some(
                "invalid publish state"@,
            )
        }),
{
    lemma_ids_accepted(request.message_ids);
}

/// Which decisions to remove images are accepted, and why the others are not.
pub proof fn law_prune_requests(request: PruneView)
    ensures
        ({
            let n = request.remove.len();
            let fault = prune_fault(request);
            let named = !bad_name(request.decision_id, 160);
            let kept = !bad_name(request.keep, 1024);
            let keys = request.remove.no_duplicates() && forall|k: int|
                0 <= k < n ==> (#[trigger] request.remove[k]) != request.keep && !bad_name(
                    request.remove[k],
                    1024,
                );
            &&& fault is None <==> named && kept && 1 <= n <= 20 && keys
            &&& !named ==> fault == Some("invalid decision id"@)
            &&& named && !kept ==> fault == Some("invalid keep key"@)
            &&& named && kept && !(1 <= n <= 20) ==> fault == Some(
                "remove keys must contain 1 to 20 entries"@,
            )
            &&& named && kept && 1 <= n <= 20 && !keys ==> fault == keys_fault(
                request.remove,
                request.keep,
            )
        }),
{
    lemma_keys_accepted(request.remove, request.keep);
}

/// Which decisions to remove works are accepted, and why the others are not.
pub proof fn law_work_prune_requests(request: PruneView)
    ensures
        ({
            let n = request.remove.len();
            let fault = work_prune_fault(request);
            let named = !bad_name(request.decision_id, 160);
            let kept = crate::keys::valid_work_id(request.keep);
            let works = request.remove.no_duplicates() && forall|k: int|
                0 <= k < n ==> (#[trigger] request.remove[k]) != request.keep
                    && crate::keys::valid_work_id(request.remove[k]);
            &&& fault is None <==> named && kept && 1 <= n <= 20 && works
            &&& !named ==> fault == Some("invalid decision id"@)
            &&& named && !kept ==> fault == Some("invalid work id"@)
            &&& named && kept && !(1 <= n <= 20) ==> fault == Some(
                "remove works must contain 1 to 20 entries"@,
            )
            &&& named && kept && 1 <= n <= 20 && !works ==> fault == works_fault(
                request.remove,
                request.keep,
            )
        }),
{
    lemma_works_accepted(request.remove, request.keep);
}

/// Which requests to take a work back, and which reports, are accepted: a success
/// is one without an error text.
pub proof fn law_other_requests(
    decision_id: Seq<char>,
    work_id: Seq<char>,
    complete: bool,
    error: Option<Seq<char>>,
)
    ensures
        ({
            let named = !bad_name(decision_id, 160);
            let work = crate::keys::valid_work_id(work_id);
            let excused = error is Some && text::trimmed(error->0).len() > 0;
            &&& retract_fault(decision_id, work_id) is None <==> named && work
            &&& !named ==> retract_fault(decision_id, work_id) == Some("invalid decision id"@)
            &&& named && !work ==> retract_fault(decision_id, work_id) == Some("invalid work id"@)
            &&& result_fault(decision_id, complete, error) is None <==> named && !(complete
                && excused)
            &&& !named ==> result_fault(decision_id, complete, error) == Some(
                "invalid decision id"@,
            )
            &&& named && complete && excused ==> result_fault(decision_id, complete, error) == Some(
                "successful result cannot include error"@,
            )
        }),
{
}

/// What is stored of an error: its visible characters, without the white space
/// around it, up to five hundred of them; nothing where none are left; and a mask
/// where they hold one of the words that come with a credential, in any case.
pub proof fn law_what_is_stored_of_an_error(raw: Seq<char>)
    ensures
        sanitized(None) is None,
        ({
            let shown = text::trimmed(raw).filter(|c: char| !text::control(c));
            let cut = if shown.len() <= 500 {
                shown
            } else {
                shown.take(500)
            };
            let lower = text::ascii_lower(cut);
            let secret = text::has_part(lower, "bearer "@) || text::has_part(
                lower,
                "authorization:"@,
            ) || text::has_part(lower, "cookie:"@) || text::has_part(lower, "set-cookie:"@);
            &&& cut.len() == 0 ==> sanitized(Some(raw)) is None
            &&& cut.len() > 0 && secret ==> sanitized(Some(raw)) == Some("[redacted]"@)
            &&& cut.len() > 0 && !secret ==> sanitized(Some(raw)) == Some(cut)
        }),
{
    assert(visible(text::trimmed(raw)) =~= text::trimmed(raw).filter(|c: char| !text::control(c)));
}

/// A stored publication is the requested one exactly where nothing differs: the
/// work, the chat, the messages in their order and the state.
pub proof fn law_same_publication(
    stored: CatalogPublicationRow<Seq<char>>,
    ids: Option<Seq<i64>>,
    request: PublicationView,
)
    ensures
        same_publication(stored, ids, request) <==> ids is Some && request == (PublicationView {
            work_id: stored.work_id,
            chat_id: stored.chat_id,
            message_ids: ids->0,
            publish_state: stored.publish_state,
        }),
{
}

/// Two decisions are the same plan exactly where they keep the same work and
/// remove the same works as often; their order does not matter.
pub proof fn law_same_plan(
    keep: Seq<char>,
    remove: Seq<Seq<char>>,
    stored_keep: Seq<char>,
    stored_remove: Seq<Seq<char>>,
    i: int,
    j: int,
)
    ensures
        same_plan(keep, remove, stored_keep, stored_remove) ==> keep == stored_keep && remove.len()
            == stored_remove.len() && forall|w: Seq<char>|
            remove.contains(w) <==> #[trigger] stored_remove.contains(w),
        same_plan(keep, remove, keep, remove),
        keep != stored_keep ==> !same_plan(keep, remove, stored_keep, stored_remove),
        0 <= i < remove.len() && 0 <= j < remove.len() ==> same_plan(
            keep,
            remove,
            keep,
            remove.update(i, remove[j]).update(j, remove[i]),
        ),
{
    remove.to_multiset_ensures();
    stored_remove.to_multiset_ensures();
    if same_plan(keep, remove, stored_keep, stored_remove) {
        assert forall|w: Seq<char>| remove.contains(w) <==> #[trigger] stored_remove.contains(w) by {
            assert(remove.contains(w) <==> remove.to_multiset().count(w) > 0);
            assert(stored_remove.contains(w) <==> stored_remove.to_multiset().count(w) > 0);
        }
    }
    if 0 <= i < remove.len() && 0 <= j < remove.len() {
        let a = remove.update(i, remove[j]);
        let b = a.update(j, remove[i]);
        vstd::seq_lib::to_multiset_update(remove, i, remove[j]);
        vstd::seq_lib::to_multiset_update(a, j, remove[i]);
        assert(b.to_multiset() =~= remove.to_multiset());
    }
}

/// A target of one of some works, with one to forty distinct positive messages in
/// a chat.
pub open spec fn target_makes_sense(t: TargetView, works: Seq<Seq<char>>) -> bool {
    &&& text::trimmed(t.publication_id).len() > 0
    &&& t.chat_id != 0
    &&& works.contains(t.work_id)
    &&& 1 <= t.message_ids.len() <= 40
    &&& t.message_ids.no_duplicates()
    &&& forall|k: int| 0 <= k < t.message_ids.len() ==> (#[trigger] t.message_ids[k]) > 0
}

/// Whether one of some targets is of a work.
pub open spec fn has_target(targets: Seq<TargetView>, work_id: Seq<char>) -> bool {
    exists|i: int| 0 <= i < targets.len() && (#[trigger] targets[i]).work_id == work_id
}

/// Which stored targets are good: there are some, each names a publication, a
/// chat and one of the works, with one to forty distinct positive messages; no
/// publication comes twice, and every work has one.
pub proof fn law_good_targets(targets: Seq<TargetView>, works: Seq<Seq<char>>)
    ensures
        good_targets(targets, works) <==> {
            &&& targets.len() > 0
            &&& forall|i: int|
                0 <= i < targets.len() ==> target_makes_sense(#[trigger] targets[i], works)
            &&& forall|i: int, j: int|
                0 <= i < j < targets.len() ==> (#[trigger] targets[i]).publication_id != (
                #[trigger] targets[j]).publication_id
            &&& forall|w: int|
                0 <= w < works.len() ==> has_target(targets, #[trigger] works[w])
        },
{
    let names = target_publications(targets);
    let owners = target_works(targets);
    assert forall|i: int| 0 <= i < targets.len() implies (good_target(#[trigger] targets[i], works)
        <==> target_makes_sense(targets[i], works)) by {}
    if good_targets(targets, works) {
        assert forall|i: int, j: int| 0 <= i < j < targets.len() implies (
        #[trigger] targets[i]).publication_id != (#[trigger] targets[j]).publication_id by {
            assert(names[i] != names[j]);
        }
        assert forall|w: int| 0 <= w < works.len() implies has_target(
            targets,
            #[trigger] works[w],
        ) by {
            assert(owners.contains(works[w]));
            let i = choose|i: int| 0 <= i < owners.len() && owners[i] == works[w];
            assert(targets[i].work_id == works[w]);
        }
        assert forall|i: int| 0 <= i < targets.len() implies good_target(#[trigger] targets[i], works) by {}
    }
    if targets.len() > 0 && (forall|i: int|
        0 <= i < targets.len() ==> target_makes_sense(#[trigger] targets[i], works)) && (forall|
        i: int,
        j: int,
    |
        0 <= i < j < targets.len() ==> (#[trigger] targets[i]).publication_id != (
        #[trigger] targets[j]).publication_id) && (forall|w: int|
        0 <= w < works.len() ==> has_target(targets, #[trigger] works[w])) {
        assert forall|i: int, j: int|
            0 <= i < names.len() && 0 <= j < names.len() && i != j implies names[i] != names[j] by {
            assert(names[i] == targets[i].publication_id);
            assert(names[j] == targets[j].publication_id);
        }
        assert forall|w: int| 0 <= w < works.len() implies owners.contains(#[trigger] works[w]) by {
            assert(has_target(targets, works[w]));
            let i = choose|i: int|
                0 <= i < targets.len() && (#[trigger] targets[i]).work_id == works[w];
            assert(owners[i] == works[w]);
        }
        assert(good_targets(targets, works));
    }
}

/// A receipt says what was recorded, where all of it makes sense: one to twenty
/// distinct works, and good targets of them; the keys are taken as they are.
pub proof fn law_receipts_are_read(
    works: Option<Seq<Seq<char>>>,
    keys: Option<Seq<Seq<char>>>,
    targets: Option<Seq<TargetView>>,
)
    ensures
        ({
            let says = parsed_receipt(works, keys, targets);
            let good = works is Some && keys is Some && targets is Some && 1 <= works->0.len() <= 20
                && works->0.no_duplicates() && (forall|i: int|
                0 <= i < works->0.len() ==> crate::keys::valid_work_id(#[trigger] works->0[i]))
                && good_targets(targets->0, works->0);
            &&& good <==> says is Some
            &&& good ==> says->0.works == works->0 && says->0.keys == keys->0 && says->0.targets
                == targets->0
        }),
{
}

/// A stored list of messages is taken as it is where it has one to forty distinct
/// positive numbers, and not at all else.
pub proof fn law_mappings(ids: Seq<i64>)
    ensures
        ({
            let good = 1 <= ids.len() <= 40 && ids.no_duplicates() && forall|k: int|
                0 <= k < ids.len() ==> (#[trigger] ids[k]) > 0;
            &&& good ==> mapping(Some(ids)) == Some(ids)
            &&& !good ==> mapping(Some(ids)) is None
            &&& mapping(None) is None
        }),
{
}

} // verus!
