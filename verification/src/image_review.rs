//! Reviewing one image of a work: it can be removed from the catalog and from
//! its publications, and put back. A review begins with a snapshot; it goes on
//! only while the work and its publications are as the snapshot says, and each
//! transaction checks that again.

use crate::catalog::{copy_numbers, same_numbers, distinct_ids};
use crate::effect::{refusing, Action, ActionView, Event, EventView, Machine, Table, UNEXPECTED};
use crate::json::{refusal, success, Json, JsonView, Members, Reply, ReplyView};
use crate::keys::{catalog_backup_key, MAX_DECISION_BYTES, MAX_KEY_BYTES};
use crate::outside;
use crate::publication::recorded_numbers;
use crate::rows::{
    ImageRow, ImageTarget, ImageTargetView, Publication, Receipt, ReceiptView, Snapshot,
    SnapshotView, WorkState,
};
use crate::sql::{add_statement, add_statements, no_statements, Statement, StatementView};
use crate::text;
use vstd::prelude::*;

verus! {

/// What the database says when a transaction finds the catalog changed.
pub const CHECK_FAILED: &'static str = "CHECK constraint failed";

// ---------------------------------------------------------------------------
// Requests
// ---------------------------------------------------------------------------

/// The message under which an image was published again. `T` is the type of
/// texts.
#[derive(Debug, Clone, PartialEq, Eq)]
pub struct RestoredTarget<T> {
    pub publication_id: T,
    pub message_id: i64,
}

impl View for RestoredTarget<String> {
    type V = RestoredTarget<Seq<char>>;

    open spec fn view(&self) -> RestoredTarget<Seq<char>> {
        RestoredTarget { publication_id: self.publication_id@, message_id: self.message_id }
    }
}

/// A request to review an image.
#[derive(Debug, Clone, PartialEq, Eq)]
pub struct ImageRequest {
    pub decision_id: String,
    pub r2_key: String,
    pub action: String,
    pub restored: Vec<RestoredTarget<String>>,
}

/// The mathematical value of an [`ImageRequest`].
pub struct ImageRequestView {
    pub decision_id: Seq<char>,
    pub r2_key: Seq<char>,
    pub action: Seq<char>,
    pub restored: Seq<RestoredTarget<Seq<char>>>,
}

impl View for ImageRequest {
    type V = ImageRequestView;

    open spec fn view(&self) -> ImageRequestView {
        ImageRequestView {
            decision_id: self.decision_id@,
            r2_key: self.r2_key@,
            action: self.action@,
            restored: crate::rows::views(self.restored@),
        }
    }
}

/// A request that makes sense: short names, and one of the three actions.
pub open spec fn good_request(request: ImageRequestView) -> bool {
    &&& request.decision_id.len() > 0
    &&& text::byte_len(request.decision_id) <= MAX_DECISION_BYTES
    &&& request.r2_key.len() > 0
    &&& text::byte_len(request.r2_key) <= MAX_KEY_BYTES
    &&& (request.action == "prepare"@ || request.action == "delete"@ || request.action
        == "restore"@)
}

fn is_good_request(request: &ImageRequest) -> (r: bool)
    ensures
        r == good_request(request@),
{
    !request.decision_id.as_str().is_empty() && text::count_bytes(request.decision_id.as_str())
        <= MAX_DECISION_BYTES && !request.r2_key.as_str().is_empty() && text::count_bytes(
        request.r2_key.as_str(),
    ) <= MAX_KEY_BYTES && (text::same_text(request.action.as_str(), "prepare") || text::same_text(
        request.action.as_str(),
        "delete",
    ) || text::same_text(request.action.as_str(), "restore"))
}

// ---------------------------------------------------------------------------
// Targets
// ---------------------------------------------------------------------------

/// The message of the page `position` in a publication whose messages read as
/// `ids`: it must be published in full, one message for each page.
pub open spec fn target_of(
    publication: Publication<Seq<char>>,
    ids: Option<Seq<i64>>,
    image_count: nat,
    position: nat,
) -> Result<ImageTargetView, Seq<char>> {
    match ids {
        None => Err("invalid publication mapping"@),
        Some(ids) => if publication.publish_state != "full"@ || ids.len() != image_count || position
            >= ids.len() || !crate::catalog::distinct_positive(ids) {
            Err("cannot identify this image in the Telegram publication"@)
        } else {
            Ok(
                ImageTargetView {
                    publication_id: publication.id,
                    chat_id: publication.chat_id,
                    message_id: ids[position as int],
                    remaining: ids.remove(position as int),
                    position: position as usize,
                },
            )
        },
    }
}

/// The value of a target, or the message.
pub open spec fn target_outcome(r: Result<ImageTarget, &'static str>) -> Result<
    ImageTargetView,
    Seq<char>,
> {
    match r {
        Ok(t) => Ok(t@),
        Err(message) => Err(message@),
    }
}

/// The message of a page in a publication whose messages read as `ids`.
pub fn image_target_with(
    publication: Publication<String>,
    ids: Option<Vec<i64>>,
    image_count: usize,
    position: usize,
) -> (r: Result<ImageTarget, &'static str>)
    ensures
        target_outcome(r) == target_of(
            publication@,
            crate::catalog::opt_numbers(ids),
            image_count as nat,
            position as nat,
        ),
{
    match ids {
        None => Err("invalid publication mapping"),
        Some(ids) => {
            if !text::same_text(publication.publish_state.as_str(), "full") || ids.len()
                != image_count || position >= ids.len() || !distinct_ids(ids.as_slice()) {
                return Err("cannot identify this image in the Telegram publication");
            }
            let mut ids = ids;
            let message_id: i64 = ids.remove(position);
            Ok(
                ImageTarget {
                    publication_id: publication.id,
                    chat_id: publication.chat_id,
                    message_id,
                    remaining: ids,
                    position,
                },
            )
        },
    }
}

/// The message of a page in a publication.
pub fn image_target(publication: Publication<String>, image_count: usize, position: usize) -> (r:
    Result<ImageTarget, &'static str>)
    ensures
        target_outcome(r) == target_of(
            publication@,
            outside::json_i64_list(publication@.message_ids_json),
            image_count as nat,
            position as nat,
        ),
{
    let ids = outside::read_i64_list(publication.message_ids_json.as_str());
    image_target_with(publication, ids, image_count, position)
}

/// A list with one more number at a position; a position past the end is the
/// end.
pub open spec fn inserted(list: Seq<i64>, position: nat, n: i64) -> Seq<i64> {
    if position <= list.len() {
        list.insert(position as int, n)
    } else {
        list.push(n)
    }
}

fn insert_number(list: &[i64], position: usize, n: i64) -> (r: Vec<i64>)
    ensures
        r@ == inserted(list@, position as nat, n),
{
    let mut out = copy_numbers(list);
    if position <= out.len() {
        out.insert(position, n);
    } else {
        out.push(n);
    }
    out
}

/// Putting the message of a target back where it was gives the messages of the
/// publication again, and no message that remains is the removed one.
pub proof fn law_target_goes_back(
    publication: Publication<Seq<char>>,
    ids: Seq<i64>,
    image_count: nat,
    position: nat,
    target: ImageTargetView,
)
    requires
        position <= usize::MAX,
        target_of(publication, Some(ids), image_count, position) == Ok::<
            ImageTargetView,
            Seq<char>,
        >(target),
    ensures
        inserted(target.remaining, target.position as nat, target.message_id) == ids,
        target.remaining.len() + 1 == ids.len(),
        !target.remaining.contains(target.message_id),
{
    let p = position as int;
    let rest = ids.remove(p);
    assert(rest.insert(p, ids[p]) =~= ids);
    if rest.contains(ids[p]) {
        let k = choose|k: int| 0 <= k < rest.len() && rest[k] == ids[p];
        if k < p {
            assert(ids[k] == ids[p]);
        } else {
            assert(ids[k + 1] == ids[p]);
        }
    }
}

/// The targets of some publications, or what is wrong with the first bad one.
pub open spec fn targets_of(
    rows: Seq<Publication<Seq<char>>>,
    image_count: nat,
    position: nat,
) -> Result<Seq<ImageTargetView>, Seq<char>>
    decreases rows.len(),
{
    if rows.len() == 0 {
        Ok(Seq::empty())
    } else {
        match targets_of(rows.drop_last(), image_count, position) {
            Err(message) => Err(message),
            Ok(list) => match target_of(
                rows.last(),
                outside::json_i64_list(rows.last().message_ids_json),
                image_count,
                position,
            ) {
                Err(message) => Err(message),
                Ok(target) => Ok(list.push(target)),
            },
        }
    }
}

proof fn lemma_targets_front(
    rows: Seq<Publication<Seq<char>>>,
    image_count: nat,
    position: nat,
    n: int,
)
    requires
        0 <= n <= rows.len(),
        targets_of(rows.take(n), image_count, position) is Err,
    ensures
        targets_of(rows, image_count, position) == targets_of(
            rows.take(n),
            image_count,
            position,
        ),
    decreases rows.len() - n,
{
    if n < rows.len() {
        assert(rows.take(n + 1).drop_last() =~= rows.take(n));
        lemma_targets_front(rows, image_count, position, n + 1);
    } else {
        assert(rows.take(n) =~= rows);
    }
}

fn copy_publication(p: &Publication<String>) -> (r: Publication<String>)
    ensures
        r@ == p@,
{
    Publication {
        id: p.id.clone(),
        chat_id: p.chat_id,
        message_ids_json: p.message_ids_json.clone(),
        publish_state: p.publish_state.clone(),
        deleted_at: match &p.deleted_at {
            Some(t) => Some(t.clone()),
            None => None,
        },
    }
}

fn image_targets(rows: &[Publication<String>], image_count: usize, position: usize) -> (r: Result<
    Vec<ImageTarget>,
    &'static str,
>)
    ensures
        match r {
            Ok(list) => targets_of(
                crate::rows::views(rows@),
                image_count as nat,
                position as nat,
            ) == Ok::<Seq<ImageTargetView>, Seq<char>>(crate::rows::views(list@)),
            Err(message) => targets_of(
                crate::rows::views(rows@),
                image_count as nat,
                position as nat,
            ) == Err::<Seq<ImageTargetView>, Seq<char>>(message@),
        },
{
    let ghost all = crate::rows::views(rows@);
    let mut out: Vec<ImageTarget> = Vec::new();
    let mut i: usize = 0;
    assert(all.take(0) =~= Seq::<Publication<Seq<char>>>::empty());
    assert(crate::rows::views(out@) =~= Seq::<ImageTargetView>::empty());
    while i < rows.len()
        invariant
            i <= rows@.len(),
            all == crate::rows::views(rows@),
            targets_of(all.take(i as int), image_count as nat, position as nat) == Ok::<
                Seq<ImageTargetView>,
                Seq<char>,
            >(crate::rows::views(out@)),
        decreases rows@.len() - i,
    {
        assert(all.take(i + 1).drop_last() =~= all.take(i as int));
        assert(all.take(i + 1).last() == rows@[i as int]@);
        match image_target(copy_publication(&rows[i]), image_count, position) {
            Err(message) => {
                proof {
                    lemma_targets_front(all, image_count as nat, position as nat, i + 1);
                }
                return Err(message);
            },
            Ok(target) => {
                let ghost before = crate::rows::views(out@);
                out.push(target);
                assert(crate::rows::views(out@) =~= before.push(target@));
            },
        }
        i += 1;
    }
    assert(all.take(i as int) =~= all);
    Ok(out)
}

// ---------------------------------------------------------------------------
// Whether a snapshot is current
// ---------------------------------------------------------------------------

impl ImageTargetView {
    /// The messages of the publication while the image is there, and without it.
    pub open spec fn expected(self, present: bool) -> Seq<i64> {
        if present {
            inserted(self.remaining, self.position as nat, self.message_id)
        } else {
            self.remaining
        }
    }
}

fn expected_ids(t: &ImageTarget, present: bool) -> (r: Vec<i64>)
    ensures
        r@ == t@.expected(present),
{
    if present {
        insert_number(t.remaining.as_slice(), t.position, t.message_id)
    } else {
        copy_numbers(t.remaining.as_slice())
    }
}

/// How many of some publications have messages, while the image is there or
/// without it.
pub open spec fn active_count(targets: Seq<ImageTargetView>, present: bool) -> nat
    decreases targets.len(),
{
    if targets.len() == 0 {
        0
    } else {
        active_count(targets.drop_last(), present) + if present || targets.last().remaining.len()
            > 0 {
            1nat
        } else {
            0nat
        }
    }
}

fn count_active(targets: &[ImageTarget], present: bool) -> (r: usize)
    ensures
        r == active_count(crate::rows::views(targets@), present),
{
    let ghost all = crate::rows::views(targets@);
    let mut n: usize = 0;
    let mut i: usize = 0;
    assert(all.take(0) =~= Seq::<ImageTargetView>::empty());
    while i < targets.len()
        invariant
            i <= targets@.len(),
            all == crate::rows::views(targets@),
            n == active_count(all.take(i as int), present),
            n <= i,
        decreases targets@.len() - i,
    {
        assert(all.take(i + 1).drop_last() =~= all.take(i as int));
        assert(all.take(i + 1).last() == targets@[i as int]@);
        if present || targets[i].remaining.len() > 0 {
            n += 1;
        }
        i += 1;
    }
    assert(all.take(i as int) =~= all);
    n
}

/// Whether nothing remains of any publication.
pub open spec fn nothing_remains(targets: Seq<ImageTargetView>) -> bool {
    forall|i: int| 0 <= i < targets.len() ==> (#[trigger] targets[i]).remaining.len() == 0
}

fn is_nothing_left(targets: &[ImageTarget]) -> (r: bool)
    ensures
        r == nothing_remains(crate::rows::views(targets@)),
{
    let ghost all = crate::rows::views(targets@);
    let mut i: usize = 0;
    while i < targets.len()
        invariant
            i <= targets@.len(),
            all == crate::rows::views(targets@),
            forall|k: int| 0 <= k < i ==> (#[trigger] all[k]).remaining.len() == 0,
        decreases targets@.len() - i,
    {
        assert(all[i as int] == targets@[i as int]@);
        if targets[i].remaining.len() > 0 {
            return false;
        }
        i += 1;
    }
    true
}

/// Whether the work is as the snapshot says: not changed since, and deleted
/// exactly where the review removed its last image.
pub open spec fn work_is_current(
    snapshot: SnapshotView,
    state: Seq<char>,
    work: Option<WorkState<Seq<char>>>,
) -> bool {
    match work {
        None => false,
        Some(w) => snapshot.review_version == Some(w.review_version) && (w.deleted_at is Some) == (
        state == "deleted"@ && nothing_remains(snapshot.targets)),
    }
}

fn is_work_current(snapshot: &Snapshot, state: &str, work: &Option<WorkState<String>>) -> (r: bool)
    ensures
        r == work_is_current(snapshot@, state@, crate::rows::opt_view(*work)),
{
    match work {
        None => false,
        Some(w) => {
            let same = match snapshot.review_version {
                Some(v) => v == w.review_version,
                None => false,
            };
            let last = text::same_text(state, "deleted") && is_nothing_left(
                snapshot.targets.as_slice(),
            );
            let gone = match &w.deleted_at {
                Some(_) => true,
                None => false,
            };
            same && gone == last
        },
    }
}

/// Whether the image is as the snapshot says: gone where the review removed it,
/// else there under its own name and key.
pub open spec fn image_is_current(
    snapshot: SnapshotView,
    state: Seq<char>,
    found: Option<ImageRow<Seq<char>>>,
) -> bool {
    if state == "deleted"@ {
        found is None
    } else {
        match found {
            None => false,
            Some(i) => i.id == snapshot.image.id && i.r2_key == snapshot.image.r2_key,
        }
    }
}

fn is_image_current(snapshot: &Snapshot, state: &str, found: &Option<ImageRow<String>>) -> (r: bool)
    ensures
        r == image_is_current(snapshot@, state@, crate::rows::opt_view(*found)),
{
    if text::same_text(state, "deleted") {
        match found {
            None => true,
            Some(_) => false,
        }
    } else {
        match found {
            None => false,
            Some(i) => text::same_text(i.id.as_str(), snapshot.image.id.as_str())
                && text::same_text(i.r2_key.as_str(), snapshot.image.r2_key.as_str()),
        }
    }
}

/// Whether a publication whose messages read as `ids` is the one of a target,
/// with exactly the expected messages.
pub open spec fn publication_matches(
    p: Publication<Seq<char>>,
    ids: Option<Seq<i64>>,
    target: ImageTargetView,
    present: bool,
) -> bool {
    &&& p.id == target.publication_id
    &&& p.chat_id == target.chat_id
    &&& p.publish_state == "full"@
    &&& (p.deleted_at is Some) == (target.expected(present).len() == 0)
    &&& ids == Some(target.expected(present))
}

/// Whether a publication whose messages read as `ids` is the one of a target.
pub fn publication_matches_with(
    p: &Publication<String>,
    ids: Option<Vec<i64>>,
    target: &ImageTarget,
    present: bool,
) -> (r: bool)
    ensures
        r == publication_matches(p@, crate::catalog::opt_numbers(ids), target@, present),
{
    let expected = expected_ids(target, present);
    let gone = match &p.deleted_at {
        Some(_) => true,
        None => false,
    };
    let same = match &ids {
        Some(ids) => same_numbers(ids.as_slice(), expected.as_slice()),
        None => false,
    };
    text::same_text(p.id.as_str(), target.publication_id.as_str()) && p.chat_id == target.chat_id
        && text::same_text(p.publish_state.as_str(), "full") && gone == (expected.len() == 0)
        && same
}

/// Whether one of some publications is the one of a target.
pub open spec fn has_match(
    rows: Seq<Publication<Seq<char>>>,
    target: ImageTargetView,
    present: bool,
) -> bool {
    exists|j: int|
        0 <= j < rows.len() && publication_matches(
            #[trigger] rows[j],
            outside::json_i64_list(rows[j].message_ids_json),
            target,
            present,
        )
}

fn find_match(rows: &[Publication<String>], target: &ImageTarget, present: bool) -> (r: bool)
    ensures
        r == has_match(crate::rows::views(rows@), target@, present),
{
    let ghost all = crate::rows::views(rows@);
    let mut j: usize = 0;
    while j < rows.len()
        invariant
            j <= rows@.len(),
            all == crate::rows::views(rows@),
            forall|k: int|
                0 <= k < j ==> !publication_matches(
                    #[trigger] all[k],
                    outside::json_i64_list(all[k].message_ids_json),
                    target@,
                    present,
                ),
        decreases rows@.len() - j,
    {
        assert(all[j as int] == rows@[j as int]@);
        let ids = outside::read_i64_list(rows[j].message_ids_json.as_str());
        if publication_matches_with(&rows[j], ids, target, present) {
            return true;
        }
        j += 1;
    }
    false
}

/// How many of some publications are not deleted.
pub open spec fn live_count(rows: Seq<Publication<Seq<char>>>) -> nat
    decreases rows.len(),
{
    if rows.len() == 0 {
        0
    } else {
        live_count(rows.drop_last()) + if rows.last().deleted_at is None {
            1nat
        } else {
            0nat
        }
    }
}

fn count_live(rows: &[Publication<String>]) -> (r: usize)
    ensures
        r == live_count(crate::rows::views(rows@)),
{
    let ghost all = crate::rows::views(rows@);
    let mut n: usize = 0;
    let mut i: usize = 0;
    assert(all.take(0) =~= Seq::<Publication<Seq<char>>>::empty());
    while i < rows.len()
        invariant
            i <= rows@.len(),
            all == crate::rows::views(rows@),
            n == live_count(all.take(i as int)),
            n <= i,
        decreases rows@.len() - i,
    {
        assert(all.take(i + 1).drop_last() =~= all.take(i as int));
        assert(all.take(i + 1).last() == rows@[i as int]@);
        match &rows[i].deleted_at {
            None => {
                n += 1;
            },
            Some(_) => {},
        }
        i += 1;
    }
    assert(all.take(i as int) =~= all);
    n
}

/// Whether the publications of the work are as the snapshot says: as many as
/// there should be, and each target in one of them.
pub open spec fn publications_are_current(
    snapshot: SnapshotView,
    state: Seq<char>,
    rows: Seq<Publication<Seq<char>>>,
) -> bool {
    let present = state == "prepared"@;
    &&& live_count(rows) == active_count(snapshot.targets, present)
    &&& forall|i: int|
        0 <= i < snapshot.targets.len() ==> has_match(
            rows,
            #[trigger] snapshot.targets[i],
            present,
        )
}

fn are_publications_current(snapshot: &Snapshot, state: &str, rows: &[Publication<String>]) -> (r:
    bool)
    ensures
        r == publications_are_current(snapshot@, state@, crate::rows::views(rows@)),
{
    let present = text::same_text(state, "prepared");
    if count_live(rows) != count_active(snapshot.targets.as_slice(), present) {
        return false;
    }
    let ghost all = crate::rows::views(rows@);
    let mut i: usize = 0;
    while i < snapshot.targets.len()
        invariant
            i <= snapshot.targets@.len(),
            all == crate::rows::views(rows@),
            present == (state@ == "prepared"@),
            forall|k: int|
                0 <= k < i ==> has_match(all, #[trigger] snapshot@.targets[k], present),
        decreases snapshot.targets@.len() - i,
    {
        assert(snapshot@.targets[i as int] == snapshot.targets@[i as int]@);
        if !find_match(rows, &snapshot.targets[i], present) {
            return false;
        }
        i += 1;
    }
    true
}

// ---------------------------------------------------------------------------
// Documents
// ---------------------------------------------------------------------------

/// A target as it is recorded.
pub open spec fn recorded_target(t: ImageTargetView) -> JsonView {
    crate::json::no_members().with("publication_id"@, JsonView::Text(t.publication_id)).with(
        "chat_id"@,
        JsonView::Num(t.chat_id as int),
    ).with("message_id"@, JsonView::Num(t.message_id as int)).with(
        "remaining"@,
        JsonView::List(crate::json::number_documents(t.remaining)),
    ).with("position"@, JsonView::Num(t.position as int)).object()
}

/// A target as it is told.
pub open spec fn told_target(t: ImageTargetView) -> JsonView {
    crate::json::no_members().with("chat_id"@, JsonView::Num(t.chat_id as int)).with(
        "message_id"@,
        JsonView::Num(t.message_id as int),
    ).with("position"@, JsonView::Num(t.position as int)).with(
        "publication_id"@,
        JsonView::Text(t.publication_id),
    ).with("remaining"@, JsonView::List(crate::json::number_documents(t.remaining))).object()
}

/// Targets as they are recorded.
pub open spec fn recorded_targets(targets: Seq<ImageTargetView>) -> JsonView {
    JsonView::List(targets.map_values(|t: ImageTargetView| recorded_target(t)))
}

/// Targets as they are told.
pub open spec fn told_targets(targets: Seq<ImageTargetView>) -> JsonView {
    JsonView::List(targets.map_values(|t: ImageTargetView| told_target(t)))
}

fn record_targets(targets: &[ImageTarget]) -> (r: Json)
    ensures
        r@ == recorded_targets(crate::rows::views(targets@)),
{
    let mut out: Vec<Json> = Vec::new();
    let mut i: usize = 0;
    let ghost want = crate::rows::views(targets@).map_values(
        |t: ImageTargetView| recorded_target(t),
    );
    assert(crate::json::documents(out@) =~= want.take(0));
    while i < targets.len()
        invariant
            i <= targets@.len(),
            want == crate::rows::views(targets@).map_values(
                |t: ImageTargetView| recorded_target(t),
            ),
            crate::json::documents(out@) == want.take(i as int),
        decreases targets@.len() - i,
    {
        let t = &targets[i];
        let item = Members::new().with(
            "publication_id",
            Json::text(t.publication_id.as_str()),
        ).with("chat_id", Json::Num(t.chat_id as i128)).with(
            "message_id",
            Json::Num(t.message_id as i128),
        ).with("remaining", Json::numbers(t.remaining.as_slice())).with(
            "position",
            Json::Num(t.position as i128),
        ).object();
        let ghost before = crate::json::documents(out@);
        out.push(item);
        proof {
            assert(item@ == recorded_target(targets@[i as int]@));
            assert(want[i as int] == item@);
            assert(crate::json::documents(out@) =~= before.push(item@));
            assert(want.take(i + 1) =~= want.take(i as int).push(want[i as int]));
        }
        i += 1;
    }
    assert(want.take(i as int) =~= want);
    Json::list(out)
}

fn tell_targets(targets: &[ImageTarget]) -> (r: Json)
    ensures
        r@ == told_targets(crate::rows::views(targets@)),
{
    let mut out: Vec<Json> = Vec::new();
    let mut i: usize = 0;
    let ghost want = crate::rows::views(targets@).map_values(|t: ImageTargetView| told_target(t));
    assert(crate::json::documents(out@) =~= want.take(0));
    while i < targets.len()
        invariant
            i <= targets@.len(),
            want == crate::rows::views(targets@).map_values(|t: ImageTargetView| told_target(t)),
            crate::json::documents(out@) == want.take(i as int),
        decreases targets@.len() - i,
    {
        let t = &targets[i];
        let item = Members::new().with("chat_id", Json::Num(t.chat_id as i128)).with(
            "message_id",
            Json::Num(t.message_id as i128),
        ).with("position", Json::Num(t.position as i128)).with(
            "publication_id",
            Json::text(t.publication_id.as_str()),
        ).with("remaining", Json::numbers(t.remaining.as_slice())).object();
        let ghost before = crate::json::documents(out@);
        out.push(item);
        proof {
            assert(item@ == told_target(targets@[i as int]@));
            assert(want[i as int] == item@);
            assert(crate::json::documents(out@) =~= before.push(item@));
            assert(want.take(i + 1) =~= want.take(i as int).push(want[i as int]));
        }
        i += 1;
    }
    assert(want.take(i as int) =~= want);
    Json::list(out)
}

/// A snapshot as it is recorded.
pub open spec fn snapshot_document(s: SnapshotView) -> JsonView {
    let image = crate::json::no_members().with("id"@, JsonView::Text(s.image.id)).with(
        "work_id"@,
        JsonView::Text(s.image.work_id),
    ).with("page_index"@, JsonView::Num(s.image.page_index as int)).with(
        "r2_key"@,
        JsonView::Text(s.image.r2_key),
    ).with("content_type"@, JsonView::Text(s.image.content_type)).with(
        "byte_size"@,
        JsonView::Num(s.image.byte_size as int),
    ).with("created_at"@, JsonView::Text(s.image.created_at)).with(
        "sha256"@,
        JsonView::Text(s.image.sha256),
    ).object();
    crate::json::no_members().with("image"@, image).with(
        "targets"@,
        recorded_targets(s.targets),
    ).with("backup_key"@, JsonView::Text(s.backup_key)).with(
        "review_version"@,
        match s.review_version {
            Some(v) => JsonView::Num(v as int),
            None => JsonView::Null,
        },
    ).object()
}

fn record_snapshot(s: &Snapshot) -> (r: Json)
    ensures
        r@ == snapshot_document(s@),
{
    let image = Members::new().with("id", Json::text(s.image.id.as_str())).with(
        "work_id",
        Json::text(s.image.work_id.as_str()),
    ).with("page_index", Json::Num(s.image.page_index as i128)).with(
        "r2_key",
        Json::text(s.image.r2_key.as_str()),
    ).with("content_type", Json::text(s.image.content_type.as_str())).with(
        "byte_size",
        Json::Num(s.image.byte_size as i128),
    ).with("created_at", Json::text(s.image.created_at.as_str())).with(
        "sha256",
        Json::text(s.image.sha256.as_str()),
    ).object();
    let version = match s.review_version {
        Some(v) => Json::Num(v as i128),
        None => Json::Null,
    };
    Members::new().with("image", image).with(
        "targets",
        record_targets(s.targets.as_slice()),
    ).with("backup_key", Json::text(s.backup_key.as_str())).with(
        "review_version",
        version,
    ).object()
}

/// The reply that names the targets of a review.
pub open spec fn targets_view(targets: Seq<ImageTargetView>, state: Seq<char>) -> ReplyView {
    crate::json::success_view(
        crate::json::no_members().with("ok"@, JsonView::Bool(true)).with(
            "state"@,
            JsonView::Text(state),
        ).with("targets"@, told_targets(targets)),
    )
}

fn targets_reply(targets: &[ImageTarget], state: &str) -> (r: Reply)
    ensures
        r@ == targets_view(crate::rows::views(targets@), state@),
{
    success(
        Members::new().with("ok", Json::Bool(true)).with("state", Json::text(state)).with(
            "targets",
            tell_targets(targets),
        ),
    )
}

/// The reply to an image that is back.
pub open spec fn restored_view() -> ReplyView {
    crate::json::success_view(
        crate::json::no_members().with("ok"@, JsonView::Bool(true)).with(
            "state"@,
            JsonView::Text("restored"@),
        ),
    )
}

fn restored_reply() -> (r: Reply)
    ensures
        r@ == restored_view(),
{
    success(Members::new().with("ok", Json::Bool(true)).with("state", Json::text("restored")))
}

// ---------------------------------------------------------------------------
// Statements
// ---------------------------------------------------------------------------

/// Reads a stored review.
pub const REVIEW_SQL: &'static str =
    "SELECT payload,state FROM catalog_image_reviews WHERE decision_id=?";

/// Reads an image of a work that is not deleted.
pub const ACTIVE_IMAGE_SQL: &'static str =
    "SELECT i.* FROM images i JOIN works w ON w.id=i.work_id WHERE i.r2_key=? AND w.deleted_at IS NULL";

/// Reads how often a work was changed, and when it was deleted.
pub const WORK_STATE_SQL: &'static str = "SELECT review_version,deleted_at FROM works WHERE id=?";

/// Reads the images of a work in the order of its pages.
pub const WORK_IMAGES_SQL: &'static str = "SELECT * FROM images WHERE work_id=? ORDER BY page_index";

/// Reads the publications of a work that are not deleted.
pub const LIVE_PUBLICATIONS_SQL: &'static str =
    "SELECT id,chat_id,message_ids_json,publish_state,deleted_at FROM telegram_publications WHERE work_id=? AND deleted_at IS NULL ORDER BY id";

/// Reads all publications of a work.
pub const ALL_PUBLICATIONS_SQL: &'static str =
    "SELECT id,chat_id,message_ids_json,publish_state,deleted_at FROM telegram_publications WHERE work_id=?";

/// Reads the image with a name or a key.
pub const CURRENT_IMAGE_SQL: &'static str = "SELECT * FROM images WHERE id=? OR r2_key=?";

/// Records a review, unless it is recorded already.
pub const INSERT_REVIEW_SQL: &'static str =
    "INSERT INTO catalog_image_reviews(decision_id,payload,state,created_at) VALUES(?,?,'prepared',?) ON CONFLICT DO NOTHING";

/// Breaks the transaction where the review, the work, the number of its
/// publications or the presence of the image is not as expected.
pub const GUARD_WORK_SQL: &'static str =
    "UPDATE catalog_image_reviews SET state=CASE WHEN state=? AND EXISTS(SELECT 1 FROM works WHERE id=? AND review_version=? AND (deleted_at IS NOT NULL)=?) AND (SELECT COUNT(*) FROM telegram_publications WHERE work_id=? AND deleted_at IS NULL)=? AND (EXISTS(SELECT 1 FROM images WHERE id=? OR r2_key=?))=? THEN state ELSE 'conflict' END WHERE decision_id=?";

/// Breaks the transaction where the image is not there.
pub const GUARD_IMAGE_SQL: &'static str =
    "UPDATE catalog_image_reviews SET state=CASE WHEN EXISTS(SELECT 1 FROM images WHERE id=? AND r2_key=?) THEN state ELSE 'conflict' END WHERE decision_id=?";

/// Breaks the transaction where a publication is not as expected.
pub const GUARD_PUBLICATION_SQL: &'static str =
    "UPDATE catalog_image_reviews SET state=CASE WHEN EXISTS(SELECT 1 FROM telegram_publications WHERE id=? AND work_id=? AND chat_id=? AND message_ids_json=? AND publish_state='full' AND (deleted_at IS NOT NULL)=?) THEN state ELSE 'conflict' END WHERE decision_id=?";

/// Removes the image.
pub const DROP_IMAGE_SQL: &'static str = "DELETE FROM images WHERE id=? AND r2_key=?";

/// Takes a message out of a publication, which is deleted with its last one.
pub const SHRINK_PUBLICATION_SQL: &'static str =
    "UPDATE telegram_publications SET message_ids_json=?,anchor_message_id=?,deleted_at=? WHERE id=?";

/// Counts the pages of the work anew, which is deleted with its last one.
pub const SHRINK_WORK_SQL: &'static str =
    "UPDATE works SET page_count=(SELECT COUNT(*) FROM images WHERE work_id=?),deleted_at=CASE WHEN EXISTS(SELECT 1 FROM images WHERE work_id=?) THEN NULL ELSE ? END WHERE id=?";

/// Marks the review as carried out.
pub const MARK_DELETED_SQL: &'static str =
    "UPDATE catalog_image_reviews SET state='deleted' WHERE decision_id=?";

/// Marks the review as undone.
pub const MARK_RESTORED_SQL: &'static str =
    "UPDATE catalog_image_reviews SET state='restored' WHERE decision_id=?";

/// Puts a message into a publication.
pub const GROW_PUBLICATION_SQL: &'static str =
    "UPDATE telegram_publications SET message_ids_json=?,anchor_message_id=?,deleted_at=NULL WHERE id=?";

/// Puts the image back.
pub const INSERT_IMAGE_SQL: &'static str =
    "INSERT INTO images(id,work_id,page_index,r2_key,content_type,byte_size,created_at,sha256) VALUES(?,?,?,?,?,?,?,?)";

/// Counts the pages of the work anew, which is no longer deleted.
pub const GROW_WORK_SQL: &'static str =
    "UPDATE works SET page_count=(SELECT COUNT(*) FROM images WHERE work_id=?),deleted_at=NULL WHERE id=?";

/// The guard of a publication.
pub open spec fn target_guard(
    t: ImageTargetView,
    work_id: Seq<char>,
    present: bool,
    decision_id: Seq<char>,
) -> StatementView {
    crate::sql::statement(GUARD_PUBLICATION_SQL@).text(t.publication_id).text(work_id).num(
        t.chat_id as int,
    ).text(outside::json_of_i64s(t.expected(present))).flag(t.expected(present).len() == 0).text(
        decision_id,
    )
}

/// The guards of all publications.
pub open spec fn target_guards(
    s: SnapshotView,
    present: bool,
    decision_id: Seq<char>,
) -> Seq<StatementView> {
    s.targets.map_values(|t: ImageTargetView| target_guard(t, s.image.work_id, present, decision_id))
}

/// The guard of the work: that the review is in the given state and that nothing
/// but what the review did has changed.
pub open spec fn work_guard(
    decision_id: Seq<char>,
    s: SnapshotView,
    state: Seq<char>,
) -> StatementView {
    let present = state == "prepared"@;
    let active = active_count(s.targets, present);
    crate::sql::statement(GUARD_WORK_SQL@).text(state).text(s.image.work_id).num(
        match s.review_version {
            Some(v) => v as int,
            None => -1,
        },
    ).flag(!present && active == 0).text(s.image.work_id).num(active as int).text(
        s.image.id,
    ).text(s.image.r2_key).flag(present).text(decision_id)
}

/// The guards at the head of each transaction of a review in the given state.
pub open spec fn guards(decision_id: Seq<char>, s: SnapshotView, state: Seq<char>) -> Seq<
    StatementView,
> {
    let present = state == "prepared"@;
    let first = Seq::<StatementView>::empty().push(work_guard(decision_id, s, state));
    (if present {
        first.push(
            crate::sql::statement(GUARD_IMAGE_SQL@).text(s.image.id).text(s.image.r2_key).text(
                decision_id,
            ),
        )
    } else {
        first
    }) + target_guards(s, present, decision_id)
}

fn guard_targets(s: &Snapshot, present: bool, decision_id: &str) -> (r: Vec<Statement>)
    ensures
        crate::sql::statement_views(r@) == target_guards(s@, present, decision_id@),
{
    let mut out = no_statements();
    let mut i: usize = 0;
    let ghost want = target_guards(s@, present, decision_id@);
    assert(want.take(0) =~= Seq::<StatementView>::empty());
    while i < s.targets.len()
        invariant
            i <= s.targets@.len(),
            want == target_guards(s@, present, decision_id@),
            want.len() == s.targets@.len(),
            crate::sql::statement_views(out@) == want.take(i as int),
        decreases s.targets@.len() - i,
    {
        let expected = expected_ids(&s.targets[i], present);
        let ids = recorded_numbers(expected.as_slice());
        add_statement(
            &mut out,
            Statement::new(GUARD_PUBLICATION_SQL).text(
                s.targets[i].publication_id.as_str(),
            ).text(s.image.work_id.as_str()).num(s.targets[i].chat_id as i128).text(
                ids.as_str(),
            ).flag(expected.len() == 0).text(decision_id),
        );
        proof {
            assert(s@.targets[i as int] == s.targets@[i as int]@);
            assert(want[i as int] == target_guard(
                s.targets@[i as int]@,
                s@.image.work_id,
                present,
                decision_id@,
            ));
            assert(want.take(i + 1) =~= want.take(i as int).push(want[i as int]));
        }
        i += 1;
    }
    assert(want.take(i as int) =~= want);
    out
}

/// The guards at the head of each transaction of a review in the given state.
pub fn snapshot_guards(decision_id: &str, s: &Snapshot, state: &str) -> (r: Vec<Statement>)
    ensures
        crate::sql::statement_views(r@) == guards(decision_id@, s@, state@),
{
    let present = text::same_text(state, "prepared");
    let active: usize = count_active(s.targets.as_slice(), present);
    let version: i64 = match s.review_version {
        Some(v) => v,
        None => -1,
    };
    let mut out = no_statements();
    add_statement(
        &mut out,
        Statement::new(GUARD_WORK_SQL).text(state).text(s.image.work_id.as_str()).num(
            version as i128,
        ).flag(!present && active == 0).text(s.image.work_id.as_str()).num(active as i128).text(
            s.image.id.as_str(),
        ).text(s.image.r2_key.as_str()).flag(present).text(decision_id),
    );
    if present {
        add_statement(
            &mut out,
            Statement::new(GUARD_IMAGE_SQL).text(s.image.id.as_str()).text(
                s.image.r2_key.as_str(),
            ).text(decision_id),
        );
    }
    add_statements(&mut out, guard_targets(s, present, decision_id));
    out
}

/// Takes the message of the image out of a publication.
pub open spec fn shrink_statement(t: ImageTargetView, now: Seq<char>) -> StatementView {
    let anchor = if t.remaining.len() > 0 {
        t.remaining[0]
    } else {
        t.message_id
    };
    crate::sql::statement(SHRINK_PUBLICATION_SQL@).text(outside::json_of_i64s(t.remaining)).num(
        anchor as int,
    ).optional(
        if t.remaining.len() > 0 {
            None
        } else {
            Some(now)
        },
    ).text(t.publication_id)
}

/// Takes the messages of the image out of all publications.
pub open spec fn shrink_statements(targets: Seq<ImageTargetView>, now: Seq<char>) -> Seq<
    StatementView,
> {
    targets.map_values(|t: ImageTargetView| shrink_statement(t, now))
}

fn shrink_publications(targets: &[ImageTarget], now: &str) -> (r: Vec<Statement>)
    ensures
        crate::sql::statement_views(r@) == shrink_statements(crate::rows::views(targets@), now@),
{
    let mut out = no_statements();
    let mut i: usize = 0;
    let ghost want = shrink_statements(crate::rows::views(targets@), now@);
    assert(want.take(0) =~= Seq::<StatementView>::empty());
    while i < targets.len()
        invariant
            i <= targets@.len(),
            want == shrink_statements(crate::rows::views(targets@), now@),
            crate::sql::statement_views(out@) == want.take(i as int),
        decreases targets@.len() - i,
    {
        let t = &targets[i];
        let ids = recorded_numbers(t.remaining.as_slice());
        let empty = t.remaining.len() == 0;
        let anchor: i64 = if empty {
            t.message_id
        } else {
            t.remaining[0]
        };
        let gone = if empty {
            Some(now)
        } else {
            None
        };
        add_statement(
            &mut out,
            Statement::new(SHRINK_PUBLICATION_SQL).text(ids.as_str()).num(anchor as i128).optional(
                gone,
            ).text(t.publication_id.as_str()),
        );
        proof {
            assert(want[i as int] == shrink_statement(targets@[i as int]@, now@));
            assert(want.take(i + 1) =~= want.take(i as int).push(want[i as int]));
        }
        i += 1;
    }
    assert(want.take(i as int) =~= want);
    out
}

/// The transaction that removes the image.
pub open spec fn delete_batch(
    decision_id: Seq<char>,
    s: SnapshotView,
    now: Seq<char>,
) -> Seq<StatementView> {
    (guards(decision_id, s, "prepared"@).push(
        crate::sql::statement(DROP_IMAGE_SQL@).text(s.image.id).text(s.image.r2_key),
    ) + shrink_statements(s.targets, now)).push(
        crate::sql::statement(SHRINK_WORK_SQL@).text(s.image.work_id).text(s.image.work_id).text(
            now,
        ).text(s.image.work_id),
    ).push(crate::sql::statement(MARK_DELETED_SQL@).text(decision_id))
}

fn removal_batch(decision_id: &str, s: &Snapshot, now: &str) -> (r: Vec<Statement>)
    ensures
        crate::sql::statement_views(r@) == delete_batch(decision_id@, s@, now@),
{
    let mut out = snapshot_guards(decision_id, s, "prepared");
    add_statement(
        &mut out,
        Statement::new(DROP_IMAGE_SQL).text(s.image.id.as_str()).text(s.image.r2_key.as_str()),
    );
    add_statements(&mut out, shrink_publications(s.targets.as_slice(), now));
    let work = s.image.work_id.as_str();
    add_statement(
        &mut out,
        Statement::new(SHRINK_WORK_SQL).text(work).text(work).text(now).text(work),
    );
    add_statement(&mut out, Statement::new(MARK_DELETED_SQL).text(decision_id));
    out
}

/// The transaction that gives up a review that removed nothing.
pub open spec fn cancel_batch(decision_id: Seq<char>, s: SnapshotView) -> Seq<StatementView> {
    guards(decision_id, s, "prepared"@).push(
        crate::sql::statement(MARK_RESTORED_SQL@).text(decision_id),
    )
}

fn cancellation_batch(decision_id: &str, s: &Snapshot) -> (r: Vec<Statement>)
    ensures
        crate::sql::statement_views(r@) == cancel_batch(decision_id@, s@),
{
    let mut out = snapshot_guards(decision_id, s, "prepared");
    add_statement(&mut out, Statement::new(MARK_RESTORED_SQL).text(decision_id));
    out
}

// ---------------------------------------------------------------------------
// Putting an image back
// ---------------------------------------------------------------------------

/// How many of some restored messages are those of a publication.
pub open spec fn restored_count(restored: Seq<RestoredTarget<Seq<char>>>, id: Seq<char>) -> nat
    decreases restored.len(),
{
    if restored.len() == 0 {
        0
    } else {
        restored_count(restored.drop_last(), id) + if restored.last().publication_id == id {
            1nat
        } else {
            0nat
        }
    }
}

fn count_restored(restored: &[RestoredTarget<String>], id: &str) -> (r: usize)
    ensures
        r == restored_count(crate::rows::views(restored@), id@),
{
    let ghost all = crate::rows::views(restored@);
    let mut n: usize = 0;
    let mut i: usize = 0;
    assert(all.take(0) =~= Seq::<RestoredTarget<Seq<char>>>::empty());
    while i < restored.len()
        invariant
            i <= restored@.len(),
            all == crate::rows::views(restored@),
            n == restored_count(all.take(i as int), id@),
            n <= i,
        decreases restored@.len() - i,
    {
        assert(all.take(i + 1).drop_last() =~= all.take(i as int));
        assert(all.take(i + 1).last() == restored@[i as int]@);
        if text::same_text(restored[i].publication_id.as_str(), id) {
            n += 1;
        }
        i += 1;
    }
    assert(all.take(i as int) =~= all);
    n
}

/// Whether one of some restored messages is a message that remains in the
/// publication of a target.
pub open spec fn clashes(
    restored: Seq<RestoredTarget<Seq<char>>>,
    target: ImageTargetView,
) -> bool {
    exists|j: int|
        0 <= j < restored.len() && (#[trigger] restored[j]).publication_id == target.publication_id
            && target.remaining.contains(restored[j].message_id)
}

fn is_clash(restored: &[RestoredTarget<String>], target: &ImageTarget) -> (r: bool)
    ensures
        r == clashes(crate::rows::views(restored@), target@),
{
    let ghost all = crate::rows::views(restored@);
    let mut j: usize = 0;
    while j < restored.len()
        invariant
            j <= restored@.len(),
            all == crate::rows::views(restored@),
            forall|k: int|
                0 <= k < j ==> !((#[trigger] all[k]).publication_id == target@.publication_id
                    && target@.remaining.contains(all[k].message_id)),
        decreases restored@.len() - j,
    {
        assert(all[j as int] == restored@[j as int]@);
        if text::same_text(
            restored[j].publication_id.as_str(),
            target.publication_id.as_str(),
        ) && crate::catalog::has_number(target.remaining.as_slice(), restored[j].message_id) {
            return true;
        }
        j += 1;
    }
    false
}

/// Whether restored messages are one for each target, under new numbers.
pub open spec fn complete(
    restored: Seq<RestoredTarget<Seq<char>>>,
    targets: Seq<ImageTargetView>,
) -> bool {
    &&& restored.len() == targets.len()
    &&& forall|j: int| 0 <= j < restored.len() ==> (#[trigger] restored[j]).message_id > 0
    &&& forall|i: int|
        0 <= i < targets.len() ==> restored_count(
            restored,
            (#[trigger] targets[i]).publication_id,
        ) == 1 && !clashes(restored, targets[i])
}

fn is_complete(restored: &[RestoredTarget<String>], targets: &[ImageTarget]) -> (r: bool)
    ensures
        r == complete(crate::rows::views(restored@), crate::rows::views(targets@)),
{
    if restored.len() != targets.len() {
        return false;
    }
    let ghost all = crate::rows::views(restored@);
    let ghost want = crate::rows::views(targets@);
    let mut j: usize = 0;
    while j < restored.len()
        invariant
            j <= restored@.len(),
            all == crate::rows::views(restored@),
            forall|k: int| 0 <= k < j ==> (#[trigger] all[k]).message_id > 0,
        decreases restored@.len() - j,
    {
        assert(all[j as int] == restored@[j as int]@);
        if restored[j].message_id <= 0 {
            return false;
        }
        j += 1;
    }
    let mut i: usize = 0;
    while i < targets.len()
        invariant
            i <= targets@.len(),
            all == crate::rows::views(restored@),
            want == crate::rows::views(targets@),
            forall|k: int|
                0 <= k < i ==> restored_count(all, (#[trigger] want[k]).publication_id) == 1
                    && !clashes(all, want[k]),
        decreases targets@.len() - i,
    {
        assert(want[i as int] == targets@[i as int]@);
        if count_restored(restored, targets[i].publication_id.as_str()) != 1 || is_clash(
            restored,
            &targets[i],
        ) {
            return false;
        }
        i += 1;
    }
    true
}

/// The first restored message of a publication, or zero where there is none.
pub open spec fn restored_message(restored: Seq<RestoredTarget<Seq<char>>>, id: Seq<char>) -> i64
    decreases restored.len(),
{
    if restored.len() == 0 {
        0
    } else if restored[0].publication_id == id {
        restored[0].message_id
    } else {
        restored_message(restored.drop_first(), id)
    }
}

fn find_restored(restored: &[RestoredTarget<String>], id: &str) -> (r: i64)
    ensures
        r == restored_message(crate::rows::views(restored@), id@),
{
    let ghost all = crate::rows::views(restored@);
    let mut i: usize = 0;
    assert(all.skip(0) =~= all);
    while i < restored.len()
        invariant
            i <= restored@.len(),
            all == crate::rows::views(restored@),
            restored_message(all, id@) == restored_message(all.skip(i as int), id@),
        decreases restored@.len() - i,
    {
        assert(all.skip(i as int)[0] == restored@[i as int]@);
        if text::same_text(restored[i].publication_id.as_str(), id) {
            return restored[i].message_id;
        }
        assert(all.skip(i as int).drop_first() =~= all.skip(i + 1));
        i += 1;
    }
    0
}

/// The messages of a publication with the restored one in its place.
pub open spec fn restored_ids(
    t: ImageTargetView,
    restored: Seq<RestoredTarget<Seq<char>>>,
) -> Seq<i64> {
    inserted(t.remaining, t.position as nat, restored_message(restored, t.publication_id))
}

/// Puts the restored message into a publication.
pub open spec fn grow_statement(
    t: ImageTargetView,
    restored: Seq<RestoredTarget<Seq<char>>>,
) -> StatementView {
    let ids = restored_ids(t, restored);
    crate::sql::statement(GROW_PUBLICATION_SQL@).text(outside::json_of_i64s(ids)).num(
        ids[0] as int,
    ).text(t.publication_id)
}

/// Puts the restored messages into all publications.
pub open spec fn grow_statements(
    targets: Seq<ImageTargetView>,
    restored: Seq<RestoredTarget<Seq<char>>>,
) -> Seq<StatementView> {
    targets.map_values(|t: ImageTargetView| grow_statement(t, restored))
}

fn grow_publications(targets: &[ImageTarget], restored: &[RestoredTarget<String>]) -> (r: Vec<
    Statement,
>)
    ensures
        crate::sql::statement_views(r@) == grow_statements(
            crate::rows::views(targets@),
            crate::rows::views(restored@),
        ),
{
    let mut out = no_statements();
    let mut i: usize = 0;
    let ghost all = crate::rows::views(restored@);
    let ghost want = grow_statements(crate::rows::views(targets@), all);
    assert(want.take(0) =~= Seq::<StatementView>::empty());
    while i < targets.len()
        invariant
            i <= targets@.len(),
            all == crate::rows::views(restored@),
            want == grow_statements(crate::rows::views(targets@), all),
            crate::sql::statement_views(out@) == want.take(i as int),
        decreases targets@.len() - i,
    {
        let t = &targets[i];
        let message: i64 = find_restored(restored, t.publication_id.as_str());
        let ids = insert_number(t.remaining.as_slice(), t.position, message);
        let written = recorded_numbers(ids.as_slice());
        add_statement(
            &mut out,
            Statement::new(GROW_PUBLICATION_SQL).text(written.as_str()).num(ids[0] as i128).text(
                t.publication_id.as_str(),
            ),
        );
        proof {
            assert(ids@ == restored_ids(targets@[i as int]@, all));
            assert(want[i as int] == grow_statement(targets@[i as int]@, all));
            assert(want.take(i + 1) =~= want.take(i as int).push(want[i as int]));
        }
        i += 1;
    }
    assert(want.take(i as int) =~= want);
    out
}

/// Puts the image back.
pub open spec fn image_statement(image: ImageRow<Seq<char>>) -> StatementView {
    crate::sql::statement(INSERT_IMAGE_SQL@).text(image.id).text(image.work_id).num(
        image.page_index as int,
    ).text(image.r2_key).text(image.content_type).num(image.byte_size as int).text(
        image.created_at,
    ).text(image.sha256)
}

/// The transaction that puts the image back.
pub open spec fn restore_batch(
    decision_id: Seq<char>,
    s: SnapshotView,
    restored: Seq<RestoredTarget<Seq<char>>>,
) -> Seq<StatementView> {
    (guards(decision_id, s, "deleted"@) + grow_statements(s.targets, restored)).push(
        image_statement(s.image),
    ).push(crate::sql::statement(GROW_WORK_SQL@).text(s.image.work_id).text(s.image.work_id)).push(
        crate::sql::statement(MARK_RESTORED_SQL@).text(decision_id),
    )
}

fn restoration_batch(
    decision_id: &str,
    s: &Snapshot,
    restored: &[RestoredTarget<String>],
) -> (r: Vec<Statement>)
    ensures
        crate::sql::statement_views(r@) == restore_batch(
            decision_id@,
            s@,
            crate::rows::views(restored@),
        ),
{
    let mut out = snapshot_guards(decision_id, s, "deleted");
    add_statements(&mut out, grow_publications(s.targets.as_slice(), restored));
    let image = &s.image;
    add_statement(
        &mut out,
        Statement::new(INSERT_IMAGE_SQL).text(image.id.as_str()).text(image.work_id.as_str()).num(
            image.page_index as i128,
        ).text(image.r2_key.as_str()).text(image.content_type.as_str()).num(
            image.byte_size as i128,
        ).text(image.created_at.as_str()).text(image.sha256.as_str()),
    );
    add_statement(
        &mut out,
        Statement::new(GROW_WORK_SQL).text(image.work_id.as_str()).text(image.work_id.as_str()),
    );
    add_statement(&mut out, Statement::new(MARK_RESTORED_SQL).text(decision_id));
    out
}

// ---------------------------------------------------------------------------
// The machine
// ---------------------------------------------------------------------------

/// How far a review is.
pub enum ReviewPhase {
    /// The stored review is read.
    Receipt,
    /// The image is looked for.
    Image,
    /// Its work is read.
    Work(ImageRow<String>),
    /// The images of the work, changed so often, are read.
    Images(ImageRow<String>, i64),
    /// The publications of the work are read; the image is one of so many, at
    /// this position.
    Publications(ImageRow<String>, i64, usize, usize),
    /// The image is copied.
    Copying(Snapshot),
    /// The clock is asked.
    PrepareTime(Snapshot),
    /// The review is recorded.
    Preparing,
    /// The recorded review is read.
    Reread,
    /// Whether the work is current.
    CheckWork(Snapshot, String),
    /// Whether the image is current.
    CheckImage(Snapshot, String),
    /// Whether the publications are current.
    CheckPublications(Snapshot, String),
    /// The clock is asked.
    DeleteTime(Snapshot),
    /// The image is removed.
    Deleting(Snapshot),
    /// The review is given up.
    Cancelling,
    /// Whether the object is still there.
    Finding(Snapshot),
    /// The object is copied back.
    CopyingBack(Snapshot),
    /// The image is put back.
    Restoring,
    /// All is said.
    End,
}

/// The mathematical value of a [`ReviewPhase`].
pub enum ReviewPhaseView {
    Receipt,
    Image,
    Work(ImageRow<Seq<char>>),
    Images(ImageRow<Seq<char>>, i64),
    Publications(ImageRow<Seq<char>>, i64, nat, nat),
    Copying(SnapshotView),
    PrepareTime(SnapshotView),
    Preparing,
    Reread,
    CheckWork(SnapshotView, Seq<char>),
    CheckImage(SnapshotView, Seq<char>),
    CheckPublications(SnapshotView, Seq<char>),
    DeleteTime(SnapshotView),
    Deleting(SnapshotView),
    Cancelling,
    Finding(SnapshotView),
    CopyingBack(SnapshotView),
    Restoring,
    End,
}

impl View for ReviewPhase {
    type V = ReviewPhaseView;

    open spec fn view(&self) -> ReviewPhaseView {
        match self {
            ReviewPhase::Receipt => ReviewPhaseView::Receipt,
            ReviewPhase::Image => ReviewPhaseView::Image,
            ReviewPhase::Work(image) => ReviewPhaseView::Work(image@),
            ReviewPhase::Images(image, version) => ReviewPhaseView::Images(image@, *version),
            ReviewPhase::Publications(image, version, count, position) => {
                ReviewPhaseView::Publications(image@, *version, *count as nat, *position as nat)
            },
            ReviewPhase::Copying(s) => ReviewPhaseView::Copying(s@),
            ReviewPhase::PrepareTime(s) => ReviewPhaseView::PrepareTime(s@),
            ReviewPhase::Preparing => ReviewPhaseView::Preparing,
            ReviewPhase::Reread => ReviewPhaseView::Reread,
            ReviewPhase::CheckWork(s, state) => ReviewPhaseView::CheckWork(s@, state@),
            ReviewPhase::CheckImage(s, state) => ReviewPhaseView::CheckImage(s@, state@),
            ReviewPhase::CheckPublications(s, state) => ReviewPhaseView::CheckPublications(
                s@,
                state@,
            ),
            ReviewPhase::DeleteTime(s) => ReviewPhaseView::DeleteTime(s@),
            ReviewPhase::Deleting(s) => ReviewPhaseView::Deleting(s@),
            ReviewPhase::Cancelling => ReviewPhaseView::Cancelling,
            ReviewPhase::Finding(s) => ReviewPhaseView::Finding(s@),
            ReviewPhase::CopyingBack(s) => ReviewPhaseView::CopyingBack(s@),
            ReviewPhase::Restoring => ReviewPhaseView::Restoring,
            ReviewPhase::End => ReviewPhaseView::End,
        }
    }
}

/// A review on its way.
pub struct ImageReview {
    request: ImageRequest,
    phase: ReviewPhase,
}

/// The mathematical value of an [`ImageReview`].
pub struct ReviewRun {
    pub request: ImageRequestView,
    pub phase: ReviewPhaseView,
}

impl View for ImageReview {
    type V = ReviewRun;

    closed spec fn view(&self) -> ReviewRun {
        ReviewRun { request: self.request@, phase: self.phase@ }
    }
}

/// The last action of a review that failed: one that the database broke off can
/// be tried again.
pub open spec fn failed(message: Seq<char>) -> ActionView {
    if text::has_part(message, CHECK_FAILED@) {
        crate::effect::refuse("image review changed concurrently; retry the action"@, 409)
    } else {
        ActionView::Fail(message)
    }
}

fn failing(message: &str) -> (r: Action)
    ensures
        r@ == failed(message@),
{
    if text::contains(message, CHECK_FAILED) {
        refusing("image review changed concurrently; retry the action", 409)
    } else {
        Action::Fail(message.to_owned())
    }
}

/// The last action of a review that hears `event` where it cannot go on.
pub open spec fn stopped(event: EventView) -> ActionView {
    match event {
        EventView::Failed(message) => failed(message),
        _ => ActionView::Fail(UNEXPECTED@),
    }
}

/// The position of the image with a name among some images.
pub open spec fn position_of(rows: Seq<ImageRow<Seq<char>>>, id: Seq<char>) -> Option<nat>
    decreases rows.len(),
{
    if rows.len() == 0 {
        None
    } else if rows[0].id == id {
        Some(0nat)
    } else {
        match position_of(rows.drop_first(), id) {
            Some(n) => Some((n + 1) as nat),
            None => None,
        }
    }
}

fn find_position(rows: &[ImageRow<String>], id: &str) -> (r: Option<usize>)
    ensures
        match r {
            Some(n) => position_of(crate::rows::views(rows@), id@) == Some(n as nat),
            None => position_of(crate::rows::views(rows@), id@) is None,
        },
{
    let ghost all = crate::rows::views(rows@);
    let mut i: usize = 0;
    assert(all.skip(0) =~= all);
    while i < rows.len()
        invariant
            i <= rows@.len(),
            all == crate::rows::views(rows@),
            position_of(all, id@) == match position_of(all.skip(i as int), id@) {
                Some(n) => Some((n + i) as nat),
                None => None,
            },
        decreases rows@.len() - i,
    {
        assert(all.skip(i as int)[0] == rows@[i as int]@);
        assert(all.skip(i as int).drop_first() =~= all.skip(i + 1));
        if text::same_text(rows[i].id.as_str(), id) {
            return Some(i);
        }
        i += 1;
    }
    None
}

/// Reads the stored review.
pub open spec fn read_review(decision_id: Seq<char>) -> ActionView {
    ActionView::Query(Table::ReviewReceipt, crate::sql::statement(REVIEW_SQL@).text(decision_id))
}

fn find_review(decision_id: &str) -> (r: Action)
    ensures
        r@ == read_review(decision_id@),
{
    Action::Query(Table::ReviewReceipt, Statement::new(REVIEW_SQL).text(decision_id))
}

/// Reads the state of a work.
pub open spec fn read_work(work_id: Seq<char>) -> ActionView {
    ActionView::Query(Table::ReviewWork, crate::sql::statement(WORK_STATE_SQL@).text(work_id))
}

fn find_work(work_id: &str) -> (r: Action)
    ensures
        r@ == read_work(work_id@),
{
    Action::Query(Table::ReviewWork, Statement::new(WORK_STATE_SQL).text(work_id))
}

impl ReviewRun {
    /// One more step.
    pub open spec fn goes(self, phase: ReviewPhaseView, action: ActionView) -> (
        ReviewRun,
        ActionView,
    ) {
        (ReviewRun { request: self.request, phase }, action)
    }

    /// The last step.
    pub open spec fn ends(self, action: ActionView) -> (ReviewRun, ActionView) {
        self.goes(ReviewPhaseView::End, action)
    }

    /// What follows from a stored review: it must be one of the same image.
    pub open spec fn reads(self, receipt: ReceiptView) -> (ReviewRun, ActionView) {
        match receipt.payload {
            Err(message) => self.ends(failed(message)),
            Ok(s) => if s.image.r2_key != self.request.r2_key {
                self.ends(crate::effect::refuse("image review decision conflict"@, 409))
            } else {
                self.goes(
                    ReviewPhaseView::CheckWork(s, receipt.state),
                    read_work(s.image.work_id),
                )
            },
        }
    }

    /// What follows once the publications of a new review are known.
    pub open spec fn begins(
        self,
        image: ImageRow<Seq<char>>,
        version: i64,
        count: nat,
        position: nat,
        rows: Seq<Publication<Seq<char>>>,
    ) -> (ReviewRun, ActionView) {
        if rows.len() == 0 {
            self.ends(crate::effect::refuse("telegram publication mapping missing"@, 409))
        } else {
            match targets_of(rows, count, position) {
                Err(message) => self.ends(crate::effect::refuse(message, 409)),
                Ok(targets) => {
                    let backup_key = crate::keys::backup_key(
                        self.request.decision_id,
                        image.r2_key,
                    );
                    self.goes(
                        ReviewPhaseView::Copying(
                            SnapshotView {
                                image,
                                targets,
                                backup_key,
                                review_version: Some(version),
                            },
                        ),
                        ActionView::Copy(image.r2_key, backup_key),
                    )
                },
            }
        }
    }

    /// What follows where something has changed since the snapshot.
    pub open spec fn stale(self) -> (ReviewRun, ActionView) {
        self.ends(
            crate::effect::refuse(
                "work or publication changed; image review is no longer current"@,
                409,
            ),
        )
    }

    /// What follows where the snapshot is current.
    pub open spec fn current(self, s: SnapshotView, state: Seq<char>) -> (ReviewRun, ActionView) {
        if self.request.action == "prepare"@ {
            self.ends(ActionView::Reply(targets_view(s.targets, state)))
        } else if self.request.action == "delete"@ {
            if state == "restored"@ {
                self.ends(crate::effect::refuse("this deletion was already undone"@, 409))
            } else if state == "prepared"@ {
                self.goes(ReviewPhaseView::DeleteTime(s), ActionView::Clock)
            } else {
                self.ends(ActionView::Reply(targets_view(s.targets, "deleted"@)))
            }
        } else if state == "restored"@ {
            self.ends(ActionView::Reply(restored_view()))
        } else if state == "prepared"@ {
            self.goes(
                ReviewPhaseView::Cancelling,
                ActionView::Batch(cancel_batch(self.request.decision_id, s)),
            )
        } else if !complete(self.request.restored, s.targets) {
            self.ends(
                crate::effect::refuse("restored Telegram targets are incomplete"@, 400),
            )
        } else {
            self.goes(ReviewPhaseView::Finding(s), ActionView::Head(s.image.r2_key))
        }
    }

    /// Puts the image back.
    pub open spec fn restores(self, s: SnapshotView) -> (ReviewRun, ActionView) {
        self.goes(
            ReviewPhaseView::Restoring,
            ActionView::Batch(
                restore_batch(self.request.decision_id, s, self.request.restored),
            ),
        )
    }
}

impl Machine for ReviewRun {
    open spec fn next(self, event: EventView) -> (ReviewRun, ActionView) {
        match (self.phase, event) {
            (ReviewPhaseView::Receipt, EventView::ReviewReceipt(Some(receipt))) => self.reads(
                receipt,
            ),
            (ReviewPhaseView::Receipt, EventView::ReviewReceipt(None)) => if self.request.action
                != "prepare"@ {
                self.ends(crate::effect::refuse("image review not prepared"@, 409))
            } else {
                self.goes(
                    ReviewPhaseView::Image,
                    ActionView::Query(
                        Table::ReviewImage,
                        crate::sql::statement(ACTIVE_IMAGE_SQL@).text(self.request.r2_key),
                    ),
                )
            },
            (ReviewPhaseView::Image, EventView::ReviewImage(None)) => self.ends(
                crate::effect::refuse("image not active"@, 409),
            ),
            (ReviewPhaseView::Image, EventView::ReviewImage(Some(image))) => self.goes(
                ReviewPhaseView::Work(image),
                read_work(image.work_id),
            ),
            (ReviewPhaseView::Work(image), EventView::ReviewWork(None)) => self.ends(
                ActionView::Fail("work disappeared"@),
            ),
            (ReviewPhaseView::Work(image), EventView::ReviewWork(Some(work))) => self.goes(
                ReviewPhaseView::Images(image, work.review_version),
                ActionView::Query(
                    Table::ReviewImages,
                    crate::sql::statement(WORK_IMAGES_SQL@).text(image.work_id),
                ),
            ),
            (
                ReviewPhaseView::Images(image, version),
                EventView::ReviewImages(rows),
            ) => match position_of(rows, image.id) {
                None => self.ends(ActionView::Fail("image disappeared"@)),
                Some(position) => self.goes(
                    ReviewPhaseView::Publications(image, version, rows.len(), position),
                    ActionView::Query(
                        Table::ReviewPublications,
                        crate::sql::statement(LIVE_PUBLICATIONS_SQL@).text(image.work_id),
                    ),
                ),
            },
            (
                ReviewPhaseView::Publications(image, version, count, position),
                EventView::ReviewPublications(rows),
            ) => self.begins(image, version, count, position, rows),
            (ReviewPhaseView::Copying(s), EventView::Done) => self.goes(
                ReviewPhaseView::PrepareTime(s),
                ActionView::Clock,
            ),
            (ReviewPhaseView::PrepareTime(s), EventView::Now(now)) => self.goes(
                ReviewPhaseView::Preparing,
                ActionView::Run(
                    crate::sql::statement(INSERT_REVIEW_SQL@).text(
                        self.request.decision_id,
                    ).document(snapshot_document(s)).text(now),
                ),
            ),
            (ReviewPhaseView::Preparing, EventView::Done) => self.goes(
                ReviewPhaseView::Reread,
                read_review(self.request.decision_id),
            ),
            (ReviewPhaseView::Reread, EventView::ReviewReceipt(None)) => self.ends(
                ActionView::Fail("image review disappeared"@),
            ),
            (ReviewPhaseView::Reread, EventView::ReviewReceipt(Some(receipt))) => self.reads(
                receipt,
            ),
            (ReviewPhaseView::CheckWork(s, state), EventView::ReviewWork(work)) => if !work_is_current(
                s,
                state,
                work,
            ) {
                self.stale()
            } else {
                self.goes(
                    ReviewPhaseView::CheckImage(s, state),
                    ActionView::Query(
                        Table::ReviewImage,
                        crate::sql::statement(CURRENT_IMAGE_SQL@).text(s.image.id).text(
                            s.image.r2_key,
                        ),
                    ),
                )
            },
            (
                ReviewPhaseView::CheckImage(s, state),
                EventView::ReviewImage(found),
            ) => if !image_is_current(s, state, found) {
                self.stale()
            } else if state == "restored"@ {
                self.current(s, state)
            } else {
                self.goes(
                    ReviewPhaseView::CheckPublications(s, state),
                    ActionView::Query(
                        Table::ReviewPublications,
                        crate::sql::statement(ALL_PUBLICATIONS_SQL@).text(s.image.work_id),
                    ),
                )
            },
            (
                ReviewPhaseView::CheckPublications(s, state),
                EventView::ReviewPublications(rows),
            ) => if !publications_are_current(s, state, rows) {
                self.stale()
            } else {
                self.current(s, state)
            },
            (ReviewPhaseView::DeleteTime(s), EventView::Now(now)) => self.goes(
                ReviewPhaseView::Deleting(s),
                ActionView::Batch(delete_batch(self.request.decision_id, s, now)),
            ),
            (ReviewPhaseView::Deleting(s), EventView::Done) => self.ends(
                ActionView::Reply(targets_view(s.targets, "deleted"@)),
            ),
            (ReviewPhaseView::Cancelling, EventView::Done) => self.ends(
                ActionView::Reply(restored_view()),
            ),
            (ReviewPhaseView::Finding(s), EventView::Found(true)) => self.restores(s),
            (ReviewPhaseView::Finding(s), EventView::Found(false)) => self.goes(
                ReviewPhaseView::CopyingBack(s),
                ActionView::Copy(s.backup_key, s.image.r2_key),
            ),
            (ReviewPhaseView::CopyingBack(s), EventView::Done) => self.restores(s),
            (ReviewPhaseView::Restoring, EventView::Done) => self.ends(
                ActionView::Reply(restored_view()),
            ),
            _ => self.ends(stopped(event)),
        }
    }
}

/// The first step of a review, or why it is refused.
pub open spec fn review_begun(request: Option<ImageRequestView>) -> Result<
    (ReviewRun, ActionView),
    ReplyView,
> {
    match request {
        None => Err(crate::json::refusal_view("invalid json"@, 400)),
        Some(request) => if good_request(request) {
            Ok(
                (
                    ReviewRun { request, phase: ReviewPhaseView::Receipt },
                    read_review(request.decision_id),
                ),
            )
        } else {
            Err(crate::json::refusal_view("invalid image review request"@, 400))
        },
    }
}

/// The value of the first step of a review.
pub open spec fn review_start(r: Result<(ImageReview, Action), Reply>) -> Result<
    (ReviewRun, ActionView),
    ReplyView,
> {
    match r {
        Ok(first) => Ok((first.0@, first.1@)),
        Err(reply) => Err(reply@),
    }
}

impl ImageReview {
    /// Begins or goes on with a review. The request is absent where it could not
    /// be read.
    pub fn begin(request: Option<ImageRequest>) -> (r: Result<(ImageReview, Action), Reply>)
        ensures
            review_start(r) == review_begun(crate::rows::opt_view(request)),
    {
        match request {
            None => Err(refusal("invalid json", 400)),
            Some(request) => {
                if !is_good_request(&request) {
                    return Err(refusal("invalid image review request", 400));
                }
                let action = find_review(request.decision_id.as_str());
                Ok((ImageReview { request, phase: ReviewPhase::Receipt }, action))
            },
        }
    }

    fn ends(request: ImageRequest, action: Action) -> (r: (ImageReview, Action))
        ensures
            (r.0@, r.1@) == (ReviewRun { request: request@, phase: ReviewPhaseView::End }).ends(
                action@,
            ),
    {
        (ImageReview { request, phase: ReviewPhase::End }, action)
    }

    fn reads(request: ImageRequest, receipt: Receipt) -> (r: (ImageReview, Action))
        ensures
            (r.0@, r.1@) == (ReviewRun { request: request@, phase: ReviewPhaseView::End }).reads(
                receipt@,
            ),
    {
        let state = receipt.state;
        match receipt.payload {
            Err(message) => ImageReview::ends(request, failing(message.as_str())),
            Ok(s) => {
                if !text::same_text(s.image.r2_key.as_str(), request.r2_key.as_str()) {
                    ImageReview::ends(request, refusing("image review decision conflict", 409))
                } else {
                    let action = find_work(s.image.work_id.as_str());
                    (ImageReview { request, phase: ReviewPhase::CheckWork(s, state) }, action)
                }
            },
        }
    }

    fn begins(
        request: ImageRequest,
        image: ImageRow<String>,
        version: i64,
        count: usize,
        position: usize,
        rows: Vec<Publication<String>>,
    ) -> (r: (ImageReview, Action))
        ensures
            (r.0@, r.1@) == (ReviewRun { request: request@, phase: ReviewPhaseView::End }).begins(
                image@,
                version,
                count as nat,
                position as nat,
                crate::rows::views(rows@),
            ),
    {
        if rows.len() == 0 {
            return ImageReview::ends(
                request,
                refusing("telegram publication mapping missing", 409),
            );
        }
        match image_targets(rows.as_slice(), count, position) {
            Err(message) => ImageReview::ends(request, refusing(message, 409)),
            Ok(targets) => {
                let backup_key = catalog_backup_key(
                    request.decision_id.as_str(),
                    image.r2_key.as_str(),
                );
                let action = Action::Copy(image.r2_key.clone(), backup_key.clone());
                let s = Snapshot { image, targets, backup_key, review_version: Some(version) };
                (ImageReview { request, phase: ReviewPhase::Copying(s) }, action)
            },
        }
    }

    fn stale(request: ImageRequest) -> (r: (ImageReview, Action))
        ensures
            (r.0@, r.1@) == (ReviewRun { request: request@, phase: ReviewPhaseView::End }).stale(),
    {
        ImageReview::ends(
            request,
            refusing("work or publication changed; image review is no longer current", 409),
        )
    }

    fn current(request: ImageRequest, s: Snapshot, state: String) -> (r: (ImageReview, Action))
        ensures
            (r.0@, r.1@) == (ReviewRun { request: request@, phase: ReviewPhaseView::End }).current(
                s@,
                state@,
            ),
    {
        if text::same_text(request.action.as_str(), "prepare") {
            let reply = targets_reply(s.targets.as_slice(), state.as_str());
            return ImageReview::ends(request, Action::Reply(reply));
        }
        let undone = text::same_text(state.as_str(), "restored");
        let prepared = text::same_text(state.as_str(), "prepared");
        if text::same_text(request.action.as_str(), "delete") {
            if undone {
                ImageReview::ends(request, refusing("this deletion was already undone", 409))
            } else if prepared {
                (ImageReview { request, phase: ReviewPhase::DeleteTime(s) }, Action::Clock)
            } else {
                let reply = targets_reply(s.targets.as_slice(), "deleted");
                ImageReview::ends(request, Action::Reply(reply))
            }
        } else if undone {
            ImageReview::ends(request, Action::Reply(restored_reply()))
        } else if prepared {
            let batch = cancellation_batch(request.decision_id.as_str(), &s);
            (ImageReview { request, phase: ReviewPhase::Cancelling }, Action::Batch(batch))
        } else if !is_complete(request.restored.as_slice(), s.targets.as_slice()) {
            ImageReview::ends(request, refusing("restored Telegram targets are incomplete", 400))
        } else {
            let key = s.image.r2_key.clone();
            (ImageReview { request, phase: ReviewPhase::Finding(s) }, Action::Head(key))
        }
    }

    fn restores(request: ImageRequest, s: Snapshot) -> (r: (ImageReview, Action))
        ensures
            (r.0@, r.1@) == (ReviewRun { request: request@, phase: ReviewPhaseView::End }).restores(
                s@,
            ),
    {
        let batch = restoration_batch(
            request.decision_id.as_str(),
            &s,
            request.restored.as_slice(),
        );
        (ImageReview { request, phase: ReviewPhase::Restoring }, Action::Batch(batch))
    }

    /// Takes one step.
    pub fn step(self, event: Event) -> (r: (ImageReview, Action))
        ensures
            (r.0@, r.1@) == self@.next(event@),
    {
        let request = self.request;
        match (self.phase, event) {
            (ReviewPhase::Receipt, Event::ReviewReceipt(Some(receipt))) => ImageReview::reads(
                request,
                receipt,
            ),
            (ReviewPhase::Receipt, Event::ReviewReceipt(None)) => {
                if !text::same_text(request.action.as_str(), "prepare") {
                    ImageReview::ends(request, refusing("image review not prepared", 409))
                } else {
                    let query = Statement::new(ACTIVE_IMAGE_SQL).text(request.r2_key.as_str());
                    (
                        ImageReview { request, phase: ReviewPhase::Image },
                        Action::Query(Table::ReviewImage, query),
                    )
                }
            },
            (ReviewPhase::Image, Event::ReviewImage(None)) => ImageReview::ends(
                request,
                refusing("image not active", 409),
            ),
            (ReviewPhase::Image, Event::ReviewImage(Some(image))) => {
                let action = find_work(image.work_id.as_str());
                (ImageReview { request, phase: ReviewPhase::Work(image) }, action)
            },
            (ReviewPhase::Work(_), Event::ReviewWork(None)) => ImageReview::ends(
                request,
                Action::Fail("work disappeared".to_owned()),
            ),
            (ReviewPhase::Work(image), Event::ReviewWork(Some(work))) => {
                let query = Statement::new(WORK_IMAGES_SQL).text(image.work_id.as_str());
                (
                    ImageReview {
                        request,
                        phase: ReviewPhase::Images(image, work.review_version),
                    },
                    Action::Query(Table::ReviewImages, query),
                )
            },
            (ReviewPhase::Images(image, version), Event::ReviewImages(rows)) => {
                let count: usize = rows.len();
                match find_position(rows.as_slice(), image.id.as_str()) {
                    None => ImageReview::ends(
                        request,
                        Action::Fail("image disappeared".to_owned()),
                    ),
                    Some(position) => {
                        let query = Statement::new(LIVE_PUBLICATIONS_SQL).text(
                            image.work_id.as_str(),
                        );
                        (
                            ImageReview {
                                request,
                                phase: ReviewPhase::Publications(image, version, count, position),
                            },
                            Action::Query(Table::ReviewPublications, query),
                        )
                    },
                }
            },
            (
                ReviewPhase::Publications(image, version, count, position),
                Event::ReviewPublications(rows),
            ) => ImageReview::begins(request, image, version, count, position, rows),
            (ReviewPhase::Copying(s), Event::Done) => (
                ImageReview { request, phase: ReviewPhase::PrepareTime(s) },
                Action::Clock,
            ),
            (ReviewPhase::PrepareTime(s), Event::Now(now)) => {
                let insert = Statement::new(INSERT_REVIEW_SQL).text(
                    request.decision_id.as_str(),
                ).document(record_snapshot(&s)).text(now.as_str());
                (ImageReview { request, phase: ReviewPhase::Preparing }, Action::Run(insert))
            },
            (ReviewPhase::Preparing, Event::Done) => {
                let action = find_review(request.decision_id.as_str());
                (ImageReview { request, phase: ReviewPhase::Reread }, action)
            },
            (ReviewPhase::Reread, Event::ReviewReceipt(None)) => ImageReview::ends(
                request,
                Action::Fail("image review disappeared".to_owned()),
            ),
            (ReviewPhase::Reread, Event::ReviewReceipt(Some(receipt))) => ImageReview::reads(
                request,
                receipt,
            ),
            (ReviewPhase::CheckWork(s, state), Event::ReviewWork(work)) => {
                if !is_work_current(&s, state.as_str(), &work) {
                    ImageReview::stale(request)
                } else {
                    let query = Statement::new(CURRENT_IMAGE_SQL).text(s.image.id.as_str()).text(
                        s.image.r2_key.as_str(),
                    );
                    (
                        ImageReview { request, phase: ReviewPhase::CheckImage(s, state) },
                        Action::Query(Table::ReviewImage, query),
                    )
                }
            },
            (ReviewPhase::CheckImage(s, state), Event::ReviewImage(found)) => {
                if !is_image_current(&s, state.as_str(), &found) {
                    ImageReview::stale(request)
                } else if text::same_text(state.as_str(), "restored") {
                    ImageReview::current(request, s, state)
                } else {
                    let query = Statement::new(ALL_PUBLICATIONS_SQL).text(
                        s.image.work_id.as_str(),
                    );
                    (
                        ImageReview { request, phase: ReviewPhase::CheckPublications(s, state) },
                        Action::Query(Table::ReviewPublications, query),
                    )
                }
            },
            (ReviewPhase::CheckPublications(s, state), Event::ReviewPublications(rows)) => {
                if !are_publications_current(&s, state.as_str(), rows.as_slice()) {
                    ImageReview::stale(request)
                } else {
                    ImageReview::current(request, s, state)
                }
            },
            (ReviewPhase::DeleteTime(s), Event::Now(now)) => {
                let batch = removal_batch(request.decision_id.as_str(), &s, now.as_str());
                (ImageReview { request, phase: ReviewPhase::Deleting(s) }, Action::Batch(batch))
            },
            (ReviewPhase::Deleting(s), Event::Done) => {
                let reply = targets_reply(s.targets.as_slice(), "deleted");
                ImageReview::ends(request, Action::Reply(reply))
            },
            (ReviewPhase::Cancelling, Event::Done) => ImageReview::ends(
                request,
                Action::Reply(restored_reply()),
            ),
            (ReviewPhase::Finding(s), Event::Found(true)) => ImageReview::restores(request, s),
            (ReviewPhase::Finding(s), Event::Found(false)) => {
                let action = Action::Copy(s.backup_key.clone(), s.image.r2_key.clone());
                (ImageReview { request, phase: ReviewPhase::CopyingBack(s) }, action)
            },
            (ReviewPhase::CopyingBack(s), Event::Done) => ImageReview::restores(request, s),
            (ReviewPhase::Restoring, Event::Done) => ImageReview::ends(
                request,
                Action::Reply(restored_reply()),
            ),
            (_, Event::Failed(message)) => ImageReview::ends(request, failing(message.as_str())),
            (_, _) => ImageReview::ends(request, Action::Fail(UNEXPECTED.to_owned())),
        }
    }
}

// ---------------------------------------------------------------------------
// What holds of every run
// ---------------------------------------------------------------------------

/// Whether a stored review with this snapshot, in this state, was read in the
/// course of some events.
pub open spec fn was_read(events: Seq<EventView>, s: SnapshotView, state: Seq<char>) -> bool {
    events.contains(EventView::ReviewReceipt(Some(ReceiptView { payload: Ok(s), state })))
}

/// Whether a transaction is the one that a request asks for on a review with
/// this snapshot, in this state.
pub open spec fn follows(
    request: ImageRequestView,
    s: SnapshotView,
    state: Seq<char>,
    batch: Seq<StatementView>,
) -> bool {
    ||| {
        &&& request.action == "delete"@
        &&& state == "prepared"@
        &&& exists|now: Seq<char>|
            batch == #[trigger] delete_batch(request.decision_id, s, now)
    }
    ||| {
        &&& request.action == "restore"@
        &&& state == "prepared"@
        &&& batch == cancel_batch(request.decision_id, s)
    }
    ||| {
        &&& request.action == "restore"@
        &&& state != "prepared"@
        &&& state != "restored"@
        &&& complete(request.restored, s.targets)
        &&& batch == restore_batch(request.decision_id, s, request.restored)
    }
}

/// Whether a review in this state leads a request to put the image back.
spec fn puts_back(request: ImageRequestView, s: SnapshotView, state: Seq<char>) -> bool {
    &&& request.action == "restore"@
    &&& state != "prepared"@
    &&& state != "restored"@
    &&& complete(request.restored, s.targets)
}

/// What the state of a run tells of its past.
spec fn history(start: (ReviewRun, ActionView), events: Seq<EventView>) -> bool {
    let (now, asked) = crate::effect::after(start, events);
    let request = start.0.request;
    &&& now.request == request
    &&& asked !is Delete
    &&& asked !is Forget
    &&& match now.phase {
        ReviewPhaseView::CheckWork(s, state) => asked !is Batch && was_read(events, s, state),
        ReviewPhaseView::CheckImage(s, state) => asked !is Batch && was_read(events, s, state),
        ReviewPhaseView::CheckPublications(s, state) => asked !is Batch && was_read(
            events,
            s,
            state,
        ),
        ReviewPhaseView::DeleteTime(s) => asked !is Batch && request.action == "delete"@
            && was_read(events, s, "prepared"@),
        ReviewPhaseView::Finding(s) => asked !is Batch && exists|state: Seq<char>|
            puts_back(request, s, state) && #[trigger] was_read(events, s, state),
        ReviewPhaseView::CopyingBack(s) => asked !is Batch && exists|state: Seq<char>|
            puts_back(request, s, state) && #[trigger] was_read(events, s, state),
        ReviewPhaseView::Deleting(_) => asked is Batch && exists|s: SnapshotView, state: Seq<char>|
            #[trigger] was_read(events, s, state) && follows(request, s, state, asked->Batch_0),
        ReviewPhaseView::Cancelling => asked is Batch && exists|s: SnapshotView, state: Seq<char>|
            #[trigger] was_read(events, s, state) && follows(request, s, state, asked->Batch_0),
        ReviewPhaseView::Restoring => asked is Batch && exists|s: SnapshotView, state: Seq<char>|
            #[trigger] was_read(events, s, state) && follows(request, s, state, asked->Batch_0),
        _ => asked !is Batch,
    }
}

proof fn lemma_read_stays(events: Seq<EventView>, s: SnapshotView, state: Seq<char>)
    requires
        events.len() > 0,
        was_read(events.drop_last(), s, state),
    ensures
        was_read(events, s, state),
{
    let front = events.drop_last();
    let e = EventView::ReviewReceipt(Some(ReceiptView { payload: Ok(s), state }));
    let k = choose|k: int| 0 <= k < front.len() && front[k] == e;
    assert(events[k] == e);
}

proof fn lemma_history(
    request: ImageRequestView,
    start: (ReviewRun, ActionView),
    events: Seq<EventView>,
)
    requires
        review_begun(Some(request)) == Ok::<(ReviewRun, ActionView), ReplyView>(start),
    ensures
        history(start, events),
    decreases events.len(),
{
    if events.len() > 0 {
        let front = events.drop_last();
        let event = events.last();
        lemma_history(request, start, front);
        let (was, asked) = crate::effect::after(start, front);
        let (now, asks) = crate::effect::after(start, events);
        assert(events[events.len() - 1] == event);
        assert forall|s: SnapshotView, state: Seq<char>| was_read(
            front,
            s,
            state,
        ) implies #[trigger] was_read(events, s, state) by {
            lemma_read_stays(events, s, state);
        }
        match (was.phase, event) {
            (ReviewPhaseView::Receipt, EventView::ReviewReceipt(Some(receipt))) => {
                if receipt.payload is Ok {
                    assert(receipt.payload == Ok::<SnapshotView, Seq<char>>(receipt.payload->Ok_0));
                    assert(was_read(events, receipt.payload->Ok_0, receipt.state));
                }
            },
            (ReviewPhaseView::Reread, EventView::ReviewReceipt(Some(receipt))) => {
                if receipt.payload is Ok {
                    assert(was_read(events, receipt.payload->Ok_0, receipt.state));
                }
            },
            (ReviewPhaseView::CheckImage(s, state), EventView::ReviewImage(found)) => {
                lemma_current(start, events, was, s, state);
            },
            (ReviewPhaseView::CheckPublications(s, state), EventView::ReviewPublications(rows)) => {
                lemma_current(start, events, was, s, state);
                assert(was_read(events, s, state));
            },
            (ReviewPhaseView::DeleteTime(s), EventView::Now(t)) => {
                assert(asks == ActionView::Batch(delete_batch(request.decision_id, s, t)));
                assert(follows(request, s, "prepared"@, asks->Batch_0));
                assert(was_read(events, s, "prepared"@));
            },
            (ReviewPhaseView::Finding(s), EventView::Found(there)) => {
                let state = choose|state: Seq<char>|
                    puts_back(request, s, state) && #[trigger] was_read(front, s, state);
                assert(was_read(events, s, state));
                if there {
                    assert(follows(request, s, state, asks->Batch_0));
                }
            },
            (ReviewPhaseView::CopyingBack(s), EventView::Done) => {
                let state = choose|state: Seq<char>|
                    puts_back(request, s, state) && #[trigger] was_read(front, s, state);
                assert(was_read(events, s, state));
                assert(follows(request, s, state, asks->Batch_0));
            },
            _ => {},
        }
    }
}

/// What a current snapshot leads to is what its state allows.
proof fn lemma_current(
    start: (ReviewRun, ActionView),
    events: Seq<EventView>,
    was: ReviewRun,
    s: SnapshotView,
    state: Seq<char>,
)
    requires
        was.request == start.0.request,
        good_request(was.request),
        was_read(events, s, state),
    ensures
        ({
            let (now, asked) = was.current(s, state);
            &&& asked !is Delete
            &&& asked !is Forget
            &&& now.request == was.request
            &&& match now.phase {
                ReviewPhaseView::DeleteTime(t) => asked !is Batch && was.request.action
                    == "delete"@ && t == s && state == "prepared"@,
                ReviewPhaseView::Finding(t) => asked !is Batch && t == s && puts_back(
                    was.request,
                    s,
                    state,
                ),
                ReviewPhaseView::Cancelling => asked is Batch && follows(
                    was.request,
                    s,
                    state,
                    asked->Batch_0,
                ),
                ReviewPhaseView::End => asked !is Batch,
                _ => false,
            }
        }),
{
    reveal_strlit("prepare");
    reveal_strlit("delete");
    reveal_strlit("restore");
}

/// A transaction runs only on a stored review that allows it: an image is removed
/// only where the review is prepared, so never where it was undone before; it is
/// put back only with a message for each publication. The object itself is never
/// deleted.
pub proof fn law_review_changes_follow_its_state(
    request: ImageRequestView,
    start: (ReviewRun, ActionView),
    events: Seq<EventView>,
)
    requires
        review_begun(Some(request)) == Ok::<(ReviewRun, ActionView), ReplyView>(start),
    ensures
        crate::effect::after(start, events).1 !is Delete,
        crate::effect::after(start, events).1 !is Forget,
        crate::effect::after(start, events).1 matches ActionView::Batch(batch) ==> exists|
            s: SnapshotView,
            state: Seq<char>,
        | #[trigger] was_read(events, s, state) && follows(request, s, state, batch),
{
    lemma_history(request, start, events);
}

/// A deletion that was undone is never carried out again, however often it is
/// asked for.
pub proof fn law_undone_deletion_stays_undone(
    request: ImageRequestView,
    start: (ReviewRun, ActionView),
    events: Seq<EventView>,
)
    requires
        review_begun(Some(request)) == Ok::<(ReviewRun, ActionView), ReplyView>(start),
        request.action == "delete"@,
        forall|s: SnapshotView, state: Seq<char>| #[trigger]
            was_read(events, s, state) ==> state == "restored"@,
    ensures
        crate::effect::after(start, events).1 !is Batch,
{
    law_review_changes_follow_its_state(request, start, events);
    reveal_strlit("delete");
    reveal_strlit("restore");
    reveal_strlit("prepared");
    reveal_strlit("restored");
    assert("delete"@[0] != "restore"@[0]);
    assert("prepared"@[0] != "restored"@[0]);
}

proof fn lemma_restored_message(restored: Seq<RestoredTarget<Seq<char>>>, id: Seq<char>)
    requires
        restored_count(restored, id) > 0,
    ensures
        exists|j: int|
            0 <= j < restored.len() && (#[trigger] restored[j]).publication_id == id
                && restored[j].message_id == restored_message(restored, id),
    decreases restored.len(),
{
    if restored[0].publication_id == id {
        assert(restored[0].message_id == restored_message(restored, id));
    } else {
        let rest = restored.drop_first();
        lemma_count_drop_first(restored, id);
        lemma_restored_message(rest, id);
        let j = choose|j: int|
            0 <= j < rest.len() && (#[trigger] rest[j]).publication_id == id && rest[j].message_id
                == restored_message(rest, id);
        assert(restored[j + 1] == rest[j]);
    }
}

proof fn lemma_count_drop_first(restored: Seq<RestoredTarget<Seq<char>>>, id: Seq<char>)
    requires
        restored.len() > 0,
    ensures
        restored_count(restored, id) == restored_count(restored.drop_first(), id) + (
        if restored[0].publication_id == id {
            1nat
        } else {
            0nat
        }),
    decreases restored.len(),
{
    let rest = restored.drop_first();
    if rest.len() == 0 {
        assert(restored.drop_last() =~= rest);
    } else {
        assert(rest.drop_last() =~= restored.drop_last().drop_first());
        lemma_count_drop_first(restored.drop_last(), id);
    }
}

/// Putting an image back leaves each publication as it was, but for the new
/// message in the place of the removed one, and still with distinct messages: a
/// new review could be made of it.
pub proof fn law_restored_publication(
    publication: Publication<Seq<char>>,
    ids: Seq<i64>,
    image_count: nat,
    position: nat,
    targets: Seq<ImageTargetView>,
    i: int,
    restored: Seq<RestoredTarget<Seq<char>>>,
)
    requires
        position <= usize::MAX,
        0 <= i < targets.len(),
        target_of(publication, Some(ids), image_count, position) == Ok::<
            ImageTargetView,
            Seq<char>,
        >(targets[i]),
        complete(restored, targets),
    ensures
        ({
            let now = restored_ids(targets[i], restored);
            let message = restored_message(restored, targets[i].publication_id);
            &&& now == ids.update(position as int, message)
            &&& crate::catalog::distinct_positive(now)
        }),
{
    let t = targets[i];
    let p = position as int;
    let message = restored_message(restored, t.publication_id);
    let now = restored_ids(t, restored);
    law_target_goes_back(publication, ids, image_count, position, t);
    assert(now =~= ids.update(p, message));
    assert(restored_count(restored, t.publication_id) == 1 && !clashes(restored, t));
    lemma_restored_message(restored, t.publication_id);
    let j = choose|j: int|
        0 <= j < restored.len() && (#[trigger] restored[j]).publication_id == t.publication_id
            && restored[j].message_id == message;
    assert(message > 0);
    assert(!t.remaining.contains(message));
    assert forall|k: int| 0 <= k < now.len() implies (#[trigger] now[k]) > 0 by {
        if k != p {
            assert(now[k] == ids[k]);
        }
    }
    assert forall|a: int, b: int|
        0 <= a < now.len() && 0 <= b < now.len() && a != b implies now[a] != now[b] by {
        let c = if a == p {
            b
        } else {
            a
        };
        if a == p || b == p {
            let at = if c < p {
                c
            } else {
                c - 1
            };
            assert(t.remaining[at] == ids[c]);
            assert(t.remaining.contains(ids[c]));
        } else {
            assert(ids[a] != ids[b]);
        }
    }
}

/// The publication that a removal leaves is the one that the review expects
/// then, so that the review stays current.
pub proof fn law_shrunk_publication_is_expected(
    target: ImageTargetView,
    before: Publication<Seq<char>>,
    now: Seq<char>,
    left: Publication<Seq<char>>,
)
    requires
        publication_matches(
            before,
            outside::json_i64_list(before.message_ids_json),
            target,
            true,
        ),
        left.id == before.id,
        left.chat_id == before.chat_id,
        left.publish_state == before.publish_state,
        outside::json_i64_list(left.message_ids_json) == Some(target.remaining),
        crate::sql::optional_text(left.deleted_at) == shrink_statement(target, now).binds[2],
    ensures
        publication_matches(
            left,
            outside::json_i64_list(left.message_ids_json),
            target,
            false,
        ),
{
}

/// The names of the publications among some that are not deleted.
spec fn live_ids(rows: Seq<Publication<Seq<char>>>) -> Set<Seq<char>>
    decreases rows.len(),
{
    if rows.len() == 0 {
        Set::empty()
    } else if rows.last().deleted_at is None {
        live_ids(rows.drop_last()).insert(rows.last().id)
    } else {
        live_ids(rows.drop_last())
    }
}

/// The names of the publications among some targets that have messages.
spec fn active_ids(targets: Seq<ImageTargetView>, present: bool) -> Set<Seq<char>>
    decreases targets.len(),
{
    if targets.len() == 0 {
        Set::empty()
    } else if present || targets.last().remaining.len() > 0 {
        active_ids(targets.drop_last(), present).insert(targets.last().publication_id)
    } else {
        active_ids(targets.drop_last(), present)
    }
}

/// Whether no two publications have the same name.
pub open spec fn distinct_rows(rows: Seq<Publication<Seq<char>>>) -> bool {
    forall|i: int, j: int|
        0 <= i < j < rows.len() ==> (#[trigger] rows[i]).id != (#[trigger] rows[j]).id
}

/// Whether no two targets are of the same publication.
pub open spec fn distinct_targets(targets: Seq<ImageTargetView>) -> bool {
    forall|i: int, j: int|
        0 <= i < j < targets.len() ==> (#[trigger] targets[i]).publication_id != (
        #[trigger] targets[j]).publication_id
}

proof fn lemma_live_ids(rows: Seq<Publication<Seq<char>>>)
    requires
        distinct_rows(rows),
    ensures
        live_ids(rows).finite(),
        live_ids(rows).len() == live_count(rows),
        forall|id: Seq<char>| #[trigger]
            live_ids(rows).contains(id) <==> exists|j: int|
                0 <= j < rows.len() && (#[trigger] rows[j]).id == id && rows[j].deleted_at is None,
    decreases rows.len(),
{
    if rows.len() > 0 {
        let front = rows.drop_last();
        let last = rows.last();
        let n = rows.len() - 1;
        assert(forall|i: int| 0 <= i < n ==> #[trigger] front[i] == rows[i]);
        assert(distinct_rows(front)) by {
            assert forall|i: int, j: int| 0 <= i < j < front.len() implies (#[trigger] front[i]).id
                != (#[trigger] front[j]).id by {
                assert(rows[i].id != rows[j].id);
            }
        }
        lemma_live_ids(front);
        assert(!live_ids(front).contains(last.id)) by {
            if live_ids(front).contains(last.id) {
                let j = choose|j: int|
                    0 <= j < front.len() && (#[trigger] front[j]).id == last.id
                        && front[j].deleted_at is None;
                assert(rows[j].id != rows[n].id);
            }
        }
        assert forall|id: Seq<char>| #[trigger]
            live_ids(rows).contains(id) <==> exists|j: int|
                0 <= j < rows.len() && (#[trigger] rows[j]).id == id && rows[j].deleted_at
                    is None by {
            if live_ids(front).contains(id) {
                let j = choose|j: int|
                    0 <= j < front.len() && (#[trigger] front[j]).id == id && front[j].deleted_at
                        is None;
                assert(rows[j].id == id);
            }
            if last.deleted_at is None && last.id == id {
                assert(rows[n].id == id);
            }
            if exists|j: int|
                0 <= j < rows.len() && (#[trigger] rows[j]).id == id && rows[j].deleted_at
                    is None {
                let j = choose|j: int|
                    0 <= j < rows.len() && (#[trigger] rows[j]).id == id && rows[j].deleted_at
                        is None;
                if j < n {
                    assert(front[j].id == id);
                    assert(live_ids(front).contains(id));
                }
            }
        }
    }
}

proof fn lemma_active_ids(targets: Seq<ImageTargetView>, present: bool)
    requires
        distinct_targets(targets),
    ensures
        active_ids(targets, present).finite(),
        active_ids(targets, present).len() == active_count(targets, present),
        forall|id: Seq<char>| #[trigger]
            active_ids(targets, present).contains(id) <==> exists|i: int|
                0 <= i < targets.len() && (#[trigger] targets[i]).publication_id == id && (present
                    || targets[i].remaining.len() > 0),
    decreases targets.len(),
{
    if targets.len() > 0 {
        let front = targets.drop_last();
        let last = targets.last();
        let n = targets.len() - 1;
        let active = |t: ImageTargetView| present || t.remaining.len() > 0;
        assert(forall|i: int| 0 <= i < n ==> #[trigger] front[i] == targets[i]);
        assert(distinct_targets(front)) by {
            assert forall|i: int, j: int| 0 <= i < j < front.len() implies (
            #[trigger] front[i]).publication_id != (#[trigger] front[j]).publication_id by {
                assert(targets[i].publication_id != targets[j].publication_id);
            }
        }
        lemma_active_ids(front, present);
        assert(!active_ids(front, present).contains(last.publication_id)) by {
            if active_ids(front, present).contains(last.publication_id) {
                let j = choose|j: int|
                    0 <= j < front.len() && (#[trigger] front[j]).publication_id
                        == last.publication_id && (present || front[j].remaining.len() > 0);
                assert(targets[j].publication_id != targets[n].publication_id);
            }
        }
        assert forall|id: Seq<char>| #[trigger]
            active_ids(targets, present).contains(id) <==> exists|i: int|
                0 <= i < targets.len() && (#[trigger] targets[i]).publication_id == id && (present
                    || targets[i].remaining.len() > 0) by {
            if active_ids(front, present).contains(id) {
                let j = choose|j: int|
                    0 <= j < front.len() && (#[trigger] front[j]).publication_id == id && (present
                        || front[j].remaining.len() > 0);
                assert(targets[j].publication_id == id);
            }
            if active(last) && last.publication_id == id {
                assert(targets[n].publication_id == id);
            }
            if exists|i: int|
                0 <= i < targets.len() && (#[trigger] targets[i]).publication_id == id && (present
                    || targets[i].remaining.len() > 0) {
                let j = choose|j: int|
                    0 <= j < targets.len() && (#[trigger] targets[j]).publication_id == id && (
                    present || targets[j].remaining.len() > 0);
                if j < n {
                    assert(front[j].publication_id == id);
                    assert(active_ids(front, present).contains(id));
                }
            }
        }
    }
}

/// Whether the publications of a work are as a removal of the image left them:
/// those of the targets have lost its message, and are deleted where it was their
/// last one; the others are as before.
pub open spec fn shrunk(
    targets: Seq<ImageTargetView>,
    now: Seq<char>,
    before: Seq<Publication<Seq<char>>>,
    left: Seq<Publication<Seq<char>>>,
) -> bool {
    &&& left.len() == before.len()
    &&& forall|j: int| 0 <= j < before.len() ==> (#[trigger] left[j]).id == before[j].id
    &&& forall|j: int, i: int|
        0 <= j < before.len() && 0 <= i < targets.len() && (#[trigger] before[j]).id == (
        #[trigger] targets[i]).publication_id ==> {
            &&& left[j].chat_id == before[j].chat_id
            &&& left[j].publish_state == before[j].publish_state
            &&& outside::json_i64_list(left[j].message_ids_json) == Some(targets[i].remaining)
            &&& crate::sql::optional_text(left[j].deleted_at) == shrink_statement(
                targets[i],
                now,
            ).binds[2]
        }
    &&& forall|j: int|
        0 <= j < before.len() && (forall|i: int|
            0 <= i < targets.len() ==> (#[trigger] targets[i]).publication_id != before[j].id)
            ==> (#[trigger] left[j]) == before[j]
}

/// A review that was carried out can be confirmed or undone: the publications
/// that the removal leaves are the ones that the review expects from then on.
pub proof fn law_removal_keeps_review_current(
    snapshot: SnapshotView,
    now: Seq<char>,
    before: Seq<Publication<Seq<char>>>,
    left: Seq<Publication<Seq<char>>>,
)
    requires
        distinct_rows(before),
        distinct_targets(snapshot.targets),
        publications_are_current(snapshot, "prepared"@, before),
        shrunk(snapshot.targets, now, before, left),
    ensures
        publications_are_current(snapshot, "deleted"@, left),
{
    let targets = snapshot.targets;
    reveal_strlit("prepared");
    reveal_strlit("deleted");
    assert("prepared"@[0] != "deleted"@[0]);
    assert(distinct_rows(left)) by {
        assert forall|i: int, j: int| 0 <= i < j < left.len() implies (#[trigger] left[i]).id != (
        #[trigger] left[j]).id by {
            assert(before[i].id != before[j].id);
        }
    }
    lemma_live_ids(before);
    lemma_live_ids(left);
    lemma_active_ids(targets, true);
    lemma_active_ids(targets, false);
    // Each target is a live publication, and there are as many of them.
    assert forall|id: Seq<char>| active_ids(targets, true).contains(id) implies live_ids(
        before,
    ).contains(id) by {
        let i = choose|i: int|
            0 <= i < targets.len() && (#[trigger] targets[i]).publication_id == id && (true
                || targets[i].remaining.len() > 0);
        let j = lemma_match(before, targets[i], true);
        assert(targets[i].expected(true).len() > 0);
        assert(before[j].id == id && before[j].deleted_at is None);
    }
    assert(active_ids(targets, true).subset_of(live_ids(before)));
    vstd::set_lib::lemma_subset_equality(active_ids(targets, true), live_ids(before));
    assert(live_ids(left) =~= active_ids(targets, false)) by {
        assert forall|id: Seq<char>| live_ids(left).contains(id) implies active_ids(
            targets,
            false,
        ).contains(id) by {
            let j = choose|j: int|
                0 <= j < left.len() && (#[trigger] left[j]).id == id && left[j].deleted_at is None;
            if exists|i: int|
                0 <= i < targets.len() && (#[trigger] targets[i]).publication_id == before[j].id {
                let i = choose|i: int|
                    0 <= i < targets.len() && (#[trigger] targets[i]).publication_id
                        == before[j].id;
                lemma_shrink_marks(targets[i], now);
                assert(targets[i].remaining.len() > 0);
            } else {
                assert(left[j] == before[j]);
                assert(before[j].id == id);
                assert(live_ids(before).contains(id));
                assert(active_ids(targets, true).contains(id));
                let i = choose|i: int|
                    0 <= i < targets.len() && (#[trigger] targets[i]).publication_id == id && (true
                        || targets[i].remaining.len() > 0);
                assert(targets[i].publication_id == before[j].id);
            }
        }
        assert forall|id: Seq<char>| active_ids(targets, false).contains(id) implies live_ids(
            left,
        ).contains(id) by {
            let i = choose|i: int|
                0 <= i < targets.len() && (#[trigger] targets[i]).publication_id == id && (false
                    || targets[i].remaining.len() > 0);
            let j = lemma_match(before, targets[i], true);
            assert(before[j].id == targets[i].publication_id);
            lemma_shrink_marks(targets[i], now);
            assert(left[j].id == id && left[j].deleted_at is None);
        }
    }
    assert forall|i: int| 0 <= i < targets.len() implies has_match(
        left,
        #[trigger] targets[i],
        false,
    ) by {
        let j = lemma_match(before, targets[i], true);
        assert(before[j].id == targets[i].publication_id);
        law_shrunk_publication_is_expected(targets[i], before[j], now, left[j]);
        assert(publication_matches(
            left[j],
            outside::json_i64_list(left[j].message_ids_json),
            targets[i],
            false,
        ));
    }
}

proof fn lemma_match(
    rows: Seq<Publication<Seq<char>>>,
    target: ImageTargetView,
    present: bool,
) -> (j: int)
    requires
        has_match(rows, target, present),
    ensures
        0 <= j < rows.len(),
        publication_matches(
            rows[j],
            outside::json_i64_list(rows[j].message_ids_json),
            target,
            present,
        ),
{
    choose|j: int|
        0 <= j < rows.len() && publication_matches(
            #[trigger] rows[j],
            outside::json_i64_list(rows[j].message_ids_json),
            target,
            present,
        )
}

proof fn lemma_shrink_marks(target: ImageTargetView, now: Seq<char>)
    ensures
        shrink_statement(target, now).binds[2] == (if target.remaining.len() > 0 {
            crate::sql::SqlView::Null
        } else {
            crate::sql::SqlView::Text(now)
        }),
{
}

/// The targets of a review are all left without messages exactly where the image
/// is the only one of its work: the work goes with its last image.
pub proof fn law_last_image_leaves_nothing(
    rows: Seq<Publication<Seq<char>>>,
    image_count: nat,
    position: nat,
    targets: Seq<ImageTargetView>,
)
    requires
        rows.len() > 0,
        targets_of(rows, image_count, position) == Ok::<Seq<ImageTargetView>, Seq<char>>(targets),
    ensures
        targets.len() == rows.len(),
        nothing_remains(targets) <==> image_count == 1,
{
    lemma_remaining(rows, image_count, position, targets);
    assert(targets[0].remaining.len() + 1 == image_count);
}

proof fn lemma_remaining(
    rows: Seq<Publication<Seq<char>>>,
    image_count: nat,
    position: nat,
    targets: Seq<ImageTargetView>,
)
    requires
        targets_of(rows, image_count, position) == Ok::<Seq<ImageTargetView>, Seq<char>>(targets),
    ensures
        targets.len() == rows.len(),
        forall|i: int|
            0 <= i < targets.len() ==> (#[trigger] targets[i]).remaining.len() + 1 == image_count,
    decreases rows.len(),
{
    if rows.len() > 0 {
        let front = targets_of(rows.drop_last(), image_count, position)->Ok_0;
        lemma_remaining(rows.drop_last(), image_count, position, front);
        assert forall|i: int| 0 <= i < targets.len() implies (#[trigger] targets[i]).remaining.len()
            + 1 == image_count by {
            if i < front.len() {
                assert(targets[i] == front[i]);
            }
        }
    }
}

// ---------------------------------------------------------------------------
// What the documents and the statements of a review say
// ---------------------------------------------------------------------------

/// Whether a document reads, member by member, as a target.
pub open spec fn reads_as_target(document: JsonView, t: ImageTargetView) -> bool {
    &&& crate::json::member_count(document) == 5
    &&& crate::json::tells(document, "chat_id"@, JsonView::Num(t.chat_id as int))
    &&& crate::json::tells(document, "message_id"@, JsonView::Num(t.message_id as int))
    &&& crate::json::tells(document, "position"@, JsonView::Num(t.position as int))
    &&& crate::json::tells(document, "publication_id"@, JsonView::Text(t.publication_id))
    &&& crate::json::tells(document, "remaining"@, JsonView::List(crate::json::number_documents(t.remaining)))
}

/// Whether a list of documents reads as a list of targets, in their order.
pub open spec fn read_as_targets(list: Seq<JsonView>, targets: Seq<ImageTargetView>) -> bool {
    &&& list.len() == targets.len()
    &&& forall|i: int| 0 <= i < list.len() ==> reads_as_target(#[trigger] list[i], targets[i])
}

/// Whether a reply is a success that names some targets and a state.
pub open spec fn names_targets(
    reply: ReplyView,
    targets: Seq<ImageTargetView>,
    state: Seq<char>,
) -> bool {
    &&& reply.status == 200
    &&& crate::json::member_count(reply.body) == 3
    &&& crate::json::tells(reply.body, "ok"@, JsonView::Bool(true))
    &&& crate::json::tells(reply.body, "state"@, JsonView::Text(state))
    &&& exists|list: Seq<JsonView>| #[trigger]
        crate::json::tells(reply.body, "targets"@, JsonView::List(list)) && read_as_targets(
            list,
            targets,
        )
}

/// Whether a reply is a success that says the image is back, and no more.
pub open spec fn says_restored(reply: ReplyView) -> bool {
    &&& reply.status == 200
    &&& crate::json::member_count(reply.body) == 2
    &&& crate::json::tells(reply.body, "ok"@, JsonView::Bool(true))
    &&& crate::json::tells(reply.body, "state"@, JsonView::Text("restored"@))
}

/// A target is told and recorded with the same members: both read as the target.
pub proof fn law_target_reads_back(t: ImageTargetView)
    ensures
        reads_as_target(told_target(t), t),
        reads_as_target(recorded_target(t), t),
{
    reveal_strlit("chat_id");
    reveal_strlit("message_id");
    reveal_strlit("position");
    reveal_strlit("publication_id");
    reveal_strlit("remaining");
    assert("chat_id"@.len() != "message_id"@.len());
    assert("chat_id"@.len() != "position"@.len());
    assert("chat_id"@.len() != "publication_id"@.len());
    assert("chat_id"@.len() != "remaining"@.len());
    assert("message_id"@.len() != "position"@.len());
    assert("message_id"@.len() != "publication_id"@.len());
    assert("message_id"@.len() != "remaining"@.len());
    assert("position"@.len() != "publication_id"@.len());
    assert("position"@.len() != "remaining"@.len());
    assert("publication_id"@.len() != "remaining"@.len());
    let d = told_target(t);
    let l_d = d->Object_0;
    assert(l_d[0].name == "chat_id"@ && l_d[0].value == JsonView::Num(t.chat_id as int));
    assert(l_d[1].name == "message_id"@ && l_d[1].value == JsonView::Num(t.message_id as int));
    assert(l_d[2].name == "position"@ && l_d[2].value == JsonView::Num(t.position as int));
    assert(l_d[3].name == "publication_id"@ && l_d[3].value == JsonView::Text(t.publication_id));
    assert(l_d[4].name == "remaining"@ && l_d[4].value == JsonView::List(crate::json::number_documents(t.remaining)));
    let e = recorded_target(t);
    let l_e = e->Object_0;
    assert(l_e[0].name == "publication_id"@ && l_e[0].value == JsonView::Text(t.publication_id));
    assert(l_e[1].name == "chat_id"@ && l_e[1].value == JsonView::Num(t.chat_id as int));
    assert(l_e[2].name == "message_id"@ && l_e[2].value == JsonView::Num(t.message_id as int));
    assert(l_e[3].name == "remaining"@ && l_e[3].value == JsonView::List(crate::json::number_documents(t.remaining)));
    assert(l_e[4].name == "position"@ && l_e[4].value == JsonView::Num(t.position as int));
}

/// A reply with targets names each of them, in their order.
proof fn lemma_targets_named(targets: Seq<ImageTargetView>, state: Seq<char>)
    ensures
        names_targets(targets_view(targets, state), targets, state),
{
    let list = targets.map_values(|t: ImageTargetView| told_target(t));
    assert forall|i: int| 0 <= i < list.len() implies reads_as_target(
        #[trigger] list[i],
        targets[i],
    ) by {
        law_target_reads_back(targets[i]);
    }
    assert(read_as_targets(list, targets));
    reveal_strlit("ok");
    reveal_strlit("state");
    reveal_strlit("targets");
    assert("ok"@.len() != "state"@.len());
    assert("ok"@.len() != "targets"@.len());
    assert("state"@.len() != "targets"@.len());
    let d = targets_view(targets, state).body;
    let l_d = d->Object_0;
    assert(l_d[0].name == "ok"@ && l_d[0].value == JsonView::Bool(true));
    assert(l_d[1].name == "state"@ && l_d[1].value == JsonView::Text(state));
    assert(l_d[2].name == "targets"@ && l_d[2].value == JsonView::List(list));
    assert(crate::json::tells(d, "targets"@, JsonView::List(list)));
}

proof fn lemma_restored_said()
    ensures
        says_restored(restored_view()),
{
    reveal_strlit("ok");
    reveal_strlit("state");
    assert("ok"@.len() != "state"@.len());
    let d = restored_view().body;
    let l_d = d->Object_0;
    assert(l_d[0].name == "ok"@ && l_d[0].value == JsonView::Bool(true));
    assert(l_d[1].name == "state"@ && l_d[1].value == JsonView::Text("restored"@));
}

/// What a current review is answered: to prepare it again names its targets and
/// its state, whatever that is; a deletion that is done names the targets and the
/// state `deleted`; an image that is back is told without them. An image is
/// removed only from a prepared review, and an undone deletion is refused.
pub proof fn law_current_review_is_answered(
    run: ReviewRun,
    s: SnapshotView,
    state: Seq<char>,
    rows: Seq<Publication<Seq<char>>>,
)
    requires
        run.phase == ReviewPhaseView::CheckPublications(s, state),
        publications_are_current(s, state, rows),
        state == "prepared"@ || state == "deleted"@,
    ensures
        ({
            let asks = run.next(EventView::ReviewPublications(rows)).1;
            &&& run.request.action == "prepare"@ ==> asks is Reply && names_targets(
                asks->Reply_0,
                s.targets,
                state,
            )
            &&& run.request.action == "delete"@ && state == "deleted"@ ==> asks is Reply
                && names_targets(asks->Reply_0, s.targets, "deleted"@)
            &&& run.request.action == "delete"@ && state == "prepared"@ ==> asks
                == ActionView::Clock
            &&& run.request.action == "restore"@ && state == "prepared"@ ==> asks is Batch
            &&& run.request.action == "restore"@ && state == "deleted"@ && complete(
                run.request.restored,
                s.targets,
            ) ==> asks == ActionView::Head(s.image.r2_key)
            &&& run.request.action == "restore"@ && state == "deleted"@ && !complete(
                run.request.restored,
                s.targets,
            ) ==> asks is Reply && asks->Reply_0.status == 400
        }),
{
    reveal_strlit("prepare");
    reveal_strlit("prepared");
    reveal_strlit("delete");
    reveal_strlit("deleted");
    reveal_strlit("restore");
    reveal_strlit("restored");
    assert("prepare"@[0] != "restore"@[0]);
    assert("prepared"@[0] != "restored"@[0]);
    lemma_targets_named(s.targets, state);
    lemma_targets_named(s.targets, "deleted"@);
}

/// What the last steps of a review tell: the targets once the image is removed,
/// and that it is back once it is. A restored object is copied from the backup
/// only where it is not there.
pub proof fn law_done_review_is_answered(run: ReviewRun, s: SnapshotView)
    ensures
        ({
            let told = ReviewRun { request: run.request, phase: ReviewPhaseView::Deleting(s) }.next(
                EventView::Done,
            ).1;
            told is Reply && names_targets(told->Reply_0, s.targets, "deleted"@)
        }),
        ({
            let told = ReviewRun { request: run.request, phase: ReviewPhaseView::Cancelling }.next(
                EventView::Done,
            ).1;
            told is Reply && says_restored(told->Reply_0)
        }),
        ({
            let told = ReviewRun { request: run.request, phase: ReviewPhaseView::Restoring }.next(
                EventView::Done,
            ).1;
            told is Reply && says_restored(told->Reply_0)
        }),
        ({
            let finding = ReviewRun { request: run.request, phase: ReviewPhaseView::Finding(s) };
            let (back, copies) = finding.next(EventView::Found(false));
            &&& finding.next(EventView::Found(true)).1 is Batch
            &&& copies == ActionView::Copy(s.backup_key, s.image.r2_key)
            &&& back.next(EventView::Done) == finding.next(EventView::Found(true))
        }),
{
    lemma_targets_named(s.targets, "deleted"@);
    lemma_restored_said();
}

/// An undone review is answered without a look at its publications: to prepare it
/// names its targets, to delete is refused, to restore says that the image is
/// back.
pub proof fn law_undone_review_is_answered(
    run: ReviewRun,
    s: SnapshotView,
    found: Option<ImageRow<Seq<char>>>,
)
    requires
        run.phase == ReviewPhaseView::CheckImage(s, "restored"@),
        image_is_current(s, "restored"@, found),
    ensures
        ({
            let asks = run.next(EventView::ReviewImage(found)).1;
            &&& asks is Reply
            &&& run.request.action == "prepare"@ ==> names_targets(
                asks->Reply_0,
                s.targets,
                "restored"@,
            )
            &&& run.request.action == "delete"@ ==> asks->Reply_0.status == 409
            &&& run.request.action == "restore"@ ==> says_restored(asks->Reply_0)
        }),
{
    reveal_strlit("prepare");
    reveal_strlit("prepared");
    reveal_strlit("delete");
    reveal_strlit("restore");
    reveal_strlit("restored");
    assert("prepare"@[0] != "restore"@[0]);
    assert("prepared"@[0] != "restored"@[0]);
    lemma_targets_named(s.targets, "restored"@);
    lemma_restored_said();
}

/// A snapshot is recorded in full: its image, its targets, its backup and the
/// version of the work read back as they were.
pub proof fn law_snapshot_reads_back(s: SnapshotView)
    ensures
        crate::json::member_count(snapshot_document(s)) == 4,
        exists|image: JsonView|
            {
                &&& #[trigger] crate::json::tells(snapshot_document(s), "image"@, image)
                &&& crate::json::member_count(image) == 8
                &&& crate::json::tells(image, "id"@, JsonView::Text(s.image.id))
                &&& crate::json::tells(image, "work_id"@, JsonView::Text(s.image.work_id))
                &&& crate::json::tells(image, "page_index"@, JsonView::Num(s.image.page_index as int))
                &&& crate::json::tells(image, "r2_key"@, JsonView::Text(s.image.r2_key))
                &&& crate::json::tells(image, "content_type"@, JsonView::Text(s.image.content_type))
                &&& crate::json::tells(image, "byte_size"@, JsonView::Num(s.image.byte_size as int))
                &&& crate::json::tells(image, "created_at"@, JsonView::Text(s.image.created_at))
                &&& crate::json::tells(image, "sha256"@, JsonView::Text(s.image.sha256))
            },
        exists|list: Seq<JsonView>| #[trigger]
            crate::json::tells(snapshot_document(s), "targets"@, JsonView::List(list))
                && read_as_targets(list, s.targets),
        crate::json::tells(snapshot_document(s), "backup_key"@, JsonView::Text(s.backup_key)),
        s.review_version is Some ==> crate::json::tells(
            snapshot_document(s),
            "review_version"@,
            JsonView::Num(s.review_version->0 as int),
        ),
        s.review_version is None ==> crate::json::tells(
            snapshot_document(s),
            "review_version"@,
            JsonView::Null,
        ),
{
    let d = snapshot_document(s);
    let l_d = d->Object_0;
    let image = l_d[0].value;
    let list = s.targets.map_values(|t: ImageTargetView| recorded_target(t));
    assert forall|i: int| 0 <= i < list.len() implies reads_as_target(
        #[trigger] list[i],
        s.targets[i],
    ) by {
        law_target_reads_back(s.targets[i]);
    }
    assert(read_as_targets(list, s.targets));
    reveal_strlit("image");
    reveal_strlit("targets");
    reveal_strlit("backup_key");
    reveal_strlit("review_version");
    assert("image"@.len() != "targets"@.len());
    assert("image"@.len() != "backup_key"@.len());
    assert("image"@.len() != "review_version"@.len());
    assert("targets"@.len() != "backup_key"@.len());
    assert("targets"@.len() != "review_version"@.len());
    assert("backup_key"@.len() != "review_version"@.len());
    assert(l_d[0].name == "image"@);
    assert(l_d[1].name == "targets"@ && l_d[1].value == JsonView::List(list));
    assert(l_d[2].name == "backup_key"@);
    assert(l_d[3].name == "review_version"@);
    assert(crate::json::tells(d, "targets"@, JsonView::List(list)));
    reveal_strlit("id");
    reveal_strlit("work_id");
    reveal_strlit("page_index");
    reveal_strlit("r2_key");
    reveal_strlit("content_type");
    reveal_strlit("byte_size");
    reveal_strlit("created_at");
    reveal_strlit("sha256");
    assert("id"@.len() != "work_id"@.len());
    assert("id"@.len() != "page_index"@.len());
    assert("id"@.len() != "r2_key"@.len());
    assert("id"@.len() != "content_type"@.len());
    assert("id"@.len() != "byte_size"@.len());
    assert("id"@.len() != "created_at"@.len());
    assert("id"@.len() != "sha256"@.len());
    assert("work_id"@.len() != "page_index"@.len());
    assert("work_id"@.len() != "r2_key"@.len());
    assert("work_id"@.len() != "content_type"@.len());
    assert("work_id"@.len() != "byte_size"@.len());
    assert("work_id"@.len() != "created_at"@.len());
    assert("work_id"@.len() != "sha256"@.len());
    assert("page_index"@.len() != "r2_key"@.len());
    assert("page_index"@.len() != "content_type"@.len());
    assert("page_index"@.len() != "byte_size"@.len());
    assert("page_index"@.len() != "sha256"@.len());
    assert("r2_key"@.len() != "content_type"@.len());
    assert("r2_key"@.len() != "byte_size"@.len());
    assert("r2_key"@.len() != "created_at"@.len());
    assert("content_type"@.len() != "byte_size"@.len());
    assert("content_type"@.len() != "created_at"@.len());
    assert("content_type"@.len() != "sha256"@.len());
    assert("byte_size"@.len() != "created_at"@.len());
    assert("byte_size"@.len() != "sha256"@.len());
    assert("created_at"@.len() != "sha256"@.len());
    assert("page_index"@[0] != "created_at"@[0]);
    assert("r2_key"@[0] != "sha256"@[0]);
    let e = image;
    let l_e = e->Object_0;
    assert(l_e[0].name == "id"@ && l_e[0].value == JsonView::Text(s.image.id));
    assert(l_e[1].name == "work_id"@ && l_e[1].value == JsonView::Text(s.image.work_id));
    assert(l_e[2].name == "page_index"@ && l_e[2].value == JsonView::Num(s.image.page_index as int));
    assert(l_e[3].name == "r2_key"@ && l_e[3].value == JsonView::Text(s.image.r2_key));
    assert(l_e[4].name == "content_type"@ && l_e[4].value == JsonView::Text(s.image.content_type));
    assert(l_e[5].name == "byte_size"@ && l_e[5].value == JsonView::Num(s.image.byte_size as int));
    assert(l_e[6].name == "created_at"@ && l_e[6].value == JsonView::Text(s.image.created_at));
    assert(l_e[7].name == "sha256"@ && l_e[7].value == JsonView::Text(s.image.sha256));
    assert(crate::json::tells(d, "image"@, image));
}

/// The messages of the publication of a target: those that remain, and the one of
/// the image in its place, where that is one of the list.
pub open spec fn full_list(t: ImageTargetView) -> Seq<i64> {
    t.remaining.take(t.position as int).push(t.message_id) + t.remaining.skip(t.position as int)
}

/// The transaction that removes an image, statement by statement. It first makes
/// sure that the review is prepared and the work, the image and each publication
/// are as the snapshot says. Then the row of this very image goes, each
/// publication loses the message of the image, keeps the others and gets the
/// first of them as its anchor; one that loses its last message is deleted. The
/// pages of the work are counted anew, and the review is marked.
#[verifier::rlimit(60)]
pub proof fn law_removal_statements(
    decision_id: Seq<char>,
    s: SnapshotView,
    now: Seq<char>,
)
    requires
        forall|i: int|
            0 <= i < s.targets.len() ==> (#[trigger] s.targets[i]).position
                <= s.targets[i].remaining.len(),
    ensures
        delete_batch(decision_id, s, now).len() == 2 * s.targets.len() + 5,
        crate::sql::says(
            delete_batch(decision_id, s, now)[0],
            "UPDATE catalog_image_reviews SET state=CASE WHEN state=? AND EXISTS(SELECT 1 FROM works WHERE id=? AND review_version=? AND (deleted_at IS NOT NULL)=?) AND (SELECT COUNT(*) FROM telegram_publications WHERE work_id=? AND deleted_at IS NULL)=? AND (EXISTS(SELECT 1 FROM images WHERE id=? OR r2_key=?))=? THEN state ELSE 'conflict' END WHERE decision_id=?"@,
            seq![
                crate::sql::SqlView::Text("prepared"@),
                crate::sql::SqlView::Text(s.image.work_id),
                crate::sql::SqlView::Num(match s.review_version {
                        Some(v) => v as int,
                        None => -1int,
                }),
                crate::sql::SqlView::Num(0),
                crate::sql::SqlView::Text(s.image.work_id),
                crate::sql::SqlView::Num(s.targets.len() as int),
                crate::sql::SqlView::Text(s.image.id),
                crate::sql::SqlView::Text(s.image.r2_key),
                crate::sql::SqlView::Num(1),
                crate::sql::SqlView::Text(decision_id),
            ],
        ),
        crate::sql::says(
            delete_batch(decision_id, s, now)[1],
            "UPDATE catalog_image_reviews SET state=CASE WHEN EXISTS(SELECT 1 FROM images WHERE id=? AND r2_key=?) THEN state ELSE 'conflict' END WHERE decision_id=?"@,
            seq![
                crate::sql::SqlView::Text(s.image.id),
                crate::sql::SqlView::Text(s.image.r2_key),
                crate::sql::SqlView::Text(decision_id),
            ],
        ),
        forall|i: int|
            0 <= i < s.targets.len() ==> crate::sql::says(
                delete_batch(decision_id, s, now)[2 + i],
                "UPDATE catalog_image_reviews SET state=CASE WHEN EXISTS(SELECT 1 FROM telegram_publications WHERE id=? AND work_id=? AND chat_id=? AND message_ids_json=? AND publish_state='full' AND (deleted_at IS NOT NULL)=?) THEN state ELSE 'conflict' END WHERE decision_id=?"@,
                seq![
                    crate::sql::SqlView::Text((#[trigger] s.targets[i]).publication_id),
                    crate::sql::SqlView::Text(s.image.work_id),
                    crate::sql::SqlView::Num(s.targets[i].chat_id as int),
                    crate::sql::SqlView::Text(outside::json_of_i64s(full_list(s.targets[i]))),
                    crate::sql::SqlView::Num(if full_list(s.targets[i]).len() == 0 { 1int } else { 0int }),
                    crate::sql::SqlView::Text(decision_id),
                ],
            ),
        crate::sql::says(
            delete_batch(decision_id, s, now)[2 + s.targets.len() as int],
            "DELETE FROM images WHERE id=? AND r2_key=?"@,
            seq![
                crate::sql::SqlView::Text(s.image.id),
                crate::sql::SqlView::Text(s.image.r2_key),
            ],
        ),
        forall|i: int|
            0 <= i < s.targets.len() ==> crate::sql::says(
                delete_batch(
                    decision_id,
                    s,
                    now,
                )[3 + s.targets.len() + i],
                "UPDATE telegram_publications SET message_ids_json=?,anchor_message_id=?,deleted_at=? WHERE id=?"@,
                seq![
                    crate::sql::SqlView::Text(outside::json_of_i64s((#[trigger] s.targets[i]).remaining)),
                    crate::sql::SqlView::Num(if s.targets[i].remaining.len() > 0 {
                            s.targets[i].remaining[0] as int
                        } else {
                            s.targets[i].message_id as int
                    }),
                    if s.targets[i].remaining.len() > 0 {
                        crate::sql::SqlView::Null
                    } else {
                        crate::sql::SqlView::Text(now)
                    },
                    crate::sql::SqlView::Text(s.targets[i].publication_id),
                ],
            ),
        crate::sql::says(
            delete_batch(decision_id, s, now)[3 + 2 * s.targets.len() as int],
            "UPDATE works SET page_count=(SELECT COUNT(*) FROM images WHERE work_id=?),deleted_at=CASE WHEN EXISTS(SELECT 1 FROM images WHERE work_id=?) THEN NULL ELSE ? END WHERE id=?"@,
            seq![
                crate::sql::SqlView::Text(s.image.work_id),
                crate::sql::SqlView::Text(s.image.work_id),
                crate::sql::SqlView::Text(now),
                crate::sql::SqlView::Text(s.image.work_id),
            ],
        ),
        crate::sql::says(
            delete_batch(decision_id, s, now)[4 + 2 * s.targets.len() as int],
            "UPDATE catalog_image_reviews SET state='deleted' WHERE decision_id=?"@,
            seq![
                crate::sql::SqlView::Text(decision_id),
            ],
        ),
{
    let n = s.targets.len() as int;
    let batch = delete_batch(decision_id, s, now);
    reveal_strlit("prepared");
    lemma_all_active(s.targets);
    let head = guards(decision_id, s, "prepared"@);
    let pubs = target_guards(s, true, decision_id);
    assert(pubs.len() == n);
    assert(head.len() == 2 + n);
    assert forall|i: int| 0 <= i < n implies batch[2 + i] == target_guard(
        #[trigger] s.targets[i],
        s.image.work_id,
        true,
        decision_id,
    ) && s.targets[i].expected(true) == full_list(s.targets[i]) by {
        assert(batch[2 + i] == pubs[i]);
        lemma_full_list(s.targets[i]);
    }
    let less = shrink_statements(s.targets, now);
    assert forall|i: int| 0 <= i < n implies batch[3 + n + i] == shrink_statement(
        #[trigger] s.targets[i],
        now,
    ) by {
        assert(batch[3 + n + i] == less[i]);
    }
}

proof fn lemma_full_list(t: ImageTargetView)
    requires
        t.position <= t.remaining.len(),
    ensures
        t.expected(true) == full_list(t),
{
    assert(t.expected(true) =~= full_list(t));
}

proof fn lemma_all_active(targets: Seq<ImageTargetView>)
    ensures
        active_count(targets, true) == targets.len(),
    decreases targets.len(),
{
    if targets.len() > 0 {
        lemma_all_active(targets.drop_last());
    }
}

proof fn lemma_active_remain(targets: Seq<ImageTargetView>)
    ensures
        active_count(targets, false) == targets.filter(
            |t: ImageTargetView| t.remaining.len() > 0,
        ).len(),
        active_count(targets, false) == 0 <==> forall|i: int|
            0 <= i < targets.len() ==> (#[trigger] targets[i]).remaining.len() == 0,
    decreases targets.len(),
{
    reveal(Seq::filter);
    if targets.len() > 0 {
        let front = targets.drop_last();
        lemma_active_remain(front);
        assert forall|i: int| 0 <= i < front.len() implies #[trigger] front[i] == targets[i] by {}
        if active_count(targets, false) == 0 {
            assert forall|i: int| 0 <= i < targets.len() implies (
            #[trigger] targets[i]).remaining.len() == 0 by {
                if i < front.len() {
                    assert(front[i] == targets[i]);
                }
            }
        }
    }
}

/// The transaction that gives up a review that removed nothing: it makes sure of
/// the same as a removal, and marks the review as undone.
pub proof fn law_cancelling_statements(decision_id: Seq<char>, s: SnapshotView, now: Seq<char>)
    ensures
        cancel_batch(decision_id, s).len() == s.targets.len() + 3,
        forall|i: int|
            0 <= i < s.targets.len() + 2 ==> #[trigger] cancel_batch(decision_id, s)[i]
                == delete_batch(decision_id, s, now)[i],
        crate::sql::says(
            cancel_batch(decision_id, s).last(),
            "UPDATE catalog_image_reviews SET state='restored' WHERE decision_id=?"@,
            seq![
                crate::sql::SqlView::Text(decision_id),
            ],
        ),
{
    let n = s.targets.len() as int;
    reveal_strlit("prepared");
    let head = guards(decision_id, s, "prepared"@);
    assert(head.len() == 2 + n);
    assert forall|i: int| 0 <= i < n + 2 implies #[trigger] cancel_batch(decision_id, s)[i]
        == delete_batch(decision_id, s, now)[i] by {
        assert(cancel_batch(decision_id, s)[i] == head[i]);
        assert(delete_batch(decision_id, s, now)[i] == head[i]);
    }
}

/// The transaction that puts an image back, statement by statement. It first makes
/// sure that the review is carried out, that the image is not there, and that the
/// work and each publication are as the removal left them. Then each publication
/// gets its restored message in the place of the removed one and is no longer
/// deleted, the row of the image comes back as it was, the pages of the work are
/// counted anew, and the review is marked.
#[verifier::rlimit(60)]
pub proof fn law_restoring_statements(
    decision_id: Seq<char>,
    s: SnapshotView,
    restored: Seq<RestoredTarget<Seq<char>>>,
)
    requires
        forall|i: int|
            0 <= i < s.targets.len() ==> (#[trigger] s.targets[i]).position
                <= s.targets[i].remaining.len(),
        complete(restored, s.targets),
    ensures
        restore_batch(decision_id, s, restored).len() == 2 * s.targets.len() + 4,
        crate::sql::says(
            restore_batch(decision_id, s, restored)[0],
            "UPDATE catalog_image_reviews SET state=CASE WHEN state=? AND EXISTS(SELECT 1 FROM works WHERE id=? AND review_version=? AND (deleted_at IS NOT NULL)=?) AND (SELECT COUNT(*) FROM telegram_publications WHERE work_id=? AND deleted_at IS NULL)=? AND (EXISTS(SELECT 1 FROM images WHERE id=? OR r2_key=?))=? THEN state ELSE 'conflict' END WHERE decision_id=?"@,
            seq![
                crate::sql::SqlView::Text("deleted"@),
                crate::sql::SqlView::Text(s.image.work_id),
                crate::sql::SqlView::Num(match s.review_version {
                        Some(v) => v as int,
                        None => -1int,
                }),
                crate::sql::SqlView::Num(if (forall|i: int| 0 <= i < s.targets.len() ==> (#[trigger] s.targets[i]).remaining.len() == 0) { 1int } else { 0int }),
                crate::sql::SqlView::Text(s.image.work_id),
                crate::sql::SqlView::Num(s.targets.filter(|t: ImageTargetView| t.remaining.len() > 0).len() as int),
                crate::sql::SqlView::Text(s.image.id),
                crate::sql::SqlView::Text(s.image.r2_key),
                crate::sql::SqlView::Num(0),
                crate::sql::SqlView::Text(decision_id),
            ],
        ),
        forall|i: int|
            0 <= i < s.targets.len() ==> crate::sql::says(
                restore_batch(decision_id, s, restored)[1 + i],
                "UPDATE catalog_image_reviews SET state=CASE WHEN EXISTS(SELECT 1 FROM telegram_publications WHERE id=? AND work_id=? AND chat_id=? AND message_ids_json=? AND publish_state='full' AND (deleted_at IS NOT NULL)=?) THEN state ELSE 'conflict' END WHERE decision_id=?"@,
                seq![
                    crate::sql::SqlView::Text((#[trigger] s.targets[i]).publication_id),
                    crate::sql::SqlView::Text(s.image.work_id),
                    crate::sql::SqlView::Num(s.targets[i].chat_id as int),
                    crate::sql::SqlView::Text(outside::json_of_i64s(s.targets[i].remaining)),
                    crate::sql::SqlView::Num(if s.targets[i].remaining.len() == 0 { 1int } else { 0int }),
                    crate::sql::SqlView::Text(decision_id),
                ],
            ),
        forall|i: int, k: int|
            0 <= i < s.targets.len() && 0 <= k < restored.len() && (
            #[trigger] restored[k]).publication_id == (
            #[trigger] s.targets[i]).publication_id ==> {
                let ids = s.targets[i].remaining.take(s.targets[i].position as int).push(
                    restored[k].message_id,
                ) + s.targets[i].remaining.skip(s.targets[i].position as int);
                crate::sql::says(
                    restore_batch(
                        decision_id,
                        s,
                        restored,
                    )[1 + s.targets.len() + i],
                    "UPDATE telegram_publications SET message_ids_json=?,anchor_message_id=?,deleted_at=NULL WHERE id=?"@,
                    seq![
                        crate::sql::SqlView::Text(outside::json_of_i64s(ids)),
                        crate::sql::SqlView::Num(ids[0] as int),
                        crate::sql::SqlView::Text(s.targets[i].publication_id),
                    ],
                )
            },
        crate::sql::says(
            restore_batch(decision_id, s, restored)[1 + 2 * s.targets.len() as int],
            "INSERT INTO images(id,work_id,page_index,r2_key,content_type,byte_size,created_at,sha256) VALUES(?,?,?,?,?,?,?,?)"@,
            seq![
                crate::sql::SqlView::Text(s.image.id),
                crate::sql::SqlView::Text(s.image.work_id),
                crate::sql::SqlView::Num(s.image.page_index as int),
                crate::sql::SqlView::Text(s.image.r2_key),
                crate::sql::SqlView::Text(s.image.content_type),
                crate::sql::SqlView::Num(s.image.byte_size as int),
                crate::sql::SqlView::Text(s.image.created_at),
                crate::sql::SqlView::Text(s.image.sha256),
            ],
        ),
        crate::sql::says(
            restore_batch(decision_id, s, restored)[2 + 2 * s.targets.len() as int],
            "UPDATE works SET page_count=(SELECT COUNT(*) FROM images WHERE work_id=?),deleted_at=NULL WHERE id=?"@,
            seq![
                crate::sql::SqlView::Text(s.image.work_id),
                crate::sql::SqlView::Text(s.image.work_id),
            ],
        ),
        crate::sql::says(
            restore_batch(decision_id, s, restored)[3 + 2 * s.targets.len() as int],
            "UPDATE catalog_image_reviews SET state='restored' WHERE decision_id=?"@,
            seq![
                crate::sql::SqlView::Text(decision_id),
            ],
        ),
{
    let n = s.targets.len() as int;
    let batch = restore_batch(decision_id, s, restored);
    reveal_strlit("prepared");
    reveal_strlit("deleted");
    assert("prepared"@.len() != "deleted"@.len());
    lemma_active_remain(s.targets);
    let head = guards(decision_id, s, "deleted"@);
    let pubs = target_guards(s, false, decision_id);
    assert(head.len() == 1 + n);
    assert forall|i: int| 0 <= i < n implies batch[1 + i] == target_guard(
        #[trigger] s.targets[i],
        s.image.work_id,
        false,
        decision_id,
    ) by {
        assert(batch[1 + i] == pubs[i]);
    }
    let more = grow_statements(s.targets, restored);
    assert forall|i: int, k: int|
        0 <= i < n && 0 <= k < restored.len() && (#[trigger] restored[k]).publication_id
            == (#[trigger] s.targets[i]).publication_id implies {
        let ids = s.targets[i].remaining.take(s.targets[i].position as int).push(
            restored[k].message_id,
        ) + s.targets[i].remaining.skip(s.targets[i].position as int);
        crate::sql::says(
            batch[1 + n + i],
            "UPDATE telegram_publications SET message_ids_json=?,anchor_message_id=?,deleted_at=NULL WHERE id=?"@,
            seq![
                crate::sql::SqlView::Text(outside::json_of_i64s(ids)),
                crate::sql::SqlView::Num(ids[0] as int),
                crate::sql::SqlView::Text(s.targets[i].publication_id),
            ],
        )
    } by {
        let t = s.targets[i];
        assert(batch[1 + n + i] == more[i]);
        lemma_single_message(restored, t.publication_id, k);
        let ids = t.remaining.take(t.position as int).push(restored[k].message_id)
            + t.remaining.skip(t.position as int);
        assert(restored_ids(t, restored) =~= ids);
    }
}

/// Where one restored message is that of a publication, it is the one that is
/// found.
proof fn lemma_single_message(
    restored: Seq<RestoredTarget<Seq<char>>>,
    id: Seq<char>,
    k: int,
)
    requires
        restored_count(restored, id) == 1,
        0 <= k < restored.len(),
        restored[k].publication_id == id,
    ensures
        restored_message(restored, id) == restored[k].message_id,
{
    let j = lemma_first_message(restored, id, k);
    if j < k {
        lemma_two_counted(restored, id, j, k);
    }
}

proof fn lemma_first_message(
    restored: Seq<RestoredTarget<Seq<char>>>,
    id: Seq<char>,
    k: int,
) -> (j: int)
    requires
        0 <= k < restored.len(),
        restored[k].publication_id == id,
    ensures
        0 <= j <= k,
        restored[j].publication_id == id,
        restored_message(restored, id) == restored[j].message_id,
    decreases restored.len(),
{
    if restored[0].publication_id == id {
        0
    } else {
        let rest = restored.drop_first();
        assert(rest[k - 1] == restored[k]);
        let j = lemma_first_message(rest, id, k - 1);
        assert(rest[j] == restored[j + 1]);
        j + 1
    }
}

proof fn lemma_two_counted(
    restored: Seq<RestoredTarget<Seq<char>>>,
    id: Seq<char>,
    j: int,
    k: int,
)
    requires
        0 <= j < k < restored.len(),
        restored[j].publication_id == id,
        restored[k].publication_id == id,
    ensures
        restored_count(restored, id) >= 2,
    decreases restored.len(),
{
    let front = restored.drop_last();
    if k < front.len() {
        lemma_two_counted(front, id, j, k);
    } else {
        lemma_one_counted(front, id, j);
    }
}

proof fn lemma_one_counted(restored: Seq<RestoredTarget<Seq<char>>>, id: Seq<char>, j: int)
    requires
        0 <= j < restored.len(),
        restored[j].publication_id == id,
    ensures
        restored_count(restored, id) >= 1,
    decreases restored.len(),
{
    let front = restored.drop_last();
    if j < front.len() {
        lemma_one_counted(front, id, j);
    }
}

/// Which question each answer leads to, from the request to a new review: for the
/// stored review of the decision, the image of the key, the work of the image, its
/// images and its publications that are not deleted. Each is about this very
/// decision, key or work; what is not there is told.
pub proof fn law_review_questions(
    request: ImageRequestView,
    image: ImageRow<Seq<char>>,
    work: WorkState<Seq<char>>,
    rows: Seq<ImageRow<Seq<char>>>,
    s: SnapshotView,
    state: Seq<char>,
    now: Seq<char>,
    k: int,
)
    requires
        good_request(request),
        0 <= k < rows.len(),
        rows[k].id == image.id,
        forall|i: int| 0 <= i < k ==> (#[trigger] rows[i]).id != image.id,
    ensures
        review_begun(Some(request)) is Ok,
        review_begun(Some(request))->Ok_0.0 == (ReviewRun { request, phase: ReviewPhaseView::Receipt }),
        crate::effect::queries(
            review_begun(Some(request))->Ok_0.1,
            Table::ReviewReceipt,
            "SELECT payload,state FROM catalog_image_reviews WHERE decision_id=?"@,
            seq![
                crate::sql::SqlView::Text(request.decision_id),
            ],
        ),
        request.action == "prepare"@ ==> crate::effect::queries(
            (ReviewRun { request, phase: ReviewPhaseView::Receipt }).next(EventView::ReviewReceipt(None)).1,
            Table::ReviewImage,
            "SELECT i.* FROM images i JOIN works w ON w.id=i.work_id WHERE i.r2_key=? AND w.deleted_at IS NULL"@,
            seq![
                crate::sql::SqlView::Text(request.r2_key),
            ],
        ),
        request.action != "prepare"@ ==> crate::effect::refuses(
            (ReviewRun { request, phase: ReviewPhaseView::Receipt }).next(EventView::ReviewReceipt(None)).1,
            "image review not prepared"@,
            409,
        ),
        crate::effect::refuses(
            (ReviewRun { request, phase: ReviewPhaseView::Image }).next(EventView::ReviewImage(None)).1,
            "image not active"@,
            409,
        ),
        crate::effect::queries(
            (ReviewRun { request, phase: ReviewPhaseView::Image }).next(EventView::ReviewImage(Some(image))).1,
            Table::ReviewWork,
            "SELECT review_version,deleted_at FROM works WHERE id=?"@,
            seq![
                crate::sql::SqlView::Text(image.work_id),
            ],
        ),
        crate::effect::queries(
            (ReviewRun { request, phase: ReviewPhaseView::Work(image) }).next(EventView::ReviewWork(Some(work))).1,
            Table::ReviewImages,
            "SELECT * FROM images WHERE work_id=? ORDER BY page_index"@,
            seq![
                crate::sql::SqlView::Text(image.work_id),
            ],
        ),
        (ReviewRun { request, phase: ReviewPhaseView::Images(image, work.review_version) }).next(EventView::ReviewImages(rows)).0 == (ReviewRun { request, phase: ReviewPhaseView::Publications(image, work.review_version, rows.len(), k as nat) }),
        crate::effect::queries(
            (ReviewRun { request, phase: ReviewPhaseView::Images(image, work.review_version) }).next(EventView::ReviewImages(rows)).1,
            Table::ReviewPublications,
            "SELECT id,chat_id,message_ids_json,publish_state,deleted_at FROM telegram_publications WHERE work_id=? AND deleted_at IS NULL ORDER BY id"@,
            seq![
                crate::sql::SqlView::Text(image.work_id),
            ],
        ),
        crate::effect::runs(
            (ReviewRun { request, phase: ReviewPhaseView::PrepareTime(s) }).next(EventView::Now(now)).1,
            "INSERT INTO catalog_image_reviews(decision_id,payload,state,created_at) VALUES(?,?,'prepared',?) ON CONFLICT DO NOTHING"@,
            seq![crate::sql::SqlView::Text(request.decision_id), crate::sql::SqlView::Text(crate::json::json_text(snapshot_document(s))), crate::sql::SqlView::Text(now)],
        ),
        crate::effect::queries(
            (ReviewRun { request, phase: ReviewPhaseView::Preparing }).next(EventView::Done).1,
            Table::ReviewReceipt,
            "SELECT payload,state FROM catalog_image_reviews WHERE decision_id=?"@,
            seq![
                crate::sql::SqlView::Text(request.decision_id),
            ],
        ),
{
    crate::effect::law_refusals_say_why("image review not prepared"@, 409);
    crate::effect::law_refusals_say_why("image not active"@, 409);
    lemma_position(rows, image.id, k);
}

proof fn lemma_position(rows: Seq<ImageRow<Seq<char>>>, id: Seq<char>, k: int)
    requires
        0 <= k < rows.len(),
        rows[k].id == id,
        forall|i: int| 0 <= i < k ==> (#[trigger] rows[i]).id != id,
    ensures
        position_of(rows, id) == Some(k as nat),
    decreases rows.len(),
{
    if k > 0 {
        let rest = rows.drop_first();
        assert(rows[0].id != id);
        assert(rest[k - 1] == rows[k]);
        assert forall|i: int| 0 <= i < k - 1 implies (#[trigger] rest[i]).id != id by {
            assert(rest[i] == rows[i + 1]);
        }
        lemma_position(rest, id, k - 1);
    }
}

/// A new review is one of this image: its snapshot holds the image as it was
/// found, the version of the work, a target for each publication, and the backup
/// to which the object is copied.
pub proof fn law_new_review(
    request: ImageRequestView,
    image: ImageRow<Seq<char>>,
    version: i64,
    count: nat,
    position: nat,
    rows: Seq<Publication<Seq<char>>>,
)
    requires
        rows.len() > 0,
        targets_of(rows, count, position) is Ok,
        position <= usize::MAX,
    ensures
        ({
            let run = ReviewRun {
                request,
                phase: ReviewPhaseView::Publications(image, version, count, position),
            };
            let (then, asks) = run.next(EventView::ReviewPublications(rows));
            let backup = crate::keys::backup_key(request.decision_id, image.r2_key);
            &&& asks == ActionView::Copy(image.r2_key, backup)
            &&& then.phase is Copying
            &&& then.phase->Copying_0.image == image
            &&& then.phase->Copying_0.backup_key == backup
            &&& then.phase->Copying_0.review_version == Some(version)
            &&& then.phase->Copying_0.targets.len() == rows.len()
            &&& forall|i: int|
                0 <= i < rows.len() ==> {
                    let t = #[trigger] then.phase->Copying_0.targets[i];
                    let ids = outside::json_i64_list(rows[i].message_ids_json);
                    &&& t.publication_id == rows[i].id
                    &&& t.chat_id == rows[i].chat_id
                    &&& rows[i].publish_state == "full"@
                    &&& ids is Some
                    &&& ids->0.len() == count
                    &&& t.position == position
                    &&& position < count
                    &&& t.message_id == ids->0[position as int]
                    &&& t.remaining == ids->0.take(position as int) + ids->0.skip(position as int + 1)
                }
        }),
{
    lemma_targets_of(rows, count, position);
}

proof fn lemma_targets_of(rows: Seq<Publication<Seq<char>>>, count: nat, position: nat)
    requires
        targets_of(rows, count, position) is Ok,
        position <= usize::MAX,
    ensures
        ({
            let list = targets_of(rows, count, position)->Ok_0;
            &&& list.len() == rows.len()
            &&& forall|i: int|
                0 <= i < rows.len() ==> {
                    let t = #[trigger] list[i];
                    let ids = outside::json_i64_list(rows[i].message_ids_json);
                    &&& t.publication_id == rows[i].id
                    &&& t.chat_id == rows[i].chat_id
                    &&& rows[i].publish_state == "full"@
                    &&& ids is Some
                    &&& ids->0.len() == count
                    &&& t.position == position
                    &&& position < count
                    &&& t.message_id == ids->0[position as int]
                    &&& t.remaining == ids->0.take(position as int) + ids->0.skip(position as int + 1)
                }
        }),
    decreases rows.len(),
{
    if rows.len() > 0 {
        let front = rows.drop_last();
        lemma_targets_of(front, count, position);
        let list = targets_of(rows, count, position)->Ok_0;
        let before = targets_of(front, count, position)->Ok_0;
        assert forall|i: int| 0 <= i < rows.len() implies {
            let t = #[trigger] list[i];
            let ids = outside::json_i64_list(rows[i].message_ids_json);
            &&& t.publication_id == rows[i].id
            &&& t.chat_id == rows[i].chat_id
            &&& rows[i].publish_state == "full"@
            &&& ids is Some
            &&& ids->0.len() == count
            &&& t.position == position
            &&& position < count
            &&& t.message_id == ids->0[position as int]
            &&& t.remaining == ids->0.take(position as int) + ids->0.skip(position as int + 1)
        } by {
            if i < front.len() {
                assert(list[i] == before[i]);
                assert(rows[i] == front[i]);
            } else {
                let ids = outside::json_i64_list(rows[i].message_ids_json)->0;
                assert(ids.remove(position as int) =~= ids.take(position as int) + ids.skip(
                    position as int + 1,
                ));
            }
        }
    }
}

/// When a stored review of the same image is current, and which questions settle
/// it: the work has the version of the snapshot and is deleted exactly where the
/// review removed its last image; the image is gone where the review removed it,
/// else it is there under its name and key.
pub proof fn law_review_is_checked(
    request: ImageRequestView,
    s: SnapshotView,
    state: Seq<char>,
    work: WorkState<Seq<char>>,
    image: ImageRow<Seq<char>>,
)
    requires
        state == "prepared"@ || state == "deleted"@,
        s.image.r2_key == request.r2_key,
    ensures
        ({
            let run = ReviewRun { request, phase: ReviewPhaseView::Receipt };
            let stored = EventView::ReviewReceipt(Some(ReceiptView { payload: Ok(s), state }));
            let (checks, asks) = run.next(stored);
            let (looks, then) = checks.next(EventView::ReviewWork(Some(work)));
            let stale =
                "work or publication changed; image review is no longer current"@;
            let gone = state == "deleted"@ && forall|i: int|
                0 <= i < s.targets.len() ==> (#[trigger] s.targets[i]).remaining.len() == 0;
            let same = s.review_version == Some(work.review_version) && (work.deleted_at is Some
                <==> gone);
            &&& crate::effect::queries(
                asks,
                Table::ReviewWork,
                "SELECT review_version,deleted_at FROM works WHERE id=?"@,
                seq![
                    crate::sql::SqlView::Text(s.image.work_id),
                ],
            )
            &&& crate::effect::refuses(checks.next(EventView::ReviewWork(None)).1, stale, 409)
            &&& !same ==> crate::effect::refuses(then, stale, 409)
            &&& same ==> crate::effect::queries(
                then,
                Table::ReviewImage,
                "SELECT * FROM images WHERE id=? OR r2_key=?"@,
                seq![
                    crate::sql::SqlView::Text(s.image.id),
                    crate::sql::SqlView::Text(s.image.r2_key),
                ],
            )
            &&& same && state == "deleted"@ ==> crate::effect::refuses(
                looks.next(EventView::ReviewImage(Some(image))).1,
                stale,
                409,
            )
            &&& same && state == "deleted"@ ==> crate::effect::queries(
                looks.next(EventView::ReviewImage(None)).1,
                Table::ReviewPublications,
                "SELECT id,chat_id,message_ids_json,publish_state,deleted_at FROM telegram_publications WHERE work_id=?"@,
                seq![
                    crate::sql::SqlView::Text(s.image.work_id),
                ],
            )
            &&& same && state == "prepared"@ ==> crate::effect::refuses(
                looks.next(EventView::ReviewImage(None)).1,
                stale,
                409,
            )
            &&& same && state == "prepared"@ && !(image.id == s.image.id && image.r2_key
                == s.image.r2_key) ==> crate::effect::refuses(
                    looks.next(EventView::ReviewImage(Some(image))).1,
                    stale,
                    409,
                )
            &&& same && state == "prepared"@ && image.id == s.image.id && image.r2_key
                == s.image.r2_key ==> crate::effect::queries(
                    looks.next(EventView::ReviewImage(Some(image))).1,
                    Table::ReviewPublications,
                    "SELECT id,chat_id,message_ids_json,publish_state,deleted_at FROM telegram_publications WHERE work_id=?"@,
                    seq![
                        crate::sql::SqlView::Text(s.image.work_id),
                    ],
                )
        }),
{
    reveal_strlit("prepared");
    reveal_strlit("deleted");
    reveal_strlit("restored");
    assert("prepared"@.len() != "deleted"@.len());
    assert("prepared"@[0] != "restored"@[0]);
    crate::effect::law_refusals_say_why(
        "work or publication changed; image review is no longer current"@,
        409,
    );
}

/// When the publications of a review are current: as many are not deleted as the
/// targets that should have messages, and each target has a publication of its
/// name and chat, published in full, with exactly its messages, deleted where it
/// has none. Anything else is stale.
pub proof fn law_publications_are_checked(
    request: ImageRequestView,
    s: SnapshotView,
    state: Seq<char>,
    rows: Seq<Publication<Seq<char>>>,
)
    requires
        state == "prepared"@ || state == "deleted"@,
        forall|i: int|
            0 <= i < s.targets.len() ==> (#[trigger] s.targets[i]).position
                <= s.targets[i].remaining.len(),
    ensures
        ({
            let run = ReviewRun { request, phase: ReviewPhaseView::CheckPublications(s, state) };
            let present = state == "prepared"@;
            let live = rows.filter(|p: Publication<Seq<char>>| p.deleted_at is None).len();
            let wanted = if present {
                s.targets.len()
            } else {
                s.targets.filter(|t: ImageTargetView| t.remaining.len() > 0).len()
            };
            let found = forall|i: int|
                0 <= i < s.targets.len() ==> exists|j: int|
                    {
                        let t = #[trigger] s.targets[i];
                        let ids = if present {
                            full_list(t)
                        } else {
                            t.remaining
                        };
                        &&& 0 <= j < rows.len()
                        &&& (#[trigger] rows[j]).id == t.publication_id
                        &&& rows[j].chat_id == t.chat_id
                        &&& rows[j].publish_state == "full"@
                        &&& outside::json_i64_list(rows[j].message_ids_json) == Some(ids)
                        &&& rows[j].deleted_at is Some <==> ids.len() == 0
                    };
            &&& !(live == wanted && found) ==> crate::effect::refuses(
                run.next(EventView::ReviewPublications(rows)).1,
                "work or publication changed; image review is no longer current"@,
                409,
            )
            &&& live == wanted && found ==> publications_are_current(s, state, rows)
        }),
{
    reveal_strlit("prepared");
    reveal_strlit("deleted");
    assert("prepared"@.len() != "deleted"@.len());
    crate::effect::law_refusals_say_why(
        "work or publication changed; image review is no longer current"@,
        409,
    );
    let present = state == "prepared"@;
    lemma_live(rows);
    lemma_all_active(s.targets);
    lemma_active_remain(s.targets);
    assert forall|i: int| 0 <= i < s.targets.len() implies {
        let t = #[trigger] s.targets[i];
        t.expected(present) == if present {
            full_list(t)
        } else {
            t.remaining
        }
    } by {
        lemma_full_list(s.targets[i]);
    }
    if publications_are_current(s, state, rows) {
        assert forall|i: int| 0 <= i < s.targets.len() implies exists|j: int|
            {
                let t = #[trigger] s.targets[i];
                let ids = if present {
                    full_list(t)
                } else {
                    t.remaining
                };
                &&& 0 <= j < rows.len()
                &&& (#[trigger] rows[j]).id == t.publication_id
                &&& rows[j].chat_id == t.chat_id
                &&& rows[j].publish_state == "full"@
                &&& outside::json_i64_list(rows[j].message_ids_json) == Some(ids)
                &&& rows[j].deleted_at is Some <==> ids.len() == 0
            } by {
            assert(has_match(rows, s.targets[i], present));
        }
    }
}

proof fn lemma_live(rows: Seq<Publication<Seq<char>>>)
    ensures
        live_count(rows) == rows.filter(|p: Publication<Seq<char>>| p.deleted_at is None).len(),
    decreases rows.len(),
{
    reveal(Seq::filter);
    if rows.len() > 0 {
        lemma_live(rows.drop_last());
    }
}

/// Which requests are reviews: short names that are not empty, and one of three
/// actions.
pub proof fn law_review_requests(request: ImageRequestView)
    ensures
        ({
            let named = request.decision_id.len() > 0 && vstd::utf8::encode_utf8(
                request.decision_id,
            ).len() <= 160;
            let keyed = request.r2_key.len() > 0 && vstd::utf8::encode_utf8(request.r2_key).len()
                <= 1024;
            let known = request.action == "prepare"@ || request.action == "delete"@
                || request.action == "restore"@;
            &&& review_begun(Some(request)) is Ok <==> named && keyed && known
            &&& !(named && keyed && known) ==> crate::json::is_refusal(
                review_begun(Some(request))->Err_0,
                "invalid image review request"@,
                400,
            )
            &&& review_begun(None) is Err
            &&& crate::json::is_refusal(review_begun(None)->Err_0, "invalid json"@, 400)
        }),
{
    crate::json::law_refusal_reads("invalid image review request"@, 400);
    crate::json::law_refusal_reads("invalid json"@, 400);
}

/// A transaction that the database breaks off because something has changed can
/// be tried again; any other failure is told as it is. A review of another image
/// under the same name is refused.
pub proof fn law_review_failures(
    request: ImageRequestView,
    s: SnapshotView,
    state: Seq<char>,
    message: Seq<char>,
)
    ensures
        ({
            let run = ReviewRun { request, phase: ReviewPhaseView::Deleting(s) };
            let told = run.next(EventView::Failed(message)).1;
            let broken = text::has_part(message, "CHECK constraint failed"@);
            &&& broken ==> crate::effect::refuses(
                told,
                "image review changed concurrently; retry the action"@,
                409,
            )
            &&& !broken ==> told == ActionView::Fail(message)
        }),
        s.image.r2_key != request.r2_key ==> crate::effect::refuses(
            ReviewRun { request, phase: ReviewPhaseView::Receipt }.next(
                EventView::ReviewReceipt(Some(ReceiptView { payload: Ok(s), state })),
            ).1,
            "image review decision conflict"@,
            409,
        ),
{
    crate::effect::law_refusals_say_why(
        "image review changed concurrently; retry the action"@,
        409,
    );
    crate::effect::law_refusals_say_why("image review decision conflict"@, 409);
}

/// Which message is that of an image in a publication: the publication must be
/// published in full, with one distinct positive message for each image; else the
/// review cannot be made.
pub proof fn law_targets_of_publications(
    p: Publication<Seq<char>>,
    ids: Seq<i64>,
    count: nat,
    position: nat,
)
    requires
        position <= usize::MAX,
    ensures
        ({
            let good = p.publish_state == "full"@ && ids.len() == count && position < count
                && ids.no_duplicates() && forall|k: int|
                0 <= k < ids.len() ==> (#[trigger] ids[k]) > 0;
            let found = target_of(p, Some(ids), count, position);
            &&& good ==> found is Ok && found->Ok_0.publication_id == p.id && found->Ok_0.chat_id
                == p.chat_id && found->Ok_0.message_id == ids[position as int]
                && found->Ok_0.position == position && found->Ok_0.remaining =~= ids.take(
                position as int,
            ) + ids.skip(position as int + 1)
            &&& !good ==> found == Err::<ImageTargetView, Seq<char>>(
                "cannot identify this image in the Telegram publication"@,
            )
            &&& target_of(p, None, count, position) == Err::<ImageTargetView, Seq<char>>(
                "invalid publication mapping"@,
            )
        }),
{
}

/// Whether one restored message, and only one, is that of a target, under a new
/// positive number.
pub open spec fn has_one_message(
    restored: Seq<RestoredTarget<Seq<char>>>,
    t: ImageTargetView,
) -> bool {
    exists|k: int|
        {
            &&& 0 <= k < restored.len()
            &&& (#[trigger] restored[k]).publication_id == t.publication_id
            &&& !t.remaining.contains(restored[k].message_id)
            &&& forall|j: int|
                0 <= j < restored.len() && j != k ==> (#[trigger] restored[j]).publication_id
                    != t.publication_id
        }
}

/// An image can be put back exactly where each publication has got one message for
/// it, and there are no others.
pub proof fn law_complete_messages(
    restored: Seq<RestoredTarget<Seq<char>>>,
    targets: Seq<ImageTargetView>,
)
    ensures
        complete(restored, targets) <==> {
            &&& restored.len() == targets.len()
            &&& forall|j: int| 0 <= j < restored.len() ==> (#[trigger] restored[j]).message_id > 0
            &&& forall|i: int|
                0 <= i < targets.len() ==> has_one_message(restored, #[trigger] targets[i])
        },
{
    assert forall|i: int| 0 <= i < targets.len() implies (has_one_message(
        restored,
        #[trigger] targets[i],
    ) <==> restored_count(restored, targets[i].publication_id) == 1 && !clashes(
        restored,
        targets[i],
    )) by {
        lemma_one_message(restored, targets[i]);
    }
}

proof fn lemma_one_message(restored: Seq<RestoredTarget<Seq<char>>>, t: ImageTargetView)
    ensures
        has_one_message(restored, t) <==> restored_count(restored, t.publication_id) == 1 && !clashes(
            restored,
            t,
        ),
{
    let id = t.publication_id;
    if has_one_message(restored, t) {
        let k = choose|k: int|
            {
                &&& 0 <= k < restored.len()
                &&& (#[trigger] restored[k]).publication_id == t.publication_id
                &&& !t.remaining.contains(restored[k].message_id)
                &&& forall|j: int|
                    0 <= j < restored.len() && j != k ==> (#[trigger] restored[j]).publication_id
                        != t.publication_id
            };
        lemma_counted_once(restored, id, k);
        if clashes(restored, t) {
            let j = choose|j: int|
                0 <= j < restored.len() && (#[trigger] restored[j]).publication_id
                    == t.publication_id && t.remaining.contains(restored[j].message_id);
            assert(j == k);
        }
    }
    if restored_count(restored, id) == 1 && !clashes(restored, t) {
        let k = lemma_counted_somewhere(restored, id);
        assert forall|j: int| 0 <= j < restored.len() && j != k implies (
        #[trigger] restored[j]).publication_id != id by {
            if restored[j].publication_id == id {
                if j < k {
                    lemma_two_counted(restored, id, j, k);
                } else {
                    lemma_two_counted(restored, id, k, j);
                }
            }
        }
        assert(!t.remaining.contains(restored[k].message_id));
    }
}

proof fn lemma_counted_once(restored: Seq<RestoredTarget<Seq<char>>>, id: Seq<char>, k: int)
    requires
        0 <= k < restored.len(),
        restored[k].publication_id == id,
        forall|j: int|
            0 <= j < restored.len() && j != k ==> (#[trigger] restored[j]).publication_id != id,
    ensures
        restored_count(restored, id) == 1,
    decreases restored.len(),
{
    let front = restored.drop_last();
    assert forall|j: int| 0 <= j < front.len() implies #[trigger] front[j] == restored[j] by {}
    if k < front.len() {
        lemma_counted_once(front, id, k);
        assert(restored[restored.len() - 1].publication_id != id);
    } else {
        lemma_counted_never(front, id);
    }
}

proof fn lemma_counted_never(restored: Seq<RestoredTarget<Seq<char>>>, id: Seq<char>)
    requires
        forall|j: int|
            0 <= j < restored.len() ==> (#[trigger] restored[j]).publication_id != id,
    ensures
        restored_count(restored, id) == 0,
    decreases restored.len(),
{
    if restored.len() > 0 {
        let front = restored.drop_last();
        assert forall|j: int| 0 <= j < front.len() implies (#[trigger] front[j]).publication_id
            != id by {
            assert(front[j] == restored[j]);
        }
        lemma_counted_never(front, id);
        assert(restored[restored.len() - 1].publication_id != id);
    }
}

proof fn lemma_counted_somewhere(
    restored: Seq<RestoredTarget<Seq<char>>>,
    id: Seq<char>,
) -> (k: int)
    requires
        restored_count(restored, id) >= 1,
    ensures
        0 <= k < restored.len(),
        restored[k].publication_id == id,
    decreases restored.len(),
{
    let front = restored.drop_last();
    if restored.last().publication_id == id {
        restored.len() - 1
    } else {
        let k = lemma_counted_somewhere(front, id);
        assert(front[k] == restored[k]);
        k
    }
}

/// A review answers or fails in its last step, and in no other; what was asked of it
/// never changes, and once it is over every event is unexpected.
pub proof fn law_review_ends(run: ReviewRun, event: EventView)
    ensures
        run.next(event).0.request == run.request,
        run.next(event).0.phase is End <==> run.next(event).1 is Reply || run.next(event).1 is Fail,
        run.phase is End && event !is Failed ==> run.next(event).1 == ActionView::Fail(
            "unexpected event"@,
        ),
{
}

/// What is stored of a new review is what was found on the way to it: the image
/// that was read, the version that its work had, the messages of its publications
/// at the place that the image has among the images of the work, and the backup to
/// which the object was copied. Then the stored review is read again.
pub proof fn law_new_review_is_stored(
    request: ImageRequestView,
    image: ImageRow<Seq<char>>,
    work: WorkState<Seq<char>>,
    images: Seq<ImageRow<Seq<char>>>,
    k: int,
    publications: Seq<Publication<Seq<char>>>,
    now: Seq<char>,
)
    requires
        request.action == "prepare"@,
        0 <= k < images.len(),
        images[k].id == image.id,
        forall|i: int| 0 <= i < k ==> (#[trigger] images[i]).id != image.id,
        publications.len() > 0,
        targets_of(publications, images.len(), k as nat) is Ok,
    ensures
        ({
            let asked = ReviewRun { request, phase: ReviewPhaseView::Receipt };
            let found = asked.next(EventView::ReviewReceipt(None)).0;
            let placed = found.next(EventView::ReviewImage(Some(image))).0;
            let versioned = placed.next(EventView::ReviewWork(Some(work))).0;
            let listed = versioned.next(EventView::ReviewImages(images)).0;
            let (copying, copies) = listed.next(EventView::ReviewPublications(publications));
            let (timed, asks) = copying.next(EventView::Done);
            let (stored, stores) = timed.next(EventView::Now(now));
            let (again, reads) = stored.next(EventView::Done);
            let backup = crate::keys::backup_key(request.decision_id, image.r2_key);
            let snapshot = SnapshotView {
                image,
                targets: targets_of(publications, images.len(), k as nat)->Ok_0,
                backup_key: backup,
                review_version: Some(work.review_version),
            };
            &&& copies == ActionView::Copy(image.r2_key, backup)
            &&& asks == ActionView::Clock
            &&& crate::effect::runs(
                stores,
                "INSERT INTO catalog_image_reviews(decision_id,payload,state,created_at) VALUES(?,?,'prepared',?) ON CONFLICT DO NOTHING"@,
                seq![
                    crate::sql::SqlView::Text(request.decision_id),
                    crate::sql::SqlView::Text(
                        crate::json::json_text(snapshot_document(snapshot)),
                    ),
                    crate::sql::SqlView::Text(now),
                ],
            )
            &&& again.phase is Reread
            &&& crate::effect::queries(
                reads,
                Table::ReviewReceipt,
                "SELECT payload,state FROM catalog_image_reviews WHERE decision_id=?"@,
                seq![crate::sql::SqlView::Text(request.decision_id)],
            )
        }),
{
    lemma_position(images, image.id, k);
}

/// What disappears half-way ends a review: its work, its image, or the stored
/// review itself. One that is read again is taken as if it had been there at first.
pub proof fn law_what_disappears(
    request: ImageRequestView,
    image: ImageRow<Seq<char>>,
    version: i64,
    images: Seq<ImageRow<Seq<char>>>,
    receipt: ReceiptView,
)
    ensures
        (ReviewRun { request, phase: ReviewPhaseView::Work(image) }).next(
            EventView::ReviewWork(None),
        ).1 == ActionView::Fail("work disappeared"@),
        (forall|i: int| 0 <= i < images.len() ==> (#[trigger] images[i]).id != image.id) ==> (
        ReviewRun { request, phase: ReviewPhaseView::Images(image, version) }).next(
            EventView::ReviewImages(images),
        ).1 == ActionView::Fail("image disappeared"@),
        (ReviewRun { request, phase: ReviewPhaseView::Reread }).next(
            EventView::ReviewReceipt(None),
        ).1 == ActionView::Fail("image review disappeared"@),
        (ReviewRun { request, phase: ReviewPhaseView::Reread }).next(
            EventView::ReviewReceipt(Some(receipt)),
        ) == (ReviewRun { request, phase: ReviewPhaseView::Receipt }).next(
            EventView::ReviewReceipt(Some(receipt)),
        ),
{
    if forall|i: int| 0 <= i < images.len() ==> (#[trigger] images[i]).id != image.id {
        lemma_no_position(images, image.id);
    }
}

proof fn lemma_no_position(images: Seq<ImageRow<Seq<char>>>, id: Seq<char>)
    requires
        forall|i: int| 0 <= i < images.len() ==> (#[trigger] images[i]).id != id,
    ensures
        position_of(images, id) is None,
    decreases images.len(),
{
    if images.len() > 0 {
        let rest = images.drop_first();
        assert forall|i: int| 0 <= i < rest.len() implies (#[trigger] rest[i]).id != id by {
            assert(rest[i] == images[i + 1]);
        }
        assert(images[0].id != id);
        lemma_no_position(rest, id);
    }
}

} // verus!
