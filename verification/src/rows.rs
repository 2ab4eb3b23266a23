//! Rows of the database, as the handlers read them. `T` is the type of texts.

use crate::catalog::{TargetView, TelegramPruneTarget};
use crate::outside;
use vstd::prelude::*;

verus! {

/// The values of a list.
pub open spec fn views<A: View>(list: Seq<A>) -> Seq<A::V> {
    list.map_values(|a: A| a@)
}

/// The value of what may be absent.
pub open spec fn opt_view<A: View>(a: Option<A>) -> Option<A::V> {
    match a {
        Some(a) => Some(a@),
        None => None,
    }
}

/// The recorded outcome of a request with an idempotency key.
#[derive(Debug, Clone, PartialEq, Eq)]
pub struct IdempotencyRow<T> {
    pub fingerprint: T,
    pub response_json: T,
    pub status_code: i64,
}

impl View for IdempotencyRow<String> {
    type V = IdempotencyRow<Seq<char>>;

    open spec fn view(&self) -> IdempotencyRow<Seq<char>> {
        IdempotencyRow {
            fingerprint: self.fingerprint@,
            response_json: self.response_json@,
            status_code: self.status_code,
        }
    }
}

/// An image, as far as removing it goes.
#[derive(Debug, Clone, PartialEq, Eq)]
pub struct CatalogPruneImageRow<T> {
    pub id: T,
    pub work_id: T,
    pub r2_key: T,
}

impl View for CatalogPruneImageRow<String> {
    type V = CatalogPruneImageRow<Seq<char>>;

    open spec fn view(&self) -> CatalogPruneImageRow<Seq<char>> {
        CatalogPruneImageRow { id: self.id@, work_id: self.work_id@, r2_key: self.r2_key@ }
    }
}

/// A publication of a work that is about to be removed.
#[derive(Debug, Clone, PartialEq, Eq)]
pub struct WorkPublicationRow<T> {
    pub id: T,
    pub work_id: T,
    pub chat_id: i64,
    pub message_ids_json: T,
}

impl View for WorkPublicationRow<String> {
    type V = WorkPublicationRow<Seq<char>>;

    open spec fn view(&self) -> WorkPublicationRow<Seq<char>> {
        WorkPublicationRow {
            id: self.id@,
            work_id: self.work_id@,
            chat_id: self.chat_id,
            message_ids_json: self.message_ids_json@,
        }
    }
}

/// A work and when it was deleted.
#[derive(Debug, Clone, PartialEq, Eq)]
pub struct RetractWorkRow<T> {
    pub id: T,
    pub deleted_at: Option<T>,
}

impl View for RetractWorkRow<String> {
    type V = RetractWorkRow<Seq<char>>;

    open spec fn view(&self) -> RetractWorkRow<Seq<char>> {
        RetractWorkRow { id: self.id@, deleted_at: outside::opt_text(self.deleted_at) }
    }
}

/// A receipt of removed works, as far as their messages go. The targets are
/// absent where the stored ones could not be read.
#[derive(Debug, Clone, PartialEq, Eq)]
pub struct TelegramResultReceiptRow {
    pub telegram_state: String,
    pub remove_work_ids_json: String,
    pub telegram_targets: Option<Vec<TelegramPruneTarget>>,
}

/// The mathematical value of a [`TelegramResultReceiptRow`].
pub struct TelegramReceiptView {
    pub state: Seq<char>,
    pub works: Seq<char>,
    pub targets: Option<Seq<TargetView>>,
}

impl View for TelegramResultReceiptRow {
    type V = TelegramReceiptView;

    open spec fn view(&self) -> TelegramReceiptView {
        TelegramReceiptView {
            state: self.telegram_state@,
            works: self.remove_work_ids_json@,
            targets: crate::catalog::opt_targets(self.telegram_targets),
        }
    }
}

/// An image with everything that is stored of it.
#[derive(Debug, Clone, PartialEq, Eq)]
pub struct ImageRow<T> {
    pub id: T,
    pub work_id: T,
    pub page_index: i64,
    pub r2_key: T,
    pub content_type: T,
    pub byte_size: i64,
    pub created_at: T,
    pub sha256: T,
}

impl View for ImageRow<String> {
    type V = ImageRow<Seq<char>>;

    open spec fn view(&self) -> ImageRow<Seq<char>> {
        ImageRow {
            id: self.id@,
            work_id: self.work_id@,
            page_index: self.page_index,
            r2_key: self.r2_key@,
            content_type: self.content_type@,
            byte_size: self.byte_size,
            created_at: self.created_at@,
            sha256: self.sha256@,
        }
    }
}

/// A publication, as far as the review of an image goes.
#[derive(Debug, Clone, PartialEq, Eq)]
pub struct Publication<T> {
    pub id: T,
    pub chat_id: i64,
    pub message_ids_json: T,
    pub publish_state: T,
    pub deleted_at: Option<T>,
}

impl View for Publication<String> {
    type V = Publication<Seq<char>>;

    open spec fn view(&self) -> Publication<Seq<char>> {
        Publication {
            id: self.id@,
            chat_id: self.chat_id,
            message_ids_json: self.message_ids_json@,
            publish_state: self.publish_state@,
            deleted_at: outside::opt_text(self.deleted_at),
        }
    }
}

/// How often a work was changed, and when it was deleted.
#[derive(Debug, Clone, PartialEq, Eq)]
pub struct WorkState<T> {
    pub review_version: i64,
    pub deleted_at: Option<T>,
}

impl View for WorkState<String> {
    type V = WorkState<Seq<char>>;

    open spec fn view(&self) -> WorkState<Seq<char>> {
        WorkState {
            review_version: self.review_version,
            deleted_at: outside::opt_text(self.deleted_at),
        }
    }
}

/// The message of an image in a publication, and what remains of the
/// publication without it.
#[derive(Debug, Clone, PartialEq, Eq)]
pub struct ImageTarget {
    pub publication_id: String,
    pub chat_id: i64,
    pub message_id: i64,
    pub remaining: Vec<i64>,
    pub position: usize,
}

/// The mathematical value of an [`ImageTarget`].
pub struct ImageTargetView {
    pub publication_id: Seq<char>,
    pub chat_id: i64,
    pub message_id: i64,
    pub remaining: Seq<i64>,
    pub position: usize,
}

impl View for ImageTarget {
    type V = ImageTargetView;

    open spec fn view(&self) -> ImageTargetView {
        ImageTargetView {
            publication_id: self.publication_id@,
            chat_id: self.chat_id,
            message_id: self.message_id,
            remaining: self.remaining@,
            position: self.position,
        }
    }
}

/// An image under review, as it was when the review began.
#[derive(Debug, Clone, PartialEq, Eq)]
pub struct Snapshot {
    pub image: ImageRow<String>,
    pub targets: Vec<ImageTarget>,
    pub backup_key: String,
    pub review_version: Option<i64>,
}

/// The mathematical value of a [`Snapshot`].
pub struct SnapshotView {
    pub image: ImageRow<Seq<char>>,
    pub targets: Seq<ImageTargetView>,
    pub backup_key: Seq<char>,
    pub review_version: Option<i64>,
}

impl View for Snapshot {
    type V = SnapshotView;

    open spec fn view(&self) -> SnapshotView {
        SnapshotView {
            image: self.image@,
            targets: views(self.targets@),
            backup_key: self.backup_key@,
            review_version: self.review_version,
        }
    }
}

/// A stored review: its snapshot, or why the stored one cannot be read, and how
/// far the review went.
#[derive(Debug, PartialEq, Eq)]
pub struct Receipt {
    pub payload: Result<Snapshot, String>,
    pub state: String,
}

/// The mathematical value of a [`Receipt`].
pub struct ReceiptView {
    pub payload: Result<SnapshotView, Seq<char>>,
    pub state: Seq<char>,
}

impl View for Receipt {
    type V = ReceiptView;

    open spec fn view(&self) -> ReceiptView {
        ReceiptView {
            payload: match self.payload {
                Ok(s) => Ok(s@),
                Err(message) => Err(message@),
            },
            state: self.state@,
        }
    }
}

} // verus!
