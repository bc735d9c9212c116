//! Artifacts: files that a turn leaves behind, with their manifests.
use vstd::prelude::*;
use crate::clock::Timestamp;
use crate::ids::{ArtifactId, LocalThreadId, LocalTurnId};
use crate::text;

verus! {

/// What an artifact is.
#[derive(Clone, Copy, Debug, PartialEq, Eq, Structural)]
pub enum ArtifactKind {
    PaperReport,
    DatasetAudit,
    JobSnapshot,
    JobLogExcerpt,
    JobRunbook,
    GenericMarkdown,
    GenericJson,
    GenericText,
}

/// The manifest of one artifact. `metadata` is JSON text.
#[derive(Debug, PartialEq)]
pub struct ArtifactManifest {
    pub id: ArtifactId,
    pub version: u32,
    pub local_thread_id: LocalThreadId,
    pub local_turn_id: LocalTurnId,
    pub kind: ArtifactKind,
    pub title: String,
    pub created_at: Timestamp,
    pub updated_at: Timestamp,
    pub summary: String,
    pub tags: Vec<String>,
    pub primary_path: String,
    pub extra_paths: Vec<String>,
    pub metadata: String,
}

/// The model of `ArtifactManifest`.
#[verifier::ext_equal]
pub struct ArtifactManifestView {
    pub id: Seq<char>,
    pub version: u32,
    pub local_thread_id: Seq<char>,
    pub local_turn_id: Seq<char>,
    pub kind: ArtifactKind,
    pub title: Seq<char>,
    pub created_at: Timestamp,
    pub updated_at: Timestamp,
    pub summary: Seq<char>,
    pub tags: Seq<Seq<char>>,
    pub primary_path: Seq<char>,
    pub extra_paths: Seq<Seq<char>>,
    pub metadata: Seq<char>,
}

impl View for ArtifactManifest {
    type V = ArtifactManifestView;

    open spec fn view(&self) -> ArtifactManifestView {
        ArtifactManifestView {
            id: self.id@,
            version: self.version,
            local_thread_id: self.local_thread_id@,
            local_turn_id: self.local_turn_id@,
            kind: self.kind,
            title: self.title@,
            created_at: self.created_at,
            updated_at: self.updated_at,
            summary: self.summary@,
            tags: text::views(self.tags@),
            primary_path: self.primary_path@,
            extra_paths: text::views(self.extra_paths@),
            metadata: self.metadata@,
        }
    }
}

impl Clone for ArtifactManifest {
    fn clone(&self) -> (copy: Self)
        ensures
            copy@ == self@,
    {
        ArtifactManifest {
            id: self.id.clone(),
            version: self.version,
            local_thread_id: self.local_thread_id.clone(),
            local_turn_id: self.local_turn_id.clone(),
            kind: self.kind,
            title: self.title.clone(),
            created_at: self.created_at,
            updated_at: self.updated_at,
            summary: self.summary.clone(),
            tags: text::copy_all(&self.tags),
            primary_path: self.primary_path.clone(),
            extra_paths: text::copy_all(&self.extra_paths),
            metadata: self.metadata.clone(),
        }
    }
}

/// A query for artifacts.
#[derive(Debug, PartialEq)]
pub struct ArtifactQuery {
    pub thread_id: Option<LocalThreadId>,
    pub kind: Option<ArtifactKind>,
    pub limit: Option<usize>,
}

/// The model of `ArtifactQuery`.
#[verifier::ext_equal]
pub struct ArtifactQueryView {
    pub thread_id: Option<Seq<char>>,
    pub kind: Option<ArtifactKind>,
    pub limit: Option<usize>,
}

impl View for ArtifactQuery {
    type V = ArtifactQueryView;

    open spec fn view(&self) -> ArtifactQueryView {
        ArtifactQueryView {
            thread_id: text::opt_view(self.thread_id),
            kind: self.kind,
            limit: self.limit,
        }
    }
}

impl Clone for ArtifactQuery {
    fn clone(&self) -> (copy: Self)
        ensures
            copy@ == self@,
    {
        ArtifactQuery {
            thread_id: text::copy_maybe(&self.thread_id),
            kind: self.kind,
            limit: self.limit,
        }
    }
}

impl Default for ArtifactQuery {
    fn default() -> (made: Self)
        ensures
            made@ == (ArtifactQueryView { thread_id: None, kind: None, limit: None }),
    {
        ArtifactQuery { thread_id: None, kind: None, limit: None }
    }
}

/// One file of an artifact, with as much of its contents as could be read.
#[derive(Debug, PartialEq)]
pub struct ArtifactFilePayload {
    pub path: String,
    pub media_type: String,
    pub text: Option<String>,
    pub base64: Option<String>,
    pub read_error: Option<String>,
}

/// The model of `ArtifactFilePayload`.
#[verifier::ext_equal]
pub struct ArtifactFilePayloadView {
    pub path: Seq<char>,
    pub media_type: Seq<char>,
    pub text: Option<Seq<char>>,
    pub base64: Option<Seq<char>>,
    pub read_error: Option<Seq<char>>,
}

impl View for ArtifactFilePayload {
    type V = ArtifactFilePayloadView;

    open spec fn view(&self) -> ArtifactFilePayloadView {
        ArtifactFilePayloadView {
            path: self.path@,
            media_type: self.media_type@,
            text: text::opt_view(self.text),
            base64: text::opt_view(self.base64),
            read_error: text::opt_view(self.read_error),
        }
    }
}

impl Clone for ArtifactFilePayload {
    fn clone(&self) -> (copy: Self)
        ensures
            copy@ == self@,
    {
        ArtifactFilePayload {
            path: self.path.clone(),
            media_type: self.media_type.clone(),
            text: text::copy_maybe(&self.text),
            base64: text::copy_maybe(&self.base64),
            read_error: text::copy_maybe(&self.read_error),
        }
    }
}

/// An artifact with its files.
#[derive(Debug, PartialEq)]
pub struct ArtifactReadBundle {
    pub manifest: ArtifactManifest,
    pub files: Vec<ArtifactFilePayload>,
}

/// The model of `ArtifactReadBundle`.
#[verifier::ext_equal]
pub struct ArtifactReadBundleView {
    pub manifest: ArtifactManifestView,
    pub files: Seq<ArtifactFilePayloadView>,
}

impl View for ArtifactReadBundle {
    type V = ArtifactReadBundleView;

    open spec fn view(&self) -> ArtifactReadBundleView {
        ArtifactReadBundleView {
            manifest: self.manifest@,
            files: text::views(self.files@),
        }
    }
}

impl Clone for ArtifactReadBundle {
    fn clone(&self) -> (copy: Self)
        ensures
            copy@ == self@,
    {
        ArtifactReadBundle {
            manifest: self.manifest.clone(),
            files: text::copy_all(&self.files),
        }
    }
}

/// Something that went wrong while artifacts were indexed.
#[derive(Debug, PartialEq, Eq)]
pub struct ArtifactIndexWarning {
    pub path: String,
    pub message: String,
}

/// The model of `ArtifactIndexWarning`.
#[verifier::ext_equal]
pub struct ArtifactIndexWarningView {
    pub path: Seq<char>,
    pub message: Seq<char>,
}

impl View for ArtifactIndexWarning {
    type V = ArtifactIndexWarningView;

    open spec fn view(&self) -> ArtifactIndexWarningView {
        ArtifactIndexWarningView {
            path: self.path@,
            message: self.message@,
        }
    }
}

impl Clone for ArtifactIndexWarning {
    fn clone(&self) -> (copy: Self)
        ensures
            copy@ == self@,
    {
        ArtifactIndexWarning {
            path: self.path.clone(),
            message: self.message.clone(),
        }
    }
}

/// What a scan for artifacts found.
#[derive(Debug, PartialEq)]
pub struct ArtifactScanResult {
    pub manifests: Vec<ArtifactManifest>,
    pub warnings: Vec<ArtifactIndexWarning>,
}

/// The model of `ArtifactScanResult`.
#[verifier::ext_equal]
pub struct ArtifactScanResultView {
    pub manifests: Seq<ArtifactManifestView>,
    pub warnings: Seq<ArtifactIndexWarningView>,
}

impl View for ArtifactScanResult {
    type V = ArtifactScanResultView;

    open spec fn view(&self) -> ArtifactScanResultView {
        ArtifactScanResultView {
            manifests: text::views(self.manifests@),
            warnings: text::views(self.warnings@),
        }
    }
}

impl Clone for ArtifactScanResult {
    fn clone(&self) -> (copy: Self)
        ensures
            copy@ == self@,
    {
        ArtifactScanResult {
            manifests: text::copy_all(&self.manifests),
            warnings: text::copy_all(&self.warnings),
        }
    }
}

broadcast use text::lemma_views_empty;

impl Default for ArtifactScanResult {
    fn default() -> (made: Self)
        ensures
            made@ == (ArtifactScanResultView { manifests: Seq::empty(), warnings: Seq::empty() }),
    {
        ArtifactScanResult { manifests: Vec::new(), warnings: Vec::new() }
    }
}

/// What the transcript shows of an artifact.
#[derive(Debug, PartialEq)]
pub enum ArtifactPreview {
    PaperReport { query: String, paper_count: usize, headline: String },
    DatasetAudit { dataset: String, split_count: usize, issue_count: usize },
    JobSnapshot {
        job_id: String,
        status: String,
        hardware: Option<String>,
        dashboard_url: Option<String>,
    },
    Generic { headline: String },
}

/// The model of `ArtifactPreview`.
#[verifier::ext_equal]
pub enum ArtifactPreviewView {
    PaperReport { query: Seq<char>, paper_count: usize, headline: Seq<char> },
    DatasetAudit { dataset: Seq<char>, split_count: usize, issue_count: usize },
    JobSnapshot {
        job_id: Seq<char>,
        status: Seq<char>,
        hardware: Option<Seq<char>>,
        dashboard_url: Option<Seq<char>>,
    },
    Generic { headline: Seq<char> },
}

impl View for ArtifactPreview {
    type V = ArtifactPreviewView;

    open spec fn view(&self) -> ArtifactPreviewView {
        match *self {
            ArtifactPreview::PaperReport {
                query,
                paper_count,
                headline,
            } => ArtifactPreviewView::PaperReport {
                query: query@,
                paper_count,
                headline: headline@,
            },
            ArtifactPreview::DatasetAudit {
                dataset,
                split_count,
                issue_count,
            } => ArtifactPreviewView::DatasetAudit {
                dataset: dataset@,
                split_count,
                issue_count,
            },
            ArtifactPreview::JobSnapshot {
                job_id,
                status,
                hardware,
                dashboard_url,
            } => ArtifactPreviewView::JobSnapshot {
                job_id: job_id@,
                status: status@,
                hardware: text::opt_view(hardware),
                dashboard_url: text::opt_view(dashboard_url),
            },
            ArtifactPreview::Generic { headline } => ArtifactPreviewView::Generic {
                headline: headline@,
            },
        }
    }
}

impl Clone for ArtifactPreview {
    fn clone(&self) -> (copy: Self)
        ensures
            copy@ == self@,
    {
        match self {
            ArtifactPreview::PaperReport {
                query,
                paper_count,
                headline,
            } => ArtifactPreview::PaperReport {
                query: query.clone(),
                paper_count: *paper_count,
                headline: headline.clone(),
            },
            ArtifactPreview::DatasetAudit {
                dataset,
                split_count,
                issue_count,
            } => ArtifactPreview::DatasetAudit {
                dataset: dataset.clone(),
                split_count: *split_count,
                issue_count: *issue_count,
            },
            ArtifactPreview::JobSnapshot {
                job_id,
                status,
                hardware,
                dashboard_url,
            } => ArtifactPreview::JobSnapshot {
                job_id: job_id.clone(),
                status: status.clone(),
                hardware: text::copy_maybe(hardware),
                dashboard_url: text::copy_maybe(dashboard_url),
            },
            ArtifactPreview::Generic { headline } => ArtifactPreview::Generic {
                headline: headline.clone(),
            },
        }
    }
}

/// The metadata of a paper report.
#[derive(Debug, PartialEq)]
pub struct PaperReportMetadata {
    pub query: String,
    pub paper_count: usize,
    pub top_papers: Vec<String>,
    pub recommended_recipe: String,
}

/// The model of `PaperReportMetadata`.
#[verifier::ext_equal]
pub struct PaperReportMetadataView {
    pub query: Seq<char>,
    pub paper_count: usize,
    pub top_papers: Seq<Seq<char>>,
    pub recommended_recipe: Seq<char>,
}

impl View for PaperReportMetadata {
    type V = PaperReportMetadataView;

    open spec fn view(&self) -> PaperReportMetadataView {
        PaperReportMetadataView {
            query: self.query@,
            paper_count: self.paper_count,
            top_papers: text::views(self.top_papers@),
            recommended_recipe: self.recommended_recipe@,
        }
    }
}

impl Clone for PaperReportMetadata {
    fn clone(&self) -> (copy: Self)
        ensures
            copy@ == self@,
    {
        PaperReportMetadata {
            query: self.query.clone(),
            paper_count: self.paper_count,
            top_papers: text::copy_all(&self.top_papers),
            recommended_recipe: self.recommended_recipe.clone(),
        }
    }
}

/// The metadata of a dataset audit. `row_counts` is JSON text.
#[derive(Debug, PartialEq)]
pub struct DatasetAuditMetadata {
    pub dataset: String,
    pub splits: Vec<String>,
    pub row_counts: String,
    pub issues: Vec<String>,
}

/// The model of `DatasetAuditMetadata`.
#[verifier::ext_equal]
pub struct DatasetAuditMetadataView {
    pub dataset: Seq<char>,
    pub splits: Seq<Seq<char>>,
    pub row_counts: Seq<char>,
    pub issues: Seq<Seq<char>>,
}

impl View for DatasetAuditMetadata {
    type V = DatasetAuditMetadataView;

    open spec fn view(&self) -> DatasetAuditMetadataView {
        DatasetAuditMetadataView {
            dataset: self.dataset@,
            splits: text::views(self.splits@),
            row_counts: self.row_counts@,
            issues: text::views(self.issues@),
        }
    }
}

impl Clone for DatasetAuditMetadata {
    fn clone(&self) -> (copy: Self)
        ensures
            copy@ == self@,
    {
        DatasetAuditMetadata {
            dataset: self.dataset.clone(),
            splits: text::copy_all(&self.splits),
            row_counts: self.row_counts.clone(),
            issues: text::copy_all(&self.issues),
        }
    }
}

/// The metadata of a job snapshot.
#[derive(Debug, PartialEq)]
pub struct JobSnapshotMetadata {
    pub job_id: String,
    pub status: String,
    pub hardware: Option<String>,
    pub dashboard_url: Option<String>,
    pub duration_seconds: Option<u64>,
}

/// The model of `JobSnapshotMetadata`.
#[verifier::ext_equal]
pub struct JobSnapshotMetadataView {
    pub job_id: Seq<char>,
    pub status: Seq<char>,
    pub hardware: Option<Seq<char>>,
    pub dashboard_url: Option<Seq<char>>,
    pub duration_seconds: Option<u64>,
}

impl View for JobSnapshotMetadata {
    type V = JobSnapshotMetadataView;

    open spec fn view(&self) -> JobSnapshotMetadataView {
        JobSnapshotMetadataView {
            job_id: self.job_id@,
            status: self.status@,
            hardware: text::opt_view(self.hardware),
            dashboard_url: text::opt_view(self.dashboard_url),
            duration_seconds: self.duration_seconds,
        }
    }
}

impl Clone for JobSnapshotMetadata {
    fn clone(&self) -> (copy: Self)
        ensures
            copy@ == self@,
    {
        JobSnapshotMetadata {
            job_id: self.job_id.clone(),
            status: self.status.clone(),
            hardware: text::copy_maybe(&self.hardware),
            dashboard_url: text::copy_maybe(&self.dashboard_url),
            duration_seconds: self.duration_seconds,
        }
    }
}

} // verus!
