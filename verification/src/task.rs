//! Upload tasks, their results and the errors that a run collects.

use crate::bundlr::UploadMethod;
use crate::cache::{copy_opt, opt_view, DataType};
use crate::decimal::{decimal_text, to_decimal};
use vstd::prelude::*;

verus! {

/// A descriptive tag that accompanies an uploaded file.
#[derive(Clone, Debug, PartialEq, Eq)]
pub struct Tag {
    pub name: String,
    pub value: String,
}

/// The mathematical value of a [`Tag`].
pub struct TagView {
    pub name: Seq<char>,
    pub value: Seq<char>,
}

impl View for Tag {
    type V = TagView;

    open spec fn view(&self) -> TagView {
        TagView { name: self.name@, value: self.value@ }
    }
}

impl Tag {
    /// A copy with the same name and value.
    pub fn duplicate(&self) -> (r: Tag)
        ensures
            r@ == self@,
    {
        Tag { name: self.name.clone(), value: self.value.clone() }
    }
}

/// The views of a list of tags, in order.
pub open spec fn tag_views(tags: Seq<Tag>) -> Seq<TagView> {
    Seq::new(tags.len(), |i: int| tags[i]@)
}

/// A copy of a list of tags.
pub fn copy_tags(tags: &Vec<Tag>) -> (r: Vec<Tag>)
    ensures
        tag_views(r@) == tag_views(tags@),
{
    let mut r: Vec<Tag> = Vec::new();
    let mut i: usize = 0;
    while i < tags.len()
        invariant
            i <= tags@.len(),
            r@.len() == i,
            forall|j: int| 0 <= j < i ==> r@[j]@ == tags@[j]@,
        decreases tags@.len() - i,
    {
        r.push(tags[i].duplicate());
        i += 1;
    }
    r
}

/// One file to upload: which asset it belongs to, where the file is, the
/// links already recorded for the asset (a metadata document is sent with
/// them in place of the paths of its files), the kind of file and its tags.
#[derive(Clone, Debug, PartialEq, Eq)]
pub struct UploadTask {
    pub asset_id: String,
    pub file_path: String,
    pub image_link: String,
    pub animation_link: Option<String>,
    pub data_type: DataType,
    pub tag: Vec<Tag>,
}

/// The mathematical value of an [`UploadTask`].
pub struct TaskView {
    pub asset_id: Seq<char>,
    pub file_path: Seq<char>,
    pub image_link: Seq<char>,
    pub animation_link: Option<Seq<char>>,
    pub data_type: DataType,
    pub tag: Seq<TagView>,
}

impl View for UploadTask {
    type V = TaskView;

    open spec fn view(&self) -> TaskView {
        TaskView {
            asset_id: self.asset_id@,
            file_path: self.file_path@,
            image_link: self.image_link@,
            animation_link: opt_view(self.animation_link),
            data_type: self.data_type,
            tag: tag_views(self.tag@),
        }
    }
}

impl UploadTask {
    /// A copy with the same contents.
    pub fn duplicate(&self) -> (r: UploadTask)
        ensures
            r@ == self@,
    {
        UploadTask {
            asset_id: self.asset_id.clone(),
            file_path: self.file_path.clone(),
            image_link: self.image_link.clone(),
            animation_link: copy_opt(&self.animation_link),
            data_type: self.data_type,
            tag: copy_tags(&self.tag),
        }
    }
}

/// The views of a list of tasks, in order.
pub open spec fn task_views(tasks: Seq<UploadTask>) -> Seq<TaskView> {
    Seq::new(tasks.len(), |i: int| tasks[i]@)
}

/// The asset identifiers of a list of tasks, in order.
pub open spec fn task_ids(tasks: Seq<TaskView>) -> Seq<Seq<char>> {
    Seq::new(tasks.len(), |i: int| tasks[i].asset_id)
}

/// Why an upload, or the preparation for it, failed.
#[derive(Clone, Debug, PartialEq, Eq)]
pub enum UploadError {
    /// The storage balance of the given address stayed below what the
    /// upload costs.
    NoBundlrBalance(String),
    /// Sending a file failed; the text says how.
    SendDataFailed(String),
    /// The selected files do not share exactly one extension.
    InvalidExtension,
    /// No asset is known under the given index.
    MissingAsset(usize),
    /// The asset under the given index has no animation file.
    MissingAnimation(usize),
    /// The file of the asset under the given index has no extension.
    MissingExtension(usize),
    /// The cache has no entry for the given asset.
    MissingCacheItem(String),
    /// The given asset was selected twice.
    DuplicateAsset(String),
    /// The task of the given asset is of another kind than the run.
    WrongDataType(String),
    /// The given upload method is not served.
    UnsupportedMethod(UploadMethod),
}

/// The mathematical value of an [`UploadError`].
pub enum UploadErrorView {
    NoBundlrBalance(Seq<char>),
    SendDataFailed(Seq<char>),
    InvalidExtension,
    MissingAsset(usize),
    MissingAnimation(usize),
    MissingExtension(usize),
    MissingCacheItem(Seq<char>),
    DuplicateAsset(Seq<char>),
    WrongDataType(Seq<char>),
    UnsupportedMethod(UploadMethod),
}

impl View for UploadError {
    type V = UploadErrorView;

    open spec fn view(&self) -> UploadErrorView {
        match self {
            UploadError::NoBundlrBalance(a) => UploadErrorView::NoBundlrBalance(a@),
            UploadError::SendDataFailed(m) => UploadErrorView::SendDataFailed(m@),
            UploadError::InvalidExtension => UploadErrorView::InvalidExtension,
            UploadError::MissingAsset(i) => UploadErrorView::MissingAsset(*i),
            UploadError::MissingAnimation(i) => UploadErrorView::MissingAnimation(*i),
            UploadError::MissingExtension(i) => UploadErrorView::MissingExtension(*i),
            UploadError::MissingCacheItem(a) => UploadErrorView::MissingCacheItem(a@),
            UploadError::DuplicateAsset(a) => UploadErrorView::DuplicateAsset(a@),
            UploadError::WrongDataType(a) => UploadErrorView::WrongDataType(a@),
            UploadError::UnsupportedMethod(m) => UploadErrorView::UnsupportedMethod(*m),
        }
    }
}

impl UploadErrorView {
    /// What the error tells the user.
    pub open spec fn message(self) -> Seq<char> {
        match self {
            UploadErrorView::NoBundlrBalance(address) => "No Bundlr balance found for address: "@
                + address + ", check Bundlr cluster and address balance"@,
            UploadErrorView::SendDataFailed(text) => text,
            UploadErrorView::InvalidExtension => "Invalid file extension"@,
            UploadErrorView::MissingAsset(index) => "Failed to get asset at index "@
                + decimal_text(index as nat),
            UploadErrorView::MissingAnimation(index) => "Failed to get animation of asset at index "@
                + decimal_text(index as nat),
            UploadErrorView::MissingExtension(index) => "Failed to get extension of asset at index "@
                + decimal_text(index as nat),
            UploadErrorView::MissingCacheItem(asset) => "Failed to get config item at index "@
                + asset,
            UploadErrorView::DuplicateAsset(asset) => "Asset selected more than once: "@ + asset,
            UploadErrorView::WrongDataType(asset) => "Task of another data type for asset: "@
                + asset,
            UploadErrorView::UnsupportedMethod(method) => "Upload method '"@ + method.name_text()
                + "' currently unsupported!"@,
        }
    }
}

/// `head` followed by `tail`.
fn joined(head: &str, tail: &str) -> (text: String)
    ensures
        text@ == head@ + tail@,
{
    let mut text = head.to_owned();
    text.append(tail);
    text
}

impl UploadError {
    /// What the error tells the user.
    pub fn message(&self) -> (text: String)
        ensures
            text@ == self@.message(),
    {
        match self {
            UploadError::NoBundlrBalance(address) => {
                let mut text = joined("No Bundlr balance found for address: ", address.as_str());
                text.append(", check Bundlr cluster and address balance");
                text
            },
            UploadError::SendDataFailed(text) => text.clone(),
            UploadError::InvalidExtension => "Invalid file extension".to_owned(),
            UploadError::MissingAsset(index) => joined(
                "Failed to get asset at index ",
                to_decimal(*index as u64).as_str(),
            ),
            UploadError::MissingAnimation(index) => joined(
                "Failed to get animation of asset at index ",
                to_decimal(*index as u64).as_str(),
            ),
            UploadError::MissingExtension(index) => joined(
                "Failed to get extension of asset at index ",
                to_decimal(*index as u64).as_str(),
            ),
            UploadError::MissingCacheItem(asset) => joined(
                "Failed to get config item at index ",
                asset.as_str(),
            ),
            UploadError::DuplicateAsset(asset) => joined(
                "Asset selected more than once: ",
                asset.as_str(),
            ),
            UploadError::WrongDataType(asset) => joined(
                "Task of another data type for asset: ",
                asset.as_str(),
            ),
            UploadError::UnsupportedMethod(method) => {
                let mut text = joined("Upload method '", method.name());
                text.append("' currently unsupported!");
                text
            },
        }
    }

    /// A copy of the error.
    pub fn duplicate(&self) -> (r: UploadError)
        ensures
            r@ == self@,
    {
        match self {
            UploadError::NoBundlrBalance(a) => UploadError::NoBundlrBalance(a.clone()),
            UploadError::SendDataFailed(m) => UploadError::SendDataFailed(m.clone()),
            UploadError::InvalidExtension => UploadError::InvalidExtension,
            UploadError::MissingAsset(i) => UploadError::MissingAsset(*i),
            UploadError::MissingAnimation(i) => UploadError::MissingAnimation(*i),
            UploadError::MissingExtension(i) => UploadError::MissingExtension(*i),
            UploadError::MissingCacheItem(a) => UploadError::MissingCacheItem(a.clone()),
            UploadError::DuplicateAsset(a) => UploadError::DuplicateAsset(a.clone()),
            UploadError::WrongDataType(a) => UploadError::WrongDataType(a.clone()),
            UploadError::UnsupportedMethod(m) => UploadError::UnsupportedMethod(*m),
        }
    }
}

/// The failed upload of one asset's file.
#[derive(Clone, Debug, PartialEq, Eq)]
pub struct FailedUpload {
    pub asset_id: String,
    pub error: UploadError,
}

/// The mathematical value of a [`FailedUpload`].
pub struct FailedUploadView {
    pub asset_id: Seq<char>,
    pub error: UploadErrorView,
}

impl View for FailedUpload {
    type V = FailedUploadView;

    open spec fn view(&self) -> FailedUploadView {
        FailedUploadView { asset_id: self.asset_id@, error: self.error@ }
    }
}

impl FailedUpload {
    /// A copy of the record.
    pub fn duplicate(&self) -> (r: FailedUpload)
        ensures
            r@ == self@,
    {
        FailedUpload { asset_id: self.asset_id.clone(), error: self.error.duplicate() }
    }
}

/// The views of a list of failures, in order.
pub open spec fn failure_views(failures: Seq<FailedUpload>) -> Seq<FailedUploadView> {
    Seq::new(failures.len(), |i: int| failures[i]@)
}

/// A copy of a list of failures.
pub fn copy_failures(failures: &Vec<FailedUpload>) -> (r: Vec<FailedUpload>)
    ensures
        failure_views(r@) == failure_views(failures@),
{
    let mut r: Vec<FailedUpload> = Vec::new();
    let mut i: usize = 0;
    while i < failures.len()
        invariant
            i <= failures@.len(),
            r@.len() == i,
            forall|j: int| 0 <= j < i ==> r@[j]@ == failures@[j]@,
        decreases failures@.len() - i,
    {
        r.push(failures[i].duplicate());
        i += 1;
    }
    r
}

/// What came back for one dispatched task: the transaction identifier that
/// the storage network gave the file, or a text that says why sending failed.
#[derive(Debug)]
pub struct Completion {
    pub asset_id: String,
    pub result: Result<String, String>,
}

/// The mathematical value of a [`Completion`].
pub struct CompletionView {
    pub asset_id: Seq<char>,
    pub result: Result<Seq<char>, Seq<char>>,
}

impl View for Completion {
    type V = CompletionView;

    open spec fn view(&self) -> CompletionView {
        CompletionView {
            asset_id: self.asset_id@,
            result: match self.result {
                Ok(id) => Ok(id@),
                Err(e) => Err(e@),
            },
        }
    }
}

} // verus!
