//! Planning a run: from the selected assets to the list of upload tasks.

use crate::cache::{copy_opt, Cache, CacheItemView, DataType};
use crate::paths::{extension, extension_of, file_stem, stem_of};
use crate::task::{
    copy_tags, tag_views, Tag, TagView, TaskView, UploadError, UploadErrorView,
    UploadTask,
};
use std::collections::HashMap;
use vstd::prelude::*;

verus! {

broadcast use vstd::std_specs::hash::group_hash_axioms;

/// One asset: the paths of its image file, of its metadata document and, if
/// it has one, of its animation file.
#[derive(Clone, Debug, PartialEq, Eq)]
pub struct AssetPair {
    pub image: String,
    pub metadata: String,
    pub animation: Option<String>,
}

/// The file of kind `kind` of the asset under `index`, if the asset is known,
/// has such a file and the file's path has an extension.
pub open spec fn selected(assets: Map<usize, AssetPair>, index: usize, kind: DataType) -> Result<
    Seq<char>,
    UploadErrorView,
> {
    if !assets.contains_key(index) {
        Err(UploadErrorView::MissingAsset(index))
    } else {
        let asset = assets[index];
        let path = match kind {
            DataType::Image => Some(asset.image@),
            DataType::Metadata => Some(asset.metadata@),
            DataType::Animation => match asset.animation {
                Some(path) => Some(path@),
                None => None,
            },
        };
        match path {
            None => Err(UploadErrorView::MissingAnimation(index)),
            Some(path) => if extension_of(path) is None {
                Err(UploadErrorView::MissingExtension(index))
            } else {
                Ok(path)
            },
        }
    }
}

/// The path that [`selected`] gives for the asset under `index`.
pub open spec fn selected_path(assets: Map<usize, AssetPair>, index: usize, kind: DataType) -> Seq<
    char,
> {
    match selected(assets, index, kind) {
        Ok(path) => path,
        Err(_) => Seq::empty(),
    }
}

/// The paths that [`selected`] gives for the assets under `indices`, in
/// order.
pub open spec fn selected_paths(assets: Map<usize, AssetPair>, indices: Seq<usize>, kind: DataType) -> Seq<
    Seq<char>,
> {
    Seq::new(indices.len(), |i: int| selected_path(assets, indices[i], kind))
}

/// Whether `paths` is a non-empty list of paths that all have an extension,
/// and the same one.
pub open spec fn one_extension(paths: Seq<Seq<char>>) -> bool {
    &&& paths.len() > 0
    &&& extension_of(paths[0]) is Some
    &&& forall|i: int| 0 <= i < paths.len() ==> extension_of(#[trigger] paths[i]) == extension_of(paths[0])
}

/// The content type of a file of kind `kind` with the extension `extension`.
pub open spec fn content_type(kind: DataType, extension: Seq<char>) -> Seq<char> {
    match kind {
        DataType::Image => "image/"@ + extension,
        DataType::Metadata => "application/json"@,
        DataType::Animation => "video/"@ + extension,
    }
}

/// The tags of a file of kind `kind` with the extension `extension`, sent by
/// the version `version` of the program.
pub open spec fn tags_for(kind: DataType, extension: Seq<char>, version: Seq<char>) -> Seq<TagView> {
    seq![
        TagView { name: "App-Name"@, value: "Sugar "@ + version },
        TagView { name: "Content-Type"@, value: content_type(kind, extension) },
    ]
}

/// The task that uploads the file at `path`, with the links that `cache`
/// holds for the file's asset.
pub open spec fn task_for(
    cache: Map<Seq<char>, CacheItemView>,
    path: Seq<char>,
    kind: DataType,
    tags: Seq<TagView>,
) -> TaskView {
    let id = stem_of(path)->0;
    TaskView {
        asset_id: id,
        file_path: path,
        image_link: cache[id].image_link,
        animation_link: cache[id].animation_link,
        data_type: kind,
        tag: tags,
    }
}

/// The views of a list of strings, in order.
pub open spec fn texts(strings: Seq<String>) -> Seq<Seq<char>> {
    Seq::new(strings.len(), |i: int| strings[i]@)
}

/// The file of kind `kind` of the asset under `index`.
pub fn select_file(assets: &HashMap<usize, AssetPair>, index: usize, kind: DataType) -> (r: Result<
    String,
    UploadError,
>)
    ensures
        match r {
            Ok(path) => selected(assets@, index, kind) == Ok::<Seq<char>, UploadErrorView>(path@),
            Err(e) => selected(assets@, index, kind) == Err::<Seq<char>, UploadErrorView>(e@),
        },
{
    let asset = match assets.get(&index) {
        Some(asset) => asset,
        None => {
            return Err(UploadError::MissingAsset(index));
        },
    };
    let path = match kind {
        DataType::Image => asset.image.clone(),
        DataType::Metadata => asset.metadata.clone(),
        DataType::Animation => match &asset.animation {
            Some(path) => path.clone(),
            None => {
                return Err(UploadError::MissingAnimation(index));
            },
        },
    };
    match extension(path.as_str()) {
        Some(_) => Ok(path),
        None => Err(UploadError::MissingExtension(index)),
    }
}

/// The files of kind `kind` of the assets under `indices`, in order, or the
/// error of the first asset that has no such file.
pub fn select_files(assets: &HashMap<usize, AssetPair>, indices: &Vec<usize>, kind: DataType) -> (r:
    Result<Vec<String>, UploadError>)
    ensures
        match r {
            Ok(paths) => {
                &&& forall|i: int|
                    0 <= i < indices@.len() ==> selected(assets@, #[trigger] indices@[i], kind) is Ok
                &&& texts(paths@) == selected_paths(assets@, indices@, kind)
            },
            Err(e) => exists|i: int|
                0 <= i < indices@.len() && selected(assets@, #[trigger] indices@[i], kind) == Err::<
                    Seq<char>,
                    UploadErrorView,
                >(e@) && forall|j: int|
                    0 <= j < i ==> selected(assets@, #[trigger] indices@[j], kind) is Ok,
        },
{
    let mut paths: Vec<String> = Vec::new();
    let mut i: usize = 0;
    while i < indices.len()
        invariant
            i <= indices@.len(),
            paths@.len() == i,
            forall|j: int| 0 <= j < i ==> selected(assets@, #[trigger] indices@[j], kind) is Ok,
            forall|j: int|
                0 <= j < i ==> (#[trigger] paths@[j])@ == selected_path(assets@, indices@[j], kind),
        decreases indices@.len() - i,
    {
        match select_file(assets, indices[i], kind) {
            Ok(path) => {
                paths.push(path);
            },
            Err(e) => {
                return Err(e);
            },
        }
        i += 1;
    }
    Ok(paths)
}

/// The extension that all of `paths` share, if there is at least one path
/// and they share one.
pub fn common_extension(paths: &Vec<String>) -> (r: Option<String>)
    ensures
        match r {
            Some(ext) => one_extension(texts(paths@)) && extension_of(paths@[0]@) == Some(ext@),
            None => !one_extension(texts(paths@)),
        },
{
    if paths.len() == 0 {
        return None;
    }
    let first = match extension(paths[0].as_str()) {
        Some(ext) => ext,
        None => {
            return None;
        },
    };
    let mut i: usize = 1;
    while i < paths.len()
        invariant
            1 <= i <= paths@.len(),
            extension_of(paths@[0]@) == Some(first@),
            forall|j: int|
                0 <= j < i ==> extension_of(#[trigger] texts(paths@)[j]) == extension_of(
                    texts(paths@)[0],
                ),
        decreases paths@.len() - i,
    {
        match extension(paths[i].as_str()) {
            Some(ext) => {
                if ext != first {
                    assert(extension_of(texts(paths@)[i as int]) != extension_of(texts(paths@)[0]));
                    return None;
                }
            },
            None => {
                return None;
            },
        }
        i += 1;
    }
    Some(first)
}

/// The tags of a file of kind `kind` with the extension `extension`: the
/// name of the program with its version `version`, and the content type.
pub fn upload_tags(kind: DataType, extension: &str, version: &str) -> (tags: Vec<Tag>)
    ensures
        tag_views(tags@) == tags_for(kind, extension@, version@),
{
    let mut program = "Sugar ".to_owned();
    program.append(version);
    let content = match kind {
        DataType::Image => {
            let mut text = "image/".to_owned();
            text.append(extension);
            text
        },
        DataType::Metadata => "application/json".to_owned(),
        DataType::Animation => {
            let mut text = "video/".to_owned();
            text.append(extension);
            text
        },
    };
    let mut tags: Vec<Tag> = Vec::new();
    tags.push(Tag { name: "App-Name".to_owned(), value: program });
    tags.push(Tag { name: "Content-Type".to_owned(), value: content });
    tags
}

/// Whether the file of kind `kind` of the asset under `index` needs no
/// upload: the asset has such a file, its cache entry exists and holds a
/// link for it.
pub open spec fn satisfied(
    assets: Map<usize, AssetPair>,
    cache: Map<Seq<char>, CacheItemView>,
    index: usize,
    kind: DataType,
) -> bool {
    match selected(assets, index, kind) {
        Ok(path) => {
            let id = stem_of(path)->0;
            stem_of(path) is Some && cache.dom().contains(id) && cache[id].linked(kind)
        },
        Err(_) => false,
    }
}

/// Those of `indices`, in their order, whose file of kind `kind` still needs
/// an upload.
pub open spec fn unsatisfied(
    assets: Map<usize, AssetPair>,
    cache: Map<Seq<char>, CacheItemView>,
    indices: Seq<usize>,
    kind: DataType,
) -> Seq<usize>
    decreases indices.len(),
{
    if indices.len() == 0 {
        Seq::empty()
    } else {
        let earlier = unsatisfied(assets, cache, indices.drop_last(), kind);
        if satisfied(assets, cache, indices.last(), kind) {
            earlier
        } else {
            earlier.push(indices.last())
        }
    }
}

/// What is picked is exactly what was selected and still needs an upload.
/// In particular nothing is picked once every selected file has its link.
pub proof fn lemma_unsatisfied(
    assets: Map<usize, AssetPair>,
    cache: Map<Seq<char>, CacheItemView>,
    indices: Seq<usize>,
    kind: DataType,
)
    ensures
        forall|x: usize|
            unsatisfied(assets, cache, indices, kind).contains(x) <==> indices.contains(x)
                && !satisfied(assets, cache, x, kind),
        (forall|i: int| 0 <= i < indices.len() ==> satisfied(assets, cache, #[trigger] indices[i], kind))
            ==> unsatisfied(assets, cache, indices, kind).len() == 0,
    decreases indices.len(),
{
    let picked = unsatisfied(assets, cache, indices, kind);
    if indices.len() > 0 {
        let earlier = indices.drop_last();
        let before = unsatisfied(assets, cache, earlier, kind);
        lemma_unsatisfied(assets, cache, earlier, kind);
        assert forall|x: usize|
            picked.contains(x) <==> indices.contains(x) && !satisfied(assets, cache, x, kind) by {
            assert(before.contains(x) <==> earlier.contains(x) && !satisfied(assets, cache, x, kind));
            if indices.contains(x) && !satisfied(assets, cache, x, kind) {
                let k = indices.index_of(x);
                if k < earlier.len() {
                    assert(earlier[k] == x);
                    let j = before.index_of(x);
                    assert(picked[j] == x);
                } else {
                    assert(picked[picked.len() - 1] == x);
                }
            }
        }
    }
}

/// Whether the file of kind `kind` of the asset under `index` needs no
/// upload because the cache already holds a link for it.
pub fn is_satisfied(assets: &HashMap<usize, AssetPair>, cache: &Cache, index: usize, kind: DataType) -> (b:
    bool)
    requires
        cache.wf(),
    ensures
        b == satisfied(assets@, cache.map(), index, kind),
{
    let path = match select_file(assets, index, kind) {
        Ok(path) => path,
        Err(_) => {
            return false;
        },
    };
    let id = match file_stem(path.as_str()) {
        Some(id) => id,
        None => {
            return false;
        },
    };
    match cache.get(id.as_str()) {
        Some(item) => item.is_linked(kind),
        None => false,
    }
}

/// Picks what a run has to upload: those of `indices`, in their order,
/// whose file of kind `kind` has no link in the cache yet. An asset that was
/// uploaded by an earlier run is left out, so that a run can be repeated
/// until every file has its link; an index that cannot be planned is kept,
/// so that the plan reports it.
pub fn pending_indices(
    assets: &HashMap<usize, AssetPair>,
    cache: &Cache,
    indices: &Vec<usize>,
    kind: DataType,
) -> (pending: Vec<usize>)
    requires
        cache.wf(),
    ensures
        pending@ == unsatisfied(assets@, cache.map(), indices@, kind),
{
    let mut pending: Vec<usize> = Vec::new();
    let mut i: usize = 0;
    while i < indices.len()
        invariant
            i <= indices@.len(),
            cache.wf(),
            pending@ == unsatisfied(assets@, cache.map(), indices@.take(i as int), kind),
        decreases indices@.len() - i,
    {
        proof {
            assert(indices@.take(i + 1).drop_last() =~= indices@.take(i as int));
        }
        if !is_satisfied(assets, cache, indices[i], kind) {
            pending.push(indices[i]);
        }
        i += 1;
    }
    proof {
        assert(indices@.take(i as int) =~= indices@);
    }
    pending
}

/// The tasks that upload the files at `paths`, in order, or the error of the
/// first file whose asset has no cache entry.
fn build_tasks(cache: &Cache, paths: &Vec<String>, kind: DataType, tags: &Vec<Tag>) -> (r: Result<
    Vec<UploadTask>,
    UploadError,
>)
    requires
        cache.wf(),
        forall|i: int| 0 <= i < paths@.len() ==> stem_of((#[trigger] paths@[i])@) is Some,
    ensures
        match r {
            Ok(tasks) => {
                &&& tasks@.len() == paths@.len()
                &&& forall|i: int|
                    0 <= i < paths@.len() ==> cache.map().dom().contains(
                        stem_of((#[trigger] paths@[i])@)->0,
                    )
                &&& forall|i: int|
                    0 <= i < paths@.len() ==> (#[trigger] tasks@[i])@ == task_for(
                        cache.map(),
                        paths@[i]@,
                        kind,
                        tag_views(tags@),
                    )
            },
            Err(e) => exists|i: int|
                0 <= i < paths@.len() && e@ == UploadErrorView::MissingCacheItem(
                    stem_of((#[trigger] paths@[i])@)->0,
                ) && !cache.map().dom().contains(stem_of(paths@[i]@)->0) && forall|j: int|
                    0 <= j < i ==> cache.map().dom().contains(stem_of((#[trigger] paths@[j])@)->0),
        },
{
    let mut tasks: Vec<UploadTask> = Vec::new();
    let mut i: usize = 0;
    while i < paths.len()
        invariant
            i <= paths@.len(),
            cache.wf(),
            tasks@.len() == i,
            forall|j: int| 0 <= j < paths@.len() ==> stem_of((#[trigger] paths@[j])@) is Some,
            forall|j: int|
                0 <= j < i ==> cache.map().dom().contains(stem_of((#[trigger] paths@[j])@)->0),
            forall|j: int|
                0 <= j < i ==> (#[trigger] tasks@[j])@ == task_for(
                    cache.map(),
                    paths@[j]@,
                    kind,
                    tag_views(tags@),
                ),
        decreases paths@.len() - i,
    {
        let asset_id = match file_stem(paths[i].as_str()) {
            Some(stem) => stem,
            None => {
                vstd::pervasive::unreached()
            },
        };
        let task = match cache.get(asset_id.as_str()) {
            Some(item) => UploadTask {
                asset_id,
                file_path: paths[i].clone(),
                image_link: item.image_link.clone(),
                animation_link: copy_opt(&item.animation_link),
                data_type: kind,
                tag: copy_tags(tags),
            },
            None => {
                return Err(UploadError::MissingCacheItem(asset_id));
            },
        };
        tasks.push(task);
        i += 1;
    }
    Ok(tasks)
}

/// What went wrong with a plan that [`plan_uploads`] turned down: the error
/// of the first asset without a file to upload; else that the files do not
/// share one extension; else the first file whose asset has no cache entry.
pub open spec fn plan_error(
    assets: Map<usize, AssetPair>,
    cache: Map<Seq<char>, CacheItemView>,
    indices: Seq<usize>,
    kind: DataType,
    e: UploadErrorView,
) -> bool {
    let paths = selected_paths(assets, indices, kind);
    ||| exists|i: int|
        0 <= i < indices.len() && selected(assets, #[trigger] indices[i], kind) == Err::<
            Seq<char>,
            UploadErrorView,
        >(e) && forall|j: int| 0 <= j < i ==> selected(assets, #[trigger] indices[j], kind) is Ok
    ||| {
        &&& forall|i: int| 0 <= i < indices.len() ==> selected(assets, #[trigger] indices[i], kind) is Ok
        &&& !one_extension(paths)
        &&& e == UploadErrorView::InvalidExtension
    }
    ||| {
        &&& forall|i: int| 0 <= i < indices.len() ==> selected(assets, #[trigger] indices[i], kind) is Ok
        &&& one_extension(paths)
        &&& exists|i: int|
            0 <= i < paths.len() && e == UploadErrorView::MissingCacheItem(
                stem_of(#[trigger] paths[i])->0,
            ) && !cache.dom().contains(stem_of(paths[i])->0) && forall|j: int|
                0 <= j < i ==> cache.dom().contains(stem_of(#[trigger] paths[j])->0)
    }
}

/// Plans the upload of the files of kind `kind` of the assets under
/// `indices`: one task per index, in the order of the indices.
///
/// Every selected asset must be known and have a file of that kind whose
/// path has an extension; the files must share one extension, so an empty
/// selection is turned down too; and the asset of every file, named by the
/// file's stem, must have a cache entry. Each task carries the links that the
/// cache holds for its asset and the tags of the upload.
pub fn plan_uploads(
    assets: &HashMap<usize, AssetPair>,
    cache: &Cache,
    indices: &Vec<usize>,
    kind: DataType,
    version: &str,
) -> (r: Result<Vec<UploadTask>, UploadError>)
    requires
        cache.wf(),
    ensures
        match r {
            Ok(tasks) => {
                let paths = selected_paths(assets@, indices@, kind);
                &&& forall|i: int|
                    0 <= i < indices@.len() ==> selected(assets@, #[trigger] indices@[i], kind) is Ok
                &&& one_extension(paths)
                &&& tasks@.len() == indices@.len()
                &&& forall|i: int|
                    0 <= i < paths.len() ==> cache.map().dom().contains(stem_of(#[trigger] paths[i])->0)
                &&& forall|i: int|
                    0 <= i < paths.len() ==> (#[trigger] tasks@[i])@ == task_for(
                        cache.map(),
                        paths[i],
                        kind,
                        tags_for(kind, extension_of(paths[0])->0, version@),
                    )
            },
            Err(e) => plan_error(assets@, cache.map(), indices@, kind, e@),
        },
{
    let paths = match select_files(assets, indices, kind) {
        Ok(paths) => paths,
        Err(e) => {
            return Err(e);
        },
    };
    let ghost views = selected_paths(assets@, indices@, kind);
    let ext = match common_extension(&paths) {
        Some(ext) => ext,
        None => {
            return Err(UploadError::InvalidExtension);
        },
    };
    let tags = upload_tags(kind, ext.as_str(), version);
    proof {
        assert forall|i: int| 0 <= i < paths@.len() implies stem_of((#[trigger] paths@[i])@) is Some by {
            assert(texts(paths@)[i] == paths@[i]@);
        }
    }
    match build_tasks(cache, &paths, kind, &tags) {
        Ok(tasks) => {
            proof {
                assert forall|i: int| 0 <= i < views.len() implies (#[trigger] tasks@[i])@
                    == task_for(
                    cache.map(),
                    views[i],
                    kind,
                    tags_for(kind, extension_of(views[0])->0, version@),
                ) by {}
            }
            Ok(tasks)
        },
        Err(e) => {
            proof {
                let i = choose|i: int|
                    0 <= i < paths@.len() && e@ == UploadErrorView::MissingCacheItem(
                        stem_of((#[trigger] paths@[i])@)->0,
                    ) && !cache.map().dom().contains(stem_of(paths@[i]@)->0) && forall|j: int|
                        0 <= j < i ==> cache.map().dom().contains(
                            stem_of((#[trigger] paths@[j])@)->0,
                        );
                assert(0 <= i < views.len() && e@ == UploadErrorView::MissingCacheItem(
                    stem_of(views[i])->0,
                ) && !cache.map().dom().contains(stem_of(views[i])->0));
            }
            Err(e)
        },
    }
}

} // verus!
