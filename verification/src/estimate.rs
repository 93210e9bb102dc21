//! The fee estimator: how many bytes a batch is billed for.
//!
//! Every file is billed for a fixed header and for its size, but never for
//! less than a minimum size. A metadata document is measured after its links
//! have been replaced by placeholders of a fixed length, so that the estimate
//! does not depend on links that are not known yet.

use vstd::prelude::*;

verus! {

/// Size of the header of one stored file.
pub const HEADER_SIZE: u64 = 2000;

/// The least size that a file is billed for.
pub const MINIMUM_SIZE: u64 = 10000;

/// Length of the placeholder that stands for a link in a metadata document.
pub const MOCK_URI_SIZE: usize = 100;

/// The factor by which the quoted price is raised before it is compared with
/// the balance.
pub const FEE_MULTIPLIER: u64 = 1;

/// The bytes that a file of `size` bytes is billed for.
pub open spec fn billed(size: u64) -> int {
    HEADER_SIZE + if size < MINIMUM_SIZE {
        MINIMUM_SIZE as int
    } else {
        size as int
    }
}

/// The bytes that files of the given sizes are billed for together.
pub open spec fn billed_sum(sizes: Seq<u64>) -> int
    decreases sizes.len(),
{
    if sizes.len() == 0 {
        0
    } else {
        billed_sum(sizes.drop_last()) + billed(sizes.last())
    }
}

/// The bytes that a batch is billed for: its images, its animations and its
/// metadata documents, each document measured with placeholder links.
pub open spec fn batch_size(images: Seq<u64>, animations: Seq<u64>, metadata: Seq<u64>) -> int {
    billed_sum(images) + billed_sum(animations) + billed_sum(metadata)
}

/// A sum of billed sizes is never negative.
pub proof fn lemma_billed_sum_nonnegative(sizes: Seq<u64>)
    ensures
        billed_sum(sizes) >= 0,
    decreases sizes.len(),
{
    if sizes.len() > 0 {
        lemma_billed_sum_nonnegative(sizes.drop_last());
    }
}

/// A sum of billed sizes does not shrink when a file is added at the end.
proof fn lemma_billed_sum_prefix(sizes: Seq<u64>, n: int)
    requires
        0 <= n <= sizes.len(),
    ensures
        billed_sum(sizes.take(n)) <= billed_sum(sizes),
    decreases sizes.len() - n,
{
    if n == sizes.len() {
        assert(sizes.take(n) =~= sizes);
    } else {
        lemma_billed_sum_prefix(sizes, n + 1);
        assert(sizes.take(n + 1).drop_last() =~= sizes.take(n));
    }
}

/// Whether two lists of sizes have the same length and no size in `a` exceeds
/// the size at the same place in `b`.
pub open spec fn none_larger(a: Seq<u64>, b: Seq<u64>) -> bool {
    &&& a.len() == b.len()
    &&& forall|i: int| 0 <= i < a.len() ==> a[i] <= b[i]
}

/// A file is never billed for less than a smaller file. In particular a
/// metadata document measured with placeholder links is billed for at least
/// as much as any version of it that is no longer.
pub proof fn lemma_billed_monotonic(a: u64, b: u64)
    requires
        a <= b,
    ensures
        billed(a) <= billed(b),
{
}

/// What a list of files is billed for does not decrease when files grow.
pub proof fn lemma_billed_sum_monotonic(a: Seq<u64>, b: Seq<u64>)
    requires
        none_larger(a, b),
    ensures
        billed_sum(a) <= billed_sum(b),
    decreases a.len(),
{
    if a.len() > 0 {
        lemma_billed_sum_monotonic(a.drop_last(), b.drop_last());
    }
}

/// The estimate is monotonic in the file sizes: if no file of a batch
/// shrinks, the batch is not billed for less.
pub proof fn lemma_batch_size_monotonic(
    images: Seq<u64>,
    animations: Seq<u64>,
    metadata: Seq<u64>,
    larger_images: Seq<u64>,
    larger_animations: Seq<u64>,
    larger_metadata: Seq<u64>,
)
    requires
        none_larger(images, larger_images),
        none_larger(animations, larger_animations),
        none_larger(metadata, larger_metadata),
    ensures
        batch_size(images, animations, metadata) <= batch_size(
            larger_images,
            larger_animations,
            larger_metadata,
        ),
{
    lemma_billed_sum_monotonic(images, larger_images);
    lemma_billed_sum_monotonic(animations, larger_animations);
    lemma_billed_sum_monotonic(metadata, larger_metadata);
}

/// Adds what the files of the given sizes are billed for to `start`.
/// Returns `None` if the sum does not fit in 64 bits.
fn add_billed(start: u64, sizes: &Vec<u64>) -> (r: Option<u64>)
    ensures
        match r {
            Some(t) => t == start + billed_sum(sizes@),
            None => start + billed_sum(sizes@) > u64::MAX,
        },
{
    let mut total: u64 = start;
    let mut i: usize = 0;
    while i < sizes.len()
        invariant
            i <= sizes@.len(),
            total == start + billed_sum(sizes@.take(i as int)),
        decreases sizes@.len() - i,
    {
        let size = sizes[i];
        let floor = if size < MINIMUM_SIZE {
            MINIMUM_SIZE
        } else {
            size
        };
        proof {
            assert(sizes@.take(i + 1).drop_last() =~= sizes@.take(i as int));
            lemma_billed_sum_prefix(sizes@, i + 1);
        }
        let one = match HEADER_SIZE.checked_add(floor) {
            Some(one) => one,
            None => {
                return None;
            },
        };
        total = match total.checked_add(one) {
            Some(t) => t,
            None => {
                return None;
            },
        };
        i += 1;
    }
    proof {
        assert(sizes@.take(sizes@.len() as int) =~= sizes@);
    }
    Some(total)
}

/// The number of bytes that a batch is billed for, given the sizes of its
/// image files, of its animation files and of its metadata documents, each
/// document measured with placeholder links in it. Returns `None` exactly
/// if that number does not fit in 64 bits.
pub fn total_size(image_sizes: &Vec<u64>, animation_sizes: &Vec<u64>, metadata_sizes: &Vec<u64>) -> (r:
    Option<u64>)
    ensures
        match r {
            Some(t) => t == batch_size(image_sizes@, animation_sizes@, metadata_sizes@),
            None => batch_size(image_sizes@, animation_sizes@, metadata_sizes@) > u64::MAX,
        },
{
    proof {
        lemma_billed_sum_nonnegative(animation_sizes@);
        lemma_billed_sum_nonnegative(metadata_sizes@);
    }
    let images = match add_billed(0, image_sizes) {
        Some(t) => t,
        None => {
            return None;
        },
    };
    let with_animations = match add_billed(images, animation_sizes) {
        Some(t) => t,
        None => {
            return None;
        },
    };
    add_billed(with_animations, metadata_sizes)
}

/// The amount that the balance must reach for a quoted price of `fee`.
pub fn required_amount(fee: u64) -> (amount: u64)
    ensures
        amount == fee * FEE_MULTIPLIER,
        amount >= fee,
{
    fee * FEE_MULTIPLIER
}

/// The placeholder that stands for a link in a metadata document while its
/// size is estimated: `MOCK_URI_SIZE` times the letter `x`.
pub fn mock_uri() -> (uri: String)
    ensures
        uri@.len() == MOCK_URI_SIZE,
        forall|i: int| 0 <= i < uri@.len() ==> uri@[i] == 'x',
{
    let mut uri = String::new();
    let mut i: usize = 0;
    proof {
        reveal_strlit("x");
    }
    while i < MOCK_URI_SIZE
        invariant
            i <= MOCK_URI_SIZE,
            uri@.len() == i,
            "x"@ == seq!['x'],
            forall|j: int| 0 <= j < uri@.len() ==> uri@[j] == 'x',
        decreases MOCK_URI_SIZE - i,
    {
        uri.append("x");
        i += 1;
    }
    uri
}

/// The placeholder links with which a metadata document is measured: one for
/// the image and, if the asset has an animation, one for the animation.
pub fn mock_links(has_animation: bool) -> (links: (String, Option<String>))
    ensures
        links.0@.len() == MOCK_URI_SIZE,
        forall|i: int| 0 <= i < links.0@.len() ==> links.0@[i] == 'x',
        has_animation == links.1.is_some(),
        has_animation ==> links.1.unwrap()@ == links.0@,
{
    let image = mock_uri();
    let animation = if has_animation {
        Some(image.clone())
    } else {
        None
    };
    (image, animation)
}

} // verus!
