//! The asset publisher: uploads one book's extracted images, in order, each
//! under a fresh asset key carrying the extension of its final format, and
//! aborts the book's remaining uploads on the first failure.

use vstd::prelude::*;

use crate::errors::PipelineError;
use crate::paths::ext_of;
use crate::strutil::{concat3, str_eq};
use crate::xml::strings_view;

verus! {

/// The configured convertible set: formats handed to the external codec for
/// transcoding.
pub open spec fn convertible(ext: Seq<char>) -> bool {
    ext == "jpg"@ || ext == "jpeg"@ || ext == "png"@
}

/// The extension of the format an image is published under: `avif` when the
/// codec transcoded it, the source extension unchanged when the format is
/// not in the convertible set or the codec passed it through.
pub open spec fn final_ext_for(path: Seq<char>, transcoded: bool) -> Seq<char> {
    if transcoded {
        "avif"@
    } else {
        ext_of(path)
    }
}

/// The content type an asset of the given extension is uploaded with.
pub open spec fn content_type_for(ext: Seq<char>) -> Seq<char> {
    if ext == "avif"@ {
        "image/avif"@
    } else if ext == "jpg"@ || ext == "jpeg"@ {
        "image/jpeg"@
    } else if ext == "png"@ {
        "image/png"@
    } else {
        "application/octet-stream"@
    }
}

/// A fresh key stem rendered as 36 characters of lowercase hex digits and
/// hyphens.
pub open spec fn uuid_shaped(s: Seq<char>) -> bool {
    &&& s.len() == 36
    &&& forall|i: int|
        0 <= i < s.len() ==> ('0' <= #[trigger] s[i] <= '9' || 'a' <= s[i] <= 'f' || s[i] == '-')
}

/// The asset key formed from a stem and an extension; a file without an
/// extension keeps the bare stem.
pub open spec fn asset_key_of(stem: Seq<char>, ext: Seq<char>) -> Seq<char> {
    if ext.len() == 0 {
        stem
    } else {
        stem + seq!['.'] + ext
    }
}

/// Relies on `uuid::Uuid::new_v4` and its `Display` impl: a fresh random
/// version-4 UUID rendered hyphenated, 36 characters of lowercase hex digits
/// and hyphens. Uniqueness rests on the randomness of the value; nothing
/// about which value comes back is promised.
#[verifier::external_body]
fn fresh_uuid_string() -> (r: String)
    ensures
        uuid_shaped(r@),
{
    uuid::Uuid::new_v4().to_string()
}

/// Whether an image's format belongs to the configured convertible set, so
/// that its bytes are handed to the external codec first.
pub fn should_transcode(source_path: &str) -> (r: bool)
    ensures
        r == convertible(ext_of(source_path@)),
{
    let ext = crate::paths::extension_of(source_path);
    str_eq(ext, "jpg") || str_eq(ext, "jpeg") || str_eq(ext, "png")
}

/// The upload label for one asset extension, as [`content_type_for`]
/// describes it.
pub fn content_type_label(ext: &str) -> (r: &'static str)
    ensures
        r@ == content_type_for(ext@),
{
    if str_eq(ext, "avif") {
        "image/avif"
    } else if str_eq(ext, "jpg") || str_eq(ext, "jpeg") {
        "image/jpeg"
    } else if str_eq(ext, "png") {
        "image/png"
    } else {
        "application/octet-stream"
    }
}

/// One planned upload.
pub struct ImageUpload {
    /// The extracted image's path, relative to the archive root.
    pub source_path: String,
    /// The fresh asset key the image is published under.
    pub key: String,
    /// The content type the upload carries.
    pub content_type: String,
}

/// The mathematical value of an [`ImageUpload`].
pub ghost struct ImageUploadView {
    pub source_path: Seq<char>,
    pub key: Seq<char>,
    pub content_type: Seq<char>,
}

impl View for ImageUpload {
    type V = ImageUploadView;

    open spec fn view(&self) -> ImageUploadView {
        ImageUploadView {
            source_path: self.source_path@,
            key: self.key@,
            content_type: self.content_type@,
        }
    }
}

/// What holds of a planned upload, given its source path and the codec's
/// outcome: same source, the content type of the final format, and a key
/// formed from some fresh stem and the final format's extension.
pub open spec fn upload_plan_ok(u: ImageUploadView, path: Seq<char>, transcoded: bool) -> bool {
    &&& u.source_path == path
    &&& u.content_type == content_type_for(final_ext_for(path, transcoded))
    &&& exists|stem: Seq<char>|
        uuid_shaped(stem) && u.key == asset_key_of(stem, final_ext_for(path, transcoded))
}

/// Plans the upload of one extracted image under a fresh asset key, after
/// the codec's verdict on it is known.
pub fn plan_image_upload(source_path: &str, transcoded: bool) -> (r: ImageUpload)
    ensures
        upload_plan_ok(r@, source_path@, transcoded),
{
    let fext: &str = if transcoded {
        "avif"
    } else {
        crate::paths::extension_of(source_path)
    };
    proof {
        assert(fext@ == final_ext_for(source_path@, transcoded));
    }
    let stem = fresh_uuid_string();
    let ghost stem_v = stem@;
    let key = if fext.unicode_len() == 0 {
        stem
    } else {
        let k = concat3(stem.as_str(), ".", fext);
        proof {
            reveal_strlit(".");
            assert("."@ =~= seq!['.']);
        }
        k
    };
    proof {
        assert(key@ == asset_key_of(stem_v, final_ext_for(source_path@, transcoded)));
    }
    let content_type = content_type_label(fext);
    ImageUpload {
        source_path: source_path.to_owned(),
        key,
        content_type: content_type.to_owned(),
    }
}

/// The publisher's run over one book's ordered image list: uploads proceed
/// strictly in order, each key is recorded as it completes, and the first
/// failure aborts the rest.
pub struct AssetPublisher {
    /// The book's extracted images, in extraction order.
    pub images: Vec<String>,
    /// How many uploads have completed, in order from the front.
    pub done: usize,
    /// The asset key of each completed upload, index-aligned with `images`.
    pub keys: Vec<String>,
    /// Whether an upload failed; no further upload is offered after that.
    pub failed: bool,
}

impl AssetPublisher {
    /// The run's bookkeeping stays within the image list, one key per
    /// completed upload.
    pub open spec fn wf(&self) -> bool {
        self.done <= self.images@.len() && self.keys@.len() == self.done
    }

    /// Opens the run for one book's ordered image list.
    pub fn new(images: Vec<String>) -> (r: Self)
        ensures
            r.wf(),
            r.images == images,
            r.done == 0,
            r.keys@.len() == 0,
            !r.failed,
    {
        AssetPublisher { images, done: 0, keys: Vec::new(), failed: false }
    }

    /// The source of the next upload to perform: the first image without a
    /// recorded key, absent once the run failed or completed.
    pub fn next_source(&self) -> (r: Option<&String>)
        requires
            self.wf(),
        ensures
            match r {
                Some(p) => !self.failed && self.done < self.images@.len() && p@ == strings_view(
                    self.images@,
                )[self.done as int],
                None => self.failed || self.done == self.images@.len(),
            },
    {
        if self.failed || self.done == self.images.len() {
            None
        } else {
            Some(&self.images[self.done])
        }
    }

    /// Records that the pending upload completed under the given key.
    pub fn record_success(&mut self, key: String)
        requires
            old(self).wf(),
            !old(self).failed,
            old(self).done < old(self).images@.len(),
        ensures
            final(self).wf(),
            final(self).images == old(self).images,
            final(self).done == old(self).done + 1,
            final(self).keys@ == old(self).keys@.push(key),
            !final(self).failed,
    {
        let n = self.images.len();
        assert(self.done < n);
        self.keys.push(key);
        self.done = self.done + 1;
    }

    /// Records that the pending upload failed; the book's remaining uploads
    /// are aborted.
    pub fn record_failure(&mut self)
        requires
            old(self).wf(),
        ensures
            final(self).wf(),
            final(self).images == old(self).images,
            final(self).done == old(self).done,
            final(self).keys == old(self).keys,
            final(self).failed,
    {
        self.failed = true;
    }

    /// Closes the run: on full success the recorded asset keys, one per
    /// image and in upload order; `RemoteStoreError` when any upload failed
    /// — no key list exists then for a catalog write, so the
    /// already-uploaded keys of this attempt stay orphaned and unreferenced.
    pub fn finish(self) -> (r: Result<Vec<String>, PipelineError>)
        requires
            self.wf(),
            self.failed || self.done == self.images@.len(),
        ensures
            match r {
                Ok(keys) => !self.failed && keys == self.keys && keys@.len()
                    == self.images@.len(),
                Err(e) => self.failed && e == PipelineError::RemoteStoreError,
            },
    {
        if self.failed {
            Err(PipelineError::RemoteStoreError)
        } else {
            Ok(self.keys)
        }
    }
}

} // verus!
