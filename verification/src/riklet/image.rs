//! Image references of the form `name:tag`.

use crate::text::{colon_from, concat3, decimal, find_colon, u64_to_string};
use std::collections::hash_map::DefaultHasher;
use std::hash::{Hash, Hasher};
use vstd::prelude::*;
use vstd::string::*;

verus! {

/// The number that std's `DefaultHasher`, as `DefaultHasher::new` makes it,
/// gives for an image with these four fields. std does not say how the
/// number is computed; it does say that every hasher made by `new` is the
/// same, so the number depends on the fields alone.
pub uninterp spec fn image_hash(
    oci: Seq<char>,
    name: Seq<char>,
    tag: Seq<char>,
    bundle: Option<Seq<char>>,
) -> u64;

/// The hash of an image under std's `DefaultHasher`: a hasher made by
/// `DefaultHasher::new` is fed the image and asked to `finish`. Trusted:
/// the result is `image_hash` of the image's fields, which claims no more
/// than that equal fields give equal numbers.
#[verifier::external_body]
pub fn generate_hash(t: &Image) -> (r: u64)
    ensures
        r == image_hash(
            t.oci@,
            t.name@,
            t.tag@,
            match t.bundle {
                Some(b) => Some(b@),
                None => None,
            },
        ),
{
    let mut s = DefaultHasher::new();
    t.hash(&mut s);
    s.finish()
}

/// An image reference, taken apart.
#[derive(Debug, Hash)]
pub struct Image {
    /// The reference as it was given.
    pub oci: String,
    /// What stands before the first colon.
    pub name: String,
    /// What stands between the first colon and the second, or the end.
    pub tag: String,
    /// Where the image was unpacked, once it was.
    pub bundle: Option<String>,
}

/// The name in an image reference.
pub open spec fn image_name(img: Seq<char>) -> Seq<char> {
    img.subrange(0, colon_from(img, 0))
}

/// The tag in an image reference that holds a colon.
pub open spec fn image_tag(img: Seq<char>) -> Seq<char> {
    img.subrange(colon_from(img, 0) + 1, colon_from(img, colon_from(img, 0) + 1))
}

/// `<name>-<hash>`, the hash in decimal.
pub open spec fn image_uuid(name: Seq<char>, hash: u64) -> Seq<char> {
    name + "-"@ + decimal(hash as nat)
}

/// `<name>-<hash>:<tag>`, the hash in decimal.
pub open spec fn hashed_oci(name: Seq<char>, hash: u64, tag: Seq<char>) -> Seq<char> {
    name + "-"@ + decimal(hash as nat) + ":"@ + tag
}

impl Image {
    /// The hash of the image: `image_hash` of its four fields.
    pub open spec fn spec_hash(&self) -> u64 {
        image_hash(
            self.oci@,
            self.name@,
            self.tag@,
            match self.bundle {
                Some(b) => Some(b@),
                None => None,
            },
        )
    }

    /// Takes an image reference apart. The reference must hold a colon.
    pub fn from(img: &str) -> (r: Self)
        requires
            colon_from(img@, 0) < img@.len(),
        ensures
            r.oci@ == img@,
            r.name@ == image_name(img@),
            r.tag@ == image_tag(img@),
            r.bundle is None,
    {
        let len = img.unicode_len();
        let first = find_colon(img, 0, len);
        let second = find_colon(img, first + 1, len);
        let name = img.substring_char(0, first);
        let tag = img.substring_char(first + 1, second);
        Image {
            oci: String::from_str(img),
            name: String::from_str(name),
            tag: String::from_str(tag),
            bundle: None,
        }
    }

    /// `<name>-<hash>` for a given hash.
    pub fn uuid_with(&self, hash: u64) -> (r: String)
        ensures
            r@ == image_uuid(self.name@, hash),
    {
        let digits = u64_to_string(hash);
        concat3(self.name.as_str(), "-", digits.as_str())
    }

    /// `<name>-<hash>`, with the image's hash.
    pub fn get_uuid(&self) -> (r: String)
        ensures
            r@ == image_uuid(self.name@, self.spec_hash()),
    {
        self.uuid_with(self.get_hash())
    }

    pub fn set_bundle(&mut self, bundle: &str)
        ensures
            final(self).bundle is Some,
            final(self).bundle->0@ == bundle@,
            final(self).oci == old(self).oci,
            final(self).name == old(self).name,
            final(self).tag == old(self).tag,
    {
        self.bundle = Some(String::from_str(bundle));
    }

    /// The image's hash: the number that std's default hasher gives for its
    /// four fields.
    pub fn get_hash(&self) -> (r: u64)
        ensures
            r == self.spec_hash(),
    {
        generate_hash(self)
    }

    /// `<name>-<hash>:<tag>` for a given hash.
    pub fn hashed_oci_with(&self, hash: u64) -> (r: String)
        ensures
            r@ == hashed_oci(self.name@, hash, self.tag@),
    {
        let mut out = self.uuid_with(hash);
        out.append(":");
        out.append(self.tag.as_str());
        out
    }

    /// `<name>-<hash>:<tag>`, with the image's hash.
    pub fn get_hashed_oci(&self) -> (r: String)
        ensures
            r@ == hashed_oci(self.name@, self.spec_hash(), self.tag@),
    {
        self.hashed_oci_with(self.get_hash())
    }
}

} // verus!
