//! Pulling an image: copy it from the registry, then unpack it into a bundle.

use crate::riklet::command::{Invocation, InvocationView, Skopeo, Umoci};
use crate::riklet::image::{hashed_oci, image_hash, image_name, image_tag, Image};
use crate::text::{colon_from, concat, concat3, decimal, u64_to_string};
use vstd::prelude::*;
use vstd::string::*;

verus! {

/// How `umoci` is to be run.
#[derive(Debug, Default)]
pub struct UmociConfiguration {
    /// How long a command may take, in milliseconds.
    pub timeout: Option<u64>,
    pub bundles_directory: Option<String>,
    pub debug: bool,
}

/// How `skopeo` is to be run.
#[derive(Debug, Default)]
pub struct SkopeoConfiguration {
    pub images_directory: Option<String>,
    /// How long a command may take, in milliseconds.
    pub timeout: Option<u64>,
    pub debug: bool,
    pub insecure_policy: bool,
}

/// How images are pulled and unpacked.
#[derive(Debug, Default)]
pub struct ImageManagerConfiguration {
    pub oci_manager: UmociConfiguration,
    pub image_puller: SkopeoConfiguration,
}

/// Pulls images into `<root>/images` and unpacks them into `<root>/bundles`.
#[derive(Debug)]
pub struct ImageManager {
    pub root_directory: String,
    pub pull_directory: String,
    pub bundle_directory: String,
    pub umoci: Option<Umoci>,
    pub skopeo: Option<Skopeo>,
}

/// The two commands of a pull and the image they are for. The caller runs
/// `copy`; if it succeeds it runs `unpack` and has pulled `image`; if it fails
/// nothing was pulled.
#[derive(Debug)]
pub struct PullPlan {
    pub image: Image,
    pub copy: Invocation,
    pub unpack: Invocation,
}

/// The hash of the image that an image reference stands for, before the
/// image has a bundle.
pub open spec fn reference_hash(image_str: Seq<char>) -> u64 {
    image_hash(image_str, image_name(image_str), image_tag(image_str), None)
}

/// Where `skopeo` is told to write the image.
pub open spec fn image_dest(pull_directory: Seq<char>, hashed: Seq<char>) -> Seq<char> {
    "oci:"@ + pull_directory + "/"@ + hashed
}

/// Where `skopeo` is told to read the image.
pub open spec fn image_src(image: Seq<char>) -> Seq<char> {
    "docker://"@ + image
}

impl ImageManager {
    /// `skopeo` and `umoci` are where the search path has the two programs,
    /// if it has them.
    pub fn new(root_directory: &str, skopeo: Option<String>, umoci: Option<String>) -> (r: Self)
        ensures
            r.root_directory@ == root_directory@,
            r.pull_directory@ == root_directory@ + "/images"@,
            r.bundle_directory@ == root_directory@ + "/bundles"@,
            r.skopeo is Some <==> skopeo is Some,
            r.umoci is Some <==> umoci is Some,
            r.skopeo matches Some(s) ==> s.cmd.binary == skopeo->0,
            r.umoci matches Some(u) ==> u.cmd.binary == umoci->0,
    {
        ImageManager {
            root_directory: String::from_str(root_directory),
            pull_directory: concat(root_directory, "/images"),
            bundle_directory: concat(root_directory, "/bundles"),
            umoci: Umoci::new(umoci),
            skopeo: Skopeo::new(skopeo),
        }
    }

    /// `oci:<pull directory>/<hashed reference>`.
    pub fn format_image_dest(&self, hashed_oci: &String) -> (r: String)
        ensures
            r@ == image_dest(self.pull_directory@, hashed_oci@),
    {
        let mut out = String::from_str("oci:");
        out.append(self.pull_directory.as_str());
        out.append("/");
        out.append(hashed_oci.as_str());
        out
    }

    /// `docker://<image>`.
    pub fn format_image_src(&self, image: &str) -> (r: String)
        ensures
            r@ == image_src(image@),
    {
        concat("docker://", image)
    }

    /// Whether `r` is the plan of a pull of `image_str` for an image of the
    /// hash `hash`. The image is copied from `docker://<reference>` to
    /// `oci:<pull directory>/<name>-<hash>:<tag>` and unpacked from
    /// `<pull directory>/<name>-<hash>:<tag>` into `<bundle directory>/<hash>`,
    /// which is the bundle of the plan's image.
    pub open spec fn plans(&self, image_str: Seq<char>, hash: u64, r: PullPlan) -> bool {
        &&& r.image.oci@ == image_str
        &&& r.image.name@ == image_name(image_str)
        &&& r.image.tag@ == image_tag(image_str)
        &&& r.image.bundle is Some
        &&& r.image.bundle->0@ == self.bundle_directory@ + "/"@ + decimal(hash as nat)
        &&& r.copy@ == (InvocationView {
            binary: self.skopeo->0.cmd.binary@,
            args: seq![
                "copy"@,
                image_src(image_str),
                image_dest(
                    self.pull_directory@,
                    hashed_oci(image_name(image_str), hash, image_tag(image_str)),
                ),
            ],
        })
        &&& r.unpack@ == (InvocationView {
            binary: self.umoci->0.cmd.binary@,
            args: seq![
                "unpack"@,
                "--rootless"@,
                "--image"@,
                self.pull_directory@ + "/"@ + hashed_oci(
                    image_name(image_str),
                    hash,
                    image_tag(image_str),
                ),
                self.bundle_directory@ + "/"@ + decimal(hash as nat),
            ],
        })
    }

    /// The plan of a pull of `image_str` for a given hash of the image. See
    /// `plans`.
    pub fn pull_with(&self, image_str: &str, hash: u64) -> (r: PullPlan)
        requires
            colon_from(image_str@, 0) < image_str@.len(),
            self.skopeo is Some,
            self.umoci is Some,
        ensures
            self.plans(image_str@, hash, r),
    {
        let mut image = Image::from(image_str);
        let hashed = image.hashed_oci_with(hash);
        let src = self.format_image_src(image.oci.as_str());
        let dst = self.format_image_dest(&hashed);
        let copy = match &self.skopeo {
            Some(s) => s.copy(src.as_str(), dst.as_str()),
            None => Invocation { binary: String::new(), args: Vec::new() },
        };
        let image_src = concat3(self.pull_directory.as_str(), "/", hashed.as_str());
        let digits = u64_to_string(hash);
        let image_dst = concat3(self.bundle_directory.as_str(), "/", digits.as_str());
        let unpack = match &self.umoci {
            Some(u) => u.unpack(image_src.as_str(), image_dst.as_str()),
            None => Invocation { binary: String::new(), args: Vec::new() },
        };
        image.set_bundle(image_dst.as_str());
        PullPlan { image, copy, unpack }
    }

    /// The plan of a pull of `image_str`: that of `plans` for the hash of
    /// the image. What becomes of the pull once the copy was run is said by
    /// `PullPlan::unpack_after` and `PullPlan::finish`.
    pub fn pull(&self, image_str: &str) -> (r: PullPlan)
        requires
            colon_from(image_str@, 0) < image_str@.len(),
            self.skopeo is Some,
            self.umoci is Some,
        ensures
            self.plans(image_str@, reference_hash(image_str@), r),
    {
        let hash = Image::from(image_str).get_hash();
        self.pull_with(image_str, hash)
    }

    /// The plan of a pull of `image_str`, as `pull` gives it.
    pub fn pull_image(&self, image_str: &str) -> (r: PullPlan)
        requires
            colon_from(image_str@, 0) < image_str@.len(),
            self.skopeo is Some,
            self.umoci is Some,
        ensures
            self.plans(image_str@, reference_hash(image_str@), r),
    {
        self.pull(image_str)
    }
}

impl PullPlan {
    /// What is to be run once the copy was run: the command that unpacks
    /// after a copy that succeeded, nothing after a copy that failed.
    pub fn unpack_after(&self, copied: bool) -> (r: Option<&Invocation>)
        ensures
            copied ==> r == Some(&self.unpack),
            !copied ==> r is None,
    {
        if copied {
            Some(&self.unpack)
        } else {
            None
        }
    }

    /// What the pull comes to: the plan's image after a copy that
    /// succeeded, no image after a copy that failed.
    pub fn finish(self, copied: bool) -> (r: Option<Image>)
        ensures
            copied ==> r == Some(self.image),
            !copied ==> r is None,
    {
        if copied {
            Some(self.image)
        } else {
            None
        }
    }
}

} // verus!
