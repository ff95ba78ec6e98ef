//! Image-file recognition and next/previous navigation through the images
//! of one directory.

use vstd::prelude::*;
use vstd::multiset::Multiset;
use crate::natural::{NaturalKey, natural_sort, naturally_sorted, views, sorted_by};
use crate::paths::{extension, extension_of, file_name, file_name_of};
use crate::text::{chars_equal, chars_of, lowercase_text, lowercased, string_of};

verus! {

/// Raster and vector formats, lower case.
pub open spec fn raster_extensions() -> Seq<Seq<char>> {
    seq![
        "jpg"@, "jpeg"@, "png"@, "gif"@, "bmp"@, "tiff"@, "tif"@, "webp"@, "svg"@, "svgz"@,
        "ico"@, "tga"@, "qoi"@, "hdr"@, "exr"@,
    ]
}

/// Camera RAW formats, lower case.
pub open spec fn raw_extensions() -> Seq<Seq<char>> {
    seq![
        "dng"@, "cr2"@, "cr3"@, "crw"@, "nef"@, "nrw"@, "arw"@, "srf"@, "sr2"@, "orf"@,
        "rw2"@, "raf"@, "pef"@, "srw"@, "3fr"@, "iiq"@, "kdc"@, "dcr"@, "mrw"@, "mos"@,
        "erf"@, "mef"@,
    ]
}

/// Every extension the viewer opens.
pub open spec fn image_extension_list() -> Seq<Seq<char>> {
    raster_extensions() + raw_extensions()
}

/// The extension of `p`, lowercased, is in `list`.
pub open spec fn has_extension_in(p: Seq<char>, list: Seq<Seq<char>>) -> bool {
    match extension(p) {
        Some(e) => list.contains(lowercased(e)),
        None => false,
    }
}

pub open spec fn is_image_path(p: Seq<char>) -> bool {
    has_extension_in(p, image_extension_list())
}

pub open spec fn is_raw_path(p: Seq<char>) -> bool {
    has_extension_in(p, raw_extensions())
}

/// Every supported image extension, in any case, makes a path an image
/// path: the raster and vector formats jpg, jpeg, png, gif, bmp, tiff, tif,
/// webp, svg, svgz, ico, tga, qoi, hdr and exr, and the camera RAW formats.
pub proof fn law_supported_extensions_are_images(p: Seq<char>)
    requires
        extension(p) matches Some(e) && seq![
            "jpg"@, "jpeg"@, "png"@, "gif"@, "bmp"@, "tiff"@, "tif"@, "webp"@, "svg"@, "svgz"@,
            "ico"@, "tga"@, "qoi"@, "hdr"@, "exr"@,
            "dng"@, "cr2"@, "cr3"@, "crw"@, "nef"@, "nrw"@, "arw"@, "srf"@, "sr2"@, "orf"@,
            "rw2"@, "raf"@, "pef"@, "srw"@, "3fr"@, "iiq"@, "kdc"@, "dcr"@, "mrw"@, "mos"@,
            "erf"@, "mef"@,
        ].contains(lowercased(e)),
    ensures
        is_image_path(p),
{
    let e = extension(p)->0;
    let supported = seq![
        "jpg"@, "jpeg"@, "png"@, "gif"@, "bmp"@, "tiff"@, "tif"@, "webp"@, "svg"@, "svgz"@,
        "ico"@, "tga"@, "qoi"@, "hdr"@, "exr"@,
        "dng"@, "cr2"@, "cr3"@, "crw"@, "nef"@, "nrw"@, "arw"@, "srf"@, "sr2"@, "orf"@,
        "rw2"@, "raf"@, "pef"@, "srw"@, "3fr"@, "iiq"@, "kdc"@, "dcr"@, "mrw"@, "mos"@,
        "erf"@, "mef"@,
    ];
    let k = choose|k: int| 0 <= k < supported.len() && supported[k] == lowercased(e);
    assert(image_extension_list()[k] == supported[k]);
}

/// A RAW extension, in any case, makes a path a RAW path.
pub proof fn law_raw_extensions_are_raw(p: Seq<char>)
    requires
        extension(p) matches Some(e) && seq![
            "dng"@, "cr2"@, "cr3"@, "crw"@, "nef"@, "nrw"@, "arw"@, "srf"@, "sr2"@, "orf"@,
            "rw2"@, "raf"@, "pef"@, "srw"@, "3fr"@, "iiq"@, "kdc"@, "dcr"@, "mrw"@, "mos"@,
            "erf"@, "mef"@,
        ].contains(lowercased(e)),
    ensures
        is_raw_path(p),
        is_image_path(p),
{
    let e = extension(p)->0;
    let raw = seq![
        "dng"@, "cr2"@, "cr3"@, "crw"@, "nef"@, "nrw"@, "arw"@, "srf"@, "sr2"@, "orf"@,
        "rw2"@, "raf"@, "pef"@, "srw"@, "3fr"@, "iiq"@, "kdc"@, "dcr"@, "mrw"@, "mos"@,
        "erf"@, "mef"@,
    ];
    let k = choose|k: int| 0 <= k < raw.len() && raw[k] == lowercased(e);
    assert(raw_extensions()[k] == raw[k]);
    assert(image_extension_list()[15 + k] == raw[k]);
}

fn strings_from(lits: &[&str]) -> (v: Vec<String>)
    ensures
        v@.len() == lits@.len(),
        forall|i: int| 0 <= i < lits@.len() ==> #[trigger] v@[i]@ == lits@[i]@,
{
    let mut v: Vec<String> = Vec::new();
    for i in 0..lits.len()
        invariant
            v@.len() == i,
            forall|k: int| 0 <= k < i ==> #[trigger] v@[k]@ == lits@[k]@,
    {
        v.push(String::from_str(lits[i]));
    }
    v
}

/// The raster and vector extensions.
pub fn raster_extension_strings() -> (v: Vec<String>)
    ensures
        views(v@) == raster_extensions(),
{
    let lits = [
        "jpg", "jpeg", "png", "gif", "bmp", "tiff", "tif", "webp", "svg", "svgz", "ico", "tga",
        "qoi", "hdr", "exr",
    ];
    let v = strings_from(&lits);
    assert(views(v@) =~= raster_extensions());
    v
}

/// The camera RAW extensions.
pub fn raw_extension_strings() -> (v: Vec<String>)
    ensures
        views(v@) == raw_extensions(),
{
    let lits = [
        "dng", "cr2", "cr3", "crw", "nef", "nrw", "arw", "srf", "sr2", "orf", "rw2", "raf",
        "pef", "srw", "3fr", "iiq", "kdc", "dcr", "mrw", "mos", "erf", "mef",
    ];
    let v = strings_from(&lits);
    assert(views(v@) =~= raw_extensions());
    v
}

/// Every supported extension: raster and vector first, then RAW.
pub fn image_extensions() -> (v: Vec<String>)
    ensures
        views(v@) == image_extension_list(),
{
    let mut v = raster_extension_strings();
    let mut raw = raw_extension_strings();
    let ghost a = v@;
    let ghost b = raw@;
    v.append(&mut raw);
    assert(views(v@) =~= views(a) + views(b));
    v
}

fn contains_chars(list: &Vec<String>, s: &[char]) -> (r: bool)
    ensures
        r == views(list@).contains(s@),
{
    for i in 0..list.len()
        invariant
            forall|k: int| 0 <= k < i ==> list@[k]@ != s@,
    {
        let item = chars_of(list[i].as_str());
        if chars_equal(&item, s) {
            assert(views(list@)[i as int] == s@);
            return true;
        }
    }
    proof {
        if views(list@).contains(s@) {
            let k = choose|k: int| 0 <= k < views(list@).len() && views(list@)[k] == s@;
            assert(list@[k]@ == s@);
        }
    }
    false
}

fn extension_in(path: &[char], list: &Vec<String>) -> (r: bool)
    ensures
        r == has_extension_in(path@, views(list@)),
{
    match extension_of(path) {
        Some(e) => {
            let lower = chars_of(lowercase_text(string_of(&e).as_str()).as_str());
            contains_chars(list, &lower)
        },
        None => false,
    }
}

/// Whether `path` names a supported image (by extension, ignoring case).
pub fn is_image_file(path: &str) -> (r: bool)
    ensures
        r == is_image_path(path@),
{
    let p = chars_of(path);
    let list = image_extensions();
    extension_in(&p, &list)
}

/// Whether `path` names a camera RAW file.
pub fn is_raw_file(path: &str) -> (r: bool)
    ensures
        r == is_raw_path(path@),
{
    let p = chars_of(path);
    let list = raw_extension_strings();
    extension_in(&p, &list)
}

/// The file name of a path, or "" when it has none.
pub open spec fn file_name_or_empty(p: Seq<char>) -> Seq<char> {
    match file_name(p) {
        Some(n) => n,
        None => Seq::empty(),
    }
}

/// The file name of a path, empty when it has none.
pub fn path_filename_str(path: &str) -> (name: String)
    ensures
        name@ == file_name_or_empty(path@),
{
    let p = chars_of(path);
    match file_name_of(&p) {
        Some(n) => string_of(&n),
        None => String::new(),
    }
}

impl NaturalKey for String {
    open spec fn sort_key(&self) -> Seq<char> {
        file_name_or_empty(self@)
    }

    fn key_string(&self) -> (k: String) {
        let p = chars_of(self.as_str());
        match file_name_of(&p) {
            Some(n) => string_of(&n),
            None => String::new(),
        }
    }
}

/// The image paths among `entries`, in natural order of their file names.
pub open spec fn image_paths_of(entries: Seq<Seq<char>>) -> Seq<Seq<char>> {
    entries.filter(|p: Seq<char>| is_image_path(p))
}

/// Paths are ordered by their file names.
pub open spec fn file_name_key() -> spec_fn(Seq<char>) -> Seq<char> {
    |p: Seq<char>| file_name_or_empty(p)
}

/// Keeps the image paths of a directory listing and sorts them naturally by
/// file name, stably: paths whose names compare equal keep listing order.
pub fn sorted_image_paths(entries: Vec<String>) -> (files: Vec<String>)
    ensures
        views(files@).to_multiset() == image_paths_of(views(entries@)).to_multiset(),
        naturally_sorted(files@),
        views(files@) == sorted_by(image_paths_of(views(entries@)), file_name_key()),
{
    let mut files: Vec<String> = Vec::new();
    let mut i: usize = 0;
    let ghost ev = views(entries@);
    while i < entries.len()
        invariant
            i <= entries@.len(),
            ev == views(entries@),
            views(files@) == image_paths_of(ev.subrange(0, i as int)),
        decreases entries.len() - i,
    {
        let ghost pre = ev.subrange(0, i as int);
        assert(ev.subrange(0, i + 1) == pre.push(ev[i as int]));
        proof {
            pre.lemma_filter_push(ev[i as int], |p: Seq<char>| is_image_path(p));
        }
        if is_image_file(entries[i].as_str()) {
            let ghost before = files@;
            files.push(entries[i].clone());
            assert(views(files@) =~= views(before).push(ev[i as int]));
        }
        i = i + 1;
    }
    assert(ev.subrange(0, entries@.len() as int) == ev);
    let ghost unsorted = files@;
    natural_sort(&mut files);
    proof {
        assert forall|y: String| #[trigger] y.sort_key() == (file_name_key())(y@) by {}
        crate::natural::lemma_sorted_views(unsorted, file_name_key());
    }
    files
}

/// Position of the first entry equal to `path`, if any.
pub open spec fn first_index_of(files: Seq<Seq<char>>, path: Seq<char>) -> Option<int> {
    if files.contains(path) {
        Some(choose|i: int| 0 <= i < files.len() && files[i] == path && forall|j: int| 0 <= j < i ==> files[j] != path)
    } else {
        None
    }
}

/// The images of one directory, in natural order, and the current one.
pub struct DirNav {
    files: Vec<String>,
    index: usize,
}

/// The listed paths and the current position.
pub struct DirNavView {
    pub files: Seq<Seq<char>>,
    pub index: nat,
}

impl View for DirNav {
    type V = DirNavView;

    closed spec fn view(&self) -> DirNavView {
        DirNavView { files: views(self.files@), index: self.index as nat }
    }
}

/// The step forward, wrapping to the first image after the last.
pub open spec fn next_index(index: nat, len: nat) -> nat {
    if len == 0 { 0 } else { ((index + 1) % len) as nat }
}

/// The step backward, wrapping to the last image before the first.
pub open spec fn prev_index(index: nat, len: nat) -> nat {
    if len == 0 { 0 } else if index == 0 { (len - 1) as nat } else { (index - 1) as nat }
}

impl DirNav {
    #[verifier::type_invariant]
    spec fn position_in_range(self) -> bool {
        if self.files@.len() == 0 {
            self.index == 0
        } else {
            self.index < self.files@.len()
        }
    }

    /// The position is the index of a file, or 0 when there is none.
    pub open spec fn well_placed(v: DirNavView) -> bool {
        if v.files.len() == 0 { v.index == 0 } else { v.index < v.files.len() }
    }

    /// Builds the navigator for `path` from the entries of its directory:
    /// the image files sorted naturally by name, positioned at `path` (or at
    /// the first image when `path` is not among them).
    pub fn from_listing(path: &str, entries: Vec<String>) -> (nav: Self)
        ensures
            nav@.files.to_multiset() == image_paths_of(views(entries@)).to_multiset(),
            naturally_sorted_views(nav@.files),
            nav@.files == sorted_by(image_paths_of(views(entries@)), file_name_key()),
            nav@.files.contains(path@) ==> nav@.files[nav@.index as int] == path@ && forall|j: int|
                0 <= j < nav@.index ==> nav@.files[j] != path@,
            !nav@.files.contains(path@) ==> nav@.index == 0,
            Self::well_placed(nav@),
    {
        let files = sorted_image_paths(entries);
        let target = String::from_str(path);
        let mut index: usize = 0;
        let mut found = false;
        let mut i: usize = 0;
        while i < files.len() && !found
            invariant
                i <= files@.len(),
                target@ == path@,
                found ==> i > 0 && index == i - 1 && files@[index as int]@ == path@,
                !found ==> index == 0,
                forall|j: int| 0 <= j < (if found { index as int } else { i as int }) ==> files@[j]@ != path@,
            decreases files.len() - i + (if found { 0int } else { 1int }),
        {
            if files[i] == target {
                index = i;
                found = true;
            }
            i = i + 1;
        }
        proof {
            if views(files@).contains(path@) {
                let k = choose|k: int| 0 <= k < views(files@).len() && views(files@)[k] == path@;
                assert(files@[k]@ == path@);
                assert(found);
            }
            if found {
                assert(views(files@)[index as int] == path@);
            }
        }
        let nav = DirNav { files, index };
        proof {
            lemma_sorted_views(nav.files@);
        }
        nav
    }

    /// Moves to the next image (wrapping) and returns its path.
    pub fn next(&mut self) -> (r: Option<String>)
        ensures
            final(self)@.files == old(self)@.files,
            final(self)@.index == next_index(old(self)@.index, old(self)@.files.len()),
            Self::well_placed(old(self)@),
            Self::well_placed(final(self)@),
            old(self)@.files.len() == 0 ==> r is None,
            old(self)@.files.len() > 0 ==> (r matches Some(p) && p@ == final(self)@.files[final(self)@.index as int]),
    {
        proof { use_type_invariant(&*self); }
        if self.files.len() == 0 {
            return None;
        }
        let next = (self.index + 1) % self.files.len();
        self.index = next;
        Some(self.files[next].clone())
    }

    /// Moves to the previous image (wrapping) and returns its path.
    pub fn prev(&mut self) -> (r: Option<String>)
        ensures
            final(self)@.files == old(self)@.files,
            final(self)@.index == prev_index(old(self)@.index, old(self)@.files.len()),
            Self::well_placed(old(self)@),
            Self::well_placed(final(self)@),
            old(self)@.files.len() == 0 ==> r is None,
            old(self)@.files.len() > 0 ==> (r matches Some(p) && p@ == final(self)@.files[final(self)@.index as int]),
    {
        proof { use_type_invariant(&*self); }
        if self.files.len() == 0 {
            return None;
        }
        let prev = if self.index == 0 { self.files.len() - 1 } else { self.index - 1 };
        self.index = prev;
        Some(self.files[prev].clone())
    }

    /// File name of the current image, or "" when the directory has none.
    pub fn current_filename(&self) -> (name: String)
        ensures
            name@ == (if self@.index < self@.files.len() {
                file_name_or_empty(self@.files[self@.index as int])
            } else {
                Seq::empty()
            }),
    {
        proof { use_type_invariant(self); }
        if self.index < self.files.len() {
            self.files[self.index].key_string()
        } else {
            String::new()
        }
    }

    pub fn current_index(&self) -> (i: usize)
        ensures
            i == self@.index,
    {
        self.index
    }

    pub fn count(&self) -> (n: usize)
        ensures
            n == self@.files.len(),
    {
        self.files.len()
    }
}

/// Neighbouring paths are in natural order of their file names.
pub open spec fn naturally_sorted_views(files: Seq<Seq<char>>) -> bool {
    forall|i: int|
        0 <= i < files.len() - 1 ==> crate::natural::natural_order(
            #[trigger] file_name_or_empty(files[i]),
            file_name_or_empty(files[i + 1]),
        ) <= 0
}

proof fn lemma_sorted_views(files: Seq<String>)
    requires
        naturally_sorted(files),
    ensures
        naturally_sorted_views(views(files)),
{
    assert forall|i: int| 0 <= i < views(files).len() - 1 implies crate::natural::natural_order(
        #[trigger] file_name_or_empty(views(files)[i]),
        file_name_or_empty(views(files)[i + 1]),
    ) <= 0 by {
        assert(files[i].sort_key() == file_name_or_empty(views(files)[i]));
        assert(files[i + 1].sort_key() == file_name_or_empty(views(files)[i + 1]));
    }
}

/// Stepping forward and then back returns to the same image, and so does
/// stepping back and then forward.
pub proof fn law_next_prev_inverse(index: nat, len: nat)
    requires
        len > 0,
        index < len,
    ensures
        prev_index(next_index(index, len), len) == index,
        next_index(prev_index(index, len), len) == index,
{
    if index + 1 < len {
        vstd::arithmetic::div_mod::lemma_small_mod((index + 1) as nat, len);
    } else {
        vstd::arithmetic::div_mod::lemma_mod_self_0(len as int);
    }
    if index == 0 {
        vstd::arithmetic::div_mod::lemma_mod_self_0(len as int);
    } else {
        vstd::arithmetic::div_mod::lemma_small_mod(index, len);
    }
}

/// Stepping stays within the directory.
pub proof fn law_steps_stay_in_range(index: nat, len: nat)
    requires
        index < len,
    ensures
        next_index(index, len) < len,
        prev_index(index, len) < len,
{
}

} // verus!
