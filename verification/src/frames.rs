//! Names of the files a project derives: the merged frames of a reshoot,
//! the masks that pair with frames, and the stored guidance images.
use vstd::prelude::*;

use crate::text::{
    ascii_lower, chars_eq, decimal, decimal2, push_chars, push_decimal, push_decimal2, str_chars,
    to_ascii_lower,
};

verus! {

/// A merged frame set needs at least two images.
#[derive(Debug, Clone, Copy, PartialEq, Eq, Structural)]
pub struct TooFewMergedFrames;

impl TooFewMergedFrames {
    /// The message shown to the user.
    pub fn message(&self) -> (s: &'static str)
        ensures
            s@ == "融合后至少需要 2 张有效画面"@,
    {
        "融合后至少需要 2 张有效画面"
    }
}

/// `format!("{n:06}")`.
pub open spec fn zero_padded6(n: nat) -> Seq<char> {
    let d = decimal(n);
    if d.len() < 6 {
        Seq::new((6 - d.len()) as nat, |i: int| '0') + d
    } else {
        d
    }
}

/// `frame_<index:06>.<extension>`, the extension in lower case and `jpg` for
/// a file that has none.
pub open spec fn merged_frame_name_spec(index: nat, extension: Option<Seq<char>>) -> Seq<char> {
    let ext = match extension {
        Some(e) => ascii_lower(e),
        None => "jpg"@,
    };
    "frame_"@ + zero_padded6(index) + "."@ + ext
}

/// Name of the `index`-th image of a merged sequence.
pub fn merged_frame_name(index: u64, extension: Option<&str>) -> (s: String)
    ensures
        s@ == merged_frame_name_spec(
            index as nat,
            match extension {
                Some(e) => Some(e@),
                None => None,
            },
        ),
{
    let digits = crate::text::decimal_string(index);
    let d = str_chars(digits.as_str());
    let mut s = String::from_str("frame_");
    let ghost before = s@;
    let mut pad: usize = 0;
    let width: usize = if d.len() < 6 {
        6 - d.len()
    } else {
        0
    };
    while pad < width
        invariant
            pad <= width,
            s@ == before + Seq::new(pad as nat, |i: int| '0'),
        decreases width - pad,
    {
        crate::text::string_push(&mut s, '0');
        proof {
            assert(s@ =~= before + Seq::new((pad + 1) as nat, |i: int| '0'));
        }
        pad = pad + 1;
    }
    push_chars(&mut s, d.as_slice());
    s.append(".");
    match extension {
        Some(e) => {
            let lower = to_ascii_lower(str_chars(e).as_slice());
            push_chars(&mut s, lower.as_slice());
        },
        None => s.append("jpg"),
    }
    proof {
        let dd = decimal(index as nat);
        if dd.len() >= 6 {
            assert(Seq::new(0nat, |i: int| '0') + dd =~= dd);
        }
    }
    s
}

/// Names for the merged copies of `sources` images, in order: the source
/// project's frames first, then the reshoot's; each entry is the source
/// file's extension, if it has one.
pub fn merged_frame_names(extensions: &[Option<String>]) -> (r: Result<Vec<String>, TooFewMergedFrames>)
    ensures
        extensions@.len() < 2 ==> r is Err,
        extensions@.len() >= 2 ==> r is Ok && r->Ok_0@.len() == extensions@.len() && forall|
            i: int,
        |
            0 <= i < extensions@.len() ==> (#[trigger] r->Ok_0@[i])@ == merged_frame_name_spec(
                i as nat,
                match extensions@[i] {
                    Some(e) => Some(e@),
                    None => None,
                },
            ),
{
    if extensions.len() < 2 {
        return Err(TooFewMergedFrames);
    }
    let mut names: Vec<String> = Vec::new();
    let mut i: usize = 0;
    while i < extensions.len()
        invariant
            i <= extensions@.len(),
            names@.len() == i,
            forall|j: int|
                0 <= j < i ==> (#[trigger] names@[j])@ == merged_frame_name_spec(
                    j as nat,
                    match extensions@[j] {
                        Some(e) => Some(e@),
                        None => None,
                    },
                ),
        decreases extensions.len() - i,
    {
        let name = match &extensions[i] {
            Some(e) => merged_frame_name(i as u64, Some(e.as_str())),
            None => merged_frame_name(i as u64, None),
        };
        names.push(name);
        i = i + 1;
    }
    Ok(names)
}

/// The COLMAP mask of a frame is the frame's file name with `.png` appended.
pub fn mask_name_for_frame(frame_name: &str) -> (s: String)
    ensures
        s@ == frame_name@ + ".png"@,
{
    let mut s = String::from_str(frame_name);
    s.append(".png");
    s
}


/// Every filtered frame has exactly its mask: for each frame a mask file
/// named after it, and no mask file beyond them.
pub open spec fn masks_pair_with_frames_spec(frames: Seq<Seq<char>>, masks: Seq<Seq<char>>) -> bool {
    &&& forall|i: int| 0 <= i < frames.len() ==> #[trigger] masks.contains(frames[i] + ".png"@)
    &&& masks.len() == frames.len()
}

/// Checks the mask files found (`mask_files`, the names of the files in the
/// mask directory) against the frame file names.
pub fn masks_pair_with_frames(frame_names: &[String], mask_files: &[String]) -> (b: bool)
    ensures
        b == masks_pair_with_frames_spec(
            frame_names@.map_values(|s: String| s@),
            mask_files@.map_values(|s: String| s@),
        ),
{
    let ghost frames = frame_names@.map_values(|s: String| s@);
    let ghost masks = mask_files@.map_values(|s: String| s@);
    let mut i: usize = 0;
    while i < frame_names.len()
        invariant
            i <= frame_names@.len(),
            frames == frame_names@.map_values(|s: String| s@),
            masks == mask_files@.map_values(|s: String| s@),
            forall|k: int| 0 <= k < i ==> #[trigger] masks.contains(frames[k] + ".png"@),
        decreases frame_names.len() - i,
    {
        let wanted = mask_name_for_frame(frame_names[i].as_str());
        let wanted_chars = str_chars(wanted.as_str());
        let mut j: usize = 0;
        let mut found = false;
        while j < mask_files.len()
            invariant
                i < frame_names@.len(),
                j <= mask_files@.len(),
                masks == mask_files@.map_values(|s: String| s@),
                wanted_chars@ == frames[i as int] + ".png"@,
                found ==> masks.contains(frames[i as int] + ".png"@),
                !found ==> forall|m: int| 0 <= m < j ==> masks[m] != frames[i as int] + ".png"@,
            decreases mask_files.len() - j,
        {
            let candidate = str_chars(mask_files[j].as_str());
            if chars_eq(candidate.as_slice(), wanted_chars.as_slice()) {
                proof {
                    assert(masks[j as int] == frames[i as int] + ".png"@);
                }
                found = true;
            }
            j = j + 1;
        }
        if !found {
            proof {
                assert(!masks.contains(frames[i as int] + ".png"@));
            }
            return false;
        }
        i = i + 1;
    }
    mask_files.len() == frame_names.len()
}

/// The file a guidance image is stored under: `region-NN.png`, numbered from
/// one in the order of the regions.
pub fn guidance_image_name(index: usize) -> (s: String)
    requires
        index < u64::MAX,
    ensures
        s@ == "region-"@ + decimal2((index + 1) as nat) + ".png"@,
{
    let mut s = String::from_str("region-");
    push_decimal2(&mut s, index as u64 + 1);
    s.append(".png");
    s
}


/// The frames of its source project that a reshoot merges, relative to that
/// project's root: the smart filter's frames when it kept any
/// (`filtered_images`), else the raw frames.
pub fn reshoot_source_frames(filtered_images: u64) -> (p: &'static str)
    ensures
        p@ == if filtered_images > 0 {
            "work/frames_filtered"@
        } else {
            "work/frames"@
        },
{
    if filtered_images > 0 {
        "work/frames_filtered"
    } else {
        "work/frames"
    }
}

} // verus!
