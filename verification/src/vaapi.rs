//! VAAPI: which render node to hand to `ffmpeg`, and where the drivers are.

use vstd::prelude::*;
use crate::text::{chars_of, contains, decimal, decimal_chars, string_from_chars};

verus! {

/// The path of the DRM render node with the given minor number.
pub open spec fn render_node(minor: nat) -> Seq<char> {
    "/dev/dri/renderD"@ + decimal(minor)
}

/// The path of the DRM render node with the given minor number.
pub fn render_node_path(minor: u64) -> (p: String)
    ensures
        p@ == render_node(minor as nat),
{
    let mut p = String::from_str("/dev/dri/renderD");
    let digits = decimal_chars(minor);
    p.append(string_from_chars(&digits).as_str());
    p
}

/// Calls `Path::exists`: whether something exists at `path` now. Nothing is
/// claimed of the answer, which depends on the file system.
#[verifier::external_body]
fn path_exists(path: &str) -> (r: bool) {
    std::path::Path::new(path).exists()
}

/// The render node chosen from which nodes exist: renderD128 when it exists,
/// else renderD129 when that one exists, else renderD128.
pub open spec fn render_node_choice_spec(has_128: bool, has_129: bool) -> Seq<char> {
    if has_128 {
        render_node(128)
    } else if has_129 {
        render_node(129)
    } else {
        render_node(128)
    }
}

/// Chooses the render node from the answers to "does renderD128 exist?" and
/// "does renderD129 exist?".
pub fn render_node_choice(has_128: bool, has_129: bool) -> (p: String)
    ensures
        p@ == render_node_choice_spec(has_128, has_129),
{
    if has_128 {
        render_node_path(128)
    } else if has_129 {
        render_node_path(129)
    } else {
        render_node_path(128)
    }
}

/// The render node for VAAPI encoding: the first of renderD128 and
/// renderD129 that exists, or renderD128 when neither does. renderD129 is
/// looked up only when renderD128 does not exist.
pub fn device_path() -> (p: String)
    ensures
        exists|has_128: bool, has_129: bool| p@ == render_node_choice_spec(has_128, has_129),
{
    let first = render_node_path(128);
    let has_128 = path_exists(first.as_str());
    let has_129 = if has_128 {
        false
    } else {
        let second = render_node_path(129);
        path_exists(second.as_str())
    };
    render_node_choice(has_128, has_129)
}

/// The directory that always belongs to the VAAPI driver search path.
pub open spec fn base_driver_dir() -> Seq<char> {
    "/run/opengl-driver/lib/dri"@
}

/// The marker of an Intel media driver package in a store path.
pub open spec fn intel_driver_marker() -> Seq<char> {
    "intel-media-driver"@
}

/// The first entry that names an Intel media driver package, if any.
pub open spec fn first_intel_entry(entries: Seq<Seq<char>>) -> Option<Seq<char>>
    decreases entries.len(),
{
    if entries.len() == 0 {
        None
    } else if crate::text::has_infix(entries[0], intel_driver_marker()) {
        Some(entries[0])
    } else {
        first_intel_entry(entries.drop_first())
    }
}

/// The driver directory inside the first Intel media driver package among
/// the store entries: that entry followed by `/lib/dri`.
pub open spec fn intel_driver_dir_spec(entries: Seq<Seq<char>>) -> Option<Seq<char>> {
    match first_intel_entry(entries) {
        Some(e) => Some(e + "/lib/dri"@),
        None => None,
    }
}

/// Finds the driver directory of the first store entry (a full path) whose
/// name holds `intel-media-driver`. Only that first entry is considered.
pub fn intel_driver_dir(entries: &[String]) -> (dir: Option<String>)
    ensures
        dir matches Some(d) ==> intel_driver_dir_spec(crate::codec::views(entries@)) == Some(d@),
        dir is None ==> intel_driver_dir_spec(crate::codec::views(entries@)) is None,
{
    let ghost es = crate::codec::views(entries@);
    let marker = chars_of("intel-media-driver");
    let mut i: usize = 0;
    assert(es.skip(0) =~= es);
    while i < entries.len()
        invariant
            i <= entries@.len(),
            es == crate::codec::views(entries@),
            marker@ == intel_driver_marker(),
            first_intel_entry(es.skip(i as int)) == first_intel_entry(es),
        decreases entries@.len() - i,
    {
        assert(es.skip(i as int)[0] == entries@[i as int]@);
        assert(es.skip(i as int).drop_first() =~= es.skip(i + 1));
        if contains(&chars_of(entries[i].as_str()), &marker) {
            let mut d = entries[i].clone();
            d.append("/lib/dri");
            return Some(d);
        }
        i = i + 1;
    }
    assert(es.skip(i as int) =~= Seq::<Seq<char>>::empty());
    None
}

/// The value of `LIBVA_DRIVERS_PATH`: the base directory, then the Intel
/// driver directory when one was found, separated by `:`.
pub open spec fn drivers_path_spec(extra: Option<Seq<char>>) -> Seq<char> {
    match extra {
        Some(d) => base_driver_dir() + ":"@ + d,
        None => base_driver_dir(),
    }
}

/// Joins the driver search path.
pub fn drivers_path(extra: Option<&str>) -> (p: String)
    ensures
        p@ == drivers_path_spec(match extra {
            Some(d) => Some(d@),
            None => None,
        }),
{
    let mut p = String::from_str("/run/opengl-driver/lib/dri");
    match extra {
        Some(d) => {
            p.append(":");
            p.append(d);
        },
        None => {},
    }
    p
}

} // verus!
