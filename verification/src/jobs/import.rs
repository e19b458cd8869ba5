use vstd::prelude::*;

use crate::jobs::shot::{probe_image, probed_header, DetectedFormat, ImageHeader, ImageProbeError};
use crate::tiles::domain::{is_zoom_depth, max_u32, Levels, TileTree};
use crate::util::push_char;

verus! {

/// Whether a file-name character is kept: an ASCII letter or digit, `-`,
/// `_` or `.`.
pub open spec fn is_kept_char(c: char) -> bool {
    ('a' <= c <= 'z') || ('A' <= c <= 'Z') || ('0' <= c <= '9') || c == '-' || c == '_' || c == '.'
}

/// The lower-case form of a kept character.
pub open spec fn lower_char(c: char) -> char {
    if 'A' <= c <= 'Z' {
        ((c as u32) + 32) as char
    } else {
        c
    }
}

/// A file name with every character but ASCII letters, digits, `-`, `_` and
/// `.` dropped, and letters in lower case.
pub open spec fn spec_sanitize(name: Seq<char>) -> Seq<char> {
    name.filter(|c: char| is_kept_char(c)).map_values(|c: char| lower_char(c))
}

fn lower_kept(c: char) -> (r: char)
    ensures
        r == lower_char(c),
{
    if 'A' <= c && c <= 'Z' {
        ((c as u8) + 32) as char
    } else {
        c
    }
}

fn is_kept(c: char) -> (r: bool)
    ensures
        r == is_kept_char(c),
{
    ('a' <= c && c <= 'z') || ('A' <= c && c <= 'Z') || ('0' <= c && c <= '9') || c == '-' || c
        == '_' || c == '.'
}

/// The stored name of an uploaded file: its ASCII letters (in lower case),
/// digits, `-`, `_` and `.`, in order; everything else is dropped.
pub fn sanitize_filename(name: &str) -> (r: String)
    ensures
        r@ == spec_sanitize(name@),
{
    let n = name.unicode_len();
    let mut out = String::new();
    let mut i: usize = 0;
    while i < n
        invariant
            n == name@.len(),
            i <= n,
            out@ == spec_sanitize(name@.take(i as int)),
        decreases n - i,
    {
        let c = name.get_char(i);
        proof {
            reveal(Seq::filter);
            assert(name@.take(i + 1).drop_last() =~= name@.take(i as int));
            assert(name@.take(i + 1).last() == c);
        }
        if is_kept(c) {
            let ghost kept = name@.take(i as int).filter(|c: char| is_kept_char(c));
            push_char(&mut out, lower_kept(c));
            proof {
                assert(kept.push(c).map_values(|c: char| lower_char(c)) =~= kept.map_values(
                    |c: char| lower_char(c),
                ).push(lower_char(c)));
            }
        }
        i = i + 1;
    }
    proof {
        assert(name@.take(n as int) =~= name@);
    }
    out
}

/// Filtering keeps a sequence whose every element passes.
proof fn lemma_filter_all(s: Seq<char>)
    requires
        forall|i: int| 0 <= i < s.len() ==> is_kept_char(#[trigger] s[i]),
    ensures
        s.filter(|c: char| is_kept_char(c)) == s,
    decreases s.len(),
{
    reveal(Seq::filter);
    if s.len() > 0 {
        lemma_filter_all(s.drop_last());
        assert(s.last() == s[s.len() - 1]);
        assert(s.drop_last().push(s.last()) =~= s);
    }
}

/// A stored file name is its own stored name: reducing a name twice is
/// reducing it once.
pub proof fn sanitize_is_idempotent(name: Seq<char>)
    ensures
        spec_sanitize(spec_sanitize(name)) == spec_sanitize(name),
{
    broadcast use vstd::seq_lib::group_filter_ensures;
    let kept = name.filter(|c: char| is_kept_char(c));
    let t = spec_sanitize(name);
    assert forall|i: int| 0 <= i < t.len() implies is_kept_char(#[trigger] t[i]) && lower_char(t[i]) == t[i] by {
        let c = kept[i];
        assert(is_kept_char(c));
        assert(t[i] == lower_char(c));
        if 'A' <= c <= 'Z' {
            assert('a' <= lower_char(c) <= 'z');
        }
    }
    lemma_filter_all(t);
    assert(t.map_values(|c: char| lower_char(c)) =~= t);
}

/// A stored file name holds only ASCII lower-case letters, digits, `-`,
/// `_` and `.`; it is the upload's name with every other character dropped
/// (`(`, `)`, spaces, accents and the rest) and upper-case ASCII letters
/// lowered, in order.
pub proof fn stored_names_are_plain(name: Seq<char>)
    ensures
        forall|i: int|
            0 <= i < spec_sanitize(name).len() ==> {
                let c = #[trigger] spec_sanitize(name)[i];
                ('a' <= c <= 'z') || ('0' <= c <= '9') || c == '-' || c == '_' || c == '.'
            },
        spec_sanitize(name) == name.filter(
            |c: char|
                ('a' <= c <= 'z') || ('A' <= c <= 'Z') || ('0' <= c <= '9') || c == '-' || c == '_' || c
                    == '.',
        ).map_values(|c: char| if 'A' <= c <= 'Z' { ((c as u32) + 32) as char } else { c }),
{
    broadcast use vstd::seq_lib::group_filter_ensures;
    let kept = name.filter(|c: char| is_kept_char(c));
    let t = spec_sanitize(name);
    assert forall|i: int| 0 <= i < t.len() implies {
        let c = #[trigger] t[i];
        ('a' <= c <= 'z') || ('0' <= c <= '9') || c == '-' || c == '_' || c == '.'
    } by {
        let c = kept[i];
        assert(is_kept_char(c));
        if 'A' <= c <= 'Z' {
            assert('a' <= lower_char(c) <= 'z');
        }
    }
    let p1 = |c: char| is_kept_char(c);
    let p2 = |c: char|
        ('a' <= c <= 'z') || ('A' <= c <= 'Z') || ('0' <= c <= '9') || c == '-' || c == '_' || c == '.';
    assert(p1 =~= p2);
    let f1 = |c: char| lower_char(c);
    let f2 = |c: char| if 'A' <= c <= 'Z' { ((c as u32) + 32) as char } else { c };
    assert(f1 =~= f2);
}

/// What an uploaded die shot becomes: its stored name, its MIME type, and
/// the shape of its tile pyramid.
pub struct DieImportPlan {
    pub file_name: String,
    pub mime: &'static str,
    pub tree: TileTree,
    pub levels: Levels,
}

/// Why an uploaded die shot is refused.
#[derive(Debug, Clone, PartialEq)]
pub enum DieImportError {
    /// Its header could not be read.
    Header(ImageProbeError),
    /// It is neither PNG nor JPEG; the format's name.
    UnsupportedFormat(String),
    /// Its tile pyramid does not fit the `u32` arithmetic of the levels.
    TooLarge,
}

/// The pyramid `TileTree::new` makes for the given sides and tile size.
pub open spec fn is_new_tree(tree: TileTree, width: u32, height: u32, tile_size: u32) -> bool {
    &&& tree.width == width
    &&& tree.height == height
    &&& tree.tile_size == tile_size
    &&& tile_size > 0 ==> is_zoom_depth(max_u32(width, height) as int, tile_size as int, tree.max_zoom_level as nat)
    &&& tile_size == 0 ==> tree.max_zoom_level == (if max_u32(width, height) == 0 { 0 } else { u32::MAX })
}

/// What an upload named `file_name` whose header reads `header` becomes,
/// with tiles of `tile_size` pixels: PNG and JPEG shots are accepted, with
/// the name reduced by `sanitize_filename` and the pyramid of `TileTree::new`
/// for their dimensions, provided its levels can be computed.
pub fn plan_from_header(
    file_name: &str,
    header: Result<ImageHeader, ImageProbeError>,
    tile_size: u32,
) -> (r: Result<DieImportPlan, DieImportError>)
    ensures
        match header {
            Err(e) => r == Err::<DieImportPlan, DieImportError>(DieImportError::Header(e)),
            Ok(h) => match h.format {
                DetectedFormat::Other(name) => r == Err::<DieImportPlan, DieImportError>(
                    DieImportError::UnsupportedFormat(name),
                ),
                _ => match r {
                    Ok(plan) => {
                        &&& plan.file_name@ == spec_sanitize(file_name@)
                        &&& plan.mime@ == (if h.format is Jpeg {
                            "image/jpeg"@
                        } else {
                            "image/png"@
                        })
                        &&& is_new_tree(plan.tree, h.width, h.height, tile_size)
                        &&& plan.tree.levels_computable()
                        &&& plan.levels.0@ == plan.tree.spec_levels()
                    },
                    Err(e) => e == DieImportError::TooLarge && forall|t: TileTree|
                        is_new_tree(t, h.width, h.height, tile_size) ==> !t.levels_computable(),
                },
            },
        },
{
    let file_name = sanitize_filename(file_name);
    let h = match header {
        Ok(h) => h,
        Err(e) => return Err(DieImportError::Header(e)),
    };
    let mime = match h.format {
        DetectedFormat::Jpeg => "image/jpeg",
        DetectedFormat::Png => "image/png",
        DetectedFormat::Other(name) => return Err(DieImportError::UnsupportedFormat(name)),
    };
    let tree = TileTree::new(h.width, h.height, tile_size);
    if !tree.can_build_levels() {
        proof {
            assert forall|t: TileTree| is_new_tree(t, h.width, h.height, tile_size) implies !t.levels_computable() by {
                if tile_size > 0 {
                    crate::tiles::domain::lemma_zoom_depth_unique(
                        max_u32(h.width, h.height) as int,
                        tile_size as int,
                        t.max_zoom_level as nat,
                        tree.max_zoom_level as nat,
                    );
                }
            }
        }
        return Err(DieImportError::TooLarge);
    }
    let levels = tree.build_levels();
    Ok(DieImportPlan { file_name, mime, tree, levels })
}

/// What an upload named `file_name` with contents `bytes` becomes, with
/// tiles of `tile_size` pixels; see `plan_from_header`.
pub fn plan_die_import(file_name: &str, bytes: &[u8], tile_size: u32) -> (r: Result<DieImportPlan, DieImportError>)
    ensures
        match probed_header(bytes@) {
            Err(e) => r == Err::<DieImportPlan, DieImportError>(DieImportError::Header(e)),
            Ok(h) => match h.format {
                DetectedFormat::Other(name) => r == Err::<DieImportPlan, DieImportError>(
                    DieImportError::UnsupportedFormat(name),
                ),
                _ => match r {
                    Ok(plan) => {
                        &&& plan.file_name@ == spec_sanitize(file_name@)
                        &&& plan.mime@ == (if h.format is Jpeg {
                            "image/jpeg"@
                        } else {
                            "image/png"@
                        })
                        &&& is_new_tree(plan.tree, h.width, h.height, tile_size)
                        &&& plan.tree.levels_computable()
                        &&& plan.levels.0@ == plan.tree.spec_levels()
                    },
                    Err(e) => e == DieImportError::TooLarge && forall|t: TileTree|
                        is_new_tree(t, h.width, h.height, tile_size) ==> !t.levels_computable(),
                },
            },
        },
{
    let header = probe_image(bytes);
    plan_from_header(file_name, header, tile_size)
}

} // verus!
