//! Where a model's texture is fetched from: the path that the model gives,
//! turned into a URL of the archive that serves the game's files.
use crate::model::{SpecTexture, Texture};
use crate::render::{bind_texture, SlotTexture};
use vstd::prelude::*;
use vstd::string::StrSliceExecFns;

verus! {

/// The address under which the archive serves its files, by lowercase path.
pub open spec fn base_url() -> Seq<char> {
    "https://github.com/WarRaft/War3.mpq/raw/refs/heads/main/lowercase"@
}

/// The address under which the archive serves its files.
pub fn texture_base_url() -> (r: &'static str)
    ensures
        r@ == base_url(),
{
    "https://github.com/WarRaft/War3.mpq/raw/refs/heads/main/lowercase"
}

/// What `str::to_lowercase` returns for a string.
pub uninterp spec fn lowercase_of(s: Seq<char>) -> Seq<char>;

/// Calls `str::to_lowercase`, which maps each character to its lowercase
/// form by Unicode's rules; its result is named, not spelled out.
#[verifier::external_body]
fn to_lowercase(s: &str) -> (r: String)
    ensures
        r@ == lowercase_of(s@),
{
    s.to_lowercase()
}

/// Calls `String::from_iter`, which collects characters into a string in
/// the order in which they come.
#[verifier::external_body]
fn string_from_chars(chars: Vec<char>) -> (r: String)
    ensures
        r@ == chars@,
{
    String::from_iter(chars)
}

/// The outcome of loading one texture in the background.
#[derive(Debug)]
pub enum TextureLoadResult {
    Success { texture_id: usize, rgba_data: Vec<u8>, width: u32, height: u32 },
    Error { texture_id: usize, error: String },
}

/// Records the outcome of a texture load in the renderer's texture slots: a
/// loaded texture is bound to its slot (see [`bind_texture`]); a failure
/// changes no slot, so a texture that loaded before stays bound.  Returns
/// the failure's message.
pub fn apply_texture_result(slots: &mut Vec<SlotTexture>, result: TextureLoadResult) -> (r: Option<String>)
    requires
        result matches TextureLoadResult::Success { texture_id, .. } ==> texture_id < usize::MAX,
    ensures
        match result {
            TextureLoadResult::Success { texture_id, width, height, .. } => {
                &&& r is None
                &&& final(slots)@.len() == if old(slots)@.len() > texture_id {
                    old(slots)@.len() as int
                } else {
                    texture_id + 1
                }
                &&& final(slots)@[texture_id as int] == (SlotTexture::Loaded { width, height })
                &&& forall|k: int|
                    0 <= k < final(slots)@.len() && k != texture_id ==> #[trigger] final(slots)@[k]
                        == if k < old(slots)@.len() {
                        old(slots)@[k]
                    } else {
                        SlotTexture::White
                    }
            },
            TextureLoadResult::Error { error, .. } => r == Some(error) && final(slots)@ == old(slots)@,
        },
{
    match result {
        TextureLoadResult::Success { texture_id, width, height, .. } => {
            bind_texture(slots, texture_id, width, height);
            None
        },
        TextureLoadResult::Error { error, .. } => Some(error),
    }
}

/// How the viewer obtains a texture of the model.
#[derive(Clone, Copy, Debug, PartialEq, Eq, Structural)]
pub enum TextureSource {
    /// Replaceable id 1: a generated texture of the team colour.
    TeamColor,
    /// Replaceable id 2: the generated team glow.
    TeamGlow,
    /// A file texture (replaceable id 0) with a name: fetched by its path.
    Fetch,
    /// Nothing to obtain: another replaceable id, or a file texture
    /// without a name.
    Nothing,
}

/// How a texture is obtained: team colour for replaceable id 1, team glow
/// for id 2, fetched for id 0 with a file name, nothing otherwise.
pub open spec fn texture_source_of(t: SpecTexture) -> TextureSource {
    if t.replaceable_id == 1 {
        TextureSource::TeamColor
    } else if t.replaceable_id == 2 {
        TextureSource::TeamGlow
    } else if t.replaceable_id == 0 && t.filename.len() > 0 {
        TextureSource::Fetch
    } else {
        TextureSource::Nothing
    }
}

/// The width and height of a generated texture: 4 × 4 for the team colour,
/// 32 × 32 for the team glow; none for a texture that is not generated.
pub open spec fn generated_size_of(src: TextureSource) -> Option<(u32, u32)> {
    match src {
        TextureSource::TeamColor => Some((4u32, 4u32)),
        TextureSource::TeamGlow => Some((32u32, 32u32)),
        _ => None,
    }
}

/// How a texture of the model is obtained (see [`texture_source_of`]).
pub fn texture_source(t: &Texture) -> (r: TextureSource)
    ensures
        r == texture_source_of(t@),
{
    if t.replaceable_id == 1 {
        TextureSource::TeamColor
    } else if t.replaceable_id == 2 {
        TextureSource::TeamGlow
    } else if t.replaceable_id == 0 && !t.filename.as_str().is_empty() {
        TextureSource::Fetch
    } else {
        TextureSource::Nothing
    }
}

impl TextureSource {
    /// The size of a generated texture (see [`generated_size_of`]).
    pub fn generated_size(&self) -> (r: Option<(u32, u32)>)
        ensures
            r == generated_size_of(*self),
    {
        match self {
            TextureSource::TeamColor => Some((4, 4)),
            TextureSource::TeamGlow => Some((32, 32)),
            _ => None,
        }
    }
}

/// A path with each backslash turned into a slash.
pub open spec fn forward_slashes(s: Seq<char>) -> Seq<char> {
    s.map_values(|c: char| if c == '\\' { '/' } else { c })
}

/// A path without its leading slashes.
pub open spec fn trim_leading_slashes(s: Seq<char>) -> Seq<char>
    decreases s.len(),
{
    if s.len() > 0 && s[0] == '/' {
        trim_leading_slashes(s.drop_first())
    } else {
        s
    }
}

/// The archive path of a texture path: lowercase, with slashes for
/// backslashes and no leading slash.
pub open spec fn archive_path_of(path: Seq<char>) -> Seq<char> {
    trim_leading_slashes(forward_slashes(lowercase_of(path)))
}

/// The URL of a texture path in the archive.
pub open spec fn texture_url_of(path: Seq<char>) -> Seq<char> {
    base_url() + seq!['/'] + archive_path_of(path)
}

/// The position of the first character of `s` from `i` on that is not a
/// slash once backslashes are slashes.
pub open spec fn first_kept(s: Seq<char>, i: int) -> int
    decreases s.len() - i,
{
    if 0 <= i < s.len() && (s[i] == '/' || s[i] == '\\') {
        first_kept(s, i + 1)
    } else {
        i
    }
}

proof fn lemma_trim_from(s: Seq<char>, i: int)
    requires
        0 <= i <= s.len(),
    ensures
        trim_leading_slashes(forward_slashes(s).subrange(i, s.len() as int)) == forward_slashes(s).subrange(
            first_kept(s, i),
            s.len() as int,
        ),
        i <= first_kept(s, i) <= s.len(),
    decreases s.len() - i,
{
    let f = forward_slashes(s);
    let t = f.subrange(i, s.len() as int);
    if i < s.len() && (s[i] == '/' || s[i] == '\\') {
        assert(t.drop_first() =~= f.subrange(i + 1, s.len() as int));
        lemma_trim_from(s, i + 1);
    } else if i < s.len() {
        assert(t[0] == f[i]);
    }
}

/// The URL in the archive of an already lowercased path: the base address,
/// a slash, then the path with slashes for backslashes and no leading slash.
pub fn archive_url(lower: &str) -> (r: String)
    ensures
        r@ == base_url() + seq!['/'] + trim_leading_slashes(forward_slashes(lower@)),
{
    let s = lower;
    let ghost l = s@;
    let n = s.unicode_len();
    let mut i: usize = 0;
    while i < n && (s.get_char(i) == '/' || s.get_char(i) == '\\')
        invariant
            n == l.len(),
            l == s@,
            i <= n,
            first_kept(l, 0) == first_kept(l, i as int),
        decreases n - i,
    {
        i = i + 1;
    }
    assert(first_kept(l, i as int) == i);
    let base = texture_base_url();
    let bn = base.unicode_len();
    let mut out: Vec<char> = Vec::new();
    let mut k: usize = 0;
    while k < bn
        invariant
            bn == base@.len(),
            k <= bn,
            out@ == base@.subrange(0, k as int),
        decreases bn - k,
    {
        out.push(base.get_char(k));
        k = k + 1;
        assert(out@ =~= base@.subrange(0, k as int));
    }
    assert(base@.subrange(0, bn as int) =~= base@);
    out.push('/');
    let ghost head = out@;
    let mut j: usize = i;
    while j < n
        invariant
            n == l.len(),
            l == s@,
            i <= j <= n,
            out@ == head + forward_slashes(l).subrange(i as int, j as int),
        decreases n - j,
    {
        let c = s.get_char(j);
        out.push(if c == '\\' { '/' } else { c });
        j = j + 1;
        assert(out@ =~= head + forward_slashes(l).subrange(i as int, j as int));
    }
    proof {
        lemma_trim_from(l, 0);
        assert(forward_slashes(l).subrange(0, l.len() as int) =~= forward_slashes(l));
    }
    string_from_chars(out)
}

/// The URL from which a texture of the model is downloaded (see
/// [`texture_url_of`]): the lowercased path's [`archive_url`].
pub fn texture_url(path: &str) -> (r: String)
    ensures
        r@ == texture_url_of(path@),
{
    let lower = to_lowercase(path);
    archive_url(lower.as_str())
}

proof fn lemma_trim_suffix(s: Seq<char>)
    ensures
        exists|k: int| 0 <= k <= s.len() && trim_leading_slashes(s) == s.subrange(k, s.len() as int),
        trim_leading_slashes(s).len() == 0 || trim_leading_slashes(s)[0] != '/',
    decreases s.len(),
{
    if s.len() > 0 && s[0] == '/' {
        lemma_trim_suffix(s.drop_first());
        let k = choose|k: int|
            0 <= k <= s.drop_first().len() && trim_leading_slashes(s.drop_first())
                == s.drop_first().subrange(k, s.drop_first().len() as int);
        assert(s.drop_first().subrange(k, s.drop_first().len() as int) =~= s.subrange(
            k + 1,
            s.len() as int,
        ));
    } else {
        assert(s.subrange(0, s.len() as int) =~= s);
    }
}

/// The archive path of any texture path holds no backslash and does not
/// start with a slash, and the URL is the base address, a slash and that
/// path.
pub proof fn law_archive_path_is_clean(path: Seq<char>)
    ensures
        forall|k: int| 0 <= k < archive_path_of(path).len() ==> #[trigger] archive_path_of(path)[k] != '\\',
        archive_path_of(path).len() == 0 || archive_path_of(path)[0] != '/',
        texture_url_of(path).subrange(0, base_url().len() as int) == base_url(),
        texture_url_of(path)[base_url().len() as int] == '/',
{
    let f = forward_slashes(lowercase_of(path));
    lemma_trim_suffix(f);
    let k = choose|k: int| 0 <= k <= f.len() && trim_leading_slashes(f) == f.subrange(k, f.len() as int);
    assert forall|j: int| 0 <= j < archive_path_of(path).len() implies #[trigger] archive_path_of(path)[j]
        != '\\' by {
        assert(archive_path_of(path)[j] == f[k + j]);
    }
    assert(texture_url_of(path).subrange(0, base_url().len() as int) =~= base_url());
}

} // verus!
