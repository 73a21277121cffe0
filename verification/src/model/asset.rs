//! A single image on the CDN.
//!
//! Where an image lives is the server's decision; what size and format to ask
//! for is ours. [`Asset`] carries only the location, and the rest is layered
//! on.
//!
//! The default format is always PNG. An `a_` prefix marks an animated image,
//! but the decoder only handles PNG, so asking for the animated form would
//! render nothing at all.

use vstd::prelude::*;
use vstd::arithmetic::power2::{lemma_pow2_strictly_increases, lemma2_to64, pow2};
use vstd::string::*;
use crate::model::snowflake::{GuildId, UserId};
use crate::text;

verus! {

pub const BASE: &'static str = "https://cdn.discordapp.com";

pub const MIN_SIZE: u16 = 16;

pub const MAX_SIZE: u16 = 4096;

/// Image format.
///
/// `Gif` is selectable but not decodable; the variant exists so that adding
/// animation does not touch [`Asset`].
#[derive(Debug, Clone, Copy, PartialEq, Eq, Structural)]
pub enum Format {
    Png,
    Jpeg,
    Webp,
    Gif,
}

impl Default for Format {
    fn default() -> (r: Format)
        ensures
            r == Format::Png,
    {
        Format::Png
    }
}

pub open spec fn extension_of(f: Format) -> Seq<char> {
    match f {
        Format::Png => "png"@,
        Format::Jpeg => "jpg"@,
        Format::Webp => "webp"@,
        Format::Gif => "gif"@,
    }
}

impl Format {
    pub fn extension(self) -> (r: &'static str)
        ensures
            r@ == extension_of(self),
    {
        match self {
            Format::Png => "png",
            Format::Jpeg => "jpg",
            Format::Webp => "webp",
            Format::Gif => "gif",
        }
    }
}

/// A single image on the CDN.
#[derive(Debug, Clone, PartialEq, Eq)]
pub struct Asset {
    /// Path below [`BASE`], without extension or query.
    path: String,
    /// The image's hash. Empty for built-in images.
    key: String,
    /// Whether a size can be requested.
    ///
    /// Default avatars cannot: everyone sees the same image, so a fixed size
    /// lets one copy be shared across users.
    resizable: bool,
    format: Format,
    size: Option<u16>,
}

/// [`Asset`] with the text as character sequences.
pub ghost struct Place {
    pub path: Seq<char>,
    pub key: Seq<char>,
    pub resizable: bool,
    pub format: Format,
    pub size: Option<u16>,
}

impl View for Asset {
    type V = Place;

    closed spec fn view(&self) -> Place {
        Place {
            path: self.path@,
            key: self.key@,
            resizable: self.resizable,
            format: self.format,
            size: self.size,
        }
    }
}

/// An image known by its hash, before a size or format is asked for.
pub open spec fn keyed(path: Seq<char>, key: Seq<char>) -> Place {
    Place { path, key, resizable: true, format: Format::Png, size: None }
}

pub open spec fn user_avatar_place(user: UserId, hash: Seq<char>) -> Place {
    keyed("avatars/"@ + text::dec(user.0.0 as nat) + "/"@ + hash, hash)
}

pub open spec fn member_avatar_place(guild: GuildId, user: UserId, hash: Seq<char>) -> Place {
    keyed(
        "guilds/"@ + text::dec(guild.0.0 as nat) + "/users/"@ + text::dec(user.0.0 as nat)
            + "/avatars/"@ + hash,
        hash,
    )
}

pub open spec fn default_avatar_place(index: u64) -> Place {
    Place {
        path: "embed/avatars/"@ + text::dec(index as nat),
        key: seq![],
        resizable: false,
        format: Format::Png,
        size: None,
    }
}

pub open spec fn guild_icon_place(guild: GuildId, hash: Seq<char>) -> Place {
    keyed("icons/"@ + text::dec(guild.0.0 as nat) + "/"@ + hash, hash)
}

/// Whether `r` is the smallest power of two in the requestable range that is
/// at least `size`; the largest where none is.
pub open spec fn rounded_size(size: u16, r: u16) -> bool {
    exists|k: nat|
        4 <= k <= 12 && r == #[trigger] pow2(k) && (r >= size || k == 12) && (k == 4 || pow2(
            (k - 1) as nat,
        ) < size)
}

/// Where the image is found.
pub open spec fn url_of(p: Place) -> Seq<char> {
    let plain = BASE@ + "/"@ + p.path + "."@ + extension_of(p.format);
    match p.size {
        Some(n) => plain + "?size="@ + text::dec(n as nat),
        None => plain,
    }
}

/// The edge length asked for: the smallest power of two at least `size`, within
/// the requestable range.
pub open spec fn edge(size: u16) -> u16 {
    if size <= 16 {
        16
    } else if size <= 32 {
        32
    } else if size <= 64 {
        64
    } else if size <= 128 {
        128
    } else if size <= 256 {
        256
    } else if size <= 512 {
        512
    } else if size <= 1024 {
        1024
    } else if size <= 2048 {
        2048
    } else {
        4096
    }
}

proof fn lemma_edge(size: u16, n: u16)
    requires
        rounded_size(size, n),
    ensures
        n == edge(size),
{
    lemma2_to64();
}

/// The image at that size, where it can be resized.
pub open spec fn sized(p: Place, size: u16) -> Place {
    if p.resizable {
        Place { size: Some(edge(size)), ..p }
    } else {
        p
    }
}

/// CDN paths are built only here, so a change of layout has one place to fix.
impl Asset {
    pub fn user_avatar(user: UserId, hash: &str) -> (r: Asset)
        ensures
            r@ == user_avatar_place(user, hash@),
    {
        let mut path = "avatars/".to_owned();
        path.append(user.to_string().as_str());
        path.append("/");
        path.append(hash);
        Asset::from_key(path, hash)
    }

    /// An avatar set only within one guild.
    pub fn member_avatar(guild: GuildId, user: UserId, hash: &str) -> (r: Asset)
        ensures
            r@ == member_avatar_place(guild, user, hash@),
    {
        let mut path = "guilds/".to_owned();
        path.append(guild.to_string().as_str());
        path.append("/users/");
        path.append(user.to_string().as_str());
        path.append("/avatars/");
        path.append(hash);
        Asset::from_key(path, hash)
    }

    /// `index` comes from the user's default avatar index.
    pub fn default_avatar(index: u64) -> (r: Asset)
        ensures
            r@ == default_avatar_place(index),
    {
        let mut path = "embed/avatars/".to_owned();
        path.append(text::dec_string(index).as_str());
        Asset::fixed(path)
    }

    pub fn guild_icon(guild: GuildId, hash: &str) -> (r: Asset)
        ensures
            r@ == guild_icon_place(guild, hash@),
    {
        let mut path = "icons/".to_owned();
        path.append(guild.to_string().as_str());
        path.append("/");
        path.append(hash);
        Asset::from_key(path, hash)
    }

    fn from_key(path: String, key: &str) -> (r: Asset)
        ensures
            r@ == keyed(path@, key@),
    {
        Asset { path, key: key.to_owned(), resizable: true, format: Format::Png, size: None }
    }

    fn fixed(path: String) -> (r: Asset)
        ensures
            r@ == (Place {
                path: path@,
                key: seq![],
                resizable: false,
                format: Format::Png,
                size: None,
            }),
    {
        let key = String::new();
        assert(key@ =~= seq![]);
        Asset { path, key, resizable: false, format: Format::Png, size: None }
    }

    pub fn key(&self) -> (r: &str)
        ensures
            r@ == self@.key,
    {
        self.key.as_str()
    }

    /// Whether animated source material exists. [`Asset::url`] still requests
    /// a still image.
    pub fn is_animated(&self) -> (r: bool)
        ensures
            r == "a_"@.is_prefix_of(self@.key),
    {
        text::has_prefix(text::chars(self.key.as_str()).as_slice(), "a_")
    }

    /// Sets the edge length, rounded up to a power of two. No-op for images
    /// that cannot be resized.
    pub fn with_size(self, size: u16) -> (r: Asset)
        ensures
            r@ == sized(self@, size),
            self@.resizable ==> (r@.size matches Some(n) && rounded_size(size, n)),
    {
        if self.resizable {
            let mut a = self;
            let n = round_up_pow2(size);
            proof {
                lemma_edge(size, n);
            }
            a.size = Some(n);
            a
        } else {
            self
        }
    }

    /// Sets the format. Only `Png` is decodable so far.
    pub fn with_format(self, format: Format) -> (r: Asset)
        ensures
            r@ == (Place { format, ..self@ }),
    {
        let mut a = self;
        a.format = format;
        a
    }

    pub fn url(&self) -> (r: String)
        ensures
            r@ == url_of(self@),
    {
        let mut url = BASE.to_owned();
        url.append("/");
        url.append(self.path.as_str());
        url.append(".");
        url.append(self.format.extension());
        if let Some(size) = self.size {
            url.append("?size=");
            url.append(text::dec_string(size as u64).as_str());
        }
        url
    }

    /// The same as [`Asset::url`].
    pub fn to_string(&self) -> (r: String)
        ensures
            r@ == url_of(self@),
    {
        self.url()
    }
}

/// Smallest power of two at least `size`, clamped to the requestable range.
pub fn round_up_pow2(size: u16) -> (r: u16)
    ensures
        rounded_size(size, r),
        MIN_SIZE <= r <= MAX_SIZE,
{
    let mut r: u16 = MIN_SIZE;
    let ghost mut k: nat = 4;
    proof {
        lemma2_to64();
    }
    while r < size && r < MAX_SIZE
        invariant
            4 <= k <= 12,
            r == pow2(k),
            r <= MAX_SIZE,
            r >= MIN_SIZE,
            k == 4 || pow2((k - 1) as nat) < size,
            k < 12 ==> r < MAX_SIZE,
            k == 12 ==> r == MAX_SIZE,
            pow2(12) == 4096,
        decreases MAX_SIZE - r,
    {
        proof {
            vstd::arithmetic::power2::lemma_pow2_unfold(k + 1);
            assert(pow2(k + 1) == 2 * pow2(k));
            if k + 1 < 12 {
                lemma_pow2_strictly_increases(k + 1, 12);
            }
        }
        r = r * 2;
        proof {
            k = k + 1;
        }
    }
    assert(r == pow2(k));
    r
}

/// A size that was rounded once is not rounded further, and asking again with
/// the rounded size asks for the same.
pub proof fn rounding_is_stable(size: u16, r: u16)
    requires
        rounded_size(size, r),
    ensures
        rounded_size(r, r),
{
    let k = choose|k: nat|
        4 <= k <= 12 && r == #[trigger] pow2(k) && (r >= size || k == 12) && (k == 4 || pow2(
            (k - 1) as nat,
        ) < size);
    if k > 4 {
        lemma_pow2_strictly_increases((k - 1) as nat, k);
    }
    assert(r == pow2(k));
}

} // verus!
