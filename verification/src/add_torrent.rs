//! The forms in which a torrent is handed to the session, and the trackers
//! that come with it.

use crate::id20::Id20;
use crate::outside::{parse_url, url_serialization};
use crate::text::{starts_with, string_from_utf8};
use crate::torrent::{clone_bytes, strings_view, TorrentInfo};
use vstd::prelude::*;
use vstd::utf8::{decode_utf8, valid_utf8};

verus! {

/// A decoded torrent file: the descriptor, its hash and its trackers.
#[derive(Debug)]
pub struct TorrentMeta {
    /// The tracker to announce to where `announce_list` names none.
    pub announce: Vec<u8>,
    /// Trackers in tiers.
    pub announce_list: Vec<Vec<Vec<u8>>>,
    pub info: TorrentInfo,
    pub info_hash: Id20,
}

/// What the session is asked to add.
#[derive(Debug)]
pub enum AddTorrent {
    /// A magnet link or the HTTP(S) address of a torrent file.
    Url(String),
    /// The bytes of a torrent file.
    TorrentFileBytes(Vec<u8>),
    /// A torrent file that is decoded already.
    TorrentInfo(Box<TorrentMeta>),
}

/// The kinds of input that `AddTorrent` distinguishes by their text.
#[derive(Clone, Copy, Debug, PartialEq, Eq, Structural)]
pub enum AddKind {
    Magnet,
    Http,
    UnsupportedUrl,
    FileBytes,
    Info,
}

/// `true` for a text that starts with one of the schemes a command line may
/// name: `http:`, `https:`, `magnet:`.
pub open spec fn has_supported_scheme(path: Seq<char>) -> bool {
    "http:"@.is_prefix_of(path) || "https:"@.is_prefix_of(path) || "magnet:"@.is_prefix_of(path)
}

/// The kind of a URL: a magnet link, an HTTP(S) address, or neither.
pub open spec fn url_kind(url: Seq<char>) -> AddKind {
    if "magnet:"@.is_prefix_of(url) {
        AddKind::Magnet
    } else if "http://"@.is_prefix_of(url) || "https://"@.is_prefix_of(url) {
        AddKind::Http
    } else {
        AddKind::UnsupportedUrl
    }
}

impl AddTorrent {
    /// Reads a command-line argument: a URL with a supported scheme is taken
    /// as it is. Anything else names a local file, or standard input; reading
    /// it is the caller's part, so `None` is returned and the caller goes on
    /// with `from_bytes`.
    pub fn from_cli_argument(path: &str) -> (r: Option<Self>)
        ensures
            match r {
                Some(AddTorrent::Url(url)) => has_supported_scheme(path@) && url@ == path@,
                Some(_) => false,
                None => !has_supported_scheme(path@),
            },
    {
        if starts_with(path, "http:") || starts_with(path, "https:") || starts_with(
            path,
            "magnet:",
        ) {
            return Some(AddTorrent::Url(path.to_owned()));
        }
        None
    }

    /// A torrent given by a magnet link or an HTTP(S) address.
    pub fn from_url(url: String) -> (r: Self)
        ensures
            r == AddTorrent::Url(url),
    {
        AddTorrent::Url(url)
    }

    /// A torrent given by the bytes of its file.
    pub fn from_bytes(bytes: Vec<u8>) -> (r: Self)
        ensures
            r == AddTorrent::TorrentFileBytes(bytes),
    {
        AddTorrent::TorrentFileBytes(bytes)
    }

    /// The kind of the input.
    pub fn kind(&self) -> (kind: AddKind)
        ensures
            kind == match self {
                AddTorrent::Url(url) => url_kind(url@),
                AddTorrent::TorrentFileBytes(_) => AddKind::FileBytes,
                AddTorrent::TorrentInfo(_) => AddKind::Info,
            },
    {
        match self {
            AddTorrent::Url(url) => {
                if starts_with(url.as_str(), "magnet:") {
                    AddKind::Magnet
                } else if starts_with(url.as_str(), "http://") || starts_with(
                    url.as_str(),
                    "https://",
                ) {
                    AddKind::Http
                } else {
                    AddKind::UnsupportedUrl
                }
            },
            AddTorrent::TorrentFileBytes(_) => AddKind::FileBytes,
            AddTorrent::TorrentInfo(_) => AddKind::Info,
        }
    }

    /// The kind of a URL, and the URL back.
    pub(crate) fn kind_of_url(self) -> (r: (AddKind, String))
        requires
            self is Url,
        ensures
            self == AddTorrent::Url(r.1),
            r.0 == url_kind(r.1@),
    {
        let kind = self.kind();
        match self {
            AddTorrent::Url(url) => (kind, url),
            _ => (kind, String::new()),
        }
    }

    /// The input as bytes: the text of a URL, or the bytes of the file. A
    /// decoded torrent has no such form.
    pub fn into_bytes(self) -> (bytes: Vec<u8>)
        requires
            !(self is TorrentInfo),
        ensures
            match self {
                AddTorrent::Url(url) => bytes@ == vstd::utf8::encode_utf8(url@),
                AddTorrent::TorrentFileBytes(given) => bytes == given,
                AddTorrent::TorrentInfo(_) => false,
            },
    {
        match self {
            AddTorrent::Url(url) => vstd::slice::slice_to_vec(url.as_str().as_bytes()),
            AddTorrent::TorrentFileBytes(bytes) => bytes,
            AddTorrent::TorrentInfo(_) => Vec::new(),
        }
    }
}

/// All trackers of the tiers, tier by tier.
pub open spec fn flattened(tiers: Seq<Seq<Seq<u8>>>) -> Seq<Seq<u8>>
    decreases tiers.len(),
{
    if tiers.len() == 0 {
        Seq::empty()
    } else {
        flattened(tiers.drop_last()) + tiers.last()
    }
}

/// The trackers of a torrent file: those of its tiers, or, where the tiers
/// name none, the single tracker it announces to.
pub open spec fn announce_urls(announce: Seq<u8>, tiers: Seq<Seq<Seq<u8>>>) -> Seq<Seq<u8>> {
    if flattened(tiers).len() > 0 {
        flattened(tiers)
    } else {
        seq![announce]
    }
}

/// The views of the tiers of trackers.
pub open spec fn tiers_view(tiers: Seq<Vec<Vec<u8>>>) -> Seq<Seq<Seq<u8>>> {
    tiers.map_values(|tier: Vec<Vec<u8>>| tier@.map_values(|t: Vec<u8>| t@))
}

/// The views of a list of byte strings.
pub open spec fn bytes_view(texts: Seq<Vec<u8>>) -> Seq<Seq<u8>> {
    texts.map_values(|t: Vec<u8>| t@)
}

impl TorrentMeta {
    /// The trackers of the torrent file, as it spells them.
    pub fn iter_announce(&self) -> (r: Vec<Vec<u8>>)
        ensures
            bytes_view(r@) == announce_urls(self.announce@, tiers_view(self.announce_list@)),
    {
        let ghost tiers = tiers_view(self.announce_list@);
        let mut r: Vec<Vec<u8>> = Vec::new();
        let mut i: usize = 0;
        while i < self.announce_list.len()
            invariant
                0 <= i <= self.announce_list.len(),
                tiers == tiers_view(self.announce_list@),
                bytes_view(r@) == flattened(tiers.subrange(0, i as int)),
            decreases self.announce_list.len() - i,
        {
            let tier = &self.announce_list[i];
            let ghost before = bytes_view(r@);
            let ghost tier_view = tiers[i as int];
            assert(tiers.subrange(0, i + 1).drop_last() =~= tiers.subrange(0, i as int));
            assert(tiers.subrange(0, i + 1).last() == tier_view);
            let mut j: usize = 0;
            while j < tier.len()
                invariant
                    0 <= j <= tier.len(),
                    tier_view == tier@.map_values(|t: Vec<u8>| t@),
                    bytes_view(r@) == before + tier_view.subrange(0, j as int),
                decreases tier.len() - j,
            {
                let ghost so_far = bytes_view(r@);
                r.push(clone_bytes(&tier[j]));
                assert(bytes_view(r@) =~= so_far.push(tier@[j as int]@));
                assert(before + tier_view.subrange(0, j + 1) =~= (before + tier_view.subrange(
                    0,
                    j as int,
                )).push(tier_view[j as int]));
                j = j + 1;
            }
            assert(tier_view.subrange(0, tier@.len() as int) =~= tier_view);
            i = i + 1;
        }
        assert(tiers.subrange(0, self.announce_list@.len() as int) =~= tiers);
        if r.len() == 0 {
            r.push(clone_bytes(&self.announce));
            assert(bytes_view(r@) =~= seq![self.announce@]);
        }
        r
    }
}

/// The tracker address that a text stands for: the serialization of the URL
/// it parses to.
pub open spec fn tracker_of_text(text: Seq<char>) -> Option<Seq<char>> {
    url_serialization(text)
}

/// The tracker address that bytes stand for, if they are text that parses.
pub open spec fn tracker_of_bytes(bytes: Seq<u8>) -> Option<Seq<char>> {
    if valid_utf8(bytes) {
        url_serialization(decode_utf8(bytes))
    } else {
        None
    }
}

/// The values that `f` gives for the items of a list, in order, without the
/// items for which it gives none.
pub open spec fn filter_map<A, B>(items: Seq<A>, f: spec_fn(A) -> Option<B>) -> Seq<B>
    decreases items.len(),
{
    if items.len() == 0 {
        Seq::empty()
    } else {
        let before = filter_map(items.drop_last(), f);
        match f(items.last()) {
            Some(b) => before.push(b),
            None => before,
        }
    }
}

/// The tracker addresses among the texts: what does not parse as a URL is
/// left out.
pub open spec fn trackers_of_texts(texts: Seq<Seq<char>>) -> Seq<Seq<char>> {
    filter_map(texts, |t: Seq<char>| tracker_of_text(t))
}

/// The tracker addresses among the byte strings: what is not text, or does
/// not parse as a URL, is left out.
pub open spec fn trackers_of_bytes(texts: Seq<Seq<u8>>) -> Seq<Seq<char>> {
    filter_map(texts, |t: Seq<u8>| tracker_of_bytes(t))
}

/// Parses the trackers that a magnet link names. What does not parse as a URL
/// is left out.
pub fn tracker_urls_from_texts(texts: &Vec<String>) -> (r: Vec<String>)
    ensures
        strings_view(r@) == trackers_of_texts(strings_view(texts@)),
{
    let ghost all = strings_view(texts@);
    let ghost f = |t: Seq<char>| tracker_of_text(t);
    let mut r: Vec<String> = Vec::new();
    let mut i: usize = 0;
    while i < texts.len()
        invariant
            0 <= i <= texts.len(),
            all == strings_view(texts@),
            f == (|t: Seq<char>| tracker_of_text(t)),
            strings_view(r@) == filter_map(all.subrange(0, i as int), f),
        decreases texts.len() - i,
    {
        assert(all.subrange(0, i + 1).drop_last() =~= all.subrange(0, i as int));
        assert(all.subrange(0, i + 1).last() == texts@[i as int]@);
        let ghost before = strings_view(r@);
        match parse_url(texts[i].as_str()) {
            Some(url) => {
                r.push(url);
                assert(strings_view(r@) =~= before.push(url@));
            },
            None => {},
        }
        i = i + 1;
    }
    assert(all.subrange(0, texts@.len() as int) =~= all);
    r
}

/// Parses the trackers that a torrent file names. What is not text, or does
/// not parse as a URL, is left out.
pub fn tracker_urls_from_bytes(texts: &Vec<Vec<u8>>) -> (r: Vec<String>)
    ensures
        strings_view(r@) == trackers_of_bytes(bytes_view(texts@)),
{
    let ghost all = bytes_view(texts@);
    let ghost f = |t: Seq<u8>| tracker_of_bytes(t);
    let mut r: Vec<String> = Vec::new();
    let mut i: usize = 0;
    while i < texts.len()
        invariant
            0 <= i <= texts.len(),
            all == bytes_view(texts@),
            f == (|t: Seq<u8>| tracker_of_bytes(t)),
            strings_view(r@) == filter_map(all.subrange(0, i as int), f),
        decreases texts.len() - i,
    {
        assert(all.subrange(0, i + 1).drop_last() =~= all.subrange(0, i as int));
        assert(all.subrange(0, i + 1).last() == texts@[i as int]@);
        let ghost before = strings_view(r@);
        match string_from_utf8(clone_bytes(&texts[i])) {
            Some(text) => {
                match parse_url(text.as_str()) {
                    Some(url) => {
                        r.push(url);
                        assert(strings_view(r@) =~= before.push(url@));
                    },
                    None => {},
                }
            },
            None => {},
        }
        i = i + 1;
    }
    assert(all.subrange(0, texts@.len() as int) =~= all);
    r
}

} // verus!
