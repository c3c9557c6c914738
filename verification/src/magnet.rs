//! Magnet links: an info hash and the trackers that come with it.

use crate::id20::{is_hex, unhex, Id20, Id20Error};
use crate::outside::{pairs_view, parse_url_query, url_scheme_and_query};
use crate::text::{starts_with, str_equals};
use crate::torrent::strings_view;
use vstd::prelude::*;

verus! {

/// What a magnet link says.
#[derive(Debug, PartialEq, Eq)]
pub struct Magnet {
    pub info_hash: Id20,
    /// The trackers the link names, as it spells them.
    pub trackers: Vec<String>,
}

pub struct MagnetView {
    pub info_hash: Seq<u8>,
    pub trackers: Seq<Seq<char>>,
}

impl View for Magnet {
    type V = MagnetView;

    open spec fn view(&self) -> MagnetView {
        MagnetView { info_hash: self.info_hash@, trackers: strings_view(self.trackers@) }
    }
}

/// Why a text is no magnet link.
#[derive(Clone, Copy, Debug, PartialEq, Eq, Structural)]
pub enum MagnetError {
    /// The text is no URL.
    InvalidUrl,
    /// The URL's scheme is not `magnet`.
    NotMagnet,
    /// An `xt` of the link does not start with `urn:btih:`.
    XtWithoutBtih,
    /// An `xt` of the link holds no info hash.
    InfoHash(Id20Error),
    /// The link has no `xt`.
    NoInfoHash,
}

/// What has been read of a link's query: the info hash, if one was met, and
/// the trackers so far.
pub struct MagnetParts {
    pub info_hash: Option<Seq<u8>>,
    pub trackers: Seq<Seq<char>>,
}

/// What is read after one more pair of the query. An `xt` has to start with
/// `urn:btih:` and go on with an info hash, which replaces one met before; a
/// `tr` adds a tracker; any other key is passed over.
pub open spec fn read_pair(parts: MagnetParts, key: Seq<char>, value: Seq<char>) -> Result<
    MagnetParts,
    MagnetError,
> {
    if key == "xt"@ {
        if !"urn:btih:"@.is_prefix_of(value) {
            Err(MagnetError::XtWithoutBtih)
        } else {
            let text = value.subrange("urn:btih:"@.len() as int, value.len() as int);
            if text.len() != 40 {
                Err(MagnetError::InfoHash(Id20Error::WrongLength))
            } else if !is_hex(text) {
                Err(MagnetError::InfoHash(Id20Error::NotHex))
            } else {
                Ok(MagnetParts { info_hash: Some(unhex(text)), ..parts })
            }
        }
    } else if key == "tr"@ {
        Ok(MagnetParts { trackers: parts.trackers.push(value), ..parts })
    } else {
        Ok(parts)
    }
}

/// What is read of the pairs of a query, in order. The first pair that cannot
/// be read is the error.
pub open spec fn read_pairs(pairs: Seq<(Seq<char>, Seq<char>)>) -> Result<MagnetParts, MagnetError>
    decreases pairs.len(),
{
    if pairs.len() == 0 {
        Ok(MagnetParts { info_hash: None, trackers: Seq::empty() })
    } else {
        match read_pairs(pairs.drop_last()) {
            Ok(parts) => read_pair(parts, pairs.last().0, pairs.last().1),
            Err(e) => Err(e),
        }
    }
}

/// What a text says as a magnet link: it has to be a URL of the scheme
/// `magnet` whose query names an info hash.
pub open spec fn magnet_of(url: Seq<char>) -> Result<MagnetView, MagnetError> {
    match url_scheme_and_query(url) {
        None => Err(MagnetError::InvalidUrl),
        Some((scheme, pairs)) => if scheme != "magnet"@ {
            Err(MagnetError::NotMagnet)
        } else {
            match read_pairs(pairs) {
                Err(e) => Err(e),
                Ok(parts) => match parts.info_hash {
                    Some(info_hash) => Ok(MagnetView { info_hash, trackers: parts.trackers }),
                    None => Err(MagnetError::NoInfoHash),
                },
            }
        },
    }
}

impl Magnet {
    /// Reads a magnet link.
    pub fn parse(url: &str) -> (r: Result<Magnet, MagnetError>)
        ensures
            match r {
                Ok(magnet) => magnet_of(url@) == Ok::<MagnetView, MagnetError>(magnet@),
                Err(e) => magnet_of(url@) == Err::<MagnetView, MagnetError>(e),
            },
    {
        let (scheme, pairs) = match parse_url_query(url) {
            Some(parts) => parts,
            None => {
                return Err(MagnetError::InvalidUrl);
            },
        };
        if !str_equals(scheme.as_str(), "magnet") {
            return Err(MagnetError::NotMagnet);
        }
        let ghost all = pairs_view(pairs@);
        let mut info_hash: Option<Id20> = None;
        let mut trackers: Vec<String> = Vec::new();
        let mut i: usize = 0;
        assert(all.subrange(0, 0) =~= Seq::<(Seq<char>, Seq<char>)>::empty());
        assert(strings_view(trackers@) =~= Seq::<Seq<char>>::empty());
        while i < pairs.len()
            invariant
                0 <= i <= pairs.len(),
                all == pairs_view(pairs@),
                url_scheme_and_query(url@) == Some((scheme@, all)),
                scheme@ == "magnet"@,
                read_pairs(all.subrange(0, i as int)) == Ok::<MagnetParts, MagnetError>(
                    MagnetParts {
                        info_hash: match info_hash {
                            Some(id) => Some(id@),
                            None => None,
                        },
                        trackers: strings_view(trackers@),
                    },
                ),
            decreases pairs.len() - i,
        {
            let key = pairs[i].0.as_str();
            let value = pairs[i].1.as_str();
            proof {
                reveal_strlit("urn:btih:");
                assert(all.subrange(0, i + 1).drop_last() =~= all.subrange(0, i as int));
                assert(all.subrange(0, i + 1).last() == (key@, value@));
                assert(all.subrange(0, all.len() as int) =~= all);
            }
            if str_equals(key, "xt") {
                if !starts_with(value, "urn:btih:") {
                    proof {
                        lemma_error_stays(all, i + 1);
                    }
                    return Err(MagnetError::XtWithoutBtih);
                }
                let text = value.substring_char(9, value.unicode_len());
                match Id20::from_str(text) {
                    Ok(id) => {
                        info_hash = Some(id);
                    },
                    Err(e) => {
                        proof {
                            lemma_error_stays(all, i + 1);
                        }
                        return Err(MagnetError::InfoHash(e));
                    },
                }
            } else if str_equals(key, "tr") {
                let ghost before = strings_view(trackers@);
                trackers.push(pairs[i].1.clone());
                assert(strings_view(trackers@) =~= before.push(value@));
            }
            i = i + 1;
        }
        assert(all.subrange(0, pairs@.len() as int) =~= all);
        match info_hash {
            Some(info_hash) => Ok(Magnet { info_hash, trackers }),
            None => Err(MagnetError::NoInfoHash),
        }
    }
}

/// Once a pair cannot be read, the pairs after it change nothing.
proof fn lemma_error_stays(pairs: Seq<(Seq<char>, Seq<char>)>, n: int)
    requires
        0 <= n <= pairs.len(),
        read_pairs(pairs.subrange(0, n)).is_err(),
    ensures
        read_pairs(pairs) == read_pairs(pairs.subrange(0, n)),
    decreases pairs.len(),
{
    if n < pairs.len() {
        let shorter = pairs.drop_last();
        assert(shorter.subrange(0, n) =~= pairs.subrange(0, n));
        lemma_error_stays(shorter, n);
    } else {
        assert(pairs.subrange(0, n) =~= pairs);
    }
}

} // verus!
