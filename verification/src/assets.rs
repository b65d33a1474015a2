//! Asset discovery: turning the listing of a keyword or model asset
//! directory into lookup tables, and resolving the assets a capture
//! session needs. A keyword asset file name encodes keyword identifier,
//! language and platform between `_` separators; a model asset file name
//! encodes the language code after the last `_` and before the
//! extension. Directory reads happen outside this crate; the functions
//! here take the listing as a value, so resolving an unchanged listing
//! twice yields identical tables.

use vstd::prelude::*;

use crate::keywords::{keyword_id, Keywords};
use crate::strutil::{
    after_last, before_first, contains_seq, contains_sub, split_after_last, split_before_first,
    str_equal,
};

verus! {

/// One entry of a scanned asset directory: the bare file name and the
/// full path to the file.
pub struct AssetEntry {
    pub name: String,
    pub path: String,
}

impl View for AssetEntry {
    type V = (Seq<char>, Seq<char>);

    open spec fn view(&self) -> (Seq<char>, Seq<char>) {
        (self.name@, self.path@)
    }
}

/// The views of the entries of a directory listing, in listing order.
pub open spec fn listing_view(listing: Seq<AssetEntry>) -> Seq<(Seq<char>, Seq<char>)> {
    listing.map_values(|e: AssetEntry| e@)
}

/// The map an association list denotes when entries are added in order
/// and a later entry overwrites an earlier one with the same key.
pub open spec fn assoc_map(entries: Seq<(Seq<char>, Seq<char>)>) -> Map<Seq<char>, Seq<char>>
    decreases entries.len(),
{
    if entries.len() == 0 {
        Map::empty()
    } else {
        assoc_map(entries.drop_last()).insert(entries.last().0, entries.last().1)
    }
}

/// A lookup table from names to file paths, kept as the ordered list of
/// additions; on equal names the last addition wins.
pub struct AssetMap {
    pub entries: Vec<(String, String)>,
}

impl View for AssetMap {
    type V = Map<Seq<char>, Seq<char>>;

    open spec fn view(&self) -> Map<Seq<char>, Seq<char>> {
        assoc_map(self.entries@.map_values(|p: (String, String)| (p.0@, p.1@)))
    }
}

/// Keys outside the suffix `entries[i..]` are looked up in the prefix
/// `entries[..i]` alone.
proof fn lemma_assoc_map_skip_suffix(entries: Seq<(Seq<char>, Seq<char>)>, key: Seq<char>, i: int)
    requires
        0 <= i <= entries.len(),
        forall|j: int| i <= j < entries.len() ==> (#[trigger] entries[j]).0 != key,
    ensures
        assoc_map(entries).contains_key(key) == assoc_map(entries.take(i)).contains_key(key),
        assoc_map(entries).contains_key(key) ==> assoc_map(entries)[key] == assoc_map(
            entries.take(i),
        )[key],
    decreases entries.len() - i,
{
    if i == entries.len() {
        assert(entries.take(i) =~= entries);
    } else {
        let front = entries.drop_last();
        lemma_assoc_map_skip_suffix(front, key, i);
        assert(front.take(i) =~= entries.take(i));
    }
}

impl AssetMap {
    /// An empty table.
    pub fn new() -> (m: AssetMap)
        ensures
            m@ == Map::<Seq<char>, Seq<char>>::empty(),
            m.entries@.len() == 0,
    {
        let m = AssetMap { entries: Vec::new() };
        proof {
            assert(m.entries@.map_values(|p: (String, String)| (p.0@, p.1@)) =~= Seq::empty());
        }
        m
    }

    /// Adds `key -> value`, overwriting any earlier addition of `key`.
    pub fn insert(&mut self, key: String, value: String)
        ensures
            final(self)@ == old(self)@.insert(key@, value@),
            final(self).entries@.len() == old(self).entries@.len() + 1,
    {
        let ghost old_pairs = self.entries@.map_values(|p: (String, String)| (p.0@, p.1@));
        self.entries.push((key, value));
        proof {
            let pairs = self.entries@.map_values(|p: (String, String)| (p.0@, p.1@));
            assert(pairs.drop_last() =~= old_pairs);
        }
    }

    /// Whether no addition was ever made.
    pub fn is_empty(&self) -> (r: bool)
        ensures
            r == self@.is_empty(),
            r == (self.entries@.len() == 0),
    {
        let r = self.entries.len() == 0;
        proof {
            let pairs = self.entries@.map_values(|p: (String, String)| (p.0@, p.1@));
            if self.entries@.len() == 0 {
                assert(pairs =~= Seq::empty());
                assert(self@.dom() =~= Set::empty());
            } else {
                assert(self@.contains_key(pairs.last().0));
            }
        }
        r
    }

    /// The path recorded for `key`: that of the last addition of `key`,
    /// or nothing when `key` was never added.
    pub fn get(&self, key: &str) -> (r: Option<&String>)
        ensures
            r matches Some(p) ==> self@.contains_key(key@) && p@ == self@[key@],
            r is None ==> !self@.contains_key(key@),
    {
        let ghost pairs = self.entries@.map_values(|p: (String, String)| (p.0@, p.1@));
        let mut i: usize = self.entries.len();
        while i > 0
            invariant
                i <= self.entries@.len(),
                pairs == self.entries@.map_values(|p: (String, String)| (p.0@, p.1@)),
                forall|j: int|
                    i <= j < self.entries@.len() ==> (#[trigger] pairs[j]).0 != key@,
            decreases i,
        {
            if str_equal(self.entries[i - 1].0.as_str(), key) {
                proof {
                    lemma_assoc_map_skip_suffix(pairs, key@, i as int);
                    assert(pairs.take(i as int).last() == pairs[i - 1]);
                    assert(pairs.take(i as int).drop_last() =~= pairs.take(i - 1));
                }
                return Some(&self.entries[i - 1].1);
            }
            i = i - 1;
        }
        proof {
            lemma_assoc_map_skip_suffix(pairs, key@, 0);
            assert(pairs.take(0) =~= Seq::empty());
        }
        None
    }
}

/// The piece of a keyword asset file name that names language and
/// platform: separator, language, separator, platform, extension.
pub open spec fn keyword_file_pattern(language: Seq<char>, platform: Seq<char>) -> Seq<char> {
    "_"@ + language + "_"@ + platform + ".ppn"@
}

/// Whether a file name is a keyword asset for this language and
/// platform: it holds the pattern, and holds more than the pattern
/// alone, so that a keyword identifier stands in front.
pub open spec fn keyword_file_matches(
    name: Seq<char>,
    language: Seq<char>,
    platform: Seq<char>,
) -> bool {
    contains_seq(name, keyword_file_pattern(language, platform)) && name.len()
        > keyword_file_pattern(language, platform).len()
}

/// The keyword identifier a matching file name carries: the text before
/// the first separator.
pub open spec fn keyword_file_id(name: Seq<char>) -> Seq<char> {
    before_first(name, '_')
}

/// The keyword lookup table a directory listing denotes: every matching
/// file is recorded under its keyword identifier, in listing order, the
/// last one winning on equal identifiers.
pub open spec fn keyword_map(
    language: Seq<char>,
    platform: Seq<char>,
    listing: Seq<(Seq<char>, Seq<char>)>,
) -> Map<Seq<char>, Seq<char>>
    decreases listing.len(),
{
    if listing.len() == 0 {
        Map::empty()
    } else {
        let rest = keyword_map(language, platform, listing.drop_last());
        if keyword_file_matches(listing.last().0, language, platform) {
            rest.insert(keyword_file_id(listing.last().0), listing.last().1)
        } else {
            rest
        }
    }
}

/// The language code a model asset file name carries: the text after
/// the last separator and before the extension.
pub open spec fn model_file_language(name: Seq<char>) -> Seq<char> {
    before_first(after_last(name, '_'), '.')
}

/// The model lookup table a directory listing denotes: every file is
/// recorded under the language code its name carries, in listing order,
/// the last one winning on equal codes.
pub open spec fn model_map(listing: Seq<(Seq<char>, Seq<char>)>) -> Map<Seq<char>, Seq<char>>
    decreases listing.len(),
{
    if listing.len() == 0 {
        Map::empty()
    } else {
        model_map(listing.drop_last()).insert(
            model_file_language(listing.last().0),
            listing.last().1,
        )
    }
}

/// Builds the file-name pattern of keyword assets for a language and a
/// platform.
fn keyword_pattern(language: &str, platform: &str) -> (p: String)
    ensures
        p@ == keyword_file_pattern(language@, platform@),
{
    let mut p = String::new();
    p.append("_");
    p.append(language);
    p.append("_");
    p.append(platform);
    p.append(".ppn");
    proof {
        assert(p@ =~= keyword_file_pattern(language@, platform@));
    }
    p
}

/// Scans a keyword asset directory listing and records, for every file
/// meant for this language and platform, its keyword identifier and its
/// path.
pub fn pv_keyword_paths(language: &str, platform: &str, listing: &Vec<AssetEntry>) -> (m: AssetMap)
    ensures
        m@ == keyword_map(language@, platform@, listing_view(listing@)),
{
    let pattern = keyword_pattern(language, platform);
    let pattern_len = pattern.as_str().unicode_len();
    let mut m = AssetMap::new();
    let n = listing.len();
    let mut i: usize = 0;
    while i < n
        invariant
            n == listing@.len(),
            i <= n,
            pattern@ == keyword_file_pattern(language@, platform@),
            pattern_len == pattern@.len(),
            m@ == keyword_map(language@, platform@, listing_view(listing@.take(i as int))),
        decreases n - i,
    {
        let entry = &listing[i];
        let name_len = entry.name.as_str().unicode_len();
        if contains_sub(entry.name.as_str(), pattern.as_str()) && name_len > pattern_len {
            let key = split_before_first(entry.name.as_str(), '_');
            m.insert(key.to_owned(), entry.path.clone());
        }
        proof {
            let prefix = listing_view(listing@.take(i as int));
            let grown = listing_view(listing@.take(i + 1));
            assert(grown.drop_last() =~= prefix);
            assert(grown.last() == listing@[i as int]@);
        }
        i = i + 1;
    }
    proof {
        assert(listing@.take(n as int) =~= listing@);
    }
    m
}

/// Scans a model asset directory listing and records, for every file,
/// the language code its name carries and its path.
pub fn pv_model_paths(listing: &Vec<AssetEntry>) -> (m: AssetMap)
    ensures
        m@ == model_map(listing_view(listing@)),
{
    let mut m = AssetMap::new();
    let n = listing.len();
    let mut i: usize = 0;
    while i < n
        invariant
            n == listing@.len(),
            i <= n,
            m@ == model_map(listing_view(listing@.take(i as int))),
        decreases n - i,
    {
        let entry = &listing[i];
        let code = split_before_first(split_after_last(entry.name.as_str(), '_'), '.');
        m.insert(code.to_owned(), entry.path.clone());
        proof {
            let prefix = listing_view(listing@.take(i as int));
            let grown = listing_view(listing@.take(i + 1));
            assert(grown.drop_last() =~= prefix);
            assert(grown.last() == listing@[i as int]@);
        }
        i = i + 1;
    }
    proof {
        assert(listing@.take(n as int) =~= listing@);
    }
    m
}

/// How asset resolution fails.
#[derive(PartialEq, Eq, Clone, Debug)]
pub enum ResolveError {
    /// The expected asset directory is absent.
    AssetDirectoryNotFound,
    /// A requested keyword has no matching file. `keyword` is its
    /// identifier; `scan_empty` tells whether the scan matched no file
    /// at all, so that an empty directory and a wrong keyword stay
    /// distinguishable.
    KeywordAssetMissing { keyword: String, scan_empty: bool },
}

/// Whether every requested keyword has an entry in the lookup table.
pub open spec fn all_keywords_resolved(m: Map<Seq<char>, Seq<char>>, ks: Seq<Keywords>) -> bool {
    forall|i: int| 0 <= i < ks.len() ==> m.contains_key(keyword_id(#[trigger] ks[i]))
}

/// Resolves the asset path of every requested keyword, in the order
/// requested. `listing` carries the keyword asset directory listing, or
/// nothing when that directory is absent. Fails when the directory is
/// absent or when some requested keyword has no matching file; no
/// partial path list is ever returned.
pub fn resolve_keyword_paths(
    language: &str,
    platform: &str,
    keywords: &Vec<Keywords>,
    listing: Option<&Vec<AssetEntry>>,
) -> (r: Result<Vec<String>, ResolveError>)
    ensures
        listing is None ==> r matches Err(ResolveError::AssetDirectoryNotFound),
        (listing matches Some(l) ==> {
            let m = keyword_map(language@, platform@, listing_view(l@));
            &&& (r is Ok <==> all_keywords_resolved(m, keywords@))
            &&& (r matches Ok(paths) ==> paths@.len() == keywords@.len() && (forall|i: int|
                0 <= i < keywords@.len() ==> (#[trigger] paths@[i])@ == m[keyword_id(
                    keywords@[i],
                )]))
            &&& (r matches Err(e) ==> e matches ResolveError::KeywordAssetMissing {
                keyword,
                scan_empty,
            } && (exists|i: int|
                0 <= i < keywords@.len() && keyword@ == keyword_id(#[trigger] keywords@[i])
                    && !m.contains_key(keyword_id(keywords@[i]))) && (scan_empty
                <==> m.is_empty()))
        }),
{
    if listing.is_none() {
        return Err(ResolveError::AssetDirectoryNotFound);
    }
    let entries = listing.unwrap();
    let m = pv_keyword_paths(language, platform, entries);
    let scan_empty = m.is_empty();
    let n = keywords.len();
    let mut paths: Vec<String> = Vec::new();
    let mut i: usize = 0;
    while i < n
        invariant
            listing == Some(entries),
            n == keywords@.len(),
            i <= n,
            m@ == keyword_map(language@, platform@, listing_view(entries@)),
            scan_empty == m@.is_empty(),
            paths@.len() == i,
            forall|j: int|
                0 <= j < i ==> m@.contains_key(keyword_id(#[trigger] keywords@[j])) && paths@[j]@
                    == m@[keyword_id(keywords@[j])],
        decreases n - i,
    {
        let kw = keywords[i];
        match m.get(kw.to_str()) {
            Some(p) => {
                paths.push(p.clone());
            },
            None => {
                return Err(
                    ResolveError::KeywordAssetMissing {
                        keyword: kw.to_str().to_owned(),
                        scan_empty,
                    },
                );
            },
        }
        i = i + 1;
    }
    Ok(paths)
}

/// Resolves the model asset path for a language from the model asset
/// directory listing. Absence is a valid outcome, not an error: the
/// caller then falls back to the detector's built-in default model.
pub fn resolve_model_path(language: &str, listing: &Vec<AssetEntry>) -> (r: Option<String>)
    ensures
        r is Some <==> model_map(listing_view(listing@)).contains_key(language@),
        r matches Some(p) ==> p@ == model_map(listing_view(listing@))[language@],
{
    let m = pv_model_paths(listing);
    match m.get(language) {
        Some(p) => Some(p.clone()),
        None => None,
    }
}

/// Everything the detector needs for one session: the asset path of
/// every requested keyword, in requested order, and the model path for
/// the chosen language when one exists.
pub struct SessionAssets {
    pub keyword_paths: Vec<String>,
    pub model_path: Option<String>,
}

/// Resolves all assets of one session: the keyword asset paths, which
/// must all exist, and the optional model path. Fails exactly when
/// keyword resolution fails.
pub fn session_assets(
    language: &str,
    platform: &str,
    keywords: &Vec<Keywords>,
    keyword_listing: Option<&Vec<AssetEntry>>,
    model_listing: &Vec<AssetEntry>,
) -> (r: Result<SessionAssets, ResolveError>)
    ensures
        keyword_listing is None ==> r matches Err(ResolveError::AssetDirectoryNotFound),
        (keyword_listing matches Some(l) ==> {
            let m = keyword_map(language@, platform@, listing_view(l@));
            let mm = model_map(listing_view(model_listing@));
            &&& (r is Ok <==> all_keywords_resolved(m, keywords@))
            &&& (r matches Ok(a) ==> a.keyword_paths@.len() == keywords@.len() && (forall|i: int|
                0 <= i < keywords@.len() ==> (#[trigger] a.keyword_paths@[i])@ == m[keyword_id(
                    keywords@[i],
                )]) && (a.model_path is Some <==> mm.contains_key(language@)) && (
            a.model_path matches Some(p) ==> p@ == mm[language@]))
            &&& (r matches Err(e) ==> e matches ResolveError::KeywordAssetMissing {
                keyword,
                scan_empty,
            } && (exists|i: int|
                0 <= i < keywords@.len() && keyword@ == keyword_id(#[trigger] keywords@[i])
                    && !m.contains_key(keyword_id(keywords@[i]))) && (scan_empty
                <==> m.is_empty()))
        }),
{
    let keyword_paths = match resolve_keyword_paths(language, platform, keywords, keyword_listing) {
        Ok(paths) => paths,
        Err(e) => {
            return Err(e);
        },
    };
    let model_path = resolve_model_path(language, model_listing);
    Ok(SessionAssets { keyword_paths, model_path })
}

/// Resolution is a function of the listing alone: resolving twice over
/// an unchanged directory yields identical keyword and model maps.
pub proof fn lemma_resolution_idempotent(
    language: Seq<char>,
    platform: Seq<char>,
    first: Seq<(Seq<char>, Seq<char>)>,
    second: Seq<(Seq<char>, Seq<char>)>,
)
    requires
        first == second,
    ensures
        keyword_map(language, platform, first) == keyword_map(language, platform, second),
        model_map(first) == model_map(second),
{
}

} // verus!
