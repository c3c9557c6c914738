//! Which files of a torrent to download, and where to put them.

use crate::options::AddTorrentError;
use crate::outside::{
    file_stem, join_path, joined_path, path_stem, pattern_compiles, pattern_matches,
    regex_is_match, regex_matches, regex_new,
};
use crate::text::string_from_utf8;
use crate::torrent::{
    clone_bytes, indices_view, opt_string_view, strings_view, TorrentFileView, TorrentInfo,
    TorrentInfoView,
};
use vstd::prelude::*;
use vstd::utf8::{decode_utf8, valid_utf8};

verus! {

/// The least index below `n` at which `p` holds, if there is one.
pub open spec fn first_index_where(n: int, p: spec_fn(int) -> bool) -> Option<int>
    decreases n,
{
    if n <= 0 {
        None
    } else {
        match first_index_where(n - 1, p) {
            Some(i) => Some(i),
            None => if p(n - 1) {
                Some(n - 1)
            } else {
                None
            },
        }
    }
}

/// `first_index_where` finds the least index, and finds none only where there
/// is none.
pub proof fn lemma_first_index_where(n: int, p: spec_fn(int) -> bool)
    ensures
        match first_index_where(n, p) {
            Some(i) => 0 <= i < n && p(i) && forall|j: int| 0 <= j < i ==> !#[trigger] p(j),
            None => forall|j: int| 0 <= j < n ==> !#[trigger] p(j),
        },
    decreases n,
{
    if n > 0 {
        lemma_first_index_where(n - 1, p);
    }
}

/// What is found below `n` is found below every larger bound too.
pub proof fn lemma_first_index_stays(n: int, m: int, p: spec_fn(int) -> bool)
    requires
        n <= m,
        first_index_where(n, p).is_some(),
    ensures
        first_index_where(m, p) == first_index_where(n, p),
    decreases m,
{
    if n < m {
        lemma_first_index_stays(n, m - 1, p);
    }
}

/// Marks the files whose name is not valid UTF-8.
pub open spec fn has_invalid_name(files: Seq<TorrentFileView>) -> spec_fn(int) -> bool {
    |i: int| !valid_utf8(files[i].name)
}

/// The index of the first file whose name is not valid UTF-8.
pub open spec fn first_invalid_name(files: Seq<TorrentFileView>) -> Option<int> {
    first_index_where(files.len() as int, has_invalid_name(files))
}

/// The files' names as text.
pub open spec fn names_of(files: Seq<TorrentFileView>) -> Seq<Seq<char>> {
    Seq::new(files.len(), |i: int| decode_utf8(files[i].name))
}

/// Reads the names of a torrent's files as text. Fails on the first name that
/// is not valid UTF-8.
pub fn decode_filenames(info: &TorrentInfo) -> (r: Result<Vec<String>, AddTorrentError>)
    ensures
        match r {
            Ok(names) => first_invalid_name(info@.files).is_none() && strings_view(names@)
                == names_of(info@.files),
            Err(e) => first_invalid_name(info@.files) matches Some(i) && e
                == AddTorrentError::InvalidFilename(i as usize),
        },
{
    let ghost files = info@.files;
    let ghost invalid = has_invalid_name(files);
    let mut names: Vec<String> = Vec::new();
    let mut idx: usize = 0;
    while idx < info.files.len()
        invariant
            0 <= idx <= info.files.len(),
            files == info@.files,
            files.len() == info.files.len(),
            invalid == has_invalid_name(files),
            first_index_where(idx as int, invalid).is_none(),
            names@.len() == idx,
            forall|j: int| 0 <= j < idx ==> names@[j]@ == decode_utf8(files[j].name),
        decreases info.files.len() - idx,
    {
        assert(files[idx as int].name == info.files@[idx as int].name@);
        match string_from_utf8(clone_bytes(&info.files[idx].name)) {
            Some(name) => {
                names.push(name);
            },
            None => {
                proof {
                    assert(invalid(idx as int));
                    assert(first_index_where(idx + 1, invalid) == Some(idx as int));
                    lemma_first_index_stays(idx + 1, files.len() as int, invalid);
                }
                return Err(AddTorrentError::InvalidFilename(idx));
            },
        }
        assert(!invalid(idx as int));
        idx = idx + 1;
    }
    assert(strings_view(names@) =~= names_of(files));
    Ok(names)
}

/// The texts that a compiled pattern matches.
pub open spec fn regex_matcher(re: regex::Regex) -> spec_fn(Seq<char>) -> bool {
    |haystack: Seq<char>| regex_matches(re, haystack)
}

/// The texts that a pattern matches once it is compiled.
pub open spec fn pattern_matcher(pattern: Seq<char>) -> spec_fn(Seq<char>) -> bool {
    |haystack: Seq<char>| pattern_matches(pattern, haystack)
}

/// The indices below `n` of the names that match, in increasing order.
pub open spec fn matching_files(
    names: Seq<Seq<char>>,
    matches: spec_fn(Seq<char>) -> bool,
    n: int,
) -> Seq<usize>
    decreases n,
{
    if n <= 0 {
        Seq::empty()
    } else {
        let rest = matching_files(names, matches, n - 1);
        if matches(names[n - 1]) {
            rest.push((n - 1) as usize)
        } else {
            rest
        }
    }
}

/// `matching_files` lists exactly the indices of the names that match, each
/// once and in increasing order.
pub proof fn lemma_matching_files(names: Seq<Seq<char>>, matches: spec_fn(Seq<char>) -> bool, n: int)
    requires
        0 <= n <= names.len(),
        n <= usize::MAX,
    ensures
        forall|k: int|
            0 <= k < matching_files(names, matches, n).len() ==> (#[trigger] matching_files(
                names,
                matches,
                n,
            )[k]) < n && matches(names[matching_files(names, matches, n)[k] as int]),
        forall|a: int, b: int|
            0 <= a < b < matching_files(names, matches, n).len() ==> matching_files(
                names,
                matches,
                n,
            )[a] < matching_files(names, matches, n)[b],
        forall|i: int|
            0 <= i < n && matches(#[trigger] names[i]) ==> matching_files(names, matches, n).contains(
                i as usize,
            ),
        (matching_files(names, matches, n).len() == 0) <==> (forall|i: int|
            0 <= i < n ==> !matches(#[trigger] names[i])),
    decreases n,
{
    if n > 0 {
        lemma_matching_files(names, matches, n - 1);
        let rest = matching_files(names, matches, n - 1);
        let all = matching_files(names, matches, n);
        if matches(names[n - 1]) {
            assert(all[all.len() - 1] == (n - 1) as usize);
            assert forall|i: int| 0 <= i < n && matches(#[trigger] names[i]) implies all.contains(
                i as usize,
            ) by {
                if i < n - 1 {
                    let k = choose|k: int| 0 <= k < rest.len() && rest[k] == i as usize;
                    assert(all[k] == i as usize);
                } else {
                    assert(all[all.len() - 1] == i as usize);
                }
            }
        }
    }
}

/// Two ways of matching that agree on the names select the same files.
pub proof fn lemma_matching_files_agree(
    names: Seq<Seq<char>>,
    first: spec_fn(Seq<char>) -> bool,
    second: spec_fn(Seq<char>) -> bool,
    n: int,
)
    requires
        n <= names.len(),
        forall|i: int| 0 <= i < n ==> first(#[trigger] names[i]) == second(names[i]),
    ensures
        matching_files(names, first, n) == matching_files(names, second, n),
    decreases n,
{
    if n > 0 {
        lemma_matching_files_agree(names, first, second, n - 1);
        assert(first(names[n - 1]) == second(names[n - 1]));
    }
}

/// What selecting files by matching gives: an error for the first name that
/// is not text; an error when no name matches; else the matching indices.
pub open spec fn select_files_result(
    files: Seq<TorrentFileView>,
    matches: spec_fn(Seq<char>) -> bool,
) -> Result<Seq<usize>, AddTorrentError> {
    match first_invalid_name(files) {
        Some(i) => Err(AddTorrentError::InvalidFilename(i as usize)),
        None => {
            let found = matching_files(names_of(files), matches, files.len() as int);
            if found.len() == 0 {
                Err(AddTorrentError::NoFilesMatch)
            } else {
                Ok(found)
            }
        },
    }
}

/// What selecting files by a pattern gives: an error for a pattern that does
/// not compile; else what matching by the pattern selects.
pub open spec fn pattern_selection(files: Seq<TorrentFileView>, pattern: Seq<char>) -> Result<
    Seq<usize>,
    AddTorrentError,
> {
    if !pattern_compiles(pattern) {
        Err(AddTorrentError::InvalidRegex)
    } else {
        select_files_result(files, pattern_matcher(pattern))
    }
}

/// A pattern that matches no file name selects nothing, which is an error.
pub proof fn lemma_no_match_is_an_error(files: Seq<TorrentFileView>, pattern: Seq<char>)
    requires
        files.len() <= usize::MAX,
        forall|i: int|
            0 <= i < files.len() ==> !pattern_matches(pattern, #[trigger] names_of(files)[i]),
    ensures
        pattern_selection(files, pattern).is_err(),
        pattern_compiles(pattern) && first_invalid_name(files).is_none() ==> pattern_selection(
            files,
            pattern,
        ) == Err::<Seq<usize>, AddTorrentError>(AddTorrentError::NoFilesMatch),
{
    let names = names_of(files);
    let matches = pattern_matcher(pattern);
    lemma_matching_files(names, matches, files.len() as int);
    assert forall|i: int| 0 <= i < files.len() implies !matches(#[trigger] names[i]) by {
        assert(!pattern_matches(pattern, names_of(files)[i]));
    }
}

/// Selects the files whose full relative path the compiled pattern matches.
pub fn select_files(info: &TorrentInfo, re: &regex::Regex) -> (r: Result<
    Vec<usize>,
    AddTorrentError,
>)
    ensures
        match r {
            Ok(only_files) => select_files_result(info@.files, regex_matcher(*re)) == Ok::<
                Seq<usize>,
                AddTorrentError,
            >(only_files@),
            Err(e) => select_files_result(info@.files, regex_matcher(*re)) == Err::<
                Seq<usize>,
                AddTorrentError,
            >(e),
        },
        r matches Ok(only_files) ==> only_files@.len() > 0 && forall|i: int|
            0 <= i < only_files@.len() ==> #[trigger] only_files@[i] < info@.files.len(),
{
    let names = match decode_filenames(info) {
        Ok(names) => names,
        Err(e) => {
            return Err(e);
        },
    };
    let ghost texts = names_of(info@.files);
    let ghost matches = regex_matcher(*re);
    let mut only_files: Vec<usize> = Vec::new();
    let mut idx: usize = 0;
    while idx < names.len()
        invariant
            0 <= idx <= names.len(),
            texts == strings_view(names@),
            texts.len() == names.len(),
            matches == regex_matcher(*re),
            only_files@ == matching_files(texts, matches, idx as int),
        decreases names.len() - idx,
    {
        assert(texts[idx as int] == names@[idx as int]@);
        assert(matches(texts[idx as int]) == regex_matches(*re, texts[idx as int]));
        if regex_is_match(re, names[idx].as_str()) {
            only_files.push(idx);
        }
        idx = idx + 1;
    }
    if only_files.len() == 0 {
        return Err(AddTorrentError::NoFilesMatch);
    }
    proof {
        lemma_matching_files(texts, matches, names@.len() as int);
    }
    Ok(only_files)
}

/// Selects the files whose full relative path matches a pattern. Fails when
/// the pattern does not compile, when a name is not text, and when no name
/// matches.
pub fn compute_only_files(info: &TorrentInfo, filename_re: &str) -> (r: Result<
    Vec<usize>,
    AddTorrentError,
>)
    ensures
        match r {
            Ok(only_files) => pattern_selection(info@.files, filename_re@) == Ok::<
                Seq<usize>,
                AddTorrentError,
            >(only_files@),
            Err(e) => pattern_selection(info@.files, filename_re@) == Err::<
                Seq<usize>,
                AddTorrentError,
            >(e),
        },
        r matches Ok(only_files) ==> only_files@.len() > 0 && forall|i: int|
            0 <= i < only_files@.len() ==> #[trigger] only_files@[i] < info@.files.len(),
{
    let re = match regex_new(filename_re) {
        Some(re) => re,
        None => {
            return Err(AddTorrentError::InvalidRegex);
        },
    };
    proof {
        let names = names_of(info@.files);
        assert forall|i: int| 0 <= i < names.len() implies regex_matcher(re)(#[trigger] names[i])
            == pattern_matcher(filename_re@)(names[i]) by {
            assert(regex_matches(re, names[i]) == pattern_matches(filename_re@, names[i]));
        }
        lemma_matching_files_agree(
            names,
            regex_matcher(re),
            pattern_matcher(filename_re@),
            names.len() as int,
        );
    }
    select_files(info, &re)
}

/// Marks the positions of a list that hold no index below `total`.
pub open spec fn is_out_of_range(only_files: Seq<usize>, total: int) -> spec_fn(int) -> bool {
    |i: int| only_files[i] >= total
}

/// The first position of the list that holds no index below `total`.
pub open spec fn first_out_of_range(only_files: Seq<usize>, total: int) -> Option<int> {
    first_index_where(only_files.len() as int, is_out_of_range(only_files, total))
}

/// What a selection by an explicit list gives: an error where a pattern is
/// given too; an error for the first index that names no file; else the list.
pub open spec fn only_files_result(
    files: Seq<TorrentFileView>,
    only_files: Option<Seq<usize>>,
    has_regex: bool,
) -> Result<Option<Seq<usize>>, AddTorrentError> {
    match only_files {
        Some(list) => if has_regex {
            Err(AddTorrentError::OnlyFilesConflict)
        } else {
            match first_out_of_range(list, files.len() as int) {
                Some(i) => Err(AddTorrentError::FileIdOutOfRange(list[i])),
                None => Ok(Some(list)),
            }
        },
        None => Ok(None),
    }
}

/// Which files a request selects: those of its list, those that its pattern
/// matches, or all.
pub open spec fn selection_result(
    files: Seq<TorrentFileView>,
    only_files: Option<Seq<usize>>,
    only_files_regex: Option<Seq<char>>,
) -> Result<Option<Seq<usize>>, AddTorrentError> {
    match (only_files, only_files_regex) {
        (None, Some(pattern)) => match pattern_selection(files, pattern) {
            Ok(found) => Ok(Some(found)),
            Err(e) => Err(e),
        },
        _ => only_files_result(files, only_files, only_files_regex.is_some()),
    }
}

/// Settles which files to download. An explicit list and a pattern exclude
/// each other. Every index of a list must name a file; the first that does
/// not is reported. A pattern must compile and match at least one file.
/// Without either, all files are downloaded.
pub fn get_only_files(
    info: &TorrentInfo,
    only_files: Option<Vec<usize>>,
    only_files_regex: Option<String>,
) -> (r: Result<Option<Vec<usize>>, AddTorrentError>)
    ensures
        match r {
            Ok(selected) => selection_result(
                info@.files,
                indices_view(only_files),
                opt_string_view(only_files_regex),
            ) == Ok::<Option<Seq<usize>>, AddTorrentError>(indices_view(selected)),
            Err(e) => selection_result(
                info@.files,
                indices_view(only_files),
                opt_string_view(only_files_regex),
            ) == Err::<Option<Seq<usize>>, AddTorrentError>(e),
        },
        r matches Ok(Some(selected)) ==> forall|i: int|
            0 <= i < selected@.len() ==> #[trigger] selected@[i] < info@.files.len(),
{
    match only_files {
        Some(list) => {
            if only_files_regex.is_some() {
                return Err(AddTorrentError::OnlyFilesConflict);
            }
            let total_files: usize = info.files.len();
            let ghost beyond = is_out_of_range(list@, total_files as int);
            let mut idx: usize = 0;
            while idx < list.len()
                invariant
                    0 <= idx <= list.len(),
                    only_files == Some(list),
                    only_files_regex.is_none(),
                    total_files == info@.files.len(),
                    beyond == is_out_of_range(list@, total_files as int),
                    first_index_where(idx as int, beyond).is_none(),
                decreases list.len() - idx,
            {
                let id: usize = list[idx];
                if id >= total_files {
                    proof {
                        assert(beyond(idx as int));
                        assert(first_index_where(idx + 1, beyond) == Some(idx as int));
                        lemma_first_index_stays(idx + 1, list@.len() as int, beyond);
                    }
                    return Err(AddTorrentError::FileIdOutOfRange(id));
                }
                assert(!beyond(idx as int));
                idx = idx + 1;
            }
            proof {
                lemma_first_index_where(list@.len() as int, beyond);
                assert forall|i: int| 0 <= i < list@.len() implies #[trigger] list@[i]
                    < info@.files.len() by {
                    assert(!beyond(i));
                }
            }
            Ok(Some(list))
        },
        None => match only_files_regex {
            Some(filename_re) => {
                match compute_only_files(info, filename_re.as_str()) {
                    Ok(found) => Ok(Some(found)),
                    Err(e) => Err(e),
                }
            },
            None => Ok(None),
        },
    }
}

/// The index of the longest of the first `n` files; of the last of them where
/// several are equally long.
pub open spec fn longest_file(files: Seq<TorrentFileView>, n: int) -> int
    decreases n,
{
    if n <= 1 {
        0
    } else {
        let before = longest_file(files, n - 1);
        if files[n - 1].length >= files[before].length {
            n - 1
        } else {
            before
        }
    }
}

/// The longest file is a file, none is longer, and none after it is as long.
pub proof fn lemma_longest_file(files: Seq<TorrentFileView>, n: int)
    requires
        1 <= n <= files.len(),
    ensures
        0 <= longest_file(files, n) < n,
        forall|i: int|
            0 <= i < n ==> (#[trigger] files[i]).length <= files[longest_file(files, n)].length,
        forall|i: int|
            longest_file(files, n) < i < n ==> (#[trigger] files[i]).length < files[longest_file(
                files,
                n,
            )].length,
    decreases n,
{
    if n > 1 {
        lemma_longest_file(files, n - 1);
    }
}

/// Where the name of a torrent's default sub-folder comes from.
pub enum SubfolderPlan {
    /// A torrent with fewer than two files gets no sub-folder.
    NoSubfolder,
    /// The name that the descriptor declares.
    Named(Seq<char>),
    /// The stem of this name, which is that of the longest file.
    StemOf(Seq<char>),
}

/// The source of the default sub-folder's name: none for a torrent with fewer
/// than two files; else the declared name; else the longest file.
pub open spec fn default_subfolder_plan(info: TorrentInfoView) -> Result<
    SubfolderPlan,
    AddTorrentError,
> {
    match first_invalid_name(info.files) {
        Some(i) => Err(AddTorrentError::InvalidFilename(i as usize)),
        None => if info.files.len() < 2 {
            Ok(SubfolderPlan::NoSubfolder)
        } else {
            match info.name {
                Some(name) => if valid_utf8(name) {
                    Ok(SubfolderPlan::Named(decode_utf8(name)))
                } else {
                    Err(AddTorrentError::InvalidName)
                },
                None => Ok(
                    SubfolderPlan::StemOf(
                        names_of(info.files)[longest_file(info.files, info.files.len() as int)],
                    ),
                ),
            }
        },
    }
}

/// Where a torrent's files go.
#[derive(Debug, PartialEq, Eq)]
pub enum FolderPlan {
    /// To this folder, as it is given.
    Explicit(String),
    /// To this sub-folder of the session's folder; to the session's folder
    /// itself where the sub-folder is empty.
    Join(String),
    /// To the sub-folder of the session's folder that is named by the stem of
    /// this file name.
    JoinStemOf(String),
}

pub enum FolderPlanView {
    Explicit(Seq<char>),
    Join(Seq<char>),
    JoinStemOf(Seq<char>),
}

impl View for FolderPlan {
    type V = FolderPlanView;

    open spec fn view(&self) -> FolderPlanView {
        match self {
            FolderPlan::Explicit(folder) => FolderPlanView::Explicit(folder@),
            FolderPlan::Join(sub) => FolderPlanView::Join(sub@),
            FolderPlan::JoinStemOf(name) => FolderPlanView::JoinStemOf(name@),
        }
    }
}

/// Where a request puts a torrent's files. An explicit folder is used as it
/// is, and excludes a sub-folder. Else the sub-folder that the request names
/// is joined under the session's folder. Where it names none, the sub-folder
/// is derived: none for a torrent with fewer than two files; else the name
/// the descriptor declares; else the stem of the longest file's name.
pub open spec fn folder_plan(
    info: TorrentInfoView,
    output_folder: Option<Seq<char>>,
    sub_folder: Option<Seq<char>>,
) -> Result<FolderPlanView, AddTorrentError> {
    match (output_folder, sub_folder) {
        (Some(folder), None) => Ok(FolderPlanView::Explicit(folder)),
        (Some(_), Some(_)) => Err(AddTorrentError::OutputFolderConflict),
        (None, Some(sub)) => Ok(FolderPlanView::Join(sub)),
        (None, None) => match default_subfolder_plan(info) {
            Err(e) => Err(e),
            Ok(SubfolderPlan::NoSubfolder) => Ok(FolderPlanView::Join(Seq::empty())),
            Ok(SubfolderPlan::Named(name)) => Ok(FolderPlanView::Join(name)),
            Ok(SubfolderPlan::StemOf(name)) => Ok(FolderPlanView::JoinStemOf(name)),
        },
    }
}

/// Settles where a request puts a torrent's files, as far as that is settled
/// without asking the platform how it reads and joins paths.
pub fn plan_output_folder(
    info: &TorrentInfo,
    output_folder: Option<String>,
    sub_folder: Option<String>,
) -> (r: Result<FolderPlan, AddTorrentError>)
    ensures
        match r {
            Ok(plan) => folder_plan(
                info@,
                opt_string_view(output_folder),
                opt_string_view(sub_folder),
            ) == Ok::<FolderPlanView, AddTorrentError>(plan@),
            Err(e) => folder_plan(info@, opt_string_view(output_folder), opt_string_view(sub_folder))
                == Err::<FolderPlanView, AddTorrentError>(e),
        },
{
    match output_folder {
        Some(folder) => {
            if sub_folder.is_some() {
                return Err(AddTorrentError::OutputFolderConflict);
            }
            return Ok(FolderPlan::Explicit(folder));
        },
        None => {},
    }
    match sub_folder {
        Some(sub) => {
            return Ok(FolderPlan::Join(sub));
        },
        None => {},
    }
    let mut names = match decode_filenames(info) {
        Ok(names) => names,
        Err(e) => {
            return Err(e);
        },
    };
    assert(strings_view(names@).len() == names_of(info@.files).len());
    assert(names@.len() == info.files@.len());
    if names.len() < 2 {
        return Ok(FolderPlan::Join(String::new()));
    }
    match &info.name {
        Some(name) => {
            return match string_from_utf8(clone_bytes(name)) {
                Some(s) => Ok(FolderPlan::Join(s)),
                None => Err(AddTorrentError::InvalidName),
            };
        },
        None => {},
    }
    let ghost files = info@.files;
    let mut longest: usize = 0;
    let mut idx: usize = 1;
    while idx < info.files.len()
        invariant
            1 <= idx <= info.files.len(),
            files == info@.files,
            longest == longest_file(files, idx as int),
            0 <= longest < idx,
        decreases info.files.len() - idx,
    {
        assert(files[idx as int].length == info.files@[idx as int].length);
        assert(files[longest as int].length == info.files@[longest as int].length);
        if info.files[idx].length >= info.files[longest].length {
            longest = idx;
        }
        idx = idx + 1;
    }
    assert(names@[longest as int]@ == strings_view(names@)[longest as int]);
    let name = names.swap_remove(longest);
    Ok(FolderPlan::JoinStemOf(name))
}

/// The folder that a plan names under `root`: the folder given; or the
/// sub-folder joined under `root`; or, joined under `root`, the stem of the
/// file name, which is an error where the name has no stem.
pub open spec fn resolved_folder(root: Seq<char>, plan: FolderPlanView) -> Result<
    Seq<char>,
    AddTorrentError,
> {
    match plan {
        FolderPlanView::Explicit(folder) => Ok(folder),
        FolderPlanView::Join(sub) => Ok(joined_path(root, sub)),
        FolderPlanView::JoinStemOf(name) => match path_stem(name) {
            Some(stem) => Ok(joined_path(root, stem)),
            None => Err(AddTorrentError::NoFileStem),
        },
    }
}

/// The folder a request puts a torrent's files in, in a session whose folder
/// is `root`.
pub open spec fn output_folder_of(
    root: Seq<char>,
    info: TorrentInfoView,
    output_folder: Option<Seq<char>>,
    sub_folder: Option<Seq<char>>,
) -> Result<Seq<char>, AddTorrentError> {
    match folder_plan(info, output_folder, sub_folder) {
        Ok(plan) => resolved_folder(root, plan),
        Err(e) => Err(e),
    }
}

/// Turns a plan into a folder under `root`.
pub fn resolve_output_folder(root: &str, plan: FolderPlan) -> (r: Result<String, AddTorrentError>)
    ensures
        match r {
            Ok(chosen) => resolved_folder(root@, plan@) == Ok::<Seq<char>, AddTorrentError>(chosen@),
            Err(e) => resolved_folder(root@, plan@) == Err::<Seq<char>, AddTorrentError>(e),
        },
{
    match plan {
        FolderPlan::Explicit(folder) => Ok(folder),
        FolderPlan::Join(sub) => Ok(join_path(root, sub.as_str())),
        FolderPlan::JoinStemOf(name) => match file_stem(name.as_str()) {
            Some(stem) => Ok(join_path(root, stem.as_str())),
            None => Err(AddTorrentError::NoFileStem),
        },
    }
}

/// The name of the sub-folder that a torrent gets when the request names no
/// folder: none for a torrent with fewer than two files; else the name the
/// descriptor declares; else the stem of the longest file's name.
pub fn get_default_subfolder(info: &TorrentInfo) -> (r: Result<Option<String>, AddTorrentError>)
    ensures
        match default_subfolder_plan(info@) {
            Err(e) => r matches Err(e2) && e2 == e,
            Ok(SubfolderPlan::NoSubfolder) => r matches Ok(None),
            Ok(SubfolderPlan::Named(name)) => r matches Ok(Some(s)) && s@ == name,
            Ok(SubfolderPlan::StemOf(name)) => match path_stem(name) {
                Some(stem) => r matches Ok(Some(s)) && s@ == stem,
                None => r matches Err(AddTorrentError::NoFileStem),
            },
        },
{
    match plan_output_folder(info, None, None) {
        Err(e) => Err(e),
        Ok(FolderPlan::Explicit(folder)) => Ok(Some(folder)),
        Ok(FolderPlan::Join(sub)) => {
            if info.files.len() < 2 {
                Ok(None)
            } else {
                Ok(Some(sub))
            }
        },
        Ok(FolderPlan::JoinStemOf(name)) => match file_stem(name.as_str()) {
            Some(stem) => Ok(Some(stem)),
            None => Err(AddTorrentError::NoFileStem),
        },
    }
}

/// The folder a torrent's files go to: `plan_output_folder`, then
/// `resolve_output_folder` under `root`.
pub fn choose_output_folder(
    root: &str,
    info: &TorrentInfo,
    output_folder: Option<String>,
    sub_folder: Option<String>,
) -> (r: Result<String, AddTorrentError>)
    ensures
        match r {
            Ok(chosen) => output_folder_of(
                root@,
                info@,
                opt_string_view(output_folder),
                opt_string_view(sub_folder),
            ) == Ok::<Seq<char>, AddTorrentError>(chosen@),
            Err(e) => output_folder_of(
                root@,
                info@,
                opt_string_view(output_folder),
                opt_string_view(sub_folder),
            ) == Err::<Seq<char>, AddTorrentError>(e),
        },
{
    match plan_output_folder(info, output_folder, sub_folder) {
        Ok(plan) => resolve_output_folder(root, plan),
        Err(e) => Err(e),
    }
}

} // verus!
