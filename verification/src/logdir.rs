//! Which files of a log directory the log links, which of them are removed
//! when the log is saved, and how much space the linked ones take.

use vstd::prelude::*;
use crate::filestuff::{MediaType, is_upload_name, is_upload_file, media_type, media_type_of};
use crate::text::{last_index_of, lemma_last_index_of, lemma_last_index_of_unique, str_eq};
use crate::urlencode::{url_encode, url_encoded};

verus! {

/// The last component of a Unix path, as `Path::file_name` gives it: trailing
/// `/` and `.` components are passed over; none where nothing is left or the
/// last component is `..`.
pub open spec fn file_name_of(p: Seq<char>) -> Option<Seq<char>>
    decreases p.len(),
{
    if p.len() == 0 {
        None
    } else if p.last() == '/' {
        file_name_of(p.drop_last())
    } else {
        let k = last_index_of(p, '/');
        proof {
            lemma_last_index_of(p, '/');
        }
        let seg = p.subrange(k + 1, p.len() as int);
        if seg == "."@ {
            file_name_of(p.subrange(0, k + 1))
        } else if seg == ".."@ {
            None
        } else {
            Some(seg)
        }
    }
}

/// Finds the last `/` among the first `end` characters of `p`.
fn last_slash_before(p: &str, end: usize) -> (r: Option<usize>)
    requires
        end <= p@.len(),
    ensures
        r matches Some(k) ==> k as int == last_index_of(p@.subrange(0, end as int), '/'),
        r is None ==> last_index_of(p@.subrange(0, end as int), '/') == -1,
{
    let ghost pre = p@.subrange(0, end as int);
    let mut i: usize = end;
    while i > 0
        invariant
            end <= p@.len(),
            pre == p@.subrange(0, end as int),
            i <= end,
            forall|j: int| i <= j < end ==> pre[j] != '/',
        decreases i,
    {
        if p.get_char(i - 1) == '/' {
            proof {
                lemma_last_index_of_unique(pre, '/', i - 1);
            }
            return Some(i - 1);
        }
        i = i - 1;
    }
    proof {
        lemma_last_index_of_unique(pre, '/', -1);
    }
    None
}

/// The file name that a path ends in.
pub fn file_name(path: &str) -> (r: Option<&str>)
    ensures
        r matches Some(f) ==> file_name_of(path@) == Some(f@),
        r is None ==> file_name_of(path@) is None,
{
    let n = path.unicode_len();
    let mut end: usize = n;
    assert(path@.subrange(0, n as int) =~= path@);
    loop
        invariant
            n == path@.len(),
            end <= n,
            file_name_of(path@.subrange(0, end as int)) == file_name_of(path@),
        decreases end,
    {
        let ghost pre = path@.subrange(0, end as int);
        if end == 0 {
            return None;
        }
        if path.get_char(end - 1) == '/' {
            assert(pre.drop_last() =~= path@.subrange(0, end - 1));
            end = end - 1;
        } else {
            proof {
                lemma_last_index_of(pre, '/');
            }
            let start = match last_slash_before(path, end) {
                Some(k) => k + 1,
                None => 0,
            };
            let seg = path.substring_char(start, end);
            assert(seg@ =~= pre.subrange(start as int, pre.len() as int));
            if str_eq(seg, ".") {
                assert(pre.subrange(0, start as int) =~= path@.subrange(0, start as int));
                end = start;
            } else if str_eq(seg, "..") {
                return None;
            } else {
                return Some(seg);
            }
        }
    }
}

/// The values of the `src` attributes of the elements of an HTML document,
/// in document order, as scraper parses it.
pub uninterp spec fn html_src_values(html: Seq<char>) -> Seq<Seq<char>>;

/// scraper's `Html::parse_document` and `select` with the selector `[src]`:
/// the value of the `src` attribute of each element that has one.
#[verifier::external_body]
fn src_attribute_values(html: &str) -> (r: Vec<String>)
    ensures
        r@.map_values(|s: String| s@) == html_src_values(html@),
{
    let document = scraper::Html::parse_document(html);
    let selector = scraper::Selector::parse("[src]").unwrap();
    document.select(&selector).filter_map(|e| e.value().attr("src")).map(|v| v.to_string()).collect()
}

pub open spec fn strings_view(v: Seq<String>) -> Seq<Seq<char>> {
    v.map_values(|s: String| s@)
}

/// The file names that a list of `src` values names.
pub open spec fn linked_names_in(srcs: Seq<Seq<char>>) -> Set<Seq<char>> {
    Set::new(
        |n: Seq<char>| exists|i: int| 0 <= i < srcs.len() && #[trigger] file_name_of(srcs[i]) == Some(n),
    )
}

/// The file names that a log's HTML links through `src` attributes.
pub open spec fn linked_names(html: Seq<char>) -> Set<Seq<char>> {
    linked_names_in(html_src_values(html))
}

fn contains_string(v: &Vec<String>, s: &str) -> (r: bool)
    ensures
        r == strings_view(v@).contains(s@),
{
    let n = v.len();
    let mut i: usize = 0;
    while i < n
        invariant
            n == v@.len(),
            i <= n,
            forall|j: int| 0 <= j < i ==> v@[j]@ != s@,
        decreases n - i,
    {
        if str_eq(v[i].as_str(), s) {
            assert(strings_view(v@)[i as int] == s@);
            return true;
        }
        i = i + 1;
    }
    proof {
        if strings_view(v@).contains(s@) {
            let j = choose|j: int| 0 <= j < n && strings_view(v@)[j] == s@;
            assert(v@[j]@ == s@);
        }
    }
    false
}

/// The file names that a list of `src` values names, each once, in the order
/// they first appear.
pub open spec fn first_names(vals: Seq<Seq<char>>) -> Seq<Seq<char>>
    decreases vals.len(),
{
    if vals.len() == 0 {
        Seq::empty()
    } else {
        let before = first_names(vals.drop_last());
        match file_name_of(vals.last()) {
            Some(f) => if before.contains(f) {
                before
            } else {
                before.push(f)
            },
            None => before,
        }
    }
}

/// The distinct file names that a list of `src` values names, each once, in
/// the order they first appear.
pub fn linked_names_of_srcs(values: &Vec<String>) -> (r: Vec<String>)
    ensures
        strings_view(r@) == first_names(strings_view(values@)),
        strings_view(r@).to_set() == linked_names_in(strings_view(values@)),
        strings_view(r@).no_duplicates(),
{
    let ghost vals = strings_view(values@);
    let n = values.len();
    let mut out: Vec<String> = Vec::new();
    let mut i: usize = 0;
    while i < n
        invariant
            n == values@.len(),
            vals == strings_view(values@),
            i <= n,
            strings_view(out@).no_duplicates(),
            strings_view(out@) == first_names(vals.take(i as int)),
            forall|m: Seq<char>|
                strings_view(out@).contains(m) <==> exists|j: int|
                    0 <= j < i && #[trigger] file_name_of(vals[j]) == Some(m),
        decreases n - i,
    {
        assert(vals[i as int] == values@[i as int]@);
        assert(vals.take(i + 1).drop_last() =~= vals.take(i as int));
        let ghost before = strings_view(out@);
        match file_name(values[i].as_str()) {
            Some(f) => {
                if !contains_string(&out, f) {
                    out.push(f.to_owned());
                    assert(strings_view(out@) =~= before.push(f@));
                } else {
                    assert(strings_view(out@) == before);
                }
            },
            None => {},
        }
        let ghost fname = file_name_of(vals[i as int]);
        assert(strings_view(out@) == (if fname is Some && !before.contains(fname.unwrap()) {
            before.push(fname.unwrap())
        } else {
            before
        }));
        assert forall|m: Seq<char>|
            strings_view(out@).contains(m) <==> exists|j: int|
                0 <= j < i + 1 && #[trigger] file_name_of(vals[j]) == Some(m) by {
            if strings_view(out@).contains(m) {
                if before.contains(m) {
                    let j = choose|j: int| 0 <= j < i && #[trigger] file_name_of(vals[j]) == Some(m);
                    assert(0 <= j < i + 1 && file_name_of(vals[j]) == Some(m));
                } else {
                    let k = choose|k: int| 0 <= k < strings_view(out@).len() && strings_view(out@)[k] == m;
                    assert(fname == Some(m));
                    assert(file_name_of(vals[i as int]) == Some(m));
                }
            }
            if exists|j: int| 0 <= j < i + 1 && #[trigger] file_name_of(vals[j]) == Some(m) {
                let j = choose|j: int| 0 <= j < i + 1 && #[trigger] file_name_of(vals[j]) == Some(m);
                if j < i {
                    assert(before.contains(m));
                    let k = choose|k: int| 0 <= k < before.len() && before[k] == m;
                    assert(strings_view(out@)[k] == m);
                } else if !before.contains(m) {
                    assert(strings_view(out@)[before.len() as int] == m);
                } else {
                    let k = choose|k: int| 0 <= k < before.len() && before[k] == m;
                    assert(strings_view(out@)[k] == m);
                }
            }
        }
        i = i + 1;
    }
    assert(strings_view(out@).to_set() =~= linked_names_in(vals));
    assert(vals.take(n as int) =~= vals);
    out
}

/// The distinct file names that a log's HTML links, each once.
pub fn linked_file_names(html: &str) -> (r: Vec<String>)
    ensures
        strings_view(r@).to_set() == linked_names(html@),
        strings_view(r@).no_duplicates(),
{
    let values = src_attribute_values(html);
    linked_names_of_srcs(&values)
}

/// What saving a log does to its directory: the files it removes, and the
/// linked videos it queues for compression.
pub struct CleanupPlan {
    pub remove: Vec<String>,
    pub compress: Vec<String>,
}

/// A file of the directory is removed when it is an upload whose URL-encoded
/// name the log does not link.
pub open spec fn is_removed(linked: Set<Seq<char>>, name: Seq<char>) -> bool {
    is_upload_name(name) && !linked.contains(url_encoded(name))
}

/// Plans the clean-up of a log directory whose `index.html` holds
/// `index_html` and whose files are named `dir_files`, in directory order.
pub fn plan_log_cleanup(index_html: &str, dir_files: &Vec<String>) -> (r: CleanupPlan)
    ensures
        strings_view(r.remove@) == strings_view(dir_files@).filter(
            |f: Seq<char>| is_removed(linked_names(index_html@), f),
        ),
        strings_view(r.compress@).to_set() == linked_names(index_html@).filter(
            |f: Seq<char>| media_type_of(f) == MediaType::Video,
        ),
        strings_view(r.compress@).no_duplicates(),
{
    let values = src_attribute_values(index_html);
    plan_cleanup_for_srcs(&values, dir_files)
}


/// What saving a log does to its directory.
pub enum LogDirCleanup {
    /// The log was never saved (the directory has no `index.html`): the whole
    /// directory is removed.
    RemoveAll,
    /// The log was saved: this plan is carried out.
    Clean(CleanupPlan),
}

/// Plans the clean-up of a log directory, given its `index.html` (`None`
/// where it has none) and the names of its files, in directory order.
pub fn plan_log_dir(index_html: Option<&str>, dir_files: &Vec<String>) -> (r: LogDirCleanup)
    ensures
        index_html is None <==> r is RemoveAll,
        index_html matches Some(h) ==> (r matches LogDirCleanup::Clean(p) && strings_view(p.remove@)
            == strings_view(dir_files@).filter(|f: Seq<char>| is_removed(linked_names(h@), f))
            && strings_view(p.compress@).to_set() == linked_names(h@).filter(
            |f: Seq<char>| media_type_of(f) == MediaType::Video,
        ) && strings_view(p.compress@).no_duplicates()),
{
    match index_html {
        None => LogDirCleanup::RemoveAll,
        Some(h) => LogDirCleanup::Clean(plan_log_cleanup(h, dir_files)),
    }
}

/// Plans the clean-up of a log directory whose `index.html` has the `src`
/// values `srcs` and whose files are named `dir_files`, in directory order.
pub fn plan_cleanup_for_srcs(srcs: &Vec<String>, dir_files: &Vec<String>) -> (r: CleanupPlan)
    ensures
        strings_view(r.remove@) == strings_view(dir_files@).filter(
            |f: Seq<char>| is_removed(linked_names_in(strings_view(srcs@)), f),
        ),
        strings_view(r.compress@).to_set() == linked_names_in(strings_view(srcs@)).filter(
            |f: Seq<char>| media_type_of(f) == MediaType::Video,
        ),
        strings_view(r.compress@).no_duplicates(),
{
    let linked = linked_names_of_srcs(srcs);
    let ghost lset = linked_names_in(strings_view(srcs@));
    let ghost pred = |f: Seq<char>| is_removed(lset, f);
    let ghost files = strings_view(dir_files@);
    let n = dir_files.len();
    let mut remove: Vec<String> = Vec::new();
    let mut i: usize = 0;
    while i < n
        invariant
            n == dir_files@.len(),
            files == strings_view(dir_files@),
            strings_view(linked@).to_set() == lset,
            pred == (|f: Seq<char>| is_removed(lset, f)),
            i <= n,
            strings_view(remove@) == files.take(i as int).filter(pred),
        decreases n - i,
    {
        reveal_with_fuel(Seq::<_>::filter, 1);
        let name = dir_files[i].as_str();
        assert(files[i as int] == name@);
        assert(files.take(i + 1).drop_last() =~= files.take(i as int));
        if is_upload_file(name) {
            let encoded = url_encode(name);
            let linked_here = contains_string(&linked, encoded.as_str());
            assert(linked_here == lset.contains(encoded@)) by {
                assert(strings_view(linked@).contains(encoded@) <==> lset.contains(encoded@));
            }
            if !linked_here {
                remove.push(dir_files[i].clone());
            }
        }
        assert(strings_view(remove@) =~= files.take(i + 1).filter(pred));
        i = i + 1;
    }
    assert(files.take(n as int) =~= files);
    let m = linked.len();
    let mut compress: Vec<String> = Vec::new();
    let ghost video = |f: Seq<char>| media_type_of(f) == MediaType::Video;
    let mut j: usize = 0;
    while j < m
        invariant
            m == linked@.len(),
            strings_view(linked@).to_set() == lset,
            strings_view(linked@).no_duplicates(),
            j <= m,
            strings_view(compress@) == strings_view(linked@).take(j as int).filter(video),
            video == (|f: Seq<char>| media_type_of(f) == MediaType::Video),
        decreases m - j,
    {
        reveal_with_fuel(Seq::<_>::filter, 1);
        assert(strings_view(linked@).take(j + 1).drop_last() =~= strings_view(linked@).take(
            j as int,
        ));
        assert(strings_view(linked@)[j as int] == linked@[j as int]@);
        if media_type(linked[j].as_str()) == MediaType::Video {
            compress.push(linked[j].clone());
        }
        assert(strings_view(compress@) =~= strings_view(linked@).take(j + 1).filter(video));
        j = j + 1;
    }
    assert(strings_view(linked@).take(m as int) =~= strings_view(linked@));
    proof {
        let lv = strings_view(linked@);
        lemma_filter_no_duplicates(lv, video);
        assert(lv.filter(video).to_set() =~= lset.filter(video)) by {
            assert forall|f: Seq<char>| lv.filter(video).contains(f) <==> lset.filter(video).contains(f) by {
                if lv.filter(video).contains(f) {
                    lv.lemma_filter_contains_rev(video, f);
                    let k = choose|k: int| 0 <= k < lv.filter(video).len() && lv.filter(video)[k] == f;
                    lv.lemma_filter_pred(video, k);
                    assert(lv.to_set().contains(f));
                }
                if lset.filter(video).contains(f) {
                    assert(lv.to_set().contains(f));
                    let k = choose|k: int| 0 <= k < lv.len() && lv[k] == f;
                    lv.lemma_filter_contains(video, k);
                }
            }
        }
    }
    CleanupPlan { remove, compress }
}

proof fn lemma_filter_no_duplicates(s: Seq<Seq<char>>, p: spec_fn(Seq<char>) -> bool)
    requires
        s.no_duplicates(),
    ensures
        s.filter(p).no_duplicates(),
    decreases s.len(),
{
    reveal_with_fuel(Seq::<_>::filter, 1);
    if s.len() > 0 {
        let t = s.drop_last();
        assert(t.no_duplicates());
        lemma_filter_no_duplicates(t, p);
        if p(s.last()) {
            assert(!t.contains(s.last())) by {
                if t.contains(s.last()) {
                    let k = choose|k: int| 0 <= k < t.len() && t[k] == s.last();
                    assert(s[k] == s[s.len() - 1]);
                }
            }
            assert(!t.filter(p).contains(s.last())) by {
                if t.filter(p).contains(s.last()) {
                    t.lemma_filter_contains_rev(p, s.last());
                }
            }
        }
    }
}


pub open spec fn entries_view(v: Seq<(String, u64)>) -> Seq<(Seq<char>, u64)> {
    v.map_values(|e: (String, u64)| (e.0@, e.1))
}

/// The total size of the files of a directory listing.
pub open spec fn total_size(entries: Seq<(Seq<char>, u64)>) -> int
    decreases entries.len(),
{
    if entries.len() == 0 {
        0
    } else {
        total_size(entries.drop_last()) + entries.last().1
    }
}

/// The total size of the files of a directory listing whose names are among
/// `linked`.
pub open spec fn linked_size(entries: Seq<(Seq<char>, u64)>, linked: Set<Seq<char>>) -> int
    decreases entries.len(),
{
    if entries.len() == 0 {
        0
    } else {
        linked_size(entries.drop_last(), linked) + if linked.contains(entries.last().0) {
            entries.last().1 as int
        } else {
            0
        }
    }
}

proof fn lemma_sizes_of_prefix(entries: Seq<(Seq<char>, u64)>, linked: Set<Seq<char>>, i: int)
    requires
        0 <= i <= entries.len(),
    ensures
        0 <= linked_size(entries.take(i), linked) <= total_size(entries.take(i)),
        total_size(entries.take(i)) <= total_size(entries),
    decreases entries.len(),
{
    if entries.len() > 0 {
        if i == entries.len() {
            assert(entries.take(i) =~= entries);
            lemma_sizes_of_prefix(entries.drop_last(), linked, i - 1);
            assert(entries.drop_last().take(i - 1) =~= entries.drop_last());
        } else {
            assert(entries.take(i) =~= entries.drop_last().take(i));
            lemma_sizes_of_prefix(entries.drop_last(), linked, i);
        }
    }
}

/// The space taken in a log directory by the media files that the log's HTML
/// links, given the directory's files as names and sizes (names compared as
/// they are, not URL-encoded).
pub fn count_log_directory_size(entries: &Vec<(String, u64)>, log_html_content: &str) -> (r: u64)
    requires
        total_size(entries_view(entries@)) <= u64::MAX,
    ensures
        r == linked_size(entries_view(entries@), linked_names(log_html_content@)),
{
    let values = src_attribute_values(log_html_content);
    linked_size_for_srcs(entries, &values)
}

/// The space taken by the files of a directory listing that the `src` values
/// `srcs` link.
pub fn linked_size_for_srcs(entries: &Vec<(String, u64)>, srcs: &Vec<String>) -> (r: u64)
    requires
        total_size(entries_view(entries@)) <= u64::MAX,
    ensures
        r == linked_size(entries_view(entries@), linked_names_in(strings_view(srcs@))),
{
    let linked = linked_names_of_srcs(srcs);
    let ghost lset = linked_names_in(strings_view(srcs@));
    let ghost ev = entries_view(entries@);
    let n = entries.len();
    let mut total: u64 = 0;
    let mut i: usize = 0;
    while i < n
        invariant
            n == entries@.len(),
            ev == entries_view(entries@),
            total_size(ev) <= u64::MAX,
            strings_view(linked@).to_set() == lset,
            i <= n,
            total == linked_size(ev.take(i as int), lset),
        decreases n - i,
    {
        assert(ev.take(i + 1).drop_last() =~= ev.take(i as int));
        assert(ev[i as int] == (entries@[i as int].0@, entries@[i as int].1));
        proof {
            lemma_sizes_of_prefix(ev, lset, i + 1);
        }
        let is_linked = contains_string(&linked, entries[i].0.as_str());
        assert(is_linked == lset.contains(entries@[i as int].0@)) by {
            assert(strings_view(linked@).contains(entries@[i as int].0@) <==> lset.contains(
                entries@[i as int].0@,
            ));
        }
        if is_linked {
            total = total + entries[i].1;
        }
        i = i + 1;
    }
    assert(ev.take(n as int) =~= ev);
    total
}

/// Saving a log removes exactly the uploads of its directory that it does
/// not link: a file is in the removal list if and only if it is in the
/// directory, is an upload (not `index.html`, `index.md` or a `.tmp` file),
/// and its URL-encoded name is not linked.
pub proof fn law_cleanup_removes_exactly_unlinked_uploads(
    linked: Set<Seq<char>>,
    files: Seq<Seq<char>>,
    f: Seq<char>,
)
    ensures
        files.filter(|g: Seq<char>| is_removed(linked, g)).contains(f) <==> (files.contains(f)
            && is_upload_name(f) && !linked.contains(url_encoded(f))),
{
    let pred = |g: Seq<char>| is_removed(linked, g);
    if files.filter(pred).contains(f) {
        files.lemma_filter_contains_rev(pred, f);
        let k = choose|k: int| 0 <= k < files.filter(pred).len() && files.filter(pred)[k] == f;
        files.lemma_filter_pred(pred, k);
    }
    if files.contains(f) && is_removed(linked, f) {
        let k = choose|k: int| 0 <= k < files.len() && files[k] == f;
        files.lemma_filter_contains(pred, k);
    }
}
} // verus!
