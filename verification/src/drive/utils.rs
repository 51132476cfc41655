use std::path::PathBuf;
use vstd::prelude::*;

verus! {

/// Shell change event: attributes changed.
pub const SHCNE_ATTRIBUTES: u32 = 0x0000_0800;

/// Shell change event: item deleted.
pub const SHCNE_DELETE: u32 = 0x0000_0004;

/// Shell change event: item created.
pub const SHCNE_CREATE: u32 = 0x0000_0002;

/// Shell change event: folder created.
pub const SHCNE_MKDIR: u32 = 0x0000_0008;

/// Notify the shell to refresh a file or directory: there is no shell to
/// notify here, so nothing happens and nothing fails.
pub fn notify_shell_change(path: &PathBuf, event: u32) -> (r: Result<(), anyhow::Error>)
    ensures
        r is Ok,
{
    Ok(())
}

/// What `url::Url::parse` makes of an instance URL once its path is set to
/// `path` (`Url::set_path`) and the query pairs are appended to its query
/// (`Url::query_pairs_mut`), serialized: the parse error's message when the
/// URL does not parse.
pub uninterp spec fn page_url_of(instance_url: Seq<char>, path: Seq<char>, query: Seq<(Seq<char>, Seq<char>)>) -> Result<Seq<char>, Seq<char>>;

/// The path of the instance's web page.
pub const HOME_PAGE_PATH: &'static str = "/home";

/// Query pairs, their texts taken as character sequences.
pub open spec fn query_view(query: Seq<(String, String)>) -> Seq<(Seq<char>, Seq<char>)> {
    query.map_values(|p: (String, String)| (p.0@, p.1@))
}

/// A text outcome taken as character sequences.
pub open spec fn text_outcome(r: Result<String, String>) -> Result<Seq<char>, Seq<char>> {
    match r {
        Ok(s) => Ok(s@),
        Err(e) => Err(e@),
    }
}

/// `url::Url::parse`, `Url::set_path`, the pairs appended through
/// `Url::query_pairs_mut`, and the URL's `Display` text; a parse error
/// comes back as its message.  Claimed: the outcome is a function of the
/// instance URL, the path and the pairs alone.
#[verifier::external_body]
fn page_url(instance_url: &str, path: &str, query: &Vec<(String, String)>) -> (r: Result<String, String>)
    ensures
        text_outcome(r) == page_url_of(instance_url@, path@, query_view(query@)),
{
    let mut base = url::Url::parse(instance_url).map_err(|e| e.to_string())?;
    base.set_path(path);
    base.query_pairs_mut().extend_pairs(query.iter());
    Ok(base.to_string())
}

/// The query of the page that shows a folder online: the folder, the file
/// to open if any, and the user.
pub open spec fn view_online_query(folder_path: Seq<char>, open_file: Option<Seq<char>>, user_id: Seq<char>) -> Seq<(Seq<char>, Seq<char>)> {
    seq![("path"@, folder_path)]
        + (match open_file {
            Some(f) => seq![("open"@, f)],
            None => Seq::empty(),
        })
        + seq![("user_hint"@, user_id)]
}

/// The URL that shows a folder (and, if given, opens a file in it) on the
/// instance's web page for the user.  Fails when the instance URL does not
/// parse.
pub fn view_online_url(folder_path: &str, open_file: Option<&str>, instance_url: &str, user_id: &str) -> (r: Result<String, String>)
    ensures
        text_outcome(r) == page_url_of(
            instance_url@,
            HOME_PAGE_PATH@,
            view_online_query(folder_path@, match open_file { Some(f) => Some(f@), None => None }, user_id@),
        ),
{
    let mut query: Vec<(String, String)> = Vec::new();
    query.push(("path".to_owned(), folder_path.to_owned()));
    if let Some(file) = open_file {
        query.push(("open".to_owned(), file.to_owned()));
    }
    query.push(("user_hint".to_owned(), user_id.to_owned()));
    assert(query_view(query@) =~= view_online_query(folder_path@, match open_file { Some(f) => Some(f@), None => None }, user_id@));
    page_url(instance_url, HOME_PAGE_PATH, &query)
}

/// The query of the recycle bin's page: the user, and the trash folder.
pub open spec fn recycle_bin_query(user_id: Seq<char>) -> Seq<(Seq<char>, Seq<char>)> {
    seq![("user_hint"@, user_id), ("path"@, "cloudreve://trash"@)]
}

/// The URL of the user's recycle bin on the instance's web page.  Fails
/// when the instance URL does not parse.
pub fn recycle_bin_url(instance_url: &str, user_id: &str) -> (r: Result<String, String>)
    ensures
        text_outcome(r) == page_url_of(instance_url@, HOME_PAGE_PATH@, recycle_bin_query(user_id@)),
{
    let mut query: Vec<(String, String)> = Vec::new();
    query.push(("user_hint".to_owned(), user_id.to_owned()));
    query.push(("path".to_owned(), "cloudreve://trash".to_owned()));
    assert(query_view(query@) =~= recycle_bin_query(user_id@));
    page_url(instance_url, HOME_PAGE_PATH, &query)
}

/// The remote base as a directory: with a '/' added at its end when it
/// has none.
pub open spec fn as_remote_dir(base: Seq<char>) -> Seq<char> {
    if base.len() > 0 && base.last() == '/' { base } else { base + "/"@ }
}

/// A text with every '/' replaced by `sep`.
pub open spec fn with_separator(s: Seq<char>, sep: Seq<char>) -> Seq<char>
    decreases s.len(),
{
    if s.len() == 0 {
        Seq::empty()
    } else {
        with_separator(s.drop_last(), sep) + (if s.last() == '/' { sep } else { seq![s.last()] })
    }
}

/// The local relative path of a remote path under a remote base: the rest
/// of the remote path after the base (taken as a directory), with the
/// local separator in place of '/'; `None` when it is not under the base.
pub open spec fn remote_relative(remote_path: Seq<char>, remote_base: Seq<char>, sep: Seq<char>) -> Option<Seq<char>> {
    let dir = as_remote_dir(remote_base);
    if dir.len() <= remote_path.len() && remote_path.subrange(0, dir.len() as int) == dir {
        Some(with_separator(remote_path.subrange(dir.len() as int, remote_path.len() as int), sep))
    } else {
        None
    }
}

/// The text of `s` with every '/' replaced by `sep`.
fn replace_slashes(s: &str, sep: &str) -> (r: String)
    ensures
        r@ == with_separator(s@, sep@),
{
    let n = s.unicode_len();
    let mut out = String::new();
    let mut run: usize = 0;
    let mut i: usize = 0;
    while i < n
        invariant
            n == s@.len(),
            run <= i <= n,
            out@ + s@.subrange(run as int, i as int) == with_separator(s@.take(i as int), sep@),
            forall|j: int| run <= j < i ==> s@[j] != '/',
        decreases n - i,
    {
        let c = s.get_char(i);
        proof {
            assert(s@.take(i + 1).drop_last() =~= s@.take(i as int));
            assert(s@.take(i + 1).last() == c);
        }
        if c == '/' {
            let piece = s.substring_char(run, i);
            out.append(piece);
            out.append(sep);
            run = i + 1;
            proof {
                assert(s@.subrange(run as int, (i + 1) as int) =~= Seq::<char>::empty());
                assert(out@ + s@.subrange(run as int, (i + 1) as int) =~= out@);
            }
        } else {
            proof {
                assert(s@.subrange(run as int, (i + 1) as int) =~= s@.subrange(run as int, i as int).push(c));
            }
        }
        i += 1;
    }
    let tail = s.substring_char(run, n);
    out.append(tail);
    assert(s@.take(n as int) =~= s@);
    out
}

/// The local relative path of a remote path under a remote base, with
/// `separator` as the local separator: the rest of the remote path after
/// the base (a '/' is added to the base when it has none), each '/' made
/// a separator.  Fails when the remote path is not under the base.
pub fn relative_path_from_remote(remote_path: &str, remote_base: &str, separator: &str) -> (r: Result<String, String>)
    ensures
        match remote_relative(remote_path@, remote_base@, separator@) {
            Some(p) => r matches Ok(s) && s@ == p,
            None => r matches Err(e) && e@ == "Path is not under remote base"@,
        },
{
    let mut dir = remote_base.to_owned();
    let blen = remote_base.unicode_len();
    if blen == 0 || remote_base.get_char(blen - 1) != '/' {
        dir.append("/");
        proof { reveal_strlit("/"); }
    }
    assert(dir@ == as_remote_dir(remote_base@));
    if !crate::drive::fuse::str_starts_with(remote_path, dir.as_str()) {
        return Err("Path is not under remote base".to_owned());
    }
    let rest = remote_path.substring_char(dir.unicode_len(), remote_path.unicode_len());
    Ok(replace_slashes(rest, separator))
}

/// `std::path::MAIN_SEPARATOR_STR`: the platform's path separator, which
/// std documents as "/" on Unix and "\\" on Windows.  Which of the two
/// depends on the target.
#[verifier::external_body]
fn main_separator() -> (r: &'static str)
    ensures
        r@ == "/"@ || r@ == "\\"@,
{
    std::path::MAIN_SEPARATOR_STR
}

/// The local relative path of a remote path under a remote base (both the
/// paths of their remote URIs), with the platform's separator ("/" or
/// "\\"): the rest of the remote path after the base, each '/' made that
/// separator.  Fails exactly when the remote path is not under the base.
pub fn remote_path_to_local_relative_path(remote_path: &str, remote_base: &str) -> (r: Result<String, String>)
    ensures
        exists|sep: Seq<char>| (sep == "/"@ || sep == "\\"@) && match #[trigger] remote_relative(remote_path@, remote_base@, sep) {
            Some(p) => r matches Ok(s) && s@ == p,
            None => r matches Err(e) && e@ == "Path is not under remote base"@,
        },
        r is Ok <==> remote_relative(remote_path@, remote_base@, Seq::empty()) is Some,
{
    let sep = main_separator();
    let r = relative_path_from_remote(remote_path, remote_base, sep);
    assert(remote_relative(remote_path@, remote_base@, sep@) is Some == remote_relative(remote_path@, remote_base@, Seq::empty()) is Some);
    r
}

/// Replacing '/' by a one-character separator keeps the length and every
/// other character, and puts the separator where each '/' was.
pub proof fn lemma_with_separator_chars(s: Seq<char>, c: char)
    ensures
        with_separator(s, seq![c]).len() == s.len(),
        forall|i: int| 0 <= i < s.len() ==> #[trigger] with_separator(s, seq![c])[i] == (if s[i] == '/' { c } else { s[i] }),
    decreases s.len(),
{
    if s.len() > 0 {
        let f = s.drop_last();
        lemma_with_separator_chars(f, c);
        let piece: Seq<char> = if s.last() == '/' { seq![c] } else { seq![s.last()] };
        assert(with_separator(s, seq![c]) == with_separator(f, seq![c]) + piece);
        assert forall|i: int| 0 <= i < s.len() implies #[trigger] with_separator(s, seq![c])[i] == (if s[i] == '/' { c } else { s[i] }) by {
            if i < f.len() {
                assert(s[i] == f[i]);
            }
        }
    }
}

/// A remote path lies under a remote base exactly when it starts with the
/// base taken as a directory (the base itself when it ends in '/', else the
/// base and a '/'); the local relative path is then the rest of the remote
/// path, of the same length, with the one-character separator where each
/// '/' was and every other character kept.
pub proof fn law_remote_relative_is_the_rest(remote_path: Seq<char>, remote_base: Seq<char>, c: char)
    ensures
        ({
            let k: int = if remote_base.len() > 0 && remote_base.last() == '/' { remote_base.len() as int } else { remote_base.len() + 1int };
            let under = k <= remote_path.len()
                && remote_path.take(remote_base.len() as int) == remote_base
                && (k == remote_base.len() || remote_path[remote_base.len() as int] == '/');
            &&& remote_relative(remote_path, remote_base, seq![c]) is Some == under
            &&& under ==> {
                let r = remote_relative(remote_path, remote_base, seq![c]).unwrap();
                &&& r.len() == remote_path.len() - k
                &&& forall|i: int| 0 <= i < r.len() ==> #[trigger] r[i] == (if remote_path[k + i] == '/' { c } else { remote_path[k + i] })
            }
        }),
{
    let dir = as_remote_dir(remote_base);
    reveal_strlit("/");
    let k: int = if remote_base.len() > 0 && remote_base.last() == '/' { remote_base.len() as int } else { remote_base.len() + 1int };
    assert(dir.len() == k);
    let under = k <= remote_path.len()
        && remote_path.take(remote_base.len() as int) == remote_base
        && (k == remote_base.len() || remote_path[remote_base.len() as int] == '/');
    if k <= remote_path.len() {
        if remote_path.subrange(0, k) == dir {
            assert forall|i: int| 0 <= i < remote_base.len() implies remote_path.take(remote_base.len() as int)[i] == remote_base[i] by {
                assert(remote_path.subrange(0, k)[i] == dir[i]);
            }
            assert(remote_path.take(remote_base.len() as int) =~= remote_base);
            if k != remote_base.len() {
                assert(remote_path.subrange(0, k)[remote_base.len() as int] == dir[remote_base.len() as int]);
            }
        }
        if under {
            assert(remote_path.subrange(0, k) =~= dir) by {
                assert forall|i: int| 0 <= i < k implies remote_path.subrange(0, k)[i] == dir[i] by {
                    if i < remote_base.len() {
                        assert(remote_path.take(remote_base.len() as int)[i] == remote_base[i]);
                    }
                }
            }
            let rest = remote_path.subrange(k, remote_path.len() as int);
            lemma_with_separator_chars(rest, c);
        }
    }
}

} // verus!
