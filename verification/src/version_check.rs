//! Comparison of version numbers, and what to make of a published release.
//!
//! Asking the release server is left to the caller; this module says what
//! to ask for and what the answer means.

use vstd::prelude::*;
use crate::numeric::{parse_unsigned, parse_unsigned_chars};
use crate::split::{chars_range, split_chars, split_on, views};
use crate::text::{chars_of, opt_text, owned, push_str, string_of};

verus! {

/// The account that publishes the releases.
pub const GITHUB_OWNER: &'static str = "christosdaggas";

/// The repository that holds the releases.
pub const GITHUB_REPO: &'static str = "security-center";

/// Result of a successful version check.
#[derive(Debug)]
pub struct UpdateInfo {
    /// Latest version string (e.g. "1.2.0").
    pub latest_version: String,
    /// URL the user can visit to download the release.
    pub download_url: String,
    /// Release name / title (may be empty).
    pub release_name: String,
}

/// What an `UpdateInfo` holds, as plain values.
pub struct UpdateInfoView {
    pub latest_version: Seq<char>,
    pub download_url: Seq<char>,
    pub release_name: Seq<char>,
}

impl View for UpdateInfo {
    type V = UpdateInfoView;

    open spec fn view(&self) -> UpdateInfoView {
        UpdateInfoView {
            latest_version: self.latest_version@,
            download_url: self.download_url@,
            release_name: self.release_name@,
        }
    }
}

impl Clone for UpdateInfo {
    fn clone(&self) -> (r: Self)
        ensures
            r@ == self@,
    {
        UpdateInfo {
            latest_version: self.latest_version.clone(),
            download_url: self.download_url.clone(),
            release_name: self.release_name.clone(),
        }
    }
}

/// The number that one part of a version stands for: zero where the part
/// is no number.
pub open spec fn part_value(part: Seq<char>) -> nat {
    match parse_unsigned(part, u64::MAX as nat) {
        Some(n) => n,
        None => 0,
    }
}

/// Part `i` of the version `v`, split at its dots; zero past its last part.
pub open spec fn component(v: Seq<char>, i: int) -> nat {
    let parts = split_on(v, '.');
    if 0 <= i < parts.len() {
        part_value(parts[i])
    } else {
        0
    }
}

/// Whether the version `remote` is newer than `local`: in the first part
/// in which they differ, `remote` has the higher number.
pub open spec fn newer(remote: Seq<char>, local: Seq<char>) -> bool {
    exists|i: int|
        0 <= i && #[trigger] component(remote, i) > component(local, i) && forall|k: int|
            0 <= k < i ==> #[trigger] component(remote, k) == component(local, k)
}

/// The number of characters at the front of `s`, from `i` on, that are
/// `c`; added to `i`.
pub open spec fn skip_char(s: Seq<char>, c: char, i: int) -> int
    decreases s.len() - i,
{
    if 0 <= i < s.len() && s[i] == c {
        skip_char(s, c, i + 1)
    } else {
        i
    }
}

/// `s` without the characters `c` at its front.
pub open spec fn strip_leading(s: Seq<char>, c: char) -> Seq<char> {
    let n = skip_char(s, c, 0);
    if 0 <= n <= s.len() {
        s.skip(n)
    } else {
        s
    }
}

/// The version that a release tag names: the tag without leading `v`s, and
/// then without leading `V`s.
pub open spec fn tag_version(tag: Seq<char>) -> Seq<char> {
    strip_leading(strip_leading(tag, 'v'), 'V')
}

/// What a release means to a program of version `current`: an update if
/// the tag names a newer version, nothing else.
pub open spec fn release_update(
    current: Seq<char>,
    tag: Seq<char>,
    url: Seq<char>,
    name: Option<Seq<char>>,
) -> Option<UpdateInfoView> {
    if newer(tag_version(tag), current) {
        Some(
            UpdateInfoView {
                latest_version: tag_version(tag),
                download_url: url,
                release_name: match name {
                    Some(n) => n,
                    None => Seq::empty(),
                },
            },
        )
    } else {
        None
    }
}

/// The numbers of the parts of a version.
fn version_numbers(v: &str) -> (r: Vec<u64>)
    ensures
        r.len() == split_on(v@, '.').len(),
        forall|i: int| 0 <= i < r.len() ==> r@[i] == component(v@, i),
{
    let chars = chars_of(v);
    let parts = split_chars(&chars, '.');
    let mut r: Vec<u64> = Vec::new();
    let mut i: usize = 0;
    while i < parts.len()
        invariant
            i <= parts.len(),
            views(parts@) == split_on(v@, '.'),
            r.len() == i,
            forall|k: int| 0 <= k < i ==> r@[k] == component(v@, k),
        decreases parts.len() - i,
    {
        assert(views(parts@)[i as int] == parts@[i as int]@);
        let n = match parse_unsigned_chars(&parts[i], u64::MAX) {
            Some(n) => n,
            None => 0,
        };
        r.push(n);
        i += 1;
    }
    r
}

/// Whether the version `remote` is newer than the version `local`.
///
/// Versions are compared part by part, as numbers; a part that is no
/// number, or is missing, counts as zero.
pub fn is_newer(remote: &str, local: &str) -> (r: bool)
    ensures
        r == newer(remote@, local@),
{
    let a = version_numbers(remote);
    let b = version_numbers(local);
    let n = if a.len() > b.len() {
        a.len()
    } else {
        b.len()
    };
    let mut i: usize = 0;
    while i < n
        invariant
            i <= n,
            n >= a.len(),
            n >= b.len(),
            a.len() == split_on(remote@, '.').len(),
            b.len() == split_on(local@, '.').len(),
            forall|k: int| 0 <= k < a.len() ==> a@[k] == component(remote@, k),
            forall|k: int| 0 <= k < b.len() ==> b@[k] == component(local@, k),
            forall|k: int| 0 <= k < i ==> #[trigger] component(remote@, k) == component(local@, k),
        decreases n - i,
    {
        let x = if i < a.len() {
            a[i]
        } else {
            0
        };
        let y = if i < b.len() {
            b[i]
        } else {
            0
        };
        assert(x == component(remote@, i as int));
        assert(y == component(local@, i as int));
        if x > y {
            return true;
        }
        if x < y {
            assert forall|m: int|
                !(0 <= m && #[trigger] component(remote@, m) > component(local@, m) && forall|k: int|
                    0 <= k < m ==> #[trigger] component(remote@, k) == component(local@, k)) by {
                if m > i {
                    assert(component(remote@, i as int) < component(local@, i as int));
                }
            }
            return false;
        }
        i += 1;
    }
    assert forall|m: int|
        !(0 <= m && #[trigger] component(remote@, m) > component(local@, m) && forall|k: int|
            0 <= k < m ==> #[trigger] component(remote@, k) == component(local@, k)) by {
        if m >= n {
            assert(component(remote@, m) == 0);
        }
    }
    false
}

/// `s` without the characters `c` at its front.
pub fn strip_leading_chars(s: &Vec<char>, c: char) -> (r: Vec<char>)
    ensures
        r@ == strip_leading(s@, c),
{
    let mut i: usize = 0;
    while i < s.len() && s[i] == c
        invariant
            i <= s.len(),
            skip_char(s@, c, 0) == skip_char(s@, c, i as int),
        decreases s.len() - i,
    {
        i += 1;
    }
    let r = chars_range(s, i, s.len());
    assert(s@.subrange(i as int, s@.len() as int) == s@.skip(i as int));
    r
}

/// The version that a release tag names.
pub fn version_of_tag(tag: &str) -> (r: String)
    ensures
        r@ == tag_version(tag@),
{
    let chars = chars_of(tag);
    let lower = strip_leading_chars(&chars, 'v');
    let upper = strip_leading_chars(&lower, 'V');
    string_of(&upper)
}

/// The address that shows the latest release.
pub fn latest_release_url() -> (r: String)
    ensures
        r@ == "https://api.github.com/repos/"@ + GITHUB_OWNER@ + "/"@ + GITHUB_REPO@
            + "/releases/latest"@,
{
    let mut r = owned("https://api.github.com/repos/");
    push_str(&mut r, GITHUB_OWNER);
    push_str(&mut r, "/");
    push_str(&mut r, GITHUB_REPO);
    push_str(&mut r, "/releases/latest");
    r
}

/// The name under which a program of version `current` asks.
pub fn user_agent(current: &str) -> (r: String)
    ensures
        r@ == GITHUB_REPO@ + "/"@ + current@,
{
    let mut r = owned(GITHUB_REPO);
    push_str(&mut r, "/");
    push_str(&mut r, current);
    r
}

/// What the latest release means to a program of version `current`.
///
/// `tag`, `url` and `name` are the release's tag, page and title. Gives
/// the update if the tag names a version newer than `current`, else
/// nothing.
pub fn evaluate_release(current: &str, tag: &str, url: &str, name: &Option<String>) -> (r: Option<
    UpdateInfo,
>)
    ensures
        match r {
            Some(info) => release_update(current@, tag@, url@, opt_text(*name)) == Some(info@),
            None => release_update(current@, tag@, url@, opt_text(*name)) is None,
        },
{
    let latest = version_of_tag(tag);
    if is_newer(latest.as_str(), current) {
        Some(
            UpdateInfo {
                latest_version: latest,
                download_url: owned(url),
                release_name: match name {
                    Some(n) => n.clone(),
                    None => String::new(),
                },
            },
        )
    } else {
        None
    }
}

} // verus!
