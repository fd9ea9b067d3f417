//! Addresses of the remote host's endpoints that the synchroniser reads.

use vstd::prelude::*;
use crate::text::concatenate;

verus! {

/// Raw content of `path` on `branch` of repository `repo`.
pub open spec fn raw_content_url_of(repo: Seq<char>, branch: Seq<char>, path: Seq<char>) -> Seq<char> {
    "https://raw.githubusercontent.com/"@ + repo + "/"@ + branch + "/"@ + path
}

/// Tag list of repository `repo`, newest first.
pub open spec fn tags_url_of(repo: Seq<char>) -> Seq<char> {
    "https://api.github.com/repos/"@ + repo + "/tags"@
}

/// Comparison of ref `base` with ref `head` in repository `repo`.
pub open spec fn compare_url_of(repo: Seq<char>, base: Seq<char>, head: Seq<char>) -> Seq<char> {
    "https://api.github.com/repos/"@ + repo + "/compare/"@ + base + "..."@ + head
}

pub fn raw_content_url(repo: &str, branch: &str, path: &str) -> (r: String)
    ensures
        r@ == raw_content_url_of(repo@, branch@, path@),
{
    let s = concatenate("https://raw.githubusercontent.com/", repo);
    let s = concatenate(s.as_str(), "/");
    let s = concatenate(s.as_str(), branch);
    let s = concatenate(s.as_str(), "/");
    concatenate(s.as_str(), path)
}

pub fn tags_url(repo: &str) -> (r: String)
    ensures
        r@ == tags_url_of(repo@),
{
    let s = concatenate("https://api.github.com/repos/", repo);
    concatenate(s.as_str(), "/tags")
}

pub fn compare_url(repo: &str, base: &str, head: &str) -> (r: String)
    ensures
        r@ == compare_url_of(repo@, base@, head@),
{
    let s = concatenate("https://api.github.com/repos/", repo);
    let s = concatenate(s.as_str(), "/compare/");
    let s = concatenate(s.as_str(), base);
    let s = concatenate(s.as_str(), "...");
    concatenate(s.as_str(), head)
}

} // verus!
