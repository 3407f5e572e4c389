//! The files of the dashboard.
use vstd::prelude::*;
use vstd::string::*;

use crate::text::{ends_with, has_part};
use crate::text::{contains_str, ends_with_str, to_chars};

verus! {

/// The page that is shown where nothing else is asked for.
pub const INDEX: &'static str = "index.html";

/// A path without the slashes that it begins with.
pub open spec fn without_slashes(path: Seq<char>) -> Seq<char>
    decreases path.len(),
{
    if path.len() > 0 && path[0] == '/' {
        without_slashes(path.skip(1))
    } else {
        path
    }
}

/// Whether a path may be looked up: it is not empty and climbs nowhere.
pub open spec fn is_safe(path: Seq<char>) -> bool {
    path.len() > 0 && !has_part(path, ".."@)
}

pub fn is_safe_asset_path(path: &str) -> (r: bool)
    ensures
        r == is_safe(path@),
{
    !path.is_empty() && !contains_str(path, "..")
}

/// The file that a path asks for; none where it may not be looked up. Where there is
/// no such file, the index page is shown.
pub fn static_file(path: &str) -> (r: Option<String>)
    ensures
        match r {
            Some(rel) => rel@ == without_slashes(path@) && is_safe(rel@),
            None => !is_safe(without_slashes(path@)),
        },
{
    let v = to_chars(path);
    let n: usize = v.len();
    let mut i: usize = 0;
    assert(path@.skip(0) =~= path@);
    while i < n && v[i] == '/'
        invariant
            i <= n,
            n == v@.len(),
            v@ == path@,
            without_slashes(path@) == without_slashes(path@.skip(i as int)),
        decreases n - i,
    {
        assert(path@.skip(i as int).skip(1) =~= path@.skip(i + 1));
        i += 1;
    }
    let rel = path.substring_char(i, n);
    assert(rel@ =~= path@.skip(i as int));
    if is_safe_asset_path(rel) {
        Some(rel.to_owned())
    } else {
        None
    }
}

/// What kind of content a file has, by the end of its name.
pub open spec fn content_kind(path: Seq<char>) -> Seq<char> {
    if ends_with(path, ".js"@) || ends_with(path, ".mjs"@) {
        "application/javascript; charset=utf-8"@
    } else if ends_with(path, ".css"@) {
        "text/css; charset=utf-8"@
    } else if ends_with(path, ".html"@) {
        "text/html; charset=utf-8"@
    } else if ends_with(path, ".svg"@) {
        "image/svg+xml"@
    } else if ends_with(path, ".png"@) {
        "image/png"@
    } else if ends_with(path, ".ico"@) {
        "image/x-icon"@
    } else if ends_with(path, ".woff2"@) {
        "font/woff2"@
    } else if ends_with(path, ".map"@) {
        "application/json"@
    } else {
        "application/octet-stream"@
    }
}

pub fn content_type(path: &str) -> (r: &'static str)
    ensures
        r@ == content_kind(path@),
{
    if ends_with_str(path, ".js") || ends_with_str(path, ".mjs") {
        "application/javascript; charset=utf-8"
    } else if ends_with_str(path, ".css") {
        "text/css; charset=utf-8"
    } else if ends_with_str(path, ".html") {
        "text/html; charset=utf-8"
    } else if ends_with_str(path, ".svg") {
        "image/svg+xml"
    } else if ends_with_str(path, ".png") {
        "image/png"
    } else if ends_with_str(path, ".ico") {
        "image/x-icon"
    } else if ends_with_str(path, ".woff2") {
        "font/woff2"
    } else if ends_with_str(path, ".map") {
        "application/json"
    } else {
        "application/octet-stream"
    }
}

/// What is looked up never begins with a slash.
pub proof fn looked_up_paths_are_relative(path: Seq<char>)
    ensures
        without_slashes(path).len() > 0 ==> without_slashes(path)[0] != '/',
    decreases path.len(),
{
    if path.len() > 0 && path[0] == '/' {
        looked_up_paths_are_relative(path.skip(1));
    }
}

} // verus!
