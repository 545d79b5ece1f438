//! The media URL sanitizer.
//!
//! Before a resource's media is sent to the remote store, a URL that points
//! back at the ingestion platform's own transient file-serving host is
//! discarded: such URLs are short-lived and opaque to the remote system.
//! Losing the URL degrades the push to text-only rather than failing it.

use vstd::prelude::*;

use crate::text::{spec_contains, spec_trim, str_contains, str_starts_with, trim};

verus! {

/// The host whose URLs are never forwarded: the ingestion platform's own
/// file server.
pub open spec fn spec_blocked_host() -> Seq<char> {
    "api.telegram.org"@
}

/// What the sanitizer keeps: the trimmed URL, provided it is non-empty,
/// carries an `http://` or `https://` scheme, and does not point at the
/// ingestion platform's file host; otherwise nothing.
pub open spec fn spec_sanitize_media_url(raw: Option<Seq<char>>) -> Option<Seq<char>> {
    match raw {
        None => None,
        Some(s) => {
            let t = spec_trim(s);
            if t.len() == 0 {
                None
            } else if !("http://"@.is_prefix_of(t) || "https://"@.is_prefix_of(t)) {
                None
            } else if spec_contains(t, spec_blocked_host()) {
                None
            } else {
                Some(t)
            }
        },
    }
}

/// Keeps a usable external media URL and discards the rest, exactly as
/// [`spec_sanitize_media_url`] says.
pub fn sanitize_media_url(raw: Option<&str>) -> (r: Option<String>)
    ensures
        match raw {
            None => r is None,
            Some(s) => match spec_sanitize_media_url(Some(s@)) {
                None => r is None,
                Some(v) => r matches Some(u) && u@ == v,
            },
        },
{
    let s = match raw {
        Some(s) => s,
        None => {
            return None;
        },
    };
    let t = trim(s);
    if t.is_empty() {
        return None;
    }
    if !(str_starts_with(t, "http://") || str_starts_with(t, "https://")) {
        return None;
    }
    if str_contains(t, "api.telegram.org") {
        return None;
    }
    Some(t.to_owned())
}

} // verus!
