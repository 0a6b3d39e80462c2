//! Resolving a device by name through the local cache of known devices:
//! which cached entry is meant, and how the server that hosts it is
//! addressed.
use vstd::prelude::*;

use crate::text::{
    chars_of, parse_u64, parse_u64_spec, string_from_chars, string_from_str, strip_all_prefix,
    trim, trim_of, trim_start_matches,
};

verus! {

/// A device as the local cache remembers it.
#[derive(Debug, Clone)]
pub struct CachedDevice {
    pub name: String,
    pub short_id: String,
    pub id: String,
    pub server_url: String,
}

/// A device resolved to the server that hosts it.
#[derive(Debug, Clone)]
pub struct ResolvedDevice {
    pub short_id: String,
    pub host: String,
    pub url: String,
    pub id: String,
}

/// The host of a server URL: without the leading `https://` and then
/// `http://` prefixes (each stripped as often as it repeats).
pub open spec fn host_of(url: Seq<char>) -> Seq<char> {
    strip_all_prefix(strip_all_prefix(url, "https://"@), "http://"@)
}

/// A cached device resolved to its server.
pub open spec fn resolved_of(d: CachedDevice, r: ResolvedDevice) -> bool {
    &&& r.short_id@ == d.short_id@
    &&& r.url@ == d.server_url@
    &&& r.host@ == host_of(d.server_url@)
    &&& r.id@ == d.id@
}

/// Resolves a cached device to its server.
pub fn to_resolved(d: &CachedDevice) -> (r: ResolvedDevice)
    ensures
        resolved_of(*d, r),
{
    let url = chars_of(d.server_url.as_str());
    let https = chars_of("https://");
    let http = chars_of("http://");
    let a = trim_start_matches(url.as_slice(), https.as_slice());
    let b = trim_start_matches(a.as_slice(), http.as_slice());
    ResolvedDevice {
        short_id: d.short_id.clone(),
        host: string_from_chars(b.as_slice()),
        url: d.server_url.clone(),
        id: d.id.clone(),
    }
}

/// What the cache says of a device name.
#[derive(Debug, Clone)]
pub enum CacheSelection {
    /// No cached device has the name.
    NotCached,
    /// Exactly one has it.
    Resolved(ResolvedDevice),
    /// Several have it: the user picks one (`resolve_selection`).
    Ambiguous,
}

/// Selects among the cached devices with the requested name: none, the one,
/// or a choice for the user.
pub fn select_from_cache(cached: &Vec<CachedDevice>) -> (r: CacheSelection)
    ensures
        cached@.len() == 0 <==> r is NotCached,
        cached@.len() == 1 <==> r is Resolved,
        cached@.len() > 1 <==> r is Ambiguous,
        r matches CacheSelection::Resolved(d) ==> resolved_of(cached@[0], d),
{
    if cached.len() == 0 {
        CacheSelection::NotCached
    } else if cached.len() == 1 {
        CacheSelection::Resolved(to_resolved(&cached[0]))
    } else {
        CacheSelection::Ambiguous
    }
}

/// The first cached device with this short id.
pub open spec fn first_with_short_id(cached: Seq<CachedDevice>, short_id: Seq<char>, k: int) -> bool {
    &&& 0 <= k < cached.len()
    &&& cached[k].short_id@ == short_id
    &&& forall|j: int| 0 <= j < k ==> (#[trigger] cached[j]).short_id@ != short_id
}

/// The device the user picked by its number in the list (counting from 1):
/// the first cached device with the short id of the listed one, or the error
/// of a number beyond the list.
pub fn resolve_selection(cached: &Vec<CachedDevice>, choice: usize) -> (r: Result<
    ResolvedDevice,
    String,
>)
    ensures
        (if choice == 0 {
            0
        } else {
            choice - 1
        }) < cached@.len() <==> r is Ok,
        r is Err ==> r->Err_0@ == "Invalid selection"@,
        r matches Ok(d) ==> exists|k: int|
            first_with_short_id(
                cached@,
                cached@[if choice == 0 {
                    0
                } else {
                    choice - 1
                }].short_id@,
                k,
            ) && resolved_of(#[trigger] cached@[k], d),
{
    let idx: usize = if choice == 0 {
        0
    } else {
        choice - 1
    };
    if idx >= cached.len() {
        return Err(string_from_str("Invalid selection"));
    }
    let wanted = &cached[idx].short_id;
    let mut k: usize = 0;
    while k < cached.len()
        invariant
            k <= idx < cached.len(),
            idx == (if choice == 0 {
                0
            } else {
                choice - 1
            }),
            wanted@ == cached@[idx as int].short_id@,
            forall|j: int| 0 <= j < k ==> (#[trigger] cached@[j]).short_id@ != wanted@,
        decreases idx - k,
    {
        if cached[k].short_id == *wanted {
            let d = to_resolved(&cached[k]);
            assert(first_with_short_id(cached@, wanted@, k as int));
            assert(resolved_of(cached@[k as int], d));
            return Ok(d);
        }
        if k == idx {
            assert(false);
        }
        k = k + 1;
    }
    Err(string_from_str("Invalid selection"))
}

/// The number the user typed to pick a device: the trimmed input as a
/// decimal `usize` of at least 1.
pub open spec fn user_index_of(input: Seq<char>) -> Result<usize, Seq<char>> {
    match parse_u64_spec(trim_of(input)) {
        Some(n) => if n > usize::MAX {
            Err("Invalid numeric input"@)
        } else if n == 0 {
            Err("Selection must be >= 1"@)
        } else {
            Ok(n as usize)
        },
        None => Err("Invalid numeric input"@),
    }
}

/// Reads the number the user typed to pick a device.
pub fn parse_user_index(input: &str) -> (r: Result<usize, String>)
    ensures
        match user_index_of(input@) {
            Ok(n) => r is Ok && r->Ok_0 == n,
            Err(e) => r is Err && r->Err_0@ == e,
        },
{
    let cs = chars_of(input);
    let t = trim(cs.as_slice());
    match parse_u64(t.as_slice()) {
        Some(n) => {
            if n > usize::MAX as u64 {
                Err(string_from_str("Invalid numeric input"))
            } else if n == 0 {
                Err(string_from_str("Selection must be >= 1"))
            } else {
                Ok(n as usize)
            }
        },
        None => Err(string_from_str("Invalid numeric input")),
    }
}

} // verus!
