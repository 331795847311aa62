//! The directory scanner: which files are deployable modules, which
//! side-file intent governs each, and which side-files must be consumed.
//!
//! The scanner is pure logic over a directory listing. Reading the directory
//! and deleting the side-files it reports are left to the caller, which
//! hands the listing in as plain file names.

use vstd::prelude::*;
use crate::text::{has_suffix, listing_has, spec_has_suffix, spec_listing_has};

verus! {

/// A deployable module file found by a scan, with the status word its
/// highest-precedence side-file requests.
#[derive(Debug)]
pub struct WatcherEntry {
    pub path: String,
    pub next_status: String,
}

/// A directory entry together with the change the scan derived for it.
#[derive(Debug)]
pub struct ChangedEntry {
    pub path: String,
    pub status: crate::status::ChangedEntryStatus,
}

/// The scanner for one watched directory.
#[derive(Debug)]
pub struct DirectoryWatcher {
    pub dir: String,
}

/// Whether a file name denotes a deployable module: a non-empty stem
/// followed by the `.wasm` extension.
pub open spec fn spec_is_wasm_file(s: Seq<char>) -> bool {
    spec_has_suffix(s, ".wasm"@) && s.len() > ".wasm"@.len()
}

/// The stem of a `.wasm` file name: everything before the extension.
pub open spec fn spec_wasm_stem(s: Seq<char>) -> Seq<char> {
    s.subrange(0, s.len() - ".wasm"@.len())
}

/// The side-file name requesting intent `word` for the module named `stem`.
pub open spec fn spec_side_file_name(stem: Seq<char>, word: Seq<char>) -> Seq<char> {
    stem + "."@ + word
}

/// Whether a file name is a side-file: its extension is one of the five
/// intent words.
pub open spec fn spec_is_side_file(s: Seq<char>) -> bool {
    ||| spec_has_suffix(s, ".deploy"@)
    ||| spec_has_suffix(s, ".undeploy"@)
    ||| spec_has_suffix(s, ".running"@)
    ||| spec_has_suffix(s, ".undeployed"@)
    ||| spec_has_suffix(s, ".redeploy"@)
}

/// The intent word for a module, by precedence among the side-files present
/// in the listing: `redeploy` over `undeploy` over `undeployed` over
/// `running` over `deploy`; absent any side-file, `deploy`.
pub open spec fn spec_intent_of(listing: Seq<String>, stem: Seq<char>) -> Seq<char> {
    if spec_listing_has(listing, spec_side_file_name(stem, "redeploy"@)) {
        "redeploy"@
    } else if spec_listing_has(listing, spec_side_file_name(stem, "undeploy"@)) {
        "undeploy"@
    } else if spec_listing_has(listing, spec_side_file_name(stem, "undeployed"@)) {
        "undeployed"@
    } else if spec_listing_has(listing, spec_side_file_name(stem, "running"@)) {
        "running"@
    } else {
        "deploy"@
    }
}

/// The scan of the first `upto` names of a listing: each `.wasm` file, in
/// listing order, paired with its intent word.
pub open spec fn spec_scan_upto(listing: Seq<String>, upto: int) -> Seq<(Seq<char>, Seq<char>)>
    decreases upto,
{
    if upto <= 0 {
        Seq::empty()
    } else {
        let prev = spec_scan_upto(listing, upto - 1);
        let f = listing[upto - 1]@;
        if spec_is_wasm_file(f) {
            prev.push((f, spec_intent_of(listing, spec_wasm_stem(f))))
        } else {
            prev
        }
    }
}

/// The scan of a whole listing.
pub open spec fn spec_scan(listing: Seq<String>) -> Seq<(Seq<char>, Seq<char>)> {
    spec_scan_upto(listing, listing.len() as int)
}

/// The side-files among the first `upto` names of a listing, in order.
pub open spec fn spec_side_files_upto(listing: Seq<String>, upto: int) -> Seq<Seq<char>>
    decreases upto,
{
    if upto <= 0 {
        Seq::empty()
    } else {
        let prev = spec_side_files_upto(listing, upto - 1);
        let f = listing[upto - 1]@;
        if spec_is_side_file(f) {
            prev.push(f)
        } else {
            prev
        }
    }
}

/// The side-files of a whole listing.
pub open spec fn spec_side_files(listing: Seq<String>) -> Seq<Seq<char>> {
    spec_side_files_upto(listing, listing.len() as int)
}

/// The views of a vector of entries, for stating what a scan returned.
pub open spec fn spec_entry_views(entries: Seq<WatcherEntry>) -> Seq<(Seq<char>, Seq<char>)> {
    entries.map_values(|e: WatcherEntry| (e.path@, e.next_status@))
}

/// The views of a vector of names.
pub open spec fn spec_name_views(names: Seq<String>) -> Seq<Seq<char>> {
    names.map_values(|s: String| s@)
}

/// Builds `<stem>.<word>`.
fn side_file_name(stem: &str, word: &str) -> (r: String)
    ensures
        r@ == spec_side_file_name(stem@, word@),
{
    let mut out = String::from_str(stem);
    out.push('.');
    out.append(word);
    proof {
        reveal_strlit(".");
        assert(stem@.push('.') =~= stem@ + "."@);
    }
    out
}

/// The intent word governing the module named `stem`, given the listing.
fn intent_of(listing: &Vec<String>, stem: &str) -> (r: String)
    ensures
        r@ == spec_intent_of(listing@, stem@),
{
    let redeploy = side_file_name(stem, "redeploy");
    if listing_has(listing, redeploy.as_str()) {
        return String::from_str("redeploy");
    }
    let undeploy = side_file_name(stem, "undeploy");
    if listing_has(listing, undeploy.as_str()) {
        return String::from_str("undeploy");
    }
    let undeployed = side_file_name(stem, "undeployed");
    if listing_has(listing, undeployed.as_str()) {
        return String::from_str("undeployed");
    }
    let running = side_file_name(stem, "running");
    if listing_has(listing, running.as_str()) {
        return String::from_str("running");
    }
    String::from_str("deploy")
}

/// Whether a file name denotes a deployable module.
pub fn is_wasm_file(name: &str) -> (r: bool)
    ensures
        r == spec_is_wasm_file(name@),
{
    proof {
        reveal_strlit(".wasm");
    }
    has_suffix(name, ".wasm") && name.unicode_len() > 5
}

/// Whether a file name is a side-file.
pub fn is_side_file(name: &str) -> (r: bool)
    ensures
        r == spec_is_side_file(name@),
{
    ||| has_suffix(name, ".deploy")
    ||| has_suffix(name, ".undeploy")
    ||| has_suffix(name, ".running")
    ||| has_suffix(name, ".undeployed")
    ||| has_suffix(name, ".redeploy")
}

impl DirectoryWatcher {
    /// A scanner for the directory at `p`.
    pub fn new(p: String) -> (r: Self)
        ensures
            r.dir == p,
    {
        DirectoryWatcher { dir: p }
    }

    /// One scan pass over a directory listing: every `.wasm` file, in
    /// listing order, with the status word of its governing side-file.
    pub fn run(&self, listing: &Vec<String>) -> (r: Vec<WatcherEntry>)
        ensures
            spec_entry_views(r@) == spec_scan(listing@),
    {
        let mut out: Vec<WatcherEntry> = Vec::new();
        let mut i: usize = 0;
        while i < listing.len()
            invariant
                i <= listing@.len(),
                spec_entry_views(out@) == spec_scan_upto(listing@, i as int),
            decreases listing@.len() - i,
        {
            let name = &listing[i];
            if is_wasm_file(name.as_str()) {
                proof {
                    reveal_strlit(".wasm");
                }
                let len = name.as_str().unicode_len();
                let stem = name.as_str().substring_char(0, len - 5);
                let word = intent_of(listing, stem);
                let entry = WatcherEntry { path: name.clone(), next_status: word };
                out.push(entry);
            }
            proof {
                assert(spec_entry_views(out@) =~= spec_scan_upto(listing@, i + 1));
            }
            i += 1;
        }
        out
    }
}

/// All side-files in a listing, in listing order: the files the caller must
/// delete once a tick has been processed, so no stale intent re-triggers.
pub fn side_files(listing: &Vec<String>) -> (r: Vec<String>)
    ensures
        spec_name_views(r@) == spec_side_files(listing@),
{
    let mut out: Vec<String> = Vec::new();
    let mut i: usize = 0;
    while i < listing.len()
        invariant
            i <= listing@.len(),
            spec_name_views(out@) == spec_side_files_upto(listing@, i as int),
        decreases listing@.len() - i,
    {
        let name = &listing[i];
        if is_side_file(name.as_str()) {
            out.push(name.clone());
        }
        proof {
            assert(spec_name_views(out@) =~= spec_side_files_upto(listing@, i + 1));
        }
        i += 1;
    }
    out
}

/// A module file name is its stem followed by the module extension.
pub proof fn lemma_stem_extension(p: Seq<char>)
    requires
        spec_is_wasm_file(p),
    ensures
        spec_wasm_stem(p) + ".wasm"@ == p,
{
    assert(p.subrange(p.len() - ".wasm"@.len(), p.len() as int) == ".wasm"@);
    assert(spec_wasm_stem(p) + ".wasm"@ =~= p);
}

/// Two module file names with the same stem are the same name.
pub proof fn lemma_stem_injective(p: Seq<char>, q: Seq<char>)
    requires
        spec_is_wasm_file(p),
        spec_is_wasm_file(q),
        spec_wasm_stem(p) == spec_wasm_stem(q),
    ensures
        p == q,
{
    lemma_stem_extension(p);
    lemma_stem_extension(q);
}

/// Side-file consumption: every side-file present in the listing is among
/// the files `side_files` tells the caller to delete, so a tick that deletes
/// them leaves no side-file behind.
pub proof fn lemma_side_file_consumption(listing: Seq<String>, f: Seq<char>)
    requires
        spec_listing_has(listing, f),
        spec_is_side_file(f),
    ensures
        spec_side_files(listing).contains(f),
{
    let i = choose|i: int| 0 <= i < listing.len() && listing[i]@ == f;
    lemma_side_files_upto_contains(listing, i, listing.len() as int);
}

/// Any side-file at an index below `upto` appears in `spec_side_files_upto`.
proof fn lemma_side_files_upto_contains(listing: Seq<String>, i: int, upto: int)
    requires
        0 <= i < upto <= listing.len(),
        spec_is_side_file(listing[i]@),
    ensures
        spec_side_files_upto(listing, upto).contains(listing[i]@),
    decreases upto,
{
    if i == upto - 1 {
        let prev = spec_side_files_upto(listing, upto - 1);
        assert(spec_side_files_upto(listing, upto) == prev.push(listing[i]@));
        assert(spec_side_files_upto(listing, upto)[prev.len() as int] == listing[i]@);
    } else {
        lemma_side_files_upto_contains(listing, i, upto - 1);
        let prev = spec_side_files_upto(listing, upto - 1);
        let j = choose|j: int| 0 <= j < prev.len() && prev[j] == listing[i]@;
        assert(spec_side_files_upto(listing, upto)[j] == listing[i]@);
    }
}

} // verus!
