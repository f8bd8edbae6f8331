//! Names of the Android activity classes, and the paths behind the document URIs
//! that Android's storage access framework hands out.

use vstd::prelude::*;

use crate::notifications::{push_message, pushed, Kind, Message, MessageView, Notifications, DEFAULT_MESSAGE_DURATION_MS};
use crate::pass::{entry_views, PassEntry, PassEntryView, PassRepository};
use crate::paths::{chars_end_with_gpg, is_gpg_name};
use crate::paths::{last_index_of, substring};
use crate::text::{chars_of, concat_strs};

verus! {

/// The activity classes the application starts or calls.
#[derive(Clone, Copy, Debug, PartialEq, Eq, Hash, Structural)]
pub enum ActivityClass {
    DocTreePickerActivity,
    FilePickerActivity,
    FSAdapter,
}

/// The Java class name of an activity class.
pub open spec fn class_name(c: ActivityClass) -> Seq<char> {
    match c {
        ActivityClass::DocTreePickerActivity => "java.DocTreePickerActivity"@,
        ActivityClass::FilePickerActivity => "java.FilePickerActivity"@,
        ActivityClass::FSAdapter => "java.FSAdapter"@,
    }
}

impl ActivityClass {
    /// The Java class name of the activity class.
    pub fn as_str(&self) -> (r: &'static str)
        ensures
            r@ == class_name(*self),
    {
        match self {
            Self::DocTreePickerActivity => "java.DocTreePickerActivity",
            Self::FilePickerActivity => "java.FilePickerActivity",
            Self::FSAdapter => "java.FSAdapter",
        }
    }
}

/// The value of a hexadecimal digit.
pub open spec fn hex_value(b: u8) -> Option<u8> {
    if 0x30 <= b <= 0x39 {
        Some((b - 0x30) as u8)
    } else if 0x41 <= b <= 0x46 {
        Some((b - 0x41 + 10) as u8)
    } else if 0x61 <= b <= 0x66 {
        Some((b - 0x61 + 10) as u8)
    } else {
        None
    }
}

/// Bytes with every `%` followed by two hexadecimal digits replaced by the byte
/// they write; any other byte, `%` and `+` included, is kept as it is.
pub open spec fn percent_decoded_bytes(b: Seq<u8>) -> Seq<u8>
    decreases b.len(),
{
    if b.len() == 0 {
        Seq::empty()
    } else if b[0] == 0x25 && b.len() >= 3 && hex_value(b[1]) is Some && hex_value(b[2]) is Some {
        seq![(hex_value(b[1])->0 * 16 + hex_value(b[2])->0) as u8] + percent_decoded_bytes(b.skip(3))
    } else {
        seq![b[0]] + percent_decoded_bytes(b.skip(1))
    }
}

/// What `urlencoding::decode` makes of a string: the text its UTF-8 bytes give once
/// percent-decoded, or none when those bytes are not UTF-8.
pub open spec fn percent_decoded(data: Seq<char>) -> Option<Seq<char>> {
    let bytes = percent_decoded_bytes(vstd::utf8::encode_utf8(data));
    if vstd::utf8::valid_utf8(bytes) {
        Some(vstd::utf8::decode_utf8(bytes))
    } else {
        None
    }
}

/// Decodes a percent-encoded string (`urlencoding::decode`): every `%XX` escape
/// becomes the byte it writes, other bytes stay; `None` when the bytes that come
/// out are not UTF-8.
#[verifier::external_body]
fn percent_decode(data: &str) -> (r: Option<String>)
    ensures
        r is Some <==> percent_decoded(data@) is Some,
        r matches Some(s) ==> percent_decoded(data@) == Some(s@),
{
    urlencoding::decode(data).ok().map(|decoded| decoded.into_owned())
}

/// The path part of a decoded document URI: what follows its last `:`.
pub open spec fn path_after_colon(decoded: Seq<char>) -> Seq<char> {
    decoded.subrange(last_index_of(decoded, ':') + 1, decoded.len() as int)
}

/// Why a URI could not be read.
#[derive(Clone, Copy, Debug, PartialEq, Eq, Structural)]
pub enum UriError {
    /// The percent-decoded URI is not UTF-8.
    NotUtf8,
}

/// The path part of a decoded document URI: what follows its last `:`.
pub fn path_of_decoded(decoded: &str) -> (r: String)
    ensures
        r@ == path_after_colon(decoded@),
{
    let d = chars_of(decoded);
    let start = crate::paths::after_last(&d, ':');
    substring(&d, start, d.len())
}

/// The path behind a document URI, e.g.
/// `content://com.android.externalstorage.documents/tree/primary%3ADocuments%2Fpass`
/// is `Documents/pass`.
pub fn uri_path(uri: &str) -> (r: Result<String, UriError>)
    ensures
        r matches Ok(p) ==> (percent_decoded(uri@) matches Some(d) && p@ == path_after_colon(d)),
        r is Err <==> percent_decoded(uri@) is None,
{
    match percent_decode(uri) {
        Some(decoded) => Ok(path_of_decoded(decoded.as_str())),
        None => Err(UriError::NotUtf8),
    }
}

/// Why a document URI does not make an entry.
#[derive(Clone, Copy, Debug, PartialEq, Eq, Structural)]
pub enum EntryError {
    /// The root's URI could not be decoded.
    RootPath,
    /// The entry's URI could not be decoded.
    EntryPath,
    /// The entry's path does not start with the root's path.
    OutsideRoot,
    /// Nothing, or no one-byte separator, follows the root's path in the entry's path.
    NoSeparator,
}

/// The entry's path starts with the root's path and goes on with a one-byte character.
pub open spec fn separable(root_path: Seq<char>, full_path: Seq<char>) -> bool {
    full_path.len() > root_path.len() && (full_path[root_path.len() as int] as u32) < 128
}

/// What follows the root's path and the character after it.
pub open spec fn relpath_below(root_path: Seq<char>, full_path: Seq<char>) -> Seq<char> {
    full_path.subrange(root_path.len() + 1int, full_path.len() as int)
}

/// The entry's path below the root's path, dropping the separator after the root,
/// or `OutsideRoot` when the entry's path does not start with the root's path.
pub fn entry_relpath_below(root_path: &str, full_path: &str) -> (r: Result<String, EntryError>)
    requires
        root_path@.is_prefix_of(full_path@) ==> separable(root_path@, full_path@),
    ensures
        r is Err <==> !root_path@.is_prefix_of(full_path@),
        r matches Err(e) ==> e == EntryError::OutsideRoot,
        r matches Ok(rel) ==> rel@ == relpath_below(root_path@, full_path@),
{
    let rc = chars_of(root_path);
    let fc = chars_of(full_path);
    if rc.len() > fc.len() {
        return Err(EntryError::OutsideRoot);
    }
    let mut i: usize = 0;
    while i < rc.len()
        invariant
            rc@ == root_path@,
            fc@ == full_path@,
            rc@.len() <= fc@.len(),
            i <= rc@.len(),
            forall|j: int| 0 <= j < i ==> rc@[j] == fc@[j],
        decreases rc@.len() - i,
    {
        if rc[i] != fc[i] {
            return Err(EntryError::OutsideRoot);
        }
        i = i + 1;
    }
    Ok(substring(&fc, rc.len() + 1, fc.len()))
}

/// Whether what follows `root_path` in `full_path` starts with a one-byte character,
/// given that `full_path` starts with `root_path`.
fn check_separable(root_path: &str, full_path: &str) -> (r: bool)
    ensures
        r == separable(root_path@, full_path@),
{
    let rc = chars_of(root_path);
    let fc = chars_of(full_path);
    fc.len() > rc.len() && (fc[rc.len()] as u32) < 128
}

/// The outcome of making an entry from the decoded root and entry paths.
pub open spec fn entry_from_paths(root_path: Seq<char>, full_path: Seq<char>, uri: Seq<char>) -> Result<PassEntryView, EntryError> {
    if !root_path.is_prefix_of(full_path) {
        Err(EntryError::OutsideRoot)
    } else if !separable(root_path, full_path) {
        Err(EntryError::NoSeparator)
    } else {
        Ok(PassEntryView { origin: uri, relpath: relpath_below(root_path, full_path) })
    }
}

/// The entry a document `uri` under the document tree `root` makes, or why it makes none.
pub open spec fn uri_entry(root: Seq<char>, uri: Seq<char>) -> Result<PassEntryView, EntryError> {
    match (percent_decoded(root), percent_decoded(uri)) {
        (None, _) => Err(EntryError::RootPath),
        (Some(_), None) => Err(EntryError::EntryPath),
        (Some(rd), Some(ud)) => entry_from_paths(path_after_colon(rd), path_after_colon(ud), uri),
    }
}

impl PassEntry {
    /// The entry for a document `uri` found under the document tree `root`: its
    /// relative path is the URI's path below the root's path. `NoSeparator` is
    /// returned where nothing, or no one-byte separator, follows the root's path.
    pub fn try_from_uri(root: &str, uri: String) -> (r: Result<PassEntry, EntryError>)
        ensures
            match uri_entry(root@, uri@) {
                Ok(v) => r matches Ok(e) && e@ == v,
                Err(k) => r matches Err(e) && e == k,
            },
    {
        let real_root_path = match uri_path(root) {
            Ok(p) => p,
            Err(_) => return Err(EntryError::RootPath),
        };
        let entry_full_path = match uri_path(uri.as_str()) {
            Ok(p) => p,
            Err(_) => return Err(EntryError::EntryPath),
        };
        if !prefix_of(real_root_path.as_str(), entry_full_path.as_str()) {
            return Err(EntryError::OutsideRoot);
        }
        if !check_separable(real_root_path.as_str(), entry_full_path.as_str()) {
            return Err(EntryError::NoSeparator);
        }
        match entry_relpath_below(real_root_path.as_str(), entry_full_path.as_str()) {
            Ok(rel) => Ok(PassEntry::new(uri, rel)),
            Err(e) => Err(e),
        }
    }
}

/// Whether `prefix` is a prefix of `s`.
fn prefix_of(prefix: &str, s: &str) -> (r: bool)
    ensures
        r == prefix@.is_prefix_of(s@),
{
    let pc = chars_of(prefix);
    let sc = chars_of(s);
    if pc.len() > sc.len() {
        return false;
    }
    let mut i: usize = 0;
    while i < pc.len()
        invariant
            pc@ == prefix@,
            sc@ == s@,
            pc@.len() <= sc@.len(),
            i <= pc@.len(),
            forall|j: int| 0 <= j < i ==> pc@[j] == sc@[j],
        decreases pc@.len() - i,
    {
        if pc[i] != sc[i] {
            return false;
        }
        i = i + 1;
    }
    true
}


/// The entries that the `.gpg` documents of a listing make under `root`, in the
/// listing's order, or the first reason why one of them makes none.
pub open spec fn uri_listing(root: Seq<char>, uris: Seq<Seq<char>>) -> Result<Seq<PassEntryView>, EntryError>
    decreases uris.len(),
{
    if uris.len() == 0 {
        Ok(Seq::empty())
    } else {
        match uri_listing(root, uris.drop_last()) {
            Err(e) => Err(e),
            Ok(es) => if !is_gpg_name(uris.last()) {
                Ok(es)
            } else {
                match uri_entry(root, uris.last()) {
                    Ok(v) => Ok(es.push(v)),
                    Err(e) => Err(e),
                }
            },
        }
    }
}

/// The views of a sequence of strings.
pub open spec fn string_views(ss: Seq<String>) -> Seq<Seq<char>> {
    ss.map_values(|s: String| s@)
}

/// The error shown when the documents of a tree could not be listed.
pub open spec fn listing_error(root: Seq<char>, e: Seq<char>) -> MessageView {
    MessageView {
        text: "unable to retrieve list of GPG files of "@ + root + ": "@ + e,
        duration_ms: DEFAULT_MESSAGE_DURATION_MS,
        kind: Kind::Error,
    }
}

/// The entries that the `.gpg` documents of a listing make under `root`.
pub fn uri_entries(root: &str, uris: &Vec<String>) -> (r: Result<Vec<PassEntry>, EntryError>)
    ensures
        match uri_listing(root@, string_views(uris@)) {
            Ok(es) => r matches Ok(v) && entry_views(v@) == es,
            Err(k) => r matches Err(e) && e == k,
        },
{
    let mut found: Vec<PassEntry> = Vec::new();
    let mut i: usize = 0;
    while i < uris.len()
        invariant
            i <= uris@.len(),
            uri_listing(root@, string_views(uris@).subrange(0, i as int)) matches Ok(es) && entry_views(found@) == es,
        decreases uris@.len() - i,
    {
        let ghost all = string_views(uris@);
        assert(all.subrange(0, i + 1).drop_last() =~= all.subrange(0, i as int));
        assert(all.subrange(0, i + 1).last() == uris@[i as int]@);
        let uri = &uris[i];
        if chars_end_with_gpg(&chars_of(uri.as_str())) {
            match PassEntry::try_from_uri(root, uri.clone()) {
                Ok(entry) => {
                    let ghost before = found@;
                    found.push(entry);
                    assert(entry_views(found@) =~= entry_views(before).push(entry@));
                },
                Err(e) => {
                    proof {
                        lemma_listing_error_stays(root@, all, i + 1);
                    }
                    assert(all.subrange(0, all.len() as int) =~= all);
                    return Err(e);
                },
            }
        }
        i = i + 1;
    }
    assert(string_views(uris@).subrange(0, uris@.len() as int) =~= string_views(uris@));
    Ok(found)
}

/// Once a listing's prefix fails, the whole listing fails the same way.
proof fn lemma_listing_error_stays(root: Seq<char>, uris: Seq<Seq<char>>, n: int)
    requires
        0 <= n <= uris.len(),
        uri_listing(root, uris.subrange(0, n)) is Err,
    ensures
        uri_listing(root, uris) == uri_listing(root, uris.subrange(0, n)),
    decreases uris.len() - n,
{
    if n < uris.len() {
        assert(uris.subrange(0, n + 1).drop_last() =~= uris.subrange(0, n));
        lemma_listing_error_stays(root, uris, n + 1);
    } else {
        assert(uris.subrange(0, n) =~= uris);
    }
}

impl PassRepository {
    /// Lists the entries of a document tree from the documents found in it: every
    /// document whose URI ends with `.gpg` makes an entry, and `pass_root` becomes
    /// the last used root. When the documents could not be listed, the user is told
    /// why and nothing changes.
    pub fn fetch_uri_entries_for(&mut self, pass_root: &str, listing: Result<Vec<String>, String>, notifications: &mut Notifications)
        requires
            listing matches Ok(uris) ==> uri_listing(pass_root@, string_views(uris@)) is Ok,
        ensures
            match listing {
                Ok(uris) => {
                    &&& uri_listing(pass_root@, string_views(uris@)) == Ok::<Seq<PassEntryView>, EntryError>(final(self)@.entries)
                    &&& final(self)@.last_used_root == Some(pass_root@)
                    &&& final(notifications)@ == old(notifications)@
                },
                Err(e) => {
                    &&& final(self)@ == old(self)@
                    &&& final(notifications)@ == pushed(old(notifications)@, listing_error(pass_root@, e@))
                },
            },
    {
        match listing {
            Ok(uris) => match uri_entries(pass_root, &uris) {
                Ok(entries) => {
                    self.set_entries(entries, pass_root);
                },
                Err(_) => {
                    assert(false);
                },
            },
            Err(e) => {
                let head = concat_strs("unable to retrieve list of GPG files of ", pass_root);
                let head = concat_strs(head.as_str(), ": ");
                let text = concat_strs(head.as_str(), e.as_str());
                push_message(notifications, Message::new(text, Kind::Error));
            },
        }
    }

    /// Like `fetch_uri_entries_for`, but when a `.gpg` document of the listing makes
    /// no entry, the reason is returned and nothing changes.
    pub fn try_fetch_uri_entries_for(
        &mut self,
        pass_root: &str,
        listing: Result<Vec<String>, String>,
        notifications: &mut Notifications,
    ) -> (r: Result<(), EntryError>)
        ensures
            match listing {
                Ok(uris) => match uri_listing(pass_root@, string_views(uris@)) {
                    Ok(es) => {
                        &&& r is Ok
                        &&& final(self)@.entries == es
                        &&& final(self)@.last_used_root == Some(pass_root@)
                        &&& final(notifications)@ == old(notifications)@
                    },
                    Err(k) => {
                        &&& r == Err::<(), EntryError>(k)
                        &&& final(self)@ == old(self)@
                        &&& final(notifications)@ == old(notifications)@
                    },
                },
                Err(e) => {
                    &&& r is Ok
                    &&& final(self)@ == old(self)@
                    &&& final(notifications)@ == pushed(old(notifications)@, listing_error(pass_root@, e@))
                },
            },
    {
        if let Ok(uris) = &listing {
            if let Err(k) = uri_entries(pass_root, uris) {
                return Err(k);
            }
        }
        self.fetch_uri_entries_for(pass_root, listing, notifications);
        Ok(())
    }
}

/// What stands for the copied text in an error description.
pub open spec fn mask() -> Seq<char> {
    seq!['*', '*', '*', '*']
}

/// `text` with every occurrence of `secret`, taken from the left without overlap,
/// replaced by the mask (`str::replace`); an empty `secret` occurs before every
/// character and at the end.
pub open spec fn masked(text: Seq<char>, secret: Seq<char>) -> Seq<char>
    decreases text.len(),
{
    if text.len() == 0 {
        if secret.len() == 0 {
            mask()
        } else {
            Seq::empty()
        }
    } else if secret.len() == 0 {
        mask() + seq![text[0]] + masked(text.skip(1), secret)
    } else if secret.is_prefix_of(text) {
        mask() + masked(text.skip(secret.len() as int), secret)
    } else {
        seq![text[0]] + masked(text.skip(1), secret)
    }
}

/// Whether `p` occurs in `t` at position `i`.
fn occurs_at(t: &Vec<char>, i: usize, p: &Vec<char>) -> (r: bool)
    requires
        i <= t@.len(),
    ensures
        r == p@.is_prefix_of(t@.skip(i as int)),
{
    let n = t.len();
    if p.len() > n - i {
        return false;
    }
    let mut j: usize = 0;
    while j < p.len()
        invariant
            n == t@.len(),
            i + p@.len() <= t@.len(),
            j <= p@.len(),
            forall|k: int| 0 <= k < j ==> p@[k] == t@[i + k],
        decreases p@.len() - j,
    {
        if p[j] != t[i + j] {
            assert(t@.skip(i as int)[j as int] == t@[i + j]);
            return false;
        }
        j = j + 1;
    }
    true
}

fn push_mask(out: &mut Vec<char>)
    ensures
        final(out)@ == old(out)@ + mask(),
{
    out.push('*');
    out.push('*');
    out.push('*');
    out.push('*');
    assert(out@ =~= old(out)@ + mask());
}

/// An error description with the copied text masked out, so that a failed copy
/// does not show what was being copied.
pub fn masked_description(description: &str, copied: &str) -> (r: String)
    ensures
        r@ == masked(description@, copied@),
{
    let t = chars_of(description);
    let p = chars_of(copied);
    let mut out: Vec<char> = Vec::new();
    let mut i: usize = 0;
    assert(t@.skip(0) =~= t@);
    while i < t.len()
        invariant
            i <= t@.len(),
            out@ + masked(t@.skip(i as int), p@) == masked(t@, p@),
        decreases t@.len() - i,
    {
        let ghost rest = t@.skip(i as int);
        let ghost before = out@;
        if p.len() == 0 {
            push_mask(&mut out);
            out.push(t[i]);
            assert(rest.skip(1) =~= t@.skip(i + 1));
            assert(before + (mask() + seq![rest[0]] + masked(rest.skip(1), p@)) =~= out@ + masked(t@.skip(i + 1), p@));
            i = i + 1;
        } else if occurs_at(&t, i, &p) {
            push_mask(&mut out);
            assert(rest.skip(p@.len() as int) =~= t@.skip(i + p@.len()));
            assert(before + (mask() + masked(rest.skip(p@.len() as int), p@)) =~= out@ + masked(t@.skip(i + p@.len()), p@));
            i = i + p.len();
        } else {
            out.push(t[i]);
            assert(rest.skip(1) =~= t@.skip(i + 1));
            assert(before + (seq![rest[0]] + masked(rest.skip(1), p@)) =~= out@ + masked(t@.skip(i + 1), p@));
            i = i + 1;
        }
    }
    if p.len() == 0 {
        push_mask(&mut out);
    }
    assert(out@ =~= masked(t@, p@));
    crate::text::string_of(&out)
}

/// When a listing makes entries, every `.gpg` document in it makes one of them,
/// at any depth below the root: the entry its URI makes.
pub proof fn law_every_gpg_document_is_listed(root: Seq<char>, uris: Seq<Seq<char>>, i: int)
    requires
        0 <= i < uris.len(),
        is_gpg_name(uris[i]),
        uri_listing(root, uris) is Ok,
    ensures
        uri_entry(root, uris[i]) is Ok,
        exists|k: int| 0 <= k < uri_listing(root, uris)->Ok_0.len()
            && #[trigger] uri_listing(root, uris)->Ok_0[k] == uri_entry(root, uris[i])->Ok_0,
    decreases uris.len(),
{
    let rest = uris.drop_last();
    assert(uri_listing(root, rest) is Ok);
    let before = uri_listing(root, rest)->Ok_0;
    if i == uris.len() - 1 {
        assert(uris.last() == uris[i]);
        let k = before.len() as int;
        assert(uri_listing(root, uris)->Ok_0[k] == uri_entry(root, uris[i])->Ok_0);
    } else {
        assert(rest[i] == uris[i]);
        law_every_gpg_document_is_listed(root, rest, i);
        let k = choose|k: int| 0 <= k < before.len() && #[trigger] before[k] == uri_entry(root, uris[i])->Ok_0;
        assert(uri_listing(root, uris)->Ok_0[k] == before[k]);
    }
}

} // verus!
