//! The pass repository: its entries, matching entries against a search pattern,
//! and decrypting an entry into a username and a password.

use vstd::prelude::*;

use crate::crypto::{decrypt_message, decryption};
use crate::notifications::{push_message, pushed, Kind, Message, MessageView, Notifications, DEFAULT_MESSAGE_DURATION_MS};
use crate::paths::{
    file_stem, gpg_suffix, join, join_paths, law_gpg_file_parts, names_gpg_file, path_file_stem, path_names_gpg_file,
    path_without_extension, strip_root, strip_root_of, without_extension,
};
use crate::settings::GnuPGSecret;
use crate::text::{concat_strs, occurs_in, push_char, str_contains};

verus! {

/// Where an entry's file lies and its path relative to the repository root.
pub struct PassEntryView {
    pub origin: Seq<char>,
    pub relpath: Seq<char>,
}

/// A single entry of the pass repository: the path of an encrypted file within it.
/// `origin` is the repository root the file was found under, or, on Android,
/// the document URI of the file itself.
#[derive(Clone, Debug)]
pub struct PassEntry {
    origin: String,
    relpath: String,
}

impl View for PassEntry {
    type V = PassEntryView;

    closed spec fn view(&self) -> PassEntryView {
        PassEntryView { origin: self.origin@, relpath: self.relpath@ }
    }
}

/// What the user sees of an entry: its relative path without the file's extension.
pub open spec fn display_of(e: PassEntryView) -> Seq<char> {
    without_extension(e.relpath)
}

/// The username an entry stands for: the stem of its file name (`n/a` when it has none).
pub open spec fn username_of(e: PassEntryView) -> Seq<char> {
    match file_stem(e.relpath) {
        Some(stem) => stem,
        None => "n/a"@,
    }
}

/// An entry matches a pattern when the pattern occurs in what the user sees of it.
pub open spec fn entry_matches(e: PassEntryView, pattern: Seq<char>) -> bool {
    occurs_in(pattern, display_of(e))
}

/// The decrypted text of an entry without the one newline that ends it, if any.
pub open spec fn without_final_newline(text: Seq<char>) -> Seq<char> {
    if text.len() > 0 && text.last() == '\n' {
        text.drop_last()
    } else {
        text
    }
}

/// Removes the last character of a string (`String::pop`).
#[verifier::external_body]
fn pop_char(s: &mut String) -> (r: Option<char>)
    ensures
        old(s)@.len() == 0 ==> r is None && final(s)@ == old(s)@,
        old(s)@.len() > 0 ==> r == Some(old(s)@.last()) && final(s)@ == old(s)@.drop_last(),
{
    s.pop()
}

impl PassEntry {
    /// The entry at `relpath` below `origin`.
    pub fn new(origin: String, relpath: String) -> (r: Self)
        ensures
            r@ == (PassEntryView { origin: origin@, relpath: relpath@ }),
    {
        PassEntry { origin, relpath }
    }

    /// The entry's path relative to the repository root.
    pub fn entry_relpath(&self) -> (r: &str)
        ensures
            r@ == self@.relpath,
    {
        self.relpath.as_str()
    }

    /// Where the entry's file lies: the repository root, or the file's own URI.
    pub fn origin(&self) -> (r: &str)
        ensures
            r@ == self@.origin,
    {
        self.origin.as_str()
    }

    /// The path of the entry's file: its relative path joined to the repository root.
    pub fn file_path(&self) -> (r: String)
        ensures
            r@ == join(self@.origin, self@.relpath),
    {
        join_paths(self.origin.as_str(), self.relpath.as_str())
    }

    /// What the user sees of the entry: its relative path without the extension.
    pub fn display_name(&self) -> (r: String)
        ensures
            r@ == display_of(self@),
    {
        path_without_extension(self.relpath.as_str())
    }

    /// Whether `pattern` occurs in what the user sees of the entry.
    pub fn contains(&self, pattern: &str) -> (r: bool)
        ensures
            r == entry_matches(self@, pattern@),
    {
        let shown = self.display_name();
        str_contains(shown.as_str(), pattern)
    }

    /// The username the entry stands for: the stem of its file name.
    pub fn username(&self) -> (r: String)
        ensures
            r@ == username_of(self@),
    {
        match path_file_stem(self.relpath.as_str()) {
            Some(stem) => stem,
            None => "n/a".to_owned(),
        }
    }

    /// A copy of the entry.
    pub fn copy(&self) -> (r: Self)
        ensures
            r@ == self@,
    {
        PassEntry { origin: self.origin.clone(), relpath: self.relpath.clone() }
    }
}

/// The username and password of an entry, from the decrypted text of its file:
/// the text is the password, less the newline that ends pass entries.
pub fn credentials_from_plaintext(entry: &PassEntry, plaintext: String) -> (r: (String, String))
    ensures
        r.0@ == username_of(entry@),
        r.1@ == without_final_newline(plaintext@),
{
    let mut password = plaintext;
    match pop_char(&mut password) {
        Some(last) => {
            if last != '\n' {
                push_char(&mut password, last);
                assert(password@ =~= plaintext@);
            }
        },
        None => {},
    }
    (entry.username(), password)
}

/// Why an entry could not be read back.
#[derive(Clone, Copy, Debug, PartialEq, Eq, Structural)]
pub enum RetrieveError {
    /// The file does not hold an OpenPGP message.
    MalformedMessage,
    /// The key and passphrase do not decrypt the message.
    CannotDecrypt,
    /// The decrypted content is not UTF-8 text.
    NotText,
}


/// The views of a sequence of entries.
pub open spec fn entry_views(es: Seq<PassEntry>) -> Seq<PassEntryView> {
    es.map_values(|e: PassEntry| e@)
}

/// The entries that match `pattern`, in their order.
pub open spec fn matching(es: Seq<PassEntryView>, pattern: Seq<char>) -> Seq<PassEntryView>
    decreases es.len(),
{
    if es.len() == 0 {
        Seq::empty()
    } else {
        let rest = matching(es.drop_last(), pattern);
        if entry_matches(es.last(), pattern) {
            rest.push(es.last())
        } else {
            rest
        }
    }
}

/// A path met while walking the repository directory, and whether it is a regular file.
pub struct WalkedPath {
    pub path: String,
    pub is_file: bool,
}

/// A walked path holds an entry when it is a file whose name ends with `.gpg`.
pub open spec fn is_candidate(w: WalkedPath) -> bool {
    w.is_file && names_gpg_file(w.path@)
}

/// Every entry file met in the walk lies under `root`.
pub open spec fn lies_under(root: Seq<char>, walked: Seq<WalkedPath>) -> bool {
    forall|i: int| 0 <= i < walked.len() && is_candidate(#[trigger] walked[i]) ==> strip_root(root, walked[i].path@) is Some
}

/// The entries a walk below `root` yields, in the order they were met.
pub open spec fn listed(root: Seq<char>, walked: Seq<WalkedPath>) -> Seq<PassEntryView>
    decreases walked.len(),
{
    if walked.len() == 0 {
        Seq::empty()
    } else {
        let rest = listed(root, walked.drop_last());
        let w = walked.last();
        if is_candidate(w) {
            rest.push(PassEntryView { origin: root, relpath: strip_root(root, w.path@)->0 })
        } else {
            rest
        }
    }
}

/// The entries known to the repository and the root they were last listed from.
pub struct RepositoryView {
    pub entries: Seq<PassEntryView>,
    pub last_used_root: Option<Seq<char>>,
}

/// The entries of a pass repository.
pub struct PassRepository {
    entries: Vec<PassEntry>,
    last_used_root: Option<String>,
}

impl View for PassRepository {
    type V = RepositoryView;

    closed spec fn view(&self) -> RepositoryView {
        RepositoryView {
            entries: entry_views(self.entries@),
            last_used_root: match self.last_used_root {
                Some(r) => Some(r@),
                None => None,
            },
        }
    }
}

/// The warning given when a walk finds no entry under `root`.
pub open spec fn no_entries_message(root: Seq<char>) -> MessageView {
    MessageView { text: "no entries found for "@ + root, duration_ms: DEFAULT_MESSAGE_DURATION_MS, kind: Kind::Warning }
}

impl PassRepository {
    /// An empty repository.
    pub fn new() -> (r: Self)
        ensures
            r@.entries == Seq::<PassEntryView>::empty(),
            r@.last_used_root is None,
    {
        let r = PassRepository { entries: Vec::new(), last_used_root: None };
        assert(r@.entries =~= Seq::<PassEntryView>::empty());
        r
    }

    /// Forgets all entries and the root they came from.
    pub fn clear(&mut self)
        ensures
            final(self)@.entries == Seq::<PassEntryView>::empty(),
            final(self)@.last_used_root is None,
    {
        self.entries.clear();
        self.last_used_root = None;
        assert(self@.entries =~= Seq::<PassEntryView>::empty());
    }

    /// The number of entries.
    pub fn entries_count(&self) -> (r: usize)
        ensures
            r == self@.entries.len(),
    {
        self.entries.len()
    }

    /// The root the entries were last listed from.
    pub fn last_used_root(&self) -> (r: Option<String>)
        ensures
            r matches Some(s) ==> self@.last_used_root == Some(s@),
            r is None ==> self@.last_used_root is None,
    {
        match &self.last_used_root {
            Some(root) => Some(root.clone()),
            None => None,
        }
    }

    /// The entry at position `i`.
    pub fn entry(&self, i: usize) -> (r: &PassEntry)
        requires
            i < self@.entries.len(),
        ensures
            r@ == self@.entries[i as int],
    {
        &self.entries[i]
    }

    /// All entries that match `pattern`, in the repository's order.
    pub fn get_by_pattern(&self, pattern: &str) -> (r: Vec<PassEntry>)
        ensures
            entry_views(r@) == matching(self@.entries, pattern@),
    {
        let mut found: Vec<PassEntry> = Vec::new();
        let mut i: usize = 0;
        while i < self.entries.len()
            invariant
                i <= self.entries@.len(),
                entry_views(found@) == matching(entry_views(self.entries@).subrange(0, i as int), pattern@),
            decreases self.entries@.len() - i,
        {
            let ghost all = entry_views(self.entries@);
            assert(all.subrange(0, i + 1).drop_last() =~= all.subrange(0, i as int));
            assert(all.subrange(0, i + 1).last() == self.entries@[i as int]@);
            if self.entries[i].contains(pattern) {
                let ghost before = found@;
                found.push(self.entries[i].copy());
                assert(entry_views(found@) =~= entry_views(before).push(self.entries@[i as int]@));
            }
            i = i + 1;
        }
        assert(entry_views(self.entries@).subrange(0, self.entries@.len() as int) =~= entry_views(self.entries@));
        found
    }

    /// Lists the entries found by walking the directory `pass_root`: every file
    /// whose name ends with `.gpg`, by its path below the root. When none is found
    /// the user is warned and the last used root is kept; otherwise `pass_root`
    /// becomes the last used root.
    pub fn fetch_entries_for(&mut self, pass_root: &str, walked: &Vec<WalkedPath>, notifications: &mut Notifications)
        requires
            lies_under(pass_root@, walked@),
        ensures
            final(self)@.entries == listed(pass_root@, walked@),
            listed(pass_root@, walked@).len() == 0 ==> final(self)@.last_used_root == old(self)@.last_used_root
                && final(notifications)@ == pushed(old(notifications)@, no_entries_message(pass_root@)),
            listed(pass_root@, walked@).len() > 0 ==> final(self)@.last_used_root == Some(pass_root@)
                && final(notifications)@ == old(notifications)@,
    {
        let mut found: Vec<PassEntry> = Vec::new();
        let mut i: usize = 0;
        while i < walked.len()
            invariant
                i <= walked@.len(),
                lies_under(pass_root@, walked@),
                entry_views(found@) == listed(pass_root@, walked@.subrange(0, i as int)),
            decreases walked@.len() - i,
        {
            let w = &walked[i];
            assert(walked@.subrange(0, i + 1).drop_last() =~= walked@.subrange(0, i as int));
            assert(walked@.subrange(0, i + 1).last() == walked@[i as int]);
            if w.is_file && path_names_gpg_file(w.path.as_str()) {
                assert(is_candidate(walked@[i as int]));
                match strip_root_of(pass_root, w.path.as_str()) {
                    Some(rel) => {
                        let ghost before = found@;
                        let entry = PassEntry::new(pass_root.to_owned(), rel);
                        found.push(entry);
                        assert(entry_views(found@) =~= entry_views(before).push(entry@));
                    },
                    None => {
                        assert(false);
                    },
                }
            }
            i = i + 1;
        }
        assert(walked@.subrange(0, walked@.len() as int) =~= walked@);
        self.entries = found;
        if self.entries.len() == 0 {
            let text = concat_strs("no entries found for ", pass_root);
            push_message(notifications, Message::new(text, Kind::Warning));
        } else {
            self.last_used_root = Some(pass_root.to_owned());
        }
    }

    /// Replaces the entries, listed from `pass_root`, which becomes the last used root.
    pub(crate) fn set_entries(&mut self, entries: Vec<PassEntry>, pass_root: &str)
        ensures
            final(self)@.entries == entry_views(entries@),
            final(self)@.last_used_root == Some(pass_root@),
    {
        self.entries = entries;
        self.last_used_root = Some(pass_root.to_owned());
    }

    /// Decrypts an entry from the bytes of its file with the given secret, and
    /// returns its username and password. The passphrase is wiped once used.
    pub fn retrieve(&self, entry: &PassEntry, encrypted: &[u8], secret: GnuPGSecret) -> (r: Result<(String, String), RetrieveError>)
        ensures
            match decryption(encrypted@, *secret.secret_key, secret.passphrase@) {
                Ok(text) => r matches Ok(c) && c.0@ == username_of(entry@) && c.1@ == without_final_newline(text),
                Err(e) => r == Err::<(String, String), RetrieveError>(e),
            },
    {
        let GnuPGSecret { secret_key, passphrase } = secret;
        let decrypted = decrypt_message(encrypted, secret_key, passphrase.as_str());
        clear_string(passphrase);
        match decrypted {
            Ok(text) => Ok(credentials_from_plaintext(entry, text)),
            Err(e) => Err(e),
        }
    }
}

/// The bytes of a string (`String::into_bytes`), which hold its UTF-8 encoding.
#[verifier::external_body]
fn string_into_bytes(s: String) -> (r: Vec<u8>)
    ensures
        r@ == vstd::utf8::encode_utf8(s@),
{
    s.into_bytes()
}

/// Keeps the compiler from seeing through a value (`std::hint::black_box`),
/// which it hands back unchanged.
#[verifier::external_body]
fn black_box_bytes(bytes: Vec<u8>) -> (r: Vec<u8>)
    ensures
        r@ == bytes@,
{
    std::hint::black_box(bytes)
}

/// Overwrites every byte with zero.
pub fn zero_bytes(bytes: &mut Vec<u8>)
    ensures
        final(bytes)@.len() == old(bytes)@.len(),
        forall|i: int| 0 <= i < final(bytes)@.len() ==> final(bytes)@[i] == 0,
{
    let mut i: usize = 0;
    while i < bytes.len()
        invariant
            i <= bytes@.len(),
            bytes@.len() == old(bytes)@.len(),
            forall|j: int| 0 <= j < i ==> bytes@[j] == 0,
        decreases bytes@.len() - i,
    {
        bytes.set(i, 0);
        i = i + 1;
    }
}

/// Wipes a sensitive string: its bytes are overwritten with zeros before the memory is freed.
pub fn clear_string(s: String) {
    let mut bytes = string_into_bytes(s);
    zero_bytes(&mut bytes);
    let wiped = black_box_bytes(bytes);
    assert(forall|i: int| 0 <= i < wiped@.len() ==> wiped@[i] == 0);
}


/// Exactly one newline ending the decrypted text is dropped, and nothing else.
pub proof fn law_one_final_newline_dropped(text: Seq<char>)
    ensures
        without_final_newline(text.push('\n')) == text,
        (text.len() == 0 || text.last() != '\n') ==> without_final_newline(text) == text,
{
    assert(text.push('\n').drop_last() =~= text);
}

/// Every listed entry stands for a file met in the walk whose name ends with
/// `.gpg`: its origin is the root, its relative path the file's path below the root.
pub proof fn law_listed_entries_are_gpg_files(root: Seq<char>, walked: Seq<WalkedPath>, k: int)
    requires
        lies_under(root, walked),
        0 <= k < listed(root, walked).len(),
    ensures
        listed(root, walked)[k].origin == root,
        exists|i: int| 0 <= i < walked.len() && is_candidate(#[trigger] walked[i])
            && strip_root(root, walked[i].path@) == Some(listed(root, walked)[k].relpath),
        listed(root, walked).len() <= walked.len(),
    decreases walked.len(),
{
    let rest = walked.drop_last();
    let before = listed(root, rest);
    assert forall|i: int| 0 <= i < rest.len() && is_candidate(#[trigger] rest[i]) implies strip_root(root, rest[i].path@) is Some by {
        assert(walked[i] == rest[i]);
    }
    if k < before.len() {
        law_listed_entries_are_gpg_files(root, rest, k);
        let i = choose|i: int| 0 <= i < rest.len() && is_candidate(#[trigger] rest[i])
            && strip_root(root, rest[i].path@) == Some(before[k].relpath);
        assert(walked[i] == rest[i]);
        assert(listed(root, walked)[k] == before[k]);
        assert(is_candidate(walked[i]) && strip_root(root, walked[i].path@) == Some(listed(root, walked)[k].relpath));
    } else {
        assert(is_candidate(walked.last()));
        let i = walked.len() - 1;
        assert(walked[i] == walked.last());
        assert(is_candidate(walked[i]) && strip_root(root, walked[i].path@) == Some(listed(root, walked)[k].relpath));
    }
    if before.len() > 0 {
        law_listed_entries_are_gpg_files(root, rest, 0);
    }
}

/// The username of an entry is its file's name less only the `.gpg` extension:
/// whatever dots the name holds stay (`john.doe.gpg` stands for `john.doe`).
pub proof fn law_username_is_file_name_without_gpg(origin: Seq<char>, dir: Seq<char>, name: Seq<char>)
    requires
        dir.len() == 0 || dir.last() == '/',
        name.len() > 0,
        forall|j: int| 0 <= j < name.len() ==> name[j] != '/',
    ensures
        username_of(PassEntryView { origin, relpath: dir + name + gpg_suffix() }) == name,
{
    law_gpg_file_parts(dir, name);
}

/// What the user sees of an entry is its relative path less only the `.gpg`
/// extension: its directories and every dot of the file's name stay.
pub proof fn law_display_is_path_without_gpg(origin: Seq<char>, dir: Seq<char>, name: Seq<char>)
    requires
        dir.len() == 0 || dir.last() == '/',
        name.len() > 0,
        forall|j: int| 0 <= j < name.len() ==> name[j] != '/',
    ensures
        display_of(PassEntryView { origin, relpath: dir + name + gpg_suffix() }) == dir + name,
{
    law_gpg_file_parts(dir, name);
}

/// An entry matches a pattern exactly when the pattern is a run of characters of
/// what the user sees of it, wherever the entry lies in the repository.
pub proof fn law_match_is_substring_of_display(e: PassEntryView, pattern: Seq<char>)
    ensures
        entry_matches(e, pattern) <==> exists|i: int|
            0 <= i && i + pattern.len() <= display_of(e).len()
                && #[trigger] display_of(e).subrange(i, i + pattern.len()) == pattern,
{
}

/// A search pattern finds the entry at `dir` + `name` + `.gpg` exactly when it is
/// a run of characters of `dir` + `name`, at the top of the repository as below.
pub proof fn law_match_on_path_without_gpg(origin: Seq<char>, dir: Seq<char>, name: Seq<char>, pattern: Seq<char>)
    requires
        dir.len() == 0 || dir.last() == '/',
        name.len() > 0,
        forall|j: int| 0 <= j < name.len() ==> name[j] != '/',
    ensures
        entry_matches(PassEntryView { origin, relpath: dir + name + gpg_suffix() }, pattern) <==> exists|i: int|
            0 <= i && i + pattern.len() <= (dir + name).len()
                && #[trigger] (dir + name).subrange(i, i + pattern.len()) == pattern,
{
    law_gpg_file_parts(dir, name);
}

/// Every file met in the walk whose name ends with `.gpg` is listed, at any depth
/// below the root, by its path below the root.
pub proof fn law_every_gpg_file_is_listed(root: Seq<char>, walked: Seq<WalkedPath>, i: int)
    requires
        0 <= i < walked.len(),
        is_candidate(walked[i]),
    ensures
        exists|k: int| 0 <= k < listed(root, walked).len()
            && #[trigger] listed(root, walked)[k] == (PassEntryView { origin: root, relpath: strip_root(root, walked[i].path@)->0 }),
    decreases walked.len(),
{
    let rest = walked.drop_last();
    let before = listed(root, rest);
    let target = PassEntryView { origin: root, relpath: strip_root(root, walked[i].path@)->0 };
    if i == walked.len() - 1 {
        assert(walked.last() == walked[i]);
        let k = before.len() as int;
        assert(listed(root, walked)[k] == target);
    } else {
        assert(rest[i] == walked[i]);
        law_every_gpg_file_is_listed(root, rest, i);
        let k = choose|k: int| 0 <= k < before.len() && #[trigger] before[k] == target;
        assert(listed(root, walked)[k] == before[k]);
    }
}

} // verus!
