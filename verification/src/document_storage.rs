//! Snapshots of the open documents, keyed by URI.

use fxhash::{FxHashMap, FxHasher};
use std::hash::BuildHasherDefault;
use vstd::prelude::*;

verus! {

/// The hasher of `fxhash`'s maps.
#[verifier::external_type_specification]
#[verifier::external_body]
pub struct ExFxHasher(FxHasher);

/// The hasher builder of `fxhash`'s maps.
#[verifier::external_type_specification]
#[verifier::external_body]
#[verifier::reject_recursive_types(H)]
pub struct ExBuildHasherDefault<H>(BuildHasherDefault<H>);

/// An `FxHashMap` from URI texts to document texts.
pub type DocumentMap = FxHashMap<String, String>;

/// What an `FxHashMap` from URI texts to document texts holds.
pub uninterp spec fn documents_of(m: FxHashMap<String, String>) -> Map<Seq<char>, Seq<char>>;

/// No documents at all.
pub open spec fn no_documents() -> Map<Seq<char>, Seq<char>> {
    Map::empty()
}

/// Creates an `FxHashMap` with `Default::default`. Claimed: it holds nothing.
#[verifier::external_body]
fn new_documents() -> (r: DocumentMap)
    ensures
        documents_of(r) == no_documents(),
{
    FxHashMap::default()
}

/// Calls `HashMap::insert` on an `FxHashMap`. Claimed: afterwards `uri`
/// maps to `text` and every other key is as before (`String` keys compare
/// and hash by their characters).
#[verifier::external_body]
fn insert_document(m: &mut FxHashMap<String, String>, uri: String, text: String)
    ensures
        documents_of(*final(m)) == documents_of(*old(m)).insert(uri@, text@),
{
    m.insert(uri, text);
}

/// Calls `HashMap::remove` on an `FxHashMap`. Claimed: afterwards `uri`
/// maps to nothing and every other key is as before.
#[verifier::external_body]
fn remove_document(m: &mut FxHashMap<String, String>, uri: &str)
    ensures
        documents_of(*final(m)) == documents_of(*old(m)).remove(uri@),
{
    m.remove(uri);
}

/// Calls `HashMap::get` on an `FxHashMap`. Claimed: the result is what the
/// map holds for `uri`.
#[verifier::external_body]
fn lookup_document<'a>(m: &'a FxHashMap<String, String>, uri: &str) -> (r: Option<&'a String>)
    ensures
        match r {
            Some(text) => documents_of(*m).contains_key(uri@) && documents_of(*m)[uri@] == text@,
            None => !documents_of(*m).contains_key(uri@),
        },
{
    m.get(uri)
}

/// What the documents `m` hold for `uri`.
pub open spec fn snapshot(m: Map<Seq<char>, Seq<char>>, uri: Seq<char>) -> Option<Seq<char>> {
    if m.contains_key(uri) {
        Some(m[uri])
    } else {
        None
    }
}

/// One call that edits the open documents: `open`, `change` or `close`,
/// with its URI and text.
pub enum DocumentEdit {
    Open(Seq<char>, Seq<char>),
    Change(Seq<char>, Seq<char>),
    Close(Seq<char>),
}

/// The documents after the edit `e`.
pub open spec fn apply_edit(docs: Map<Seq<char>, Seq<char>>, e: DocumentEdit) -> Map<Seq<char>, Seq<char>> {
    match e {
        DocumentEdit::Open(uri, text) => docs.insert(uri, text),
        DocumentEdit::Change(uri, text) => docs.insert(uri, text),
        DocumentEdit::Close(uri) => docs.remove(uri),
    }
}

/// The documents after the edits `edits`, in order.
pub open spec fn apply_edits(docs: Map<Seq<char>, Seq<char>>, edits: Seq<DocumentEdit>) -> Map<
    Seq<char>,
    Seq<char>,
>
    decreases edits.len(),
{
    if edits.len() == 0 {
        docs
    } else {
        apply_edit(apply_edits(docs, edits.drop_last()), edits.last())
    }
}

/// The text of the last `open` or `change` of `uri` among `edits` that no
/// `close` of `uri` follows; `None` where there is none.
pub open spec fn latest_text(edits: Seq<DocumentEdit>, uri: Seq<char>) -> Option<Seq<char>>
    decreases edits.len(),
{
    if edits.len() == 0 {
        None
    } else {
        match edits.last() {
            DocumentEdit::Open(u, text) => if u == uri {
                Some(text)
            } else {
                latest_text(edits.drop_last(), uri)
            },
            DocumentEdit::Change(u, text) => if u == uri {
                Some(text)
            } else {
                latest_text(edits.drop_last(), uri)
            },
            DocumentEdit::Close(u) => if u == uri {
                None
            } else {
                latest_text(edits.drop_last(), uri)
            },
        }
    }
}

/// Open document text snapshots keyed by URI.
#[derive(Debug)]
pub struct DocumentStorage {
    documents: FxHashMap<String, String>,
}

impl View for DocumentStorage {
    type V = Map<Seq<char>, Seq<char>>;

    closed spec fn view(&self) -> Map<Seq<char>, Seq<char>> {
        documents_of(self.documents)
    }
}

impl DocumentStorage {
    /// Create empty document storage.
    pub fn new() -> (r: Self)
        ensures
            r@ == no_documents(),
    {
        DocumentStorage { documents: new_documents() }
    }

    /// Store or replace full document content.
    pub fn open(&mut self, uri: String, content: String)
        ensures
            final(self)@ == old(self)@.insert(uri@, content@),
            final(self)@ == apply_edit(old(self)@, DocumentEdit::Open(uri@, content@)),
    {
        insert_document(&mut self.documents, uri, content);
    }

    /// Replace content for already-open document.
    pub fn change(&mut self, uri: String, change: String)
        ensures
            final(self)@ == old(self)@.insert(uri@, change@),
            final(self)@ == apply_edit(old(self)@, DocumentEdit::Change(uri@, change@)),
    {
        insert_document(&mut self.documents, uri, change);
    }

    /// Remove document snapshot.
    pub fn close(&mut self, uri: &str)
        ensures
            final(self)@ == old(self)@.remove(uri@),
            final(self)@ == apply_edit(old(self)@, DocumentEdit::Close(uri@)),
    {
        remove_document(&mut self.documents, uri);
    }

    /// Get current snapshot text.
    pub fn get(&self, uri: &str) -> (r: Option<&str>)
        ensures
            match r {
                Some(text) => snapshot(self@, uri@) == Some(text@),
                None => snapshot(self@, uri@) is None,
            },
    {
        match lookup_document(&self.documents, uri) {
            Some(text) => Some(text.as_str()),
            None => None,
        }
    }
}

impl Default for DocumentStorage {
    fn default() -> (r: Self)
        ensures
            r@ == no_documents(),
    {
        DocumentStorage::new()
    }
}

/// A document that was opened reads back as the text it was opened with,
/// and the snapshots of all other documents stay as they were.
pub proof fn law_get_after_open(docs: Map<Seq<char>, Seq<char>>, uri: Seq<char>, text: Seq<char>, other: Seq<char>)
    ensures
        snapshot(docs.insert(uri, text), uri) == Some(text),
        other != uri ==> snapshot(docs.insert(uri, text), other) == snapshot(docs, other),
{
}

/// Read-back over any history: after a new storage has seen the calls
/// `edits` of `open`, `change` and `close`, every URI reads back as the
/// text of its last `open` or `change` that no `close` of it followed, and
/// as absent where there is none.
pub proof fn law_read_back(edits: Seq<DocumentEdit>, uri: Seq<char>)
    ensures
        snapshot(apply_edits(no_documents(), edits), uri) == latest_text(edits, uri),
    decreases edits.len(),
{
    if edits.len() > 0 {
        law_read_back(edits.drop_last(), uri);
    }
}

/// A document that was closed reads back as absent, and the snapshots of
/// all other documents stay as they were.
pub proof fn law_get_after_close(docs: Map<Seq<char>, Seq<char>>, uri: Seq<char>, other: Seq<char>)
    ensures
        snapshot(docs.remove(uri), uri) is None,
        other != uri ==> snapshot(docs.remove(uri), other) == snapshot(docs, other),
{
}

/// Only the latest text of a document is kept: opening or changing it
/// twice leaves the snapshot of the second text, and closing after opening
/// is the same as closing alone.
pub proof fn law_latest_text_wins(docs: Map<Seq<char>, Seq<char>>, uri: Seq<char>, first: Seq<char>, second: Seq<char>)
    ensures
        docs.insert(uri, first).insert(uri, second) == docs.insert(uri, second),
        docs.insert(uri, first).remove(uri) == docs.remove(uri),
{
    assert(docs.insert(uri, first).insert(uri, second) =~= docs.insert(uri, second));
    assert(docs.insert(uri, first).remove(uri) =~= docs.remove(uri));
}

} // verus!
