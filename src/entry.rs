//! The stored record and its classification.

use vstd::prelude::*;

verus! {

/// Classification of a stored record, used to filter listings.
#[derive(Debug, PartialEq, Eq)]
pub enum MemoryCategory {
    /// Long-term facts, preferences and decisions.
    Core,
    /// Daily session logs and activity summaries.
    Daily,
    /// Conversation context and chat history.
    Conversation,
    /// A category named by the caller.
    Custom(String),
}

/// The mathematical value of a [`MemoryCategory`].
pub enum CategoryView {
    Core,
    Daily,
    Conversation,
    Custom(Seq<char>),
}

impl View for MemoryCategory {
    type V = CategoryView;

    open spec fn view(&self) -> CategoryView {
        match self {
            MemoryCategory::Core => CategoryView::Core,
            MemoryCategory::Daily => CategoryView::Daily,
            MemoryCategory::Conversation => CategoryView::Conversation,
            MemoryCategory::Custom(name) => CategoryView::Custom(name@),
        }
    }
}

impl Clone for MemoryCategory {
    fn clone(&self) -> (r: Self)
        ensures
            r@ == self@,
    {
        match self {
            MemoryCategory::Core => MemoryCategory::Core,
            MemoryCategory::Daily => MemoryCategory::Daily,
            MemoryCategory::Conversation => MemoryCategory::Conversation,
            MemoryCategory::Custom(name) => MemoryCategory::Custom(name.clone()),
        }
    }
}


impl MemoryCategory {
    /// The lower-case name under which the category is shown and filtered.
    pub fn label(&self) -> (r: String)
        ensures
            r@ == category_label(self@),
    {
        match self {
            MemoryCategory::Core => String::from_str("core"),
            MemoryCategory::Daily => String::from_str("daily"),
            MemoryCategory::Conversation => String::from_str("conversation"),
            MemoryCategory::Custom(name) => name.clone(),
        }
    }
}

/// The displayed name of a category.
pub open spec fn category_label(c: CategoryView) -> Seq<char> {
    match c {
        CategoryView::Core => "core"@,
        CategoryView::Daily => "daily"@,
        CategoryView::Conversation => "conversation"@,
        CategoryView::Custom(name) => name,
    }
}

/// A stored record.
///
/// `score` carries the IEEE-754 bit pattern of the relevance score in
/// `[0.0, 1.0]` that a search attached; it is absent on direct fetches.
#[derive(Debug)]
pub struct MemoryEntry {
    /// Unique identifier, assigned when the record is materialized.
    pub id: String,
    /// Caller-supplied key for exact lookup and deletion.
    pub key: String,
    /// The text payload.
    pub content: String,
    /// Classification used for filtering.
    pub category: MemoryCategory,
    /// Creation time, ISO-8601.
    pub timestamp: String,
    /// Optional correlation identifier of the session that created it.
    pub session_id: Option<String>,
    /// Bit pattern of the optional relevance score.
    pub score: Option<u64>,
}

/// The mathematical value of a [`MemoryEntry`].
pub struct EntryView {
    pub id: Seq<char>,
    pub key: Seq<char>,
    pub content: Seq<char>,
    pub category: CategoryView,
    pub timestamp: Seq<char>,
    pub session_id: Option<Seq<char>>,
    pub score: Option<u64>,
}

pub open spec fn opt_string_view(o: Option<String>) -> Option<Seq<char>> {
    match o {
        Some(s) => Some(s@),
        None => None,
    }
}

impl View for MemoryEntry {
    type V = EntryView;

    open spec fn view(&self) -> EntryView {
        EntryView {
            id: self.id@,
            key: self.key@,
            content: self.content@,
            category: self.category@,
            timestamp: self.timestamp@,
            session_id: opt_string_view(self.session_id),
            score: self.score,
        }
    }
}

impl Clone for MemoryEntry {
    fn clone(&self) -> (r: Self)
        ensures
            r@ == self@,
    {
        let session_id = match &self.session_id {
            Some(s) => Some(s.clone()),
            None => None,
        };
        MemoryEntry {
            id: self.id.clone(),
            key: self.key.clone(),
            content: self.content.clone(),
            category: self.category.clone(),
            timestamp: self.timestamp.clone(),
            session_id,
            score: self.score,
        }
    }
}

impl MemoryEntry {
    /// A fresh record for `key`, with a new identifier and the current time,
    /// no session and no score.
    pub fn materialize(key: &str, content: &str, category: MemoryCategory) -> (r: MemoryEntry)
        ensures
            r.key@ == key@,
            r.content@ == content@,
            r.category@ == category@,
            r.session_id is None,
            r.score is None,
    {
        MemoryEntry {
            id: fresh_id(),
            key: String::from_str(key),
            content: String::from_str(content),
            category,
            timestamp: now_rfc3339(),
            session_id: None,
            score: None,
        }
    }
}

/// Relies on `uuid::Uuid::new_v4` and its hyphenated `Display`: a random
/// identifier, of which nothing is promised.
#[verifier::external_body]
fn fresh_id() -> String {
    uuid::Uuid::new_v4().to_string()
}

/// Relies on `chrono::Local::now` and `DateTime::to_rfc3339`: the current
/// local time, of which nothing is promised.
#[verifier::external_body]
fn now_rfc3339() -> String {
    chrono::Local::now().to_rfc3339()
}

} // verus!
