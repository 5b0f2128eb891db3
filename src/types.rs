use std::collections::HashMap;
use vstd::prelude::*;
use vstd::string::*;

verus! {

/// Kind of an ingested event, by its collection; `Global` names the filters
/// that run before every type's own, `Unknown` anything not recognised.
#[derive(PartialEq, Eq, Structural, Clone, Copy, Debug, Hash)]
pub enum ATEventType {
    Post,
    Repost,
    Follow,
    Like,
    Block,
    Reply,
    Global,
    Unknown,
}

/// Event type of a collection identifier.
pub open spec fn collection_type(c: Seq<char>) -> ATEventType {
    if c == "app.bsky.feed.post"@ {
        ATEventType::Post
    } else if c == "app.bsky.feed.repost"@ {
        ATEventType::Repost
    } else if c == "app.bsky.feed.like"@ {
        ATEventType::Like
    } else if c == "app.bsky.graph.follow"@ {
        ATEventType::Follow
    } else if c == "app.bsky.graph.block"@ {
        ATEventType::Block
    } else {
        ATEventType::Unknown
    }
}

/// A decoded firehose message.
#[derive(Default, Debug, Clone, PartialEq)]
pub struct BskyEvent {
    pub did: String,
    pub time_us: i64,
    pub kind: String,
    pub type_field: Option<String>,
    pub commit: Option<Commit>,
}

/// The repository change an event carries.
#[derive(Default, Debug, Clone, PartialEq)]
pub struct Commit {
    pub rev: String,
    pub operation: String,
    pub collection: String,
    pub rkey: String,
    pub record: Option<Record>,
    pub cid: Option<String>,
}

/// Things that can be classified by the collection they belong to.
pub trait CommitTypeable {
    spec fn spec_type(&self) -> ATEventType;

    fn get_type(&self) -> (r: ATEventType)
        ensures
            r == self.spec_type(),
    ;
}

impl CommitTypeable for Commit {
    open spec fn spec_type(&self) -> ATEventType {
        collection_type(self.collection@)
    }

    fn get_type(&self) -> (r: ATEventType) {
        if self.collection == String::from_str("app.bsky.feed.post") {
            ATEventType::Post
        } else if self.collection == String::from_str("app.bsky.feed.repost") {
            ATEventType::Repost
        } else if self.collection == String::from_str("app.bsky.feed.like") {
            ATEventType::Like
        } else if self.collection == String::from_str("app.bsky.graph.follow") {
            ATEventType::Follow
        } else if self.collection == String::from_str("app.bsky.graph.block") {
            ATEventType::Block
        } else {
            ATEventType::Unknown
        }
    }
}

impl CommitTypeable for Option<Commit> {
    open spec fn spec_type(&self) -> ATEventType {
        match self {
            Some(c) => collection_type(c.collection@),
            None => ATEventType::Unknown,
        }
    }

    fn get_type(&self) -> (r: ATEventType) {
        match self {
            Some(c) => c.get_type(),
            None => ATEventType::Unknown,
        }
    }
}

/// The record payload of a commit; every part is optional.
#[derive(Default, Debug, Clone, PartialEq)]
pub struct Record {
    pub type_field: Option<String>,
    pub created_at: String,
    pub subject: Option<Subj>,
    pub lang: Option<String>,
    pub langs: Option<Vec<String>>,
    pub facets: Option<Vec<Facet>>,
    pub text: Option<String>,
    pub reply: Option<Reply>,
    pub embed: Option<Embed>,
    pub images: Option<Vec<Image>>,
}

#[derive(Default, Debug, Clone, PartialEq)]
pub struct Facet {
    pub index: Option<Index>,
    pub features: Option<Vec<Feature>>,
}

#[derive(Default, Debug, Clone, PartialEq)]
pub struct Index {
    pub byte_start: u64,
    pub byte_end: u64,
}

#[derive(Default, Debug, Clone, PartialEq)]
pub struct Feature {
    pub type_field: Option<String>,
    pub uri: Option<String>,
}

#[derive(Default, Debug, Clone, PartialEq)]
pub struct Image {
    pub alt: Option<String>,
    pub aspect_ratio: Option<HashMap<i64, i64>>,
    pub image: Option<Img>,
}

#[derive(Default, Debug, Clone, PartialEq)]
pub struct ImageInternal {
    pub type_field: Option<String>,
    pub reff: Option<Ref>,
    pub mime_type: String,
    pub size: u64,
}

#[derive(Default, Debug, Clone, PartialEq)]
pub struct Ref {
    pub link: String,
}

#[derive(Default, Debug, Clone, PartialEq)]
pub struct Embed {
    pub type_field: Option<String>,
    pub uri: Option<String>,
    pub embedded: Option<Embd>,
    pub external: Option<External>,
}

#[derive(Default, Debug, Clone, PartialEq)]
pub struct External {
    pub title: Option<String>,
    pub uri: Option<String>,
    pub description: Option<String>,
}

/// The thread a reply belongs to.
#[derive(Default, Debug, Clone, PartialEq)]
pub struct Reply {
    pub parent: Parent,
    pub root: Parent,
}

#[derive(Default, Debug, Clone, PartialEq)]
pub struct Parent {
    pub cid: String,
    pub uri: String,
}

/// A subject given by reference (likes, reposts).
#[derive(Default, Debug, Clone, PartialEq)]
pub struct Subject {
    pub cid: Option<String>,
    pub uri: String,
}

/// A record's subject: a bare DID (follows, blocks) or a reference to a record.
#[derive(Debug, Clone, PartialEq)]
pub enum Subj {
    T1(String),
    T2(Subject),
}

#[derive(Debug, Clone, PartialEq)]
pub enum Img {
    T1(String),
    T2(ImageInternal),
}

#[derive(Debug, Clone, PartialEq)]
pub enum Embd {
    T1(String),
    T2(Subject),
}

/// A page of follow records from the repository listing endpoint.
#[derive(Default, Debug, Clone, PartialEq)]
pub struct FollowsResp {
    pub cursor: Option<String>,
    pub records: Vec<Follow>,
}

#[derive(Default, Debug, Clone, PartialEq)]
pub struct Follow {
    pub uri: String,
    pub cid: String,
    pub value: FollowVal,
}

#[derive(Default, Debug, Clone, PartialEq)]
pub struct Block {
    pub uri: String,
    pub cid: String,
    pub value: FollowVal,
}

/// A page of block records from the repository listing endpoint.
#[derive(Default, Debug, Clone, PartialEq)]
pub struct BlocksResp {
    pub cursor: Option<String>,
    pub records: Vec<Block>,
}

#[derive(Default, Debug, Clone, PartialEq)]
pub struct FollowVal {
    pub type_field: Option<String>,
    pub subject: String,
    pub created_at: String,
}

/// A listed record that names a subject DID and has a URI of its own.
pub trait Subjectable {
    spec fn spec_subject(&self) -> Seq<char>;

    spec fn spec_uri(&self) -> Seq<char>;

    fn subject(&self) -> (r: &str)
        ensures
            r@ == self.spec_subject(),
    ;

    fn uri(&self) -> (r: &str)
        ensures
            r@ == self.spec_uri(),
    ;
}

impl Subjectable for Follow {
    open spec fn spec_subject(&self) -> Seq<char> {
        self.value.subject@
    }

    open spec fn spec_uri(&self) -> Seq<char> {
        self.uri@
    }

    fn subject(&self) -> (r: &str) {
        self.value.subject.as_str()
    }

    fn uri(&self) -> (r: &str) {
        self.uri.as_str()
    }
}

impl Subjectable for Block {
    open spec fn spec_subject(&self) -> Seq<char> {
        self.value.subject@
    }

    open spec fn spec_uri(&self) -> Seq<char> {
        self.uri@
    }

    fn subject(&self) -> (r: &str) {
        self.value.subject.as_str()
    }

    fn uri(&self) -> (r: &str) {
        self.uri.as_str()
    }
}

/// A page of listed records with an optional continuation cursor.
pub trait Recordable<V: Subjectable> {
    spec fn spec_records(&self) -> Seq<V>;

    spec fn spec_cursor(&self) -> Option<String>;

    fn records(&self) -> (r: &Vec<V>)
        ensures
            r@ == self.spec_records(),
    ;

    fn cursor(&self) -> (r: &Option<String>)
        ensures
            *r == self.spec_cursor(),
    ;
}

impl Recordable<Follow> for FollowsResp {
    open spec fn spec_records(&self) -> Seq<Follow> {
        self.records@
    }

    open spec fn spec_cursor(&self) -> Option<String> {
        self.cursor
    }

    fn records(&self) -> (r: &Vec<Follow>) {
        &self.records
    }

    fn cursor(&self) -> (r: &Option<String>) {
        &self.cursor
    }
}

impl Recordable<Block> for BlocksResp {
    open spec fn spec_records(&self) -> Seq<Block> {
        self.records@
    }

    open spec fn spec_cursor(&self) -> Option<String> {
        self.cursor
    }

    fn records(&self) -> (r: &Vec<Block>) {
        &self.records
    }

    fn cursor(&self) -> (r: &Option<String>) {
        &self.cursor
    }
}

/// The listing endpoint said the repository holds no such records.
#[derive(Debug, Clone, Copy, PartialEq, Eq, Structural)]
pub struct RecNotFound {}

impl RecNotFound {
    /// The error's message.
    pub fn to_string(&self) -> (r: String)
        ensures
            r@ == "RecordNotFound"@,
    {
        String::from_str("RecordNotFound")
    }
}

} // verus!
