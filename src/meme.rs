use vstd::prelude::*;

verus! {

/// A stored meme: caption, tags, image reference, optional wallet address and
/// its two counters. The `id` is assigned by the store.
#[derive(Debug)]
pub struct Meme {
    pub id: u64,
    pub caption: String,
    pub tags: String,
    pub image: String,
    pub evm_address: Option<String>,
    pub likes: u64,
    pub comment_count: u64,
}

/// The mathematical value of a `Meme`.
pub struct MemeView {
    pub id: nat,
    pub caption: Seq<char>,
    pub tags: Seq<char>,
    pub image: Seq<char>,
    pub evm_address: Option<Seq<char>>,
    pub likes: nat,
    pub comment_count: nat,
}

pub open spec fn opt_text_view(o: Option<String>) -> Option<Seq<char>> {
    match o {
        Some(s) => Some(s@),
        None => None,
    }
}

impl View for Meme {
    type V = MemeView;

    open spec fn view(&self) -> MemeView {
        MemeView {
            id: self.id as nat,
            caption: self.caption@,
            tags: self.tags@,
            image: self.image@,
            evm_address: opt_text_view(self.evm_address),
            likes: self.likes as nat,
            comment_count: self.comment_count as nat,
        }
    }
}

/// The views of a sequence of records.
pub open spec fn views(s: Seq<Meme>) -> Seq<MemeView> {
    s.map_values(|m: Meme| m@)
}

/// A copy of an optional text.
pub fn copy_opt_text(o: &Option<String>) -> (r: Option<String>)
    ensures
        opt_text_view(r) == opt_text_view(*o),
{
    match o {
        Some(s) => Some(s.clone()),
        None => None,
    }
}

impl Meme {
    /// A copy of this record with the same view.
    pub fn duplicate(&self) -> (r: Meme)
        ensures
            r@ == self@,
    {
        Meme {
            id: self.id,
            caption: self.caption.clone(),
            tags: self.tags.clone(),
            image: self.image.clone(),
            evm_address: copy_opt_text(&self.evm_address),
            likes: self.likes,
            comment_count: self.comment_count,
        }
    }
}

/// A record as the ingestion produces it, before the store gives it an id.
#[derive(Debug)]
pub struct MemeDraft {
    pub caption: String,
    pub tags: String,
    pub image: String,
    pub evm_address: Option<String>,
}

/// The mathematical value of a `MemeDraft`.
pub struct DraftView {
    pub caption: Seq<char>,
    pub tags: Seq<char>,
    pub image: Seq<char>,
    pub evm_address: Option<Seq<char>>,
}

impl View for MemeDraft {
    type V = DraftView;

    open spec fn view(&self) -> DraftView {
        DraftView {
            caption: self.caption@,
            tags: self.tags@,
            image: self.image@,
            evm_address: opt_text_view(self.evm_address),
        }
    }
}

/// The record that a draft becomes under the given id: counters start at zero.
pub open spec fn record_of(d: DraftView, id: nat) -> MemeView {
    MemeView {
        id: id,
        caption: d.caption,
        tags: d.tags,
        image: d.image,
        evm_address: d.evm_address,
        likes: 0,
        comment_count: 0,
    }
}

/// Names one meme in a request.
#[derive(Debug, Clone, Copy, PartialEq, Eq, Structural)]
pub struct Info {
    pub id: u64,
}

/// What the health endpoint reports.
#[derive(Debug)]
pub struct HealthStatus {
    pub status: String,
    pub message: String,
    pub version: String,
}

impl HealthStatus {
    /// The report of a running service.
    pub fn current() -> (r: HealthStatus)
        ensures
            r.status@ == "ok"@,
            r.message@ == "Rust Meme API is running!"@,
            r.version@ == "1.0.0"@,
    {
        HealthStatus {
            status: "ok".to_owned(),
            message: "Rust Meme API is running!".to_owned(),
            version: "1.0.0".to_owned(),
        }
    }
}

/// The sample records the service starts with.
pub fn sample_memes() -> (r: Vec<Meme>)
    ensures
        r@.len() == 2,
        r@[0].id == 1 && r@[0].likes == 12 && r@[0].comment_count == 3,
        r@[0].caption@ == "Doge"@,
        r@[0].tags@ == "classic, crypto"@,
        r@[0].image@ == "https://i.kym-cdn.com/entries/icons/original/000/013/564/doge.jpg"@,
        opt_text_view(r@[0].evm_address) == Some("0x39D0F19273036293764262aCb5115F223aEF8f79"@),
        r@[1].id == 2 && r@[1].likes == 8 && r@[1].comment_count == 1,
        r@[1].caption@ == "Pepe the Frog"@,
        r@[1].tags@ == "classic, rare"@,
        r@[1].image@ == "https://i.kym-cdn.com/entries/icons/original/000/017/618/pepefroggie.jpg"@,
        opt_text_view(r@[1].evm_address) == Some("0x2555ea784eBDb81C1704f8b749Dbbc68aDaCB723"@),
{
    let mut r: Vec<Meme> = Vec::new();
    r.push(Meme {
        id: 1,
        caption: "Doge".to_owned(),
        tags: "classic, crypto".to_owned(),
        image: "https://i.kym-cdn.com/entries/icons/original/000/013/564/doge.jpg".to_owned(),
        evm_address: Some("0x39D0F19273036293764262aCb5115F223aEF8f79".to_owned()),
        likes: 12,
        comment_count: 3,
    });
    r.push(Meme {
        id: 2,
        caption: "Pepe the Frog".to_owned(),
        tags: "classic, rare".to_owned(),
        image: "https://i.kym-cdn.com/entries/icons/original/000/017/618/pepefroggie.jpg".to_owned(),
        evm_address: Some("0x2555ea784eBDb81C1704f8b749Dbbc68aDaCB723".to_owned()),
        likes: 8,
        comment_count: 1,
    });
    r
}

} // verus!
