use vstd::prelude::*;
use vstd::utf8::{valid_utf8, decode_utf8};
use crate::meme::{MemeDraft, DraftView, opt_text_view, record_of};
use crate::text::{text_from_utf8, decimal, push_decimal, lemma_decimal_injective, lemma_decimal_no_dash};

verus! {

/// The role of a named part of a submitted form.
#[derive(Debug, Clone, Copy, PartialEq, Eq, Structural)]
pub enum FieldKind {
    Caption,
    Tags,
    ImageUrl,
    EvmAddress,
    /// The uploaded binary image.
    Image,
    /// A part of any other name: skipped.
    Ignored,
}

/// Why a submission could not become a record.
#[derive(Debug, Clone, Copy, PartialEq, Eq, Structural)]
pub enum IngestError {
    /// A text part is not valid UTF-8.
    InvalidText,
    /// Neither an uploaded image nor an image URL was given.
    MissingImage,
}

/// The role of the part named `name`.
pub open spec fn kind_of(name: Seq<char>) -> FieldKind {
    if name == "caption"@ {
        FieldKind::Caption
    } else if name == "tags"@ {
        FieldKind::Tags
    } else if name == "image_url"@ {
        FieldKind::ImageUrl
    } else if name == "evm_address"@ {
        FieldKind::EvmAddress
    } else if name == "image"@ {
        FieldKind::Image
    } else {
        FieldKind::Ignored
    }
}

/// The role of the part named `name`.
pub fn field_kind(name: &str) -> (r: FieldKind)
    ensures
        r == kind_of(name@),
{
    let n = name.to_owned();
    if n == "caption".to_owned() {
        FieldKind::Caption
    } else if n == "tags".to_owned() {
        FieldKind::Tags
    } else if n == "image_url".to_owned() {
        FieldKind::ImageUrl
    } else if n == "evm_address".to_owned() {
        FieldKind::EvmAddress
    } else if n == "image".to_owned() {
        FieldKind::Image
    } else {
        FieldKind::Ignored
    }
}

/// The file name made of a stamp and a serial number.
pub open spec fn upload_name(stamp: nat, serial: nat) -> Seq<char> {
    "upload-"@ + decimal(stamp) + "-"@ + decimal(serial)
}

/// Two different pairs of stamp and serial number never give the same file
/// name, so uploads named from distinct pairs cannot overwrite each other.
pub proof fn lemma_upload_names_distinct(s1: nat, n1: nat, s2: nat, n2: nat)
    requires
        s1 != s2 || n1 != n2,
    ensures
        upload_name(s1, n1) != upload_name(s2, n2),
{
    reveal_strlit("upload-");
    reveal_strlit("-");
    if upload_name(s1, n1) == upload_name(s2, n2) {
        let x = upload_name(s1, n1);
        let a1 = decimal(s1);
        let a2 = decimal(s2);
        let l1 = a1.len() as int;
        let l2 = a2.len() as int;
        lemma_decimal_no_dash(s1);
        lemma_decimal_no_dash(s2);
        lemma_decimal_no_dash(n1);
        lemma_decimal_no_dash(n2);
        assert(x[7 + l1] == '-');
        assert(upload_name(s2, n2)[7 + l2] == '-');
        if l1 < l2 {
            assert(upload_name(s2, n2)[7 + l1] == a2[l1]);
        } else if l2 < l1 {
            assert(x[7 + l2] == a1[l2]);
        }
        assert(l1 == l2);
        assert(a1 =~= x.subrange(7, 7 + l1));
        assert(a2 =~= upload_name(s2, n2).subrange(7, 7 + l2));
        lemma_decimal_injective(s1, s2);
        assert(decimal(n1) =~= x.subrange(8 + l1, x.len() as int));
        assert(decimal(n2) =~= upload_name(s2, n2).subrange(8 + l2, x.len() as int));
        lemma_decimal_injective(n1, n2);
    }
}

/// The name under which an uploaded image is stored: built from the server's
/// start stamp and a serial number, never from anything the client sent.
pub fn upload_file_name(stamp: u64, serial: u64) -> (r: String)
    ensures
        r@ == upload_name(stamp as nat, serial as nat),
{
    let mut r = "upload-".to_owned();
    push_decimal(&mut r, stamp);
    r.append("-");
    push_decimal(&mut r, serial);
    assert(r@ =~= upload_name(stamp as nat, serial as nat));
    r
}

/// The path under which the file `file_name` of the uploads area is served.
pub fn upload_reference(file_name: &str) -> (r: String)
    ensures
        r@ == "/uploads/"@ + file_name@,
{
    let mut r = "/uploads/".to_owned();
    r.append(file_name);
    r
}

/// The draft made of decoded text parts and the reference of an upload, if
/// one took place: the upload wins over the URL, and an empty wallet address
/// counts as none.
pub open spec fn draft_of(
    caption: Seq<char>,
    tags: Seq<char>,
    image_url: Seq<char>,
    evm_address: Seq<char>,
    upload: Option<Seq<char>>,
) -> Result<DraftView, IngestError> {
    let image = match upload {
        Some(u) => u,
        None => image_url,
    };
    if image.len() == 0 {
        Err(IngestError::MissingImage)
    } else {
        Ok(DraftView {
            caption: caption,
            tags: tags,
            image: image,
            evm_address: if evm_address.len() == 0 { None } else { Some(evm_address) },
        })
    }
}

pub open spec fn draft_result_view(r: Result<MemeDraft, IngestError>) -> Result<DraftView, IngestError> {
    match r {
        Ok(d) => Ok(d@),
        Err(e) => Err(e),
    }
}

/// Assembles a draft from decoded text parts and the reference of an upload.
pub fn draft_from_parts(
    caption: String,
    tags: String,
    image_url: String,
    evm_address: String,
    upload: Option<String>,
) -> (r: Result<MemeDraft, IngestError>)
    ensures
        draft_result_view(r) == draft_of(caption@, tags@, image_url@, evm_address@, opt_text_view(upload)),
{
    let image = match upload {
        Some(u) => u,
        None => image_url,
    };
    if image.unicode_len() == 0 {
        return Err(IngestError::MissingImage);
    }
    let evm = if evm_address.unicode_len() == 0 { None } else { Some(evm_address) };
    Ok(MemeDraft { caption, tags, image, evm_address: evm })
}

/// A form submission, read part by part: the raw bytes of the caption, tags
/// and image URL parts, the last complete non-empty wallet address part, the
/// wallet address part still being read, and the reference of the stored
/// upload, if any.
pub struct Submission {
    pub caption: Vec<u8>,
    pub tags: Vec<u8>,
    pub image_url: Vec<u8>,
    pub evm_address: Vec<u8>,
    pub evm_part: Vec<u8>,
    pub upload: Option<String>,
}

pub struct SubmissionView {
    pub caption: Seq<u8>,
    pub tags: Seq<u8>,
    pub image_url: Seq<u8>,
    pub evm_address: Seq<u8>,
    pub evm_part: Seq<u8>,
    pub upload: Option<Seq<char>>,
}

impl View for Submission {
    type V = SubmissionView;

    open spec fn view(&self) -> SubmissionView {
        SubmissionView {
            caption: self.caption@,
            tags: self.tags@,
            image_url: self.image_url@,
            evm_address: self.evm_address@,
            evm_part: self.evm_part@,
            upload: opt_text_view(self.upload),
        }
    }
}

/// The submission after a chunk of a part of kind `kind` arrived.
pub open spec fn with_chunk(s: SubmissionView, kind: FieldKind, chunk: Seq<u8>) -> SubmissionView {
    match kind {
        FieldKind::Caption => SubmissionView { caption: s.caption + chunk, ..s },
        FieldKind::Tags => SubmissionView { tags: s.tags + chunk, ..s },
        FieldKind::ImageUrl => SubmissionView { image_url: s.image_url + chunk, ..s },
        FieldKind::EvmAddress => SubmissionView { evm_part: s.evm_part + chunk, ..s },
        _ => s,
    }
}

/// The wallet address a submission carries: the part being read if it is not
/// empty, else the last complete non-empty one.
pub open spec fn address_bytes(s: SubmissionView) -> Seq<u8> {
    if s.evm_part.len() > 0 {
        s.evm_part
    } else {
        s.evm_address
    }
}

/// The submission after a part of kind `kind` ended: a non-empty wallet
/// address part replaces the earlier one, an empty one is dropped.
pub open spec fn with_part_end(s: SubmissionView, kind: FieldKind) -> SubmissionView {
    match kind {
        FieldKind::EvmAddress => SubmissionView {
            evm_address: address_bytes(s),
            evm_part: Seq::empty(),
            ..s
        },
        _ => s,
    }
}

/// The draft a finished submission yields.
pub open spec fn submission_draft(s: SubmissionView) -> Result<DraftView, IngestError> {
    if valid_utf8(s.caption) && valid_utf8(s.tags) && valid_utf8(s.image_url) && valid_utf8(
        address_bytes(s),
    ) {
        draft_of(
            decode_utf8(s.caption),
            decode_utf8(s.tags),
            decode_utf8(s.image_url),
            decode_utf8(address_bytes(s)),
            s.upload,
        )
    } else {
        Err(IngestError::InvalidText)
    }
}

fn append_bytes(v: &mut Vec<u8>, chunk: &[u8])
    ensures
        final(v)@ == old(v)@ + chunk@,
{
    let mut i: usize = 0;
    while i < chunk.len()
        invariant
            0 <= i <= chunk@.len(),
            v@ == old(v)@ + chunk@.take(i as int),
        decreases chunk@.len() - i,
    {
        v.push(chunk[i]);
        i = i + 1;
        assert(v@ =~= old(v)@ + chunk@.take(i as int));
    }
    assert(chunk@.take(i as int) =~= chunk@);
}

impl Submission {
    /// A submission with no part received yet.
    pub fn new() -> (r: Submission)
        ensures
            r@.caption.len() == 0,
            r@.tags.len() == 0,
            r@.image_url.len() == 0,
            r@.evm_address.len() == 0,
            r@.evm_part.len() == 0,
            r@.upload is None,
    {
        Submission {
            caption: Vec::new(),
            tags: Vec::new(),
            image_url: Vec::new(),
            evm_address: Vec::new(),
            evm_part: Vec::new(),
            upload: None,
        }
    }

    /// Takes in a chunk of a text part; chunks of other parts change nothing.
    pub fn push_chunk(&mut self, kind: FieldKind, chunk: &[u8])
        ensures
            final(self)@ == with_chunk(old(self)@, kind, chunk@),
    {
        match kind {
            FieldKind::Caption => append_bytes(&mut self.caption, chunk),
            FieldKind::Tags => append_bytes(&mut self.tags, chunk),
            FieldKind::ImageUrl => append_bytes(&mut self.image_url, chunk),
            FieldKind::EvmAddress => append_bytes(&mut self.evm_part, chunk),
            _ => {},
        }
    }

    /// Closes a part of kind `kind` once all its chunks are in.
    pub fn end_part(&mut self, kind: FieldKind)
        ensures
            final(self)@ == with_part_end(old(self)@, kind),
    {
        if kind == FieldKind::EvmAddress {
            if self.evm_part.len() > 0 {
                std::mem::swap(&mut self.evm_address, &mut self.evm_part);
            }
            self.evm_part = Vec::new();
        }
    }

    /// Records that the image part was stored in full as `file_name`.
    pub fn record_upload(&mut self, file_name: &str)
        ensures
            final(self)@ == (SubmissionView { upload: Some("/uploads/"@ + file_name@), ..old(self)@ }),
    {
        self.upload = Some(upload_reference(file_name));
    }

    /// The draft record the submission describes.
    pub fn finish(&self) -> (r: Result<MemeDraft, IngestError>)
        ensures
            draft_result_view(r) == submission_draft(self@),
    {
        let caption = text_from_utf8(self.caption.as_slice());
        let tags = text_from_utf8(self.tags.as_slice());
        let image_url = text_from_utf8(self.image_url.as_slice());
        let evm_address = if self.evm_part.len() > 0 {
            text_from_utf8(self.evm_part.as_slice())
        } else {
            text_from_utf8(self.evm_address.as_slice())
        };
        match (caption, tags, image_url, evm_address) {
            (Some(c), Some(t), Some(u), Some(e)) => {
                let upload = crate::meme::copy_opt_text(&self.upload);
                draft_from_parts(c, t, u, e, upload)
            },
            _ => Err(IngestError::InvalidText),
        }
    }
}

/// A submission without an uploaded image, whose image URL part is the
/// non-empty text `url`, is accepted, and the record the store makes of it
/// under any id has exactly `url` as its image.
pub proof fn lemma_url_round_trip(s: SubmissionView, url: Seq<char>, id: nat)
    requires
        s.upload is None,
        valid_utf8(s.caption),
        valid_utf8(s.tags),
        valid_utf8(address_bytes(s)),
        valid_utf8(s.image_url),
        decode_utf8(s.image_url) == url,
        url.len() > 0,
    ensures
        submission_draft(s) is Ok,
        record_of(submission_draft(s)->Ok_0, id).image == url,
{
}

} // verus!
