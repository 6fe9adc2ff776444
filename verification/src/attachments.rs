//! One round of user input: the files that it mentions, the images that come with it, and the
//! record that names them.
//!
//! The caller reads files, checks images and stores bytes; it does all of that before it keeps
//! the record.

use crate::order::{distinct, distinct_texts};
use crate::paths::{
    extension, file_name, law_extensions_stand_behind_the_last_dot,
    law_file_names_stand_behind_the_last_separator,
    law_plain_names_are_file_names, path_extension, path_file_name,
};
use crate::text::{
    ascii_lowered, chars_of, decimal_size, digits, is_blank, lemma_texts_empty, lemma_texts_push,
    opt_text, owned, text_of, texts, to_ascii_lowercase, trimmed,
};
use crate::user_input::{
    copy_opt, InputFilePart, InputImagePart, InputInjectedPart, InputPart, UserInput,
};
use base64::Engine;
use vstd::prelude::*;

verus! {

broadcast use {lemma_texts_push, lemma_texts_empty};

/// The bytes that a base64 text stands for, where it is one.
pub uninterp spec fn base64_bytes(data: Seq<char>) -> Option<Seq<u8>>;

pub open spec fn opt_bytes(o: Option<Vec<u8>>) -> Option<Seq<u8>> {
    match o {
        Some(v) => Some(v@),
        None => None,
    }
}

/// `base64::engine::general_purpose::STANDARD.decode`: the bytes of a text in the standard
/// alphabet with padding, or nothing where the text is refused.
#[verifier::external_body]
fn decode_base64(data: &str) -> (r: Option<Vec<u8>>)
    ensures
        opt_bytes(r) == base64_bytes(data@),
{
    base64::engine::general_purpose::STANDARD.decode(data).ok()
}

// Files.

/// The name of a mentioned file: its last component, or the mention as it was typed where it
/// has none, as one that ends in a separator.
pub open spec fn leaf(relative: Seq<char>) -> Seq<char> {
    if relative.len() > 0 && relative.last() == '/' {
        relative
    } else {
        match file_name(relative) {
            Some(name) => name,
            None => relative,
        }
    }
}

/// The name of a mentioned file.
pub fn leaf_name(relative: &str) -> (r: String)
    ensures
        r@ == leaf(relative@),
{
    let v = chars_of(relative);
    if v.len() > 0 && v[v.len() - 1] == '/' {
        return owned(relative);
    }
    match path_file_name(relative) {
        Some(name) => name,
        None => owned(relative),
    }
}

/// The media type of a mentioned file, by its extension.
pub open spec fn media_type_of(relative: Seq<char>) -> Seq<char> {
    match extension(relative) {
        None => "text/plain"@,
        Some(ext) => {
            let e = ascii_lowered(ext);
            if e == "md"@ || e == "markdown"@ {
                "text/markdown"@
            } else if e == "json"@ {
                "application/json"@
            } else if e == "yaml"@ || e == "yml"@ {
                "application/yaml"@
            } else if e == "html"@ || e == "htm"@ {
                "text/html"@
            } else if e == "csv"@ {
                "text/csv"@
            } else if e == "xml"@ {
                "text/xml"@
            } else {
                "text/plain"@
            }
        },
    }
}

/// The media type of a mentioned file, by its extension.
pub fn media_type(relative: &str) -> (r: &'static str)
    ensures
        r@ == media_type_of(relative@),
{
    let e = match path_extension(relative) {
        Some(ext) => to_ascii_lowercase(ext.as_str()),
        None => {
            return "text/plain";
        },
    };
    let e = e.as_str();
    if e.eq("md") || e.eq("markdown") {
        "text/markdown"
    } else if e.eq("json") {
        "application/json"
    } else if e.eq("yaml") || e.eq("yml") {
        "application/yaml"
    } else if e.eq("html") || e.eq("htm") {
        "text/html"
    } else if e.eq("csv") {
        "text/csv"
    } else if e.eq("xml") {
        "text/xml"
    } else {
        "text/plain"
    }
}

/// The files to attach: each that the text mentions once, in the order of the first mentions.
pub fn mentioned_files(mentions: &Vec<String>) -> (r: Vec<String>)
    ensures
        texts(r@) == distinct(texts(mentions@)),
{
    distinct_texts(mentions)
}

/// What came of a mentioned file.
#[derive(Debug)]
pub enum MentionedFile {
    /// It is missing, or no text that can be read.
    Skipped,
    /// The part of its text that the model sees was stored.
    Stored { digest: String, bytes: u64, truncated: bool },
}

/// Whether a part is the one of a mentioned file.
pub open spec fn is_file_part(
    part: InputPart,
    path: Seq<char>,
    digest: Seq<char>,
    bytes: u64,
    truncated: bool,
) -> bool {
    part matches InputPart::File(f) && f.path@ == path && f.name@ == leaf(path) && f.digest@
        == digest && f.bytes == bytes && f.media_type@ == media_type_of(path) && f.truncated
        == truncated
}

/// Whether parts are those of the first `n` mentioned files: of each that was stored, in
/// order.
pub open spec fn are_file_parts(
    parts: Seq<InputPart>,
    paths: Seq<Seq<char>>,
    files: Seq<MentionedFile>,
    n: int,
) -> bool
    decreases n,
{
    if n <= 0 || n > files.len() || n > paths.len() {
        parts.len() == 0
    } else {
        match files[n - 1] {
            MentionedFile::Skipped => are_file_parts(parts, paths, files, n - 1),
            MentionedFile::Stored { digest, bytes, truncated } => parts.len() > 0 && is_file_part(
                parts.last(),
                paths[n - 1],
                digest@,
                bytes,
                truncated,
            ) && are_file_parts(parts.drop_last(), paths, files, n - 1),
        }
    }
}

/// The parts of the mentioned files.
pub fn file_parts(paths: &Vec<String>, files: &Vec<MentionedFile>) -> (r: Vec<InputPart>)
    requires
        paths@.len() == files@.len(),
    ensures
        are_file_parts(r@, texts(paths@), files@, files@.len() as int),
{
    let mut r: Vec<InputPart> = Vec::new();
    let ghost all = texts(paths@);
    let mut i: usize = 0;
    while i < files.len()
        invariant
            i <= files@.len(),
            paths@.len() == files@.len(),
            all == texts(paths@),
            are_file_parts(r@, all, files@, i as int),
        decreases files@.len() - i,
    {
        if let MentionedFile::Stored { digest, bytes, truncated } = &files[i] {
            let path = paths[i].as_str();
            assert(all[i as int] == path@);
            let ghost before = r@;
            r.push(
                InputPart::File(
                    InputFilePart {
                        path: owned(path),
                        name: leaf_name(path),
                        digest: digest.clone(),
                        bytes: *bytes,
                        media_type: owned(media_type(path)),
                        truncated: *truncated,
                    },
                ),
            );
            assert(r@.drop_last() =~= before);
        }
        i += 1;
    }
    r
}

// Images.

/// An image as it was submitted.
#[derive(Debug)]
pub struct PromptImage {
    pub name: Option<String>,
    pub data: String,
}

/// An image whose bytes are known.
#[derive(Debug)]
pub struct DecodedImage {
    pub name: Option<String>,
    /// What the image is called in errors.
    pub label: String,
    pub bytes: Vec<u8>,
}

/// Whether no more images were submitted than a message may hold.
pub fn check_image_count(count: usize, cap: usize) -> (r: Result<(), String>)
    ensures
        if count > cap {
            r matches Err(e) && e@ == digits(count as nat) + " images exceeds per-message cap of "@
                + digits(cap as nat)
        } else {
            r is Ok
        },
{
    if count > cap {
        let mut e = decimal_size(count);
        e.push_str(" images exceeds per-message cap of ");
        e.push_str(decimal_size(cap).as_str());
        return Err(e);
    }
    Ok(())
}

/// The name of an image, where it is not blank.
pub open spec fn image_name(image: PromptImage) -> Option<Seq<char>> {
    match image.name {
        Some(name) => if trimmed(name@).len() == 0 {
            None
        } else {
            Some(name@)
        },
        None => None,
    }
}

/// What the image with the number `n` is called in errors.
pub open spec fn image_label(image: PromptImage, n: nat) -> Seq<char> {
    match image_name(image) {
        Some(name) => "clipboard image `"@ + name + "`"@,
        None => "clipboard image #"@ + digits(n),
    }
}

/// The position behind the last occurrence of a character among the first `n`.
pub open spec fn behind_last(s: Seq<char>, c: char, n: int) -> int
    decreases n,
{
    if n <= 0 || n > s.len() {
        0
    } else if s[n - 1] == c {
        n
    } else {
        behind_last(s, c, n - 1)
    }
}

/// The base64 text of an image: what stands behind the last comma.
pub open spec fn image_data(data: Seq<char>) -> Seq<char> {
    data.skip(behind_last(data, ',', data.len() as int))
}

fn after_last_comma(data: &str) -> (r: String)
    ensures
        r@ == image_data(data@),
{
    let v = chars_of(data);
    let end: usize = v.len();
    let mut n: usize = end;
    while n > 0 && v[n - 1] != ','
        invariant
            n <= end,
            end == v@.len(),
            behind_last(v@, ',', end as int) == behind_last(v@, ',', n as int),
        decreases n,
    {
        n -= 1;
    }
    assert(v@.subrange(n as int, end as int) =~= v@.skip(n as int));
    text_of(&v, n, end)
}

/// An image whose bytes are given, from what the decoding of its data gave.
pub fn decoded_image(image: &PromptImage, index: usize, bytes: Option<Vec<u8>>) -> (r: Result<
    DecodedImage,
    String,
>)
    requires
        index < usize::MAX,
    ensures
        match bytes {
            Some(b) => r matches Ok(d) && opt_text(d.name) == image_name(*image) && d.label@
                == image_label(*image, (index + 1) as nat) && d.bytes == b,
            None => r matches Err(e) && e@ == "decode "@ + image_label(*image, (index + 1) as nat),
        },
{
    let name = match &image.name {
        Some(name) => if is_blank(name.as_str()) {
            None
        } else {
            Some(name.clone())
        },
        None => None,
    };
    let label = match &name {
        Some(n) => {
            let mut l = owned("clipboard image `");
            l.push_str(n.as_str());
            l.push_str("`");
            l
        },
        None => {
            let mut l = owned("clipboard image #");
            l.push_str(decimal_size(index + 1).as_str());
            l
        },
    };
    match bytes {
        Some(bytes) => Ok(DecodedImage { name, label, bytes }),
        None => {
            let mut e = owned("decode ");
            e.push_str(label.as_str());
            Err(e)
        },
    }
}

/// The bytes of an image that was submitted at a place. A data URL may stand before them.
pub fn decode_prompt_image(image: &PromptImage, index: usize) -> (r: Result<DecodedImage, String>)
    requires
        index < usize::MAX,
    ensures
        match base64_bytes(image_data(image.data@)) {
            Some(b) => r matches Ok(d) && opt_text(d.name) == image_name(*image) && d.label@
                == image_label(*image, (index + 1) as nat) && d.bytes@ == b,
            None => r matches Err(e) && e@ == "decode "@ + image_label(*image, (index + 1) as nat),
        },
{
    let data = after_last_comma(image.data.as_str());
    decoded_image(image, index, decode_base64(data.as_str()))
}

/// The part of an image that was stored.
pub fn image_part(name: &Option<String>, digest: &str, bytes: u64, media_type: &str) -> (r: InputPart)
    ensures
        r matches InputPart::Image(p) && p.name == *name && p.digest@ == digest@ && p.bytes == bytes
            && p.media_type@ == media_type@,
{
    InputPart::Image(
        InputImagePart {
            name: copy_opt(name),
            digest: owned(digest),
            bytes,
            media_type: owned(media_type),
        },
    )
}

// The record.

/// A skill that the input was wrapped in, with the user's own text.
#[derive(Debug)]
pub struct SkillEnvelope {
    pub skill_name: String,
    pub user_text: String,
    pub preamble: String,
}

/// The record of an input: the user's own text, the files and the images in this order, and
/// the preamble of the skill that the input was wrapped in, where it was.
pub fn record(
    text: &str,
    parts: Vec<InputPart>,
    source: &str,
    source_ref: &Option<String>,
    envelope: &Option<SkillEnvelope>,
) -> (r: UserInput)
    ensures
        r.source@ == source@,
        r.source_ref == *source_ref,
        match envelope {
            Some(e) => r.text@ == e.user_text@ && r.parts@.len() == parts@.len() + 1
                && r.parts@.drop_last() == parts@ && (r.parts@.last() matches InputPart::Injected(
                p,
            ) && p.source@ == "skill"@ && opt_text(p.name) == Some(e.skill_name@) && p.text@
                == e.preamble@),
            None => r.text@ == text@ && r.parts@ == parts@,
        },
{
    match envelope {
        Some(e) => {
            let input = UserInput {
                text: e.user_text.clone(),
                parts,
                source: owned(source),
                source_ref: copy_opt(source_ref),
            };
            let part = InputInjectedPart {
                source: owned("skill"),
                name: Some(e.skill_name.clone()),
                text: e.preamble.clone(),
            };
            let r = PromptAdmission::with_injected(input, part);
            assert(r.parts@.drop_last() =~= parts@);
            r
        },
        None => UserInput {
            text: owned(text),
            parts,
            source: owned(source),
            source_ref: copy_opt(source_ref),
        },
    }
}

// The admission.

/// An image that was checked and may be stored.
#[derive(Debug)]
pub struct ReadyImage {
    pub name: Option<String>,
    pub bytes: Vec<u8>,
    pub media_type: String,
}

/// Where the admission of an input stands.
#[derive(Clone, Copy, Debug, PartialEq, Eq, Structural)]
pub enum AdmissionStage {
    CheckingImages,
    ReadingFiles,
    StoringFile,
    StoringImages,
    Done,
}

/// The admission of an input: its images are checked, the files that it mentions are read and
/// stored, and the images are stored. What comes next is the image, the file or the image
/// behind those that are dealt with.
#[derive(Debug)]
pub struct PromptAdmission {
    pub text: String,
    pub source: String,
    pub source_ref: Option<String>,
    pub envelope: Option<SkillEnvelope>,
    /// The images, as they were submitted.
    pub images: Vec<PromptImage>,
    /// The files that the text mentions.
    pub paths: Vec<String>,
    /// The image that is being checked.
    pub decoded: Option<DecodedImage>,
    /// The images that were checked.
    pub ready: Vec<ReadyImage>,
    /// The size of the text that is being stored, and whether it was cut.
    pub body: (u64, bool),
    /// What came of the files that were read.
    pub files: Vec<MentionedFile>,
    /// What the stored images are known by.
    pub digests: Vec<String>,
    pub stage: AdmissionStage,
}

/// What has come back from outside.
#[derive(Debug)]
pub enum AdmissionEvent {
    /// The media type of the image, or why it is refused.
    Checked(Result<String, String>),
    /// The size of the text that the model sees of the file, and whether it was cut; nothing
    /// where the file is missing or no text.
    FileRead(Option<(u64, bool)>),
    /// What the stored bytes are known by.
    Stored(Result<String, String>),
}

/// What is to be done next.
#[derive(Debug)]
pub enum AdmissionAction {
    CheckImage,
    ReadFile,
    /// Store the text of the file that was read.
    StoreFile,
    StoreImage,
    Finish(UserInput),
    Fail(String),
    /// The event was not awaited.
    Wait,
}

/// Whether parts are those of stored images, in order.
pub open spec fn are_image_parts(
    parts: Seq<InputPart>,
    ready: Seq<ReadyImage>,
    digests: Seq<Seq<char>>,
) -> bool {
    &&& parts.len() == digests.len()
    &&& forall|i: int|
        0 <= i < parts.len() ==> (#[trigger] parts[i] matches InputPart::Image(p) && p.name
            == ready[i].name && p.digest@ == digests[i] && p.bytes == ready[i].bytes@.len()
            && p.media_type@ == ready[i].media_type@)
}

/// Whether an input is the record of an admission: the user's own text, the files, the
/// images, and the preamble of the skill where the input was wrapped in one.
pub open spec fn is_admitted(input: UserInput, p: PromptAdmission) -> bool {
    let own = if p.envelope is Some {
        input.parts@.drop_last()
    } else {
        input.parts@
    };
    let count = own.len() - p.digests@.len();
    &&& input.source@ == p.source@
    &&& input.source_ref == p.source_ref
    &&& count >= 0
    &&& are_file_parts(own.take(count), texts(p.paths@), p.files@, p.files@.len() as int)
    &&& are_image_parts(own.skip(count), p.ready@, texts(p.digests@))
    &&& match p.envelope {
        Some(e) => {
            &&& input.text@ == e.user_text@
            &&& input.parts@.len() > 0
            &&& input.parts@.last() matches InputPart::Injected(i)
            &&& i.source@ == "skill"@
            &&& opt_text(i.name) == Some(e.skill_name@)
            &&& i.text@ == e.preamble@
        },
        None => input.text@ == p.text@,
    }
}

/// Whether an action ends an admission with a message.
pub open spec fn refuses_input(a: AdmissionAction, message: Seq<char>) -> bool {
    a matches AdmissionAction::Fail(m) && m@ == message
}

/// Whether two states are of the admission of one input.
pub open spec fn same_input(p: PromptAdmission, q: PromptAdmission) -> bool {
    &&& p.text == q.text
    &&& p.source == q.source
    &&& p.source_ref == q.source_ref
    &&& p.envelope == q.envelope
    &&& p.images == q.images
    &&& p.paths == q.paths
}

/// What an admission does next, and where it then stands: the images come first, then the
/// files, then the storing of the images.
pub open spec fn goes_on(p: PromptAdmission, a: AdmissionAction) -> bool {
    let k = p.ready@.len() as int;
    if k < p.images@.len() {
        let label = image_label(p.images@[k], (k + 1) as nat);
        match base64_bytes(image_data(p.images@[k].data@)) {
            Some(b) => {
                &&& a is CheckImage
                &&& p.stage == AdmissionStage::CheckingImages
                &&& p.decoded matches Some(d)
                &&& opt_text(d.name) == image_name(p.images@[k])
                &&& d.label@ == label
                &&& d.bytes@ == b
            },
            None => refuses_input(a, "decode "@ + label) && p.stage == AdmissionStage::Done,
        }
    } else if p.files@.len() < p.paths@.len() {
        a is ReadFile && p.stage == AdmissionStage::ReadingFiles
    } else if p.digests@.len() < p.ready@.len() {
        a is StoreImage && p.stage == AdmissionStage::StoringImages
    } else {
        &&& a matches AdmissionAction::Finish(input)
        &&& is_admitted(input, p)
        &&& p.stage == AdmissionStage::Done
    }
}

/// Whether an admission has dealt with the same images and files as before.
pub open spec fn same_progress(p: PromptAdmission, q: PromptAdmission) -> bool {
    p.ready == q.ready && p.files == q.files && p.digests == q.digests
}

/// One step of an admission: from where it stands, and what has come back, to what is done
/// next.
pub open spec fn admission_step(
    p: PromptAdmission,
    event: AdmissionEvent,
    a: AdmissionAction,
    q: PromptAdmission,
) -> bool {
    &&& same_input(p, q)
    &&& match (p.stage, event) {
        (AdmissionStage::CheckingImages, AdmissionEvent::Checked(Ok(media_type))) => {
            &&& q.files == p.files
            &&& q.digests == p.digests
            &&& match p.decoded {
                Some(d) => {
                    &&& q.ready@ == p.ready@.push(
                        ReadyImage { name: d.name, bytes: d.bytes, media_type },
                    )
                    &&& goes_on(q, a)
                },
                None => a is Wait && q.ready == p.ready && q.stage == p.stage,
            }
        },
        (AdmissionStage::ReadingFiles, AdmissionEvent::FileRead(Some(body))) => {
            &&& same_progress(p, q)
            &&& a is StoreFile
            &&& q.body == body
            &&& q.stage == AdmissionStage::StoringFile
        },
        (AdmissionStage::ReadingFiles, AdmissionEvent::FileRead(None)) => {
            &&& q.ready == p.ready
            &&& q.digests == p.digests
            &&& q.files@ == p.files@.push(MentionedFile::Skipped)
            &&& goes_on(q, a)
        },
        (AdmissionStage::StoringFile, AdmissionEvent::Stored(Ok(digest))) => {
            &&& q.ready == p.ready
            &&& q.digests == p.digests
            &&& q.files@ == p.files@.push(
                MentionedFile::Stored { digest, bytes: p.body.0, truncated: p.body.1 },
            )
            &&& goes_on(q, a)
        },
        (AdmissionStage::StoringImages, AdmissionEvent::Stored(Ok(digest))) => {
            &&& q.ready == p.ready
            &&& q.files == p.files
            &&& texts(q.digests@) == texts(p.digests@).push(digest@)
            &&& goes_on(q, a)
        },
        (AdmissionStage::CheckingImages, AdmissionEvent::Checked(Err(e))) => same_progress(p, q)
            && refuses_input(a, e@) && q.stage == AdmissionStage::Done,
        (AdmissionStage::StoringFile, AdmissionEvent::Stored(Err(e))) => same_progress(p, q)
            && refuses_input(a, e@) && q.stage == AdmissionStage::Done,
        (AdmissionStage::StoringImages, AdmissionEvent::Stored(Err(e))) => same_progress(p, q)
            && refuses_input(a, e@) && q.stage == AdmissionStage::Done,
        _ => same_progress(p, q) && a is Wait && q.stage == p.stage,
    }
}

/// The parts of images that were stored.
fn image_parts(ready: &Vec<ReadyImage>, digests: &Vec<String>) -> (r: Vec<InputPart>)
    requires
        digests@.len() <= ready@.len(),
    ensures
        are_image_parts(r@, ready@, texts(digests@)),
{
    let mut r: Vec<InputPart> = Vec::new();
    let ghost all = texts(digests@);
    let mut i: usize = 0;
    while i < digests.len()
        invariant
            i <= digests@.len(),
            digests@.len() <= ready@.len(),
            all == texts(digests@),
            are_image_parts(r@, ready@, all.take(i as int)),
        decreases digests@.len() - i,
    {
        let image = &ready[i];
        let size: u64 = image.bytes.len() as u64;
        r.push(
            image_part(&image.name, digests[i].as_str(), size, image.media_type.as_str()),
        );
        i += 1;
    }
    assert(all.take(i as int) =~= all);
    r
}

impl PromptAdmission {
    /// Whether the state is one that an admission can be in: nothing is read or stored before
    /// every image is checked, and no image is stored before every file is dealt with.
    pub open spec fn well_formed(self) -> bool {
        &&& self.ready@.len() <= self.images@.len()
        &&& self.files@.len() <= self.paths@.len()
        &&& self.digests@.len() <= self.ready@.len()
        &&& match self.stage {
            AdmissionStage::CheckingImages => self.ready@.len() < self.images@.len()
                && self.decoded is Some && self.files@.len() == 0 && self.digests@.len() == 0,
            AdmissionStage::ReadingFiles | AdmissionStage::StoringFile => self.ready@.len()
                == self.images@.len() && self.files@.len() < self.paths@.len()
                && self.digests@.len() == 0,
            AdmissionStage::StoringImages => self.ready@.len() == self.images@.len()
                && self.files@.len() == self.paths@.len() && self.digests@.len()
                < self.ready@.len(),
            AdmissionStage::Done => true,
        }
    }

    /// An input with one more part at its end.
    pub fn with_injected(input: UserInput, part: InputInjectedPart) -> (r: UserInput)
        ensures
            r.text == input.text,
            r.parts@ == input.parts@.push(InputPart::Injected(part)),
            r.source == input.source,
            r.source_ref == input.source_ref,
    {
        let mut parts = input.parts;
        parts.push(InputPart::Injected(part));
        UserInput { text: input.text, parts, source: input.source, source_ref: input.source_ref }
    }

    fn go_on(&mut self) -> (r: AdmissionAction)
        requires
            old(self).ready@.len() <= old(self).images@.len(),
            old(self).files@.len() <= old(self).paths@.len(),
            old(self).digests@.len() <= old(self).ready@.len(),
            old(self).ready@.len() < old(self).images@.len() ==> old(self).files@.len() == 0
                && old(self).digests@.len() == 0,
            old(self).files@.len() < old(self).paths@.len() ==> old(self).digests@.len() == 0,
        ensures
            same_input(*old(self), *final(self)),
            same_progress(*old(self), *final(self)),
            goes_on(*final(self), r),
            final(self).well_formed(),
    {
        let k: usize = self.ready.len();
        if k < self.images.len() {
            return match decode_prompt_image(&self.images[k], k) {
                Ok(d) => {
                    self.decoded = Some(d);
                    self.stage = AdmissionStage::CheckingImages;
                    AdmissionAction::CheckImage
                },
                Err(e) => {
                    self.stage = AdmissionStage::Done;
                    AdmissionAction::Fail(e)
                },
            };
        }
        if self.files.len() < self.paths.len() {
            self.stage = AdmissionStage::ReadingFiles;
            return AdmissionAction::ReadFile;
        }
        if self.digests.len() < self.ready.len() {
            self.stage = AdmissionStage::StoringImages;
            return AdmissionAction::StoreImage;
        }
        self.stage = AdmissionStage::Done;
        let mut parts = file_parts(&self.paths, &self.files);
        let mut images = image_parts(&self.ready, &self.digests);
        let ghost of_files = parts@;
        let ghost of_images = images@;
        parts.append(&mut images);
        let input = record(
            self.text.as_str(),
            parts,
            self.source.as_str(),
            &self.source_ref,
            &self.envelope,
        );
        proof {
            let own = if self.envelope is Some {
                input.parts@.drop_last()
            } else {
                input.parts@
            };
            assert(own =~= of_files + of_images);
            let count = own.len() - self.digests@.len();
            assert(own.take(count) =~= of_files);
            assert(own.skip(count) =~= of_images);
        }
        AdmissionAction::Finish(input)
    }

    /// Starts the admission of an input: of its text, of the files that it mentions, and of
    /// its images, of which a message may hold `cap`.
    pub fn start(
        text: String,
        mentions: &Vec<String>,
        images: Vec<PromptImage>,
        cap: usize,
        source: String,
        source_ref: Option<String>,
        envelope: Option<SkillEnvelope>,
    ) -> (r: (PromptAdmission, AdmissionAction))
        ensures
            r.0.well_formed(),
            r.0.text == text,
            texts(r.0.paths@) == distinct(texts(mentions@)),
            r.0.images == images,
            r.0.source == source,
            r.0.source_ref == source_ref,
            r.0.envelope == envelope,
            r.0.ready@.len() == 0,
            r.0.files@.len() == 0,
            r.0.digests@.len() == 0,
            if images@.len() > cap {
                &&& refuses_input(
                    r.1,
                    digits(images@.len()) + " images exceeds per-message cap of "@ + digits(
                        cap as nat,
                    ),
                )
                &&& r.0.stage == AdmissionStage::Done
            } else {
                goes_on(r.0, r.1)
            },
    {
        let count: usize = images.len();
        let mut p = PromptAdmission {
            text,
            source,
            source_ref,
            envelope,
            images,
            paths: mentioned_files(mentions),
            decoded: None,
            ready: Vec::new(),
            body: (0, false),
            files: Vec::new(),
            digests: Vec::new(),
            stage: AdmissionStage::Done,
        };
        match check_image_count(count, cap) {
            Ok(_) => {
                let action = p.go_on();
                (p, action)
            },
            Err(e) => (p, AdmissionAction::Fail(e)),
        }
    }

    /// Takes what has come back from outside, and says what to do next.
    pub fn step(&mut self, event: AdmissionEvent) -> (r: AdmissionAction)
        requires
            old(self).well_formed(),
        ensures
            final(self).well_formed(),
            admission_step(*old(self), event, r, *final(self)),
    {
        match (self.stage, event) {
            (AdmissionStage::CheckingImages, AdmissionEvent::Checked(Ok(media_type))) => {
                match self.decoded.take() {
                    Some(d) => {
                        self.ready.push(ReadyImage { name: d.name, bytes: d.bytes, media_type });
                        self.go_on()
                    },
                    None => AdmissionAction::Wait,
                }
            },
            (AdmissionStage::ReadingFiles, AdmissionEvent::FileRead(Some(body))) => {
                self.body = body;
                self.stage = AdmissionStage::StoringFile;
                AdmissionAction::StoreFile
            },
            (AdmissionStage::ReadingFiles, AdmissionEvent::FileRead(None)) => {
                self.files.push(MentionedFile::Skipped);
                self.go_on()
            },
            (AdmissionStage::StoringFile, AdmissionEvent::Stored(Ok(digest))) => {
                let (bytes, truncated) = self.body;
                self.files.push(MentionedFile::Stored { digest, bytes, truncated });
                self.go_on()
            },
            (AdmissionStage::StoringImages, AdmissionEvent::Stored(Ok(digest))) => {
                self.digests.push(digest);
                self.go_on()
            },
            (AdmissionStage::CheckingImages, AdmissionEvent::Checked(Err(e))) => self.refuse(e),
            (AdmissionStage::StoringFile, AdmissionEvent::Stored(Err(e))) => self.refuse(e),
            (AdmissionStage::StoringImages, AdmissionEvent::Stored(Err(e))) => self.refuse(e),
            _ => AdmissionAction::Wait,
        }
    }

    fn refuse(&mut self, error: String) -> (r: AdmissionAction)
        requires
            old(self).well_formed(),
        ensures
            final(self).well_formed(),
            same_input(*old(self), *final(self)),
            same_progress(*old(self), *final(self)),
            refuses_input(r, error@),
            final(self).stage == AdmissionStage::Done,
    {
        self.stage = AdmissionStage::Done;
        AdmissionAction::Fail(error)
    }
}

// Laws.

proof fn lemma_file_part_count(
    parts: Seq<InputPart>,
    paths: Seq<Seq<char>>,
    files: Seq<MentionedFile>,
    n: int,
    k: int,
)
    requires
        0 <= n <= files.len(),
        n <= paths.len(),
        are_file_parts(parts, paths, files, n),
        0 <= k < parts.len(),
    ensures
        parts[k] matches InputPart::File(f) && paths.contains(f.path@),
    decreases n,
{
    if n > 0 {
        match files[n - 1] {
            MentionedFile::Skipped => {
                lemma_file_part_count(parts, paths, files, n - 1, k);
            },
            MentionedFile::Stored { digest, bytes, truncated } => {
                if k == parts.len() - 1 {
                    assert(paths[n - 1] == parts.last()->File_0.path@);
                } else {
                    lemma_file_part_count(parts.drop_last(), paths, files, n - 1, k);
                    assert(parts.drop_last()[k] == parts[k]);
                }
            },
        }
    }
}

/// A record names only files that the text mentions.
pub proof fn law_only_mentioned_files_are_attached(
    parts: Seq<InputPart>,
    paths: Seq<Seq<char>>,
    files: Seq<MentionedFile>,
    k: int,
)
    requires
        files.len() == paths.len(),
        are_file_parts(parts, paths, files, files.len() as int),
        0 <= k < parts.len(),
    ensures
        parts[k] matches InputPart::File(f) && paths.contains(f.path@),
{
    lemma_file_part_count(parts, paths, files, files.len() as int, k);
}

/// Nothing is read or stored before every image is checked: a submission with an image that is
/// refused stores nothing.
pub proof fn law_refused_images_store_nothing(
    p: PromptAdmission,
    event: AdmissionEvent,
    a: AdmissionAction,
    q: PromptAdmission,
)
    requires
        p.well_formed(),
        q.well_formed(),
        admission_step(p, event, a, q),
    ensures
        a is ReadFile || a is StoreFile || a is StoreImage ==> q.ready@.len() == q.images@.len(),
        p.stage == AdmissionStage::CheckingImages && a is Fail ==> q.files@.len() == 0
            && q.digests@.len() == 0,
{
}

/// A record comes only when every file is dealt with and every image is stored: it names no
/// content that was not stored.
pub proof fn law_records_name_stored_content(
    p: PromptAdmission,
    event: AdmissionEvent,
    a: AdmissionAction,
    q: PromptAdmission,
)
    requires
        p.well_formed(),
        q.well_formed(),
        admission_step(p, event, a, q),
        a is Finish,
    ensures
        q.files@.len() == q.paths@.len(),
        q.digests@.len() == q.images@.len(),
        a matches AdmissionAction::Finish(input) && is_admitted(input, q),
{
}

/// How far an admission is from its end.
pub open spec fn admission_left(p: PromptAdmission) -> int {
    if p.stage == AdmissionStage::Done {
        0
    } else {
        1 + 2 * (p.images@.len() - p.ready@.len()) + 2 * (p.paths@.len() - p.files@.len()) + (
        p.images@.len() - p.digests@.len()) - (if p.stage == AdmissionStage::StoringFile {
            1int
        } else {
            0int
        })
    }
}

/// Every event that an admission awaits brings it nearer to its end.
pub proof fn law_admission_ends(
    p: PromptAdmission,
    event: AdmissionEvent,
    a: AdmissionAction,
    q: PromptAdmission,
)
    requires
        p.well_formed(),
        q.well_formed(),
        admission_step(p, event, a, q),
        !(a is Wait),
    ensures
        0 <= admission_left(q) < admission_left(p),
{
    assert(texts(q.digests@).len() == q.digests@.len());
    assert(texts(p.digests@).len() == p.digests@.len());
}

proof fn lemma_stored_files(
    parts: Seq<InputPart>,
    paths: Seq<Seq<char>>,
    files: Seq<MentionedFile>,
    n: int,
    i: int,
)
    requires
        0 <= i < n <= files.len(),
        n <= paths.len(),
        are_file_parts(parts, paths, files, n),
        files[i] is Stored,
    ensures
        exists|k: int|
            0 <= k < parts.len() && is_file_part(
                #[trigger] parts[k],
                paths[i],
                files[i]->digest@,
                files[i]->bytes,
                files[i]->truncated,
            ),
    decreases n,
{
    if i == n - 1 {
        assert(parts.last() == parts[parts.len() - 1]);
    } else {
        match files[n - 1] {
            MentionedFile::Skipped => {
                lemma_stored_files(parts, paths, files, n - 1, i);
            },
            MentionedFile::Stored { .. } => {
                let front = parts.drop_last();
                lemma_stored_files(front, paths, files, n - 1, i);
                let k = choose|k: int|
                    0 <= k < front.len() && is_file_part(
                        #[trigger] front[k],
                        paths[i],
                        files[i]->digest@,
                        files[i]->bytes,
                        files[i]->truncated,
                    );
                assert(parts[k] == front[k]);
            },
        }
    }
}

/// Every mentioned file that was stored is attached under its own path, with its own digest and
/// size.
pub proof fn law_stored_files_are_attached(
    parts: Seq<InputPart>,
    paths: Seq<Seq<char>>,
    files: Seq<MentionedFile>,
    i: int,
)
    requires
        files.len() == paths.len(),
        are_file_parts(parts, paths, files, files.len() as int),
        0 <= i < files.len(),
        files[i] is Stored,
    ensures
        exists|k: int|
            0 <= k < parts.len() && ((#[trigger] parts[k]) matches InputPart::File(f) && f.path@
                == paths[i] && f.digest@ == files[i]->digest@ && f.bytes == files[i]->bytes
                && f.truncated == files[i]->truncated),
{
    lemma_stored_files(parts, paths, files, files.len() as int, i);
    let k = choose|k: int|
        0 <= k < parts.len() && is_file_part(
            #[trigger] parts[k],
            paths[i],
            files[i]->digest@,
            files[i]->bytes,
            files[i]->truncated,
        );
    assert(parts[k] is File);
}

proof fn lemma_behind_last(head: Seq<char>, data: Seq<char>, n: int)
    requires
        0 <= n <= data.len(),
        !data.contains(','),
    ensures
        behind_last(head + seq![','] + data, ',', head.len() + 1 + n) == head.len() + 1,
    decreases n,
{
    let s = head + seq![','] + data;
    if n > 0 {
        assert(s[head.len() + n] == data[n - 1]);
        assert(data.contains(data[n - 1]));
        lemma_behind_last(head, data, n - 1);
    } else {
        assert(s[head.len() as int] == ',');
    }
}

proof fn lemma_no_comma(data: Seq<char>, n: int)
    requires
        0 <= n <= data.len(),
        !data.contains(','),
    ensures
        behind_last(data, ',', n) == 0,
    decreases n,
{
    if n > 0 {
        assert(data.contains(data[n - 1]));
        lemma_no_comma(data, n - 1);
    }
}

/// The data of an image stand behind the last comma of its text, and are the whole text where it
/// has none.
pub proof fn law_image_data_stand_behind_the_last_comma(head: Seq<char>, data: Seq<char>)
    requires
        !data.contains(','),
    ensures
        image_data(head + seq![','] + data) == data,
        image_data(data) == data,
{
    let s = head + seq![','] + data;
    lemma_behind_last(head, data, data.len() as int);
    lemma_no_comma(data, data.len() as int);
    assert(s.skip(head.len() as int + 1) =~= data);
    assert(data.skip(0) =~= data);
}

/// A file is shown by its own name, without the directories before it.
pub proof fn law_files_are_shown_by_their_name(dir: Seq<char>, name: Seq<char>)
    requires
        name.len() > 0,
        name != seq!['.'],
        name != seq!['.', '.'],
        !name.contains('/'),
    ensures
        leaf(dir + seq!['/'] + name) == name,
        leaf(name) == name,
{
    law_file_names_stand_behind_the_last_separator(dir, name);
    law_plain_names_are_file_names(name);
    assert((dir + seq!['/'] + name).last() == name.last());
    assert(name.contains(name[name.len() - 1]));
}

/// A finished record carries the text that the user wrote, every stored image with its own name,
/// size and type in the order of submission, and where it came from.
pub proof fn law_records_carry_the_submission(input: UserInput, p: PromptAdmission, i: int)
    requires
        is_admitted(input, p),
        p.envelope is None,
        0 <= i < p.digests@.len(),
    ensures
        input.text@ == p.text@,
        input.source@ == p.source@,
        input.source_ref == p.source_ref,
        ({
            let at = input.parts@.len() - p.digests@.len() + i;
            &&& 0 <= at < input.parts@.len()
            &&& input.parts@[at] matches InputPart::Image(image)
            &&& image.digest@ == p.digests@[i]@
            &&& image.name == p.ready@[i].name
            &&& image.bytes == p.ready@[i].bytes@.len()
            &&& image.media_type@ == p.ready@[i].media_type@
        }),
{
    let own = input.parts@;
    let count = own.len() - p.digests@.len();
    assert(own.skip(count)[i] == own[count + i]);
    assert(texts(p.digests@)[i] == p.digests@[i]@);
}

/// The type of a file is told from its extension, in small letters or capitals; a file without
/// a known one is plain text.
pub proof fn law_types_are_told_from_extensions(stem: Seq<char>, ext: Seq<char>)
    requires
        stem.len() > 0,
        !stem.contains('/'),
        ext.len() > 0,
        !ext.contains('/'),
        !ext.contains('.'),
    ensures
        ({
            let kind = media_type_of(stem + seq!['.'] + ext);
            let e = ascii_lowered(ext);
            &&& e == "md"@ || e == "markdown"@ ==> kind == "text/markdown"@
            &&& e == "json"@ ==> kind == "application/json"@
            &&& e == "yaml"@ || e == "yml"@ ==> kind == "application/yaml"@
            &&& e == "html"@ || e == "htm"@ ==> kind == "text/html"@
            &&& e == "csv"@ ==> kind == "text/csv"@
            &&& e == "xml"@ ==> kind == "text/xml"@
            &&& e.len() > 8 ==> kind == "text/plain"@
        }),
{
    let name = stem + seq!['.'] + ext;
    if name.contains('/') {
        let i = choose|i: int| 0 <= i < name.len() && name[i] == '/';
        if i < stem.len() {
            assert(stem[i] == '/');
        } else if i > stem.len() {
            assert(ext[i - stem.len() - 1] == '/');
        }
    }
    assert(seq!['.'].len() == 1 && seq!['.', '.'].len() == 2);
    assert(name.len() >= 3);
    law_plain_names_are_file_names(name);
    law_extensions_stand_behind_the_last_dot(stem, ext);
    reveal_strlit("md");
    reveal_strlit("markdown");
    reveal_strlit("json");
    reveal_strlit("yaml");
    reveal_strlit("yml");
    reveal_strlit("html");
    reveal_strlit("htm");
    reveal_strlit("csv");
    reveal_strlit("xml");
    assert("md"@.len() == 2 && "markdown"@.len() == 8 && "json"@.len() == 4);
    assert("yaml"@.len() == 4 && "yml"@.len() == 3 && "html"@.len() == 4);
    assert("htm"@.len() == 3 && "csv"@.len() == 3 && "xml"@.len() == 3);
    assert("json"@[0] == 'j' && "yaml"@[0] == 'y' && "html"@[0] == 'h');
    assert("yml"@[0] == 'y' && "htm"@[0] == 'h' && "csv"@[0] == 'c' && "xml"@[0] == 'x');
}

/// An image is told of by its own name, whatever its number, and by its number where its name is
/// missing or blank.
pub proof fn law_images_are_told_of_by_name(image: PromptImage, n: nat, other: nat)
    ensures
        image.name matches Some(name) && trimmed(image.name->0@).len() > 0 ==> image_label(image, n)
            == image_label(image, other) && image_label(image, n) == "clipboard image `"@
            + image.name->0@ + "`"@,
        image.name is None || trimmed(image.name->0@).len() == 0 ==> image_label(image, n)
            == "clipboard image #"@ + digits(n),
{
}

} // verus!
