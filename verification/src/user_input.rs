//! The canonical record of one round of user input.

use vstd::prelude::*;

verus! {

/// A file that the input mentions.
#[derive(Debug)]
pub struct InputFilePart {
    pub path: String,
    pub name: String,
    pub digest: String,
    pub bytes: u64,
    pub media_type: String,
    pub truncated: bool,
}

/// An image that was submitted with the input.
#[derive(Debug)]
pub struct InputImagePart {
    pub name: Option<String>,
    pub digest: String,
    pub bytes: u64,
    pub media_type: String,
}

/// A text that the daemon put into the input.
#[derive(Debug)]
pub struct InputInjectedPart {
    pub source: String,
    pub name: Option<String>,
    pub text: String,
}

/// One part of an input besides its text.
#[derive(Debug)]
pub enum InputPart {
    File(InputFilePart),
    Image(InputImagePart),
    Injected(InputInjectedPart),
}

/// One round of user input. Attached content is named by its digest.
#[derive(Debug)]
pub struct UserInput {
    pub text: String,
    pub parts: Vec<InputPart>,
    pub source: String,
    pub source_ref: Option<String>,
}

/// The content of a `UserInput`.
pub struct UserInputView {
    pub text: Seq<char>,
    pub parts: Seq<InputPart>,
    pub source: Seq<char>,
    pub source_ref: Option<String>,
}

impl View for UserInput {
    type V = UserInputView;

    open spec fn view(&self) -> UserInputView {
        UserInputView {
            text: self.text@,
            parts: self.parts@,
            source: self.source@,
            source_ref: self.source_ref,
        }
    }
}

/// A copy of an optional string.
pub fn copy_opt(o: &Option<String>) -> (r: Option<String>)
    ensures
        r == *o,
{
    match o {
        Some(s) => Some(s.clone()),
        None => None,
    }
}

impl InputPart {
    /// A copy of the part.
    pub fn copy(&self) -> (r: InputPart)
        ensures
            r == *self,
    {
        match self {
            InputPart::File(p) => InputPart::File(
                InputFilePart {
                    path: p.path.clone(),
                    name: p.name.clone(),
                    digest: p.digest.clone(),
                    bytes: p.bytes,
                    media_type: p.media_type.clone(),
                    truncated: p.truncated,
                },
            ),
            InputPart::Image(p) => InputPart::Image(
                InputImagePart {
                    name: copy_opt(&p.name),
                    digest: p.digest.clone(),
                    bytes: p.bytes,
                    media_type: p.media_type.clone(),
                },
            ),
            InputPart::Injected(p) => InputPart::Injected(
                InputInjectedPart {
                    source: p.source.clone(),
                    name: copy_opt(&p.name),
                    text: p.text.clone(),
                },
            ),
        }
    }
}

impl UserInput {
    /// A copy of the input.
    pub fn copy(&self) -> (r: UserInput)
        ensures
            r@ == self@,
    {
        let mut parts: Vec<InputPart> = Vec::new();
        let mut i: usize = 0;
        while i < self.parts.len()
            invariant
                i <= self.parts@.len(),
                parts@ == self.parts@.take(i as int),
            decreases self.parts@.len() - i,
        {
            parts.push(self.parts[i].copy());
            i += 1;
            assert(self.parts@.take(i as int) =~= self.parts@.take(i - 1).push(self.parts@[i - 1]));
        }
        assert(self.parts@.take(i as int) =~= self.parts@);
        UserInput {
            text: self.text.clone(),
            parts,
            source: self.source.clone(),
            source_ref: copy_opt(&self.source_ref),
        }
    }
}

/// Two inputs of the same content agree in their text, their parts, and where they came from.
pub proof fn law_same_content_is_the_same_input(a: UserInput, b: UserInput)
    requires
        a@ == b@,
    ensures
        a.text@ == b.text@,
        a.parts@ == b.parts@,
        a.source@ == b.source@,
        a.source_ref == b.source_ref,
{
}

} // verus!
