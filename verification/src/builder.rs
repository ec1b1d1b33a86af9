//! The builder: one document, grown a paragraph at a time.

use crate::delta::{parse, parse_of, ParseError};
use crate::document::{image_runs, text_runs, DocParagraph, DocRunView, Document};
use crate::package::{lemma_packing_is_repeatable, pack, packs_to, PackError};
use vstd::prelude::*;

verus! {

/// The document after a builder that held `doc` was given the delta
/// `text`: one paragraph more where the text is a delta, `doc` where it is
/// none.
pub open spec fn after_text(doc: Seq<Seq<DocRunView>>, text: Seq<char>) -> Seq<Seq<DocRunView>> {
    match parse_of(text) {
        Ok(ops) => doc.push(text_runs(ops)),
        Err(_) => doc,
    }
}

/// The document after a builder that held `doc` was given an image: one
/// paragraph more, which holds the image alone.
pub open spec fn after_image(
    doc: Seq<Seq<DocRunView>>,
    bytes: Seq<u8>,
    width: u32,
    height: u32,
) -> Seq<Seq<DocRunView>> {
    doc.push(image_runs(bytes, width, height))
}

/// One call on a builder, by what it was given.
pub enum Call {
    /// `add_text` with this text.
    Text(Seq<char>),
    /// `add_image` with these bytes, this width and this height.
    Image(Seq<u8>, u32, u32),
}

/// The document after a builder that held `doc` took `call`.
pub open spec fn after_call(doc: Seq<Seq<DocRunView>>, call: Call) -> Seq<Seq<DocRunView>> {
    match call {
        Call::Text(text) => after_text(doc, text),
        Call::Image(bytes, width, height) => after_image(doc, bytes, width, height),
    }
}

/// The document of a new builder after it took `calls` in order.
pub open spec fn after_calls(calls: Seq<Call>) -> Seq<Seq<DocRunView>>
    decreases calls.len(),
{
    if calls.len() == 0 {
        Seq::empty()
    } else {
        after_call(after_calls(calls.drop_last()), calls.last())
    }
}

/// A delta of `n` operations adds exactly one paragraph, below the others,
/// which stay as they were. The paragraph has `n` runs, in the order of the
/// operations, each a text run with its operation's text and flags.
pub proof fn lemma_delta_adds_one_paragraph(doc: Seq<Seq<DocRunView>>, text: Seq<char>)
    requires
        parse_of(text) is Ok,
    ensures
        after_text(doc, text).len() == doc.len() + 1,
        after_text(doc, text).take(doc.len() as int) == doc,
        after_text(doc, text).last().len() == parse_of(text)->Ok_0.len(),
        forall|i: int|
            0 <= i < parse_of(text)->Ok_0.len() ==> (#[trigger] after_text(doc, text).last()[i])
                == (DocRunView::Text {
                content: parse_of(text)->Ok_0[i].insert,
                bold: parse_of(text)->Ok_0[i].bold,
                italic: parse_of(text)->Ok_0[i].italic,
            }),
{
    assert(after_text(doc, text).take(doc.len() as int) =~= doc);
}

/// A text that is no delta leaves the document exactly as it was.
pub proof fn lemma_malformed_text_changes_nothing(doc: Seq<Seq<DocRunView>>, text: Seq<char>)
    requires
        parse_of(text) is Err,
    ensures
        after_text(doc, text) == doc,
{
}

/// An image adds exactly one paragraph, below the others, which stay as
/// they were. Its only run is the image, with the bytes and the size given.
pub proof fn lemma_image_adds_one_paragraph(
    doc: Seq<Seq<DocRunView>>,
    bytes: Seq<u8>,
    width: u32,
    height: u32,
)
    ensures
        after_image(doc, bytes, width, height).len() == doc.len() + 1,
        after_image(doc, bytes, width, height).take(doc.len() as int) == doc,
        after_image(doc, bytes, width, height).last() == seq![
            DocRunView::Image { bytes, width, height },
        ],
{
    assert(after_image(doc, bytes, width, height).take(doc.len() as int) =~= doc);
}

/// Two builders that took the same calls in the same order pack to the same
/// bytes, or both fail to pack.
pub proof fn lemma_same_calls_same_package(
    calls: Seq<Call>,
    first: AndroidDocBuilder,
    second: AndroidDocBuilder,
    first_package: Result<Vec<u8>, PackError>,
    second_package: Result<Vec<u8>, PackError>,
)
    requires
        first@ == after_calls(calls),
        second@ == after_calls(calls),
        packs_to(first@, first_package),
        packs_to(second@, second_package),
    ensures
        first_package is Ok <==> second_package is Ok,
        first_package is Ok ==> first_package->Ok_0@ == second_package->Ok_0@,
{
    lemma_packing_is_repeatable(first@, first_package, second_package);
}

/// A simple document builder. It owns its document, which only grows: each
/// delta and each image adds one paragraph at the end.
pub struct AndroidDocBuilder {
    doc: Document,
}

impl View for AndroidDocBuilder {
    type V = Seq<Seq<DocRunView>>;

    closed spec fn view(&self) -> Seq<Seq<DocRunView>> {
        self.doc@
    }
}

impl AndroidDocBuilder {
    /// A builder with an empty document.
    pub fn new() -> (builder: AndroidDocBuilder)
        ensures
            builder@ == Seq::<Seq<DocRunView>>::empty(),
    {
        AndroidDocBuilder { doc: Document::new() }
    }

    /// Adds the delta `json_text` as one paragraph, a text run for each of
    /// its operations. A text that is no delta leaves the document as it was
    /// and comes back as the error.
    pub fn add_text(&mut self, json_text: &str) -> (res: Result<(), ParseError>)
        ensures
            final(self)@ == after_text(old(self)@, json_text@),
            match parse_of(json_text@) {
                Ok(_) => res is Ok,
                Err(fault) => res matches Err(error) && error@ == fault,
            },
    {
        match parse(json_text) {
            Ok(ops) => {
                self.doc.push(DocParagraph::from_ops(&ops));
                Ok(())
            },
            Err(error) => Err(error),
        }
    }

    /// Adds an image as one paragraph: `bytes` is the content of the image
    /// file, `width` and `height` the size to show it at.
    pub fn add_image(&mut self, bytes: Vec<u8>, width: u32, height: u32)
        ensures
            final(self)@ == after_image(old(self)@, bytes@, width, height),
    {
        self.doc.push(DocParagraph::from_image(bytes, width, height));
    }

    /// The bytes of the `.docx` file for the document as it stands. The
    /// builder is left as it is and takes further paragraphs afterwards.
    pub fn generate_docx(&self) -> (res: Result<Vec<u8>, PackError>)
        ensures
            packs_to(self@, res),
    {
        pack(&self.doc)
    }

    /// The number of paragraphs added so far.
    pub fn paragraph_count(&self) -> (count: usize)
        ensures
            count == self@.len(),
    {
        self.doc.paragraphs.len()
    }

    /// Whether nothing was added yet.
    pub fn is_empty(&self) -> (empty: bool)
        ensures
            empty == (self@.len() == 0),
    {
        self.doc.paragraphs.len() == 0
    }

    /// The document as it stands.
    pub fn document(&self) -> (doc: &Document)
        ensures
            doc@ == self@,
    {
        &self.doc
    }
}

} // verus!
