//! The document model: paragraphs of styled runs, in reading order.

use crate::delta::{ops_view, DeltaOp, DeltaOpView};
use vstd::prelude::*;

verus! {

/// The smallest styled unit of a paragraph.
#[derive(Debug, Clone, PartialEq, Eq)]
pub enum DocRun {
    /// Text with its two style flags.
    Text { content: String, bold: bool, italic: bool },
    /// An embedded image: the bytes of its file as given, which nothing here
    /// decodes, and the size to show it at, in the packer's units (English
    /// Metric Units, 9525 to a pixel).
    Image { bytes: Vec<u8>, width: u32, height: u32 },
}

/// The mathematical value of a [`DocRun`].
pub enum DocRunView {
    Text { content: Seq<char>, bold: bool, italic: bool },
    Image { bytes: Seq<u8>, width: u32, height: u32 },
}

impl View for DocRun {
    type V = DocRunView;

    open spec fn view(&self) -> DocRunView {
        match self {
            DocRun::Text { content, bold, italic } => DocRunView::Text {
                content: content@,
                bold: *bold,
                italic: *italic,
            },
            DocRun::Image { bytes, width, height } => DocRunView::Image {
                bytes: bytes@,
                width: *width,
                height: *height,
            },
        }
    }
}

/// The values of a vector of runs, in order.
pub open spec fn runs_view(runs: Seq<DocRun>) -> Seq<DocRunView> {
    Seq::new(runs.len(), |i: int| runs[i]@)
}

/// A block of the document: its runs from left to right.
#[derive(Debug, Clone, PartialEq, Eq)]
pub struct DocParagraph {
    pub runs: Vec<DocRun>,
}

impl View for DocParagraph {
    type V = Seq<DocRunView>;

    open spec fn view(&self) -> Seq<DocRunView> {
        runs_view(self.runs@)
    }
}

/// The runs of the paragraph that a delta becomes: one text run for each
/// operation, in order, with the operation's text and flags. Runs are not
/// merged, whatever their flags.
pub open spec fn text_runs(ops: Seq<DeltaOpView>) -> Seq<DocRunView> {
    Seq::new(
        ops.len(),
        |i: int|
            DocRunView::Text { content: ops[i].insert, bold: ops[i].bold, italic: ops[i].italic },
    )
}

/// The runs of the paragraph that an image becomes: the image alone.
pub open spec fn image_runs(bytes: Seq<u8>, width: u32, height: u32) -> Seq<DocRunView> {
    seq![DocRunView::Image { bytes, width, height }]
}

impl DocParagraph {
    /// The paragraph that a delta becomes.
    pub fn from_ops(ops: &Vec<DeltaOp>) -> (paragraph: DocParagraph)
        ensures
            paragraph@ == text_runs(ops_view(ops@)),
    {
        let mut runs: Vec<DocRun> = Vec::new();
        let mut i: usize = 0;
        while i < ops.len()
            invariant
                i <= ops.len(),
                runs@.len() == i,
                forall|k: int|
                    0 <= k < i ==> (#[trigger] runs@[k])@ == text_runs(ops_view(ops@))[k],
            decreases ops.len() - i,
        {
            let op = &ops[i];
            runs.push(DocRun::Text { content: op.insert.clone(), bold: op.bold, italic: op.italic });
            i += 1;
        }
        let paragraph = DocParagraph { runs };
        assert(paragraph@ =~= text_runs(ops_view(ops@)));
        paragraph
    }

    /// The paragraph that an image becomes. The bytes are taken over as
    /// they are.
    pub fn from_image(bytes: Vec<u8>, width: u32, height: u32) -> (paragraph: DocParagraph)
        ensures
            paragraph@ == image_runs(bytes@, width, height),
    {
        let mut runs: Vec<DocRun> = Vec::new();
        runs.push(DocRun::Image { bytes, width, height });
        let paragraph = DocParagraph { runs };
        assert(paragraph@ =~= image_runs(bytes@, width, height));
        paragraph
    }
}

/// The values of a vector of paragraphs, in order.
pub open spec fn paragraphs_view(paragraphs: Seq<DocParagraph>) -> Seq<Seq<DocRunView>> {
    Seq::new(paragraphs.len(), |i: int| paragraphs[i]@)
}

/// A document: its paragraphs from top to bottom.
#[derive(Debug, Clone, PartialEq, Eq)]
pub struct Document {
    pub paragraphs: Vec<DocParagraph>,
}

impl View for Document {
    type V = Seq<Seq<DocRunView>>;

    open spec fn view(&self) -> Seq<Seq<DocRunView>> {
        paragraphs_view(self.paragraphs@)
    }
}

impl Document {
    /// A document without paragraphs.
    pub fn new() -> (doc: Document)
        ensures
            doc@ == Seq::<Seq<DocRunView>>::empty(),
    {
        let doc = Document { paragraphs: Vec::new() };
        assert(doc@ =~= Seq::<Seq<DocRunView>>::empty());
        doc
    }

    /// Appends `paragraph` below everything the document holds.
    pub fn push(&mut self, paragraph: DocParagraph)
        ensures
            final(self)@ == old(self)@.push(paragraph@),
    {
        self.paragraphs.push(paragraph);
        assert(self@ =~= old(self)@.push(paragraph@));
    }
}

} // verus!
