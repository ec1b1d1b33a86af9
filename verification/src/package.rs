//! Packing a document into the bytes of a `.docx` file.
//!
//! The markup and the archive are `docx_rs`'s. This module decides what is
//! handed to it: the paragraphs and runs in document order, a number for each
//! paragraph, and a relationship identifier for each image, counted from one
//! in the order in which the images are met.

use crate::document::{DocRun, DocRunView, Document};
use crate::numerals::{
    lemma_numeral_injective, numeral, padded_numeral, push_numeral, push_padded_numeral,
};
use vstd::prelude::*;

verus! {

/// What a run of the package holds.
pub enum RunLayout {
    /// Character data with the two style flags.
    Text { text: Seq<char>, bold: bool, italic: bool },
    /// An inline picture: its relationship identifier, the file's bytes and
    /// the size it is shown at.
    Picture { id: Seq<char>, image: Seq<u8>, width: u32, height: u32 },
}

/// What a paragraph of the package holds.
pub struct ParagraphLayout {
    pub id: Seq<char>,
    pub runs: Seq<RunLayout>,
}

/// The number of images among `runs`.
pub open spec fn image_count(runs: Seq<DocRunView>) -> nat
    decreases runs.len(),
{
    if runs.len() == 0 {
        0
    } else {
        image_count(runs.drop_last()) + if runs.last() is Image {
            1nat
        } else {
            0nat
        }
    }
}

/// The number of images in the first `count` paragraphs of `doc`.
pub open spec fn images_before(doc: Seq<Seq<DocRunView>>, count: int) -> nat
    decreases count,
{
    if count <= 0 {
        0
    } else {
        images_before(doc, count - 1) + image_count(doc[count - 1])
    }
}

/// The relationship identifier of the `number`-th image of a document.
pub open spec fn image_id(number: nat) -> Seq<char> {
    "rIdImage"@ + numeral(number, 10)
}

/// The identifier of the `number`-th paragraph of a document: the number in
/// eight hexadecimal digits.
pub open spec fn paragraph_id(number: nat) -> Seq<char> {
    padded_numeral(number, 16, 8)
}

/// What `run` becomes in the package when `earlier` images stand before it.
pub open spec fn run_layout_of(run: DocRunView, earlier: nat) -> RunLayout {
    match run {
        DocRunView::Text { content, bold, italic } => RunLayout::Text {
            text: kept_text(content),
            bold,
            italic,
        },
        DocRunView::Image { bytes, width, height } => RunLayout::Picture {
            id: image_id(earlier + 1),
            image: bytes,
            width,
            height,
        },
    }
}

/// What the first `count` of `runs` become when `earlier` images stand
/// before the paragraph.
pub open spec fn runs_layout_of(runs: Seq<DocRunView>, earlier: nat, count: int) -> Seq<RunLayout> {
    Seq::new(
        count as nat,
        |j: int| run_layout_of(runs[j], earlier + image_count(runs.take(j))),
    )
}

/// What the paragraph at `place` becomes in the package.
pub open spec fn paragraph_layout_of(doc: Seq<Seq<DocRunView>>, place: int) -> ParagraphLayout {
    ParagraphLayout {
        id: paragraph_id((place + 1) as nat),
        runs: runs_layout_of(doc[place], images_before(doc, place), doc[place].len() as int),
    }
}

/// What the first `count` paragraphs of `doc` become in the package.
pub open spec fn layout_prefix(doc: Seq<Seq<DocRunView>>, count: int) -> Seq<ParagraphLayout> {
    Seq::new(count as nat, |i: int| paragraph_layout_of(doc, i))
}

/// What `doc` becomes in the package: its paragraphs and runs one for one
/// and in order, the paragraphs numbered from one, and the images given
/// the identifiers `rIdImage1`, `rIdImage2`, ... in the order in which a
/// reader meets them.
pub open spec fn layout_of(doc: Seq<Seq<DocRunView>>) -> Seq<ParagraphLayout> {
    layout_prefix(doc, doc.len() as int)
}

/// `docx_rs::Run`, a run under construction.
#[verifier::external_type_specification]
#[verifier::external_body]
pub struct ExRun(docx_rs::Run);

/// `docx_rs::Paragraph`, a paragraph under construction.
#[verifier::external_type_specification]
#[verifier::external_body]
pub struct ExParagraph(docx_rs::Paragraph);

/// `docx_rs::Docx`, a document under construction.
#[verifier::external_type_specification]
#[verifier::external_body]
pub struct ExDocx(docx_rs::Docx);

/// `docx_rs::DocxError`, why a package could not be written.
#[verifier::external_type_specification]
#[verifier::external_body]
pub struct ExDocxError(docx_rs::DocxError);

/// The character data that `docx_rs::Run::add_text` keeps of a text.
pub uninterp spec fn kept_text(text: Seq<char>) -> Seq<char>;

/// What a `docx_rs::Run` holds, for a run that is one text with default
/// properties but for bold and italic, or one inline picture of which only
/// identifier, bytes and size were set; `None` for any other run.
pub uninterp spec fn run_content(run: docx_rs::Run) -> Option<RunLayout>;

/// What a `docx_rs::Paragraph` holds, for a paragraph with default
/// properties whose children are runs that [`run_content`] describes;
/// `None` for any other paragraph.
pub uninterp spec fn paragraph_content(paragraph: docx_rs::Paragraph) -> Option<ParagraphLayout>;

/// What a `docx_rs::Docx` holds, for a document that is `Docx::new()` with
/// paragraphs added that [`paragraph_content`] describes; `None` for any
/// other document.
pub uninterp spec fn docx_content(docx: docx_rs::Docx) -> Option<Seq<ParagraphLayout>>;

/// The bytes that `docx_rs::Docx::pack` writes for a document with this
/// content; `None` where it fails.
pub uninterp spec fn packed(content: Seq<ParagraphLayout>) -> Option<Seq<u8>>;

/// `Run::new().add_text(text)`: a run of one text, neither bold nor italic.
#[verifier::external_body]
fn text_run(text: &str) -> (run: docx_rs::Run)
    ensures
        run_content(run) == Some(
            RunLayout::Text { text: kept_text(text@), bold: false, italic: false },
        ),
{
    docx_rs::Run::new().add_text(text)
}

/// `Run::bold`: sets the bold property of a text run and leaves the rest.
#[verifier::external_body]
fn bold_run(run: docx_rs::Run) -> (res: docx_rs::Run)
    requires
        run_content(run) matches Some(RunLayout::Text { .. }),
    ensures
        run_content(res) == Some(
            RunLayout::Text {
                text: run_content(run)->0->text,
                bold: true,
                italic: run_content(run)->0->italic,
            },
        ),
{
    run.bold()
}

/// `Run::italic`: sets the italic property of a text run and leaves the rest.
#[verifier::external_body]
fn italic_run(run: docx_rs::Run) -> (res: docx_rs::Run)
    requires
        run_content(run) matches Some(RunLayout::Text { .. }),
    ensures
        run_content(res) == Some(
            RunLayout::Text {
                text: run_content(run)->0->text,
                bold: run_content(run)->0->bold,
                italic: true,
            },
        ),
{
    run.italic()
}

/// `Run::new().add_image(..)` with a picture from `Pic::new_with_dimensions`,
/// which keeps the bytes as they are, then `Pic::size` and `Pic::id`: a run
/// of one inline picture with that identifier, those bytes and that size.
/// The picture is made with no size and then sized: `new_with_dimensions`
/// multiplies the size it is given, `Pic::size` stores it.
#[verifier::external_body]
fn image_run(id: &str, image: &Vec<u8>, width: u32, height: u32) -> (run: docx_rs::Run)
    ensures
        run_content(run) == Some(RunLayout::Picture { id: id@, image: image@, width, height }),
{
    docx_rs::Run::new().add_image(
        docx_rs::Pic::new_with_dimensions(image.clone(), 0, 0).size(width, height).id(id),
    )
}

/// A `docx_rs::Paragraph` with the identifier `id`, without children and
/// with default properties. It is made field by field: `Paragraph::new`
/// draws an identifier from a counter of the thread and panics once that
/// counter is exhausted.
#[verifier::external_body]
fn empty_paragraph(id: &str) -> (paragraph: docx_rs::Paragraph)
    ensures
        paragraph_content(paragraph) == Some(ParagraphLayout { id: id@, runs: Seq::empty() }),
{
    docx_rs::Paragraph {
        id: id.to_string(),
        children: Vec::new(),
        property: docx_rs::ParagraphProperty::new(),
        has_numbering: false,
    }
}

/// `Paragraph::add_run`: appends the run to the paragraph's children.
#[verifier::external_body]
fn paragraph_with(paragraph: docx_rs::Paragraph, run: docx_rs::Run) -> (res: docx_rs::Paragraph)
    requires
        paragraph_content(paragraph) is Some,
        run_content(run) is Some,
    ensures
        paragraph_content(res) == Some(
            ParagraphLayout {
                id: paragraph_content(paragraph)->0.id,
                runs: paragraph_content(paragraph)->0.runs.push(run_content(run)->0),
            },
        ),
{
    paragraph.add_run(run)
}

/// `Docx::new`: a document without paragraphs.
#[verifier::external_body]
fn empty_docx() -> (docx: docx_rs::Docx)
    ensures
        docx_content(docx) == Some(Seq::<ParagraphLayout>::empty()),
{
    docx_rs::Docx::new()
}

/// `Docx::add_paragraph`: appends the paragraph to the document's body.
#[verifier::external_body]
fn docx_with(docx: docx_rs::Docx, paragraph: docx_rs::Paragraph) -> (res: docx_rs::Docx)
    requires
        docx_content(docx) is Some,
        paragraph_content(paragraph) is Some,
    ensures
        docx_content(res) == Some(docx_content(docx)->0.push(paragraph_content(paragraph)->0)),
{
    docx.add_paragraph(paragraph)
}

/// `Docx::pack` into a buffer in memory. The contract claims that what is
/// written is a function of the document's content: the crate stamps the
/// archive's entries with a fixed date and draws on no other state.
#[verifier::external_body]
fn pack_docx(docx: docx_rs::Docx) -> (res: Result<Vec<u8>, docx_rs::DocxError>)
    requires
        docx_content(docx) is Some,
    ensures
        match packed(docx_content(docx)->0) {
            Some(bytes) => res matches Ok(written) && written@ == bytes,
            None => res is Err,
        },
{
    let mut out = std::io::Cursor::new(Vec::new());
    docx.pack(&mut out)?;
    Ok(out.into_inner())
}

/// Why a document could not be packed, in the packer's words.
#[derive(Debug, Clone, PartialEq, Eq)]
pub struct PackError {
    pub message: String,
}

/// `res` is what packing a document of value `doc` gives: the bytes that
/// the packer writes for [`layout_of`] the document, an error where it
/// writes none.
pub open spec fn packs_to(doc: Seq<Seq<DocRunView>>, res: Result<Vec<u8>, PackError>) -> bool {
    match packed(layout_of(doc)) {
        Some(bytes) => res matches Ok(written) && written@ == bytes,
        None => res is Err,
    }
}

/// Among the first `count` of `runs` there are at most `count` images, and
/// one more run adds one image or none.
pub proof fn lemma_image_count_step(runs: Seq<DocRunView>, count: int)
    requires
        0 <= count < runs.len(),
    ensures
        image_count(runs.take(count)) <= count,
        image_count(runs.take(count + 1)) == image_count(runs.take(count)) + if runs[count]
            is Image {
            1nat
        } else {
            0nat
        },
    decreases count,
{
    assert(runs.take(count + 1).drop_last() =~= runs.take(count));
    if count > 0 {
        lemma_image_count_step(runs, count - 1);
    }
}

/// The number of images that a reader meets before the run at `index` of
/// the paragraph at `place`.
pub open spec fn images_ahead(doc: Seq<Seq<DocRunView>>, place: int, index: int) -> nat {
    images_before(doc, place) + image_count(doc[place].take(index))
}

/// Packing a document twice, unchanged in between, gives the same bytes
/// twice or fails twice.
pub proof fn lemma_packing_is_repeatable(
    doc: Seq<Seq<DocRunView>>,
    first: Result<Vec<u8>, PackError>,
    second: Result<Vec<u8>, PackError>,
)
    requires
        packs_to(doc, first),
        packs_to(doc, second),
    ensures
        first is Ok <==> second is Ok,
        first is Ok ==> first->Ok_0@ == second->Ok_0@,
{
}

/// The package has a paragraph for each paragraph of the document and a run
/// for each run, in order; a text run keeps its flags, an image its bytes and
/// size; and the image that a reader meets after `k` others bears the
/// identifier of number `k + 1`, so that the first bears `rIdImage1`.
pub proof fn lemma_layout_follows_document(doc: Seq<Seq<DocRunView>>, place: int, index: int)
    requires
        0 <= place < doc.len(),
        0 <= index < doc[place].len(),
    ensures
        layout_of(doc).len() == doc.len(),
        layout_of(doc)[place].id == paragraph_id((place + 1) as nat),
        layout_of(doc)[place].runs.len() == doc[place].len(),
        match doc[place][index] {
            DocRunView::Text { content, bold, italic } => layout_of(doc)[place].runs[index]
                == (RunLayout::Text { text: kept_text(content), bold, italic }),
            DocRunView::Image { bytes, width, height } => layout_of(doc)[place].runs[index]
                == (RunLayout::Picture {
                id: image_id(images_ahead(doc, place, index) + 1),
                image: bytes,
                width,
                height,
            }),
        },
{
}

/// The count of images ahead starts at zero and grows by one with each
/// image met, within a paragraph and from one paragraph to the next.
pub proof fn lemma_images_ahead_counts(doc: Seq<Seq<DocRunView>>, place: int, index: int)
    requires
        0 <= place < doc.len(),
        0 <= index < doc[place].len(),
    ensures
        images_ahead(doc, 0, 0) == 0,
        images_ahead(doc, place, index + 1) == images_ahead(doc, place, index) + if doc[place][index]
            is Image {
            1nat
        } else {
            0nat
        },
        images_ahead(doc, place + 1, 0) == images_ahead(doc, place, doc[place].len() as int),
{
    lemma_image_count_step(doc[place], index);
    assert(doc[place].take(doc[place].len() as int) =~= doc[place]);
    assert(doc[0].take(0) =~= Seq::<DocRunView>::empty());
    assert(doc[place + 1].take(0) =~= Seq::<DocRunView>::empty());
}

/// Images with different numbers bear different identifiers.
pub proof fn lemma_image_ids_differ(first: nat, second: nat)
    requires
        image_id(first) == image_id(second),
    ensures
        first == second,
{
    let prefix = "rIdImage"@;
    assert(numeral(first, 10) =~= image_id(first).skip(prefix.len() as int));
    assert(numeral(second, 10) =~= image_id(second).skip(prefix.len() as int));
    lemma_numeral_injective(first, second, 10);
}

/// The identifier of the `number`-th paragraph, written out.
pub fn paragraph_id_text(number: usize) -> (id: String)
    ensures
        id@ == paragraph_id(number as nat),
{
    let mut id = String::new();
    push_padded_numeral(&mut id, number as u128, 16, 8);
    assert(id@ =~= paragraph_id(number as nat));
    id
}

/// The identifier of the `number`-th image, written out.
pub fn image_id_text(number: u128) -> (id: String)
    ensures
        id@ == image_id(number as nat),
{
    let mut id = "rIdImage".to_owned();
    push_numeral(&mut id, number, 10);
    id
}

/// Hands one run to the packer; `earlier` images stand before it.
fn render_run(run: &DocRun, earlier: u128) -> (res: docx_rs::Run)
    requires
        earlier < u128::MAX,
    ensures
        run_content(res) == Some(run_layout_of(run@, earlier as nat)),
{
    match run {
        DocRun::Text { content, bold, italic } => {
            let mut res = text_run(content.as_str());
            if *bold {
                res = bold_run(res);
            }
            if *italic {
                res = italic_run(res);
            }
            res
        },
        DocRun::Image { bytes, width, height } => {
            let id = image_id_text(earlier + 1);
            image_run(id.as_str(), bytes, *width, *height)
        },
    }
}

/// Hands the paragraph at `place` to the packer, run by run; `earlier`
/// images stand before it. Gives back the number of images up to its end.
fn render_paragraph(doc: &Document, place: usize, earlier: u128) -> (res: (
    docx_rs::Paragraph,
    u128,
))
    requires
        place < doc.paragraphs.len(),
        earlier == images_before(doc@, place as int),
        earlier <= place * 0xFFFF_FFFF_FFFF_FFFF,
    ensures
        paragraph_content(res.0) == Some(paragraph_layout_of(doc@, place as int)),
        res.1 == images_before(doc@, place + 1),
        res.1 <= (place + 1) * 0xFFFF_FFFF_FFFF_FFFF,
{
    let runs = &doc.paragraphs[place].runs;
    let ghost values = doc@[place as int];
    let id = paragraph_id_text(place + 1);
    let mut paragraph = empty_paragraph(id.as_str());
    let mut images: u128 = earlier;
    let mut j: usize = 0;
    assert(values.take(0) =~= Seq::<DocRunView>::empty());
    assert(runs_layout_of(values, earlier as nat, 0) =~= Seq::<RunLayout>::empty());
    while j < runs.len()
        invariant
            j <= runs.len(),
            values.len() == runs.len(),
            forall|k: int| 0 <= k < values.len() ==> #[trigger] values[k] == runs[k]@,
            earlier <= place * 0xFFFF_FFFF_FFFF_FFFF,
            place < usize::MAX,
            images == earlier + image_count(values.take(j as int)),
            image_count(values.take(j as int)) <= j,
            paragraph_content(paragraph) == Some(
                ParagraphLayout {
                    id: paragraph_id((place + 1) as nat),
                    runs: runs_layout_of(values, earlier as nat, j as int),
                },
            ),
        decreases runs.len() - j,
    {
        proof {
            lemma_image_count_step(values, j as int);
        }
        let run = render_run(&runs[j], images);
        paragraph = paragraph_with(paragraph, run);
        if let DocRun::Image { .. } = &runs[j] {
            images = images + 1;
        }
        j += 1;
        assert(runs_layout_of(values, earlier as nat, j as int) =~= runs_layout_of(
            values,
            earlier as nat,
            j - 1,
        ).push(run_layout_of(values[j - 1], earlier as nat + image_count(values.take(j - 1)))));
    }
    assert(values.take(j as int) =~= values);
    (paragraph, images)
}

/// Hands the whole document to the packer, paragraph by paragraph.
fn render(doc: &Document) -> (docx: docx_rs::Docx)
    ensures
        docx_content(docx) == Some(layout_of(doc@)),
{
    let mut docx = empty_docx();
    let mut images: u128 = 0;
    let mut i: usize = 0;
    assert(layout_prefix(doc@, 0) =~= Seq::<ParagraphLayout>::empty());
    while i < doc.paragraphs.len()
        invariant
            i <= doc.paragraphs.len(),
            images == images_before(doc@, i as int),
            images <= i * 0xFFFF_FFFF_FFFF_FFFF,
            docx_content(docx) == Some(layout_prefix(doc@, i as int)),
        decreases doc.paragraphs.len() - i,
    {
        let (paragraph, after) = render_paragraph(doc, i, images);
        docx = docx_with(docx, paragraph);
        images = after;
        i += 1;
        assert(layout_prefix(doc@, i as int) =~= layout_prefix(doc@, i - 1).push(
            paragraph_layout_of(doc@, i - 1),
        ));
    }
    docx
}

/// Packs the document into the bytes of a `.docx` file. The document is
/// left as it is; packing it again gives the same bytes.
pub fn pack(doc: &Document) -> (res: Result<Vec<u8>, PackError>)
    ensures
        packs_to(doc@, res),
{
    match pack_docx(render(doc)) {
        Ok(bytes) => Ok(bytes),
        Err(error) => Err(PackError { message: error.to_string() }),
    }
}

} // verus!
