use docx_lib::builder::AndroidDocBuilder;
use docx_lib::delta::{DeltaOp, OpFault, ParseError};
use docx_lib::document::{DocParagraph, DocRun, Document};

fn text_run(content: &str, bold: bool, italic: bool) -> DocRun {
    DocRun::Text { content: String::from(content), bold, italic }
}

#[test]
fn new_builder_holds_an_empty_document() {
    let builder = AndroidDocBuilder::new();
    assert_eq!(builder.document().paragraphs.len(), 0);
    assert_eq!(*builder.document(), Document::new());
}

#[test]
fn add_text_appends_one_paragraph_with_a_run_for_each_operation() {
    let mut builder = AndroidDocBuilder::new();
    let res = builder.add_text(
        "{\"ops\": [{\"insert\": \"plain\"}, {\"insert\": \"bold\", \"attributes\": {\"bold\": true}}, {\"insert\": \"both\", \"attributes\": {\"bold\": true, \"italic\": true}}]}",
    );
    assert_eq!(res, Ok(()));
    let doc = builder.document();
    assert_eq!(doc.paragraphs.len(), 1);
    assert_eq!(
        doc.paragraphs[0].runs,
        vec![text_run("plain", false, false), text_run("bold", true, false), text_run("both", true, true)]
    );
}

#[test]
fn add_text_does_not_merge_runs_of_equal_style() {
    let mut builder = AndroidDocBuilder::new();
    builder.add_text("{\"ops\": [{\"insert\": \"a\"}, {\"insert\": \"b\"}]}").unwrap();
    assert_eq!(builder.document().paragraphs[0].runs.len(), 2);
}

#[test]
fn add_text_with_an_empty_delta_appends_an_empty_paragraph() {
    let mut builder = AndroidDocBuilder::new();
    builder.add_text("{\"ops\": []}").unwrap();
    assert_eq!(builder.document().paragraphs.len(), 1);
    assert!(builder.document().paragraphs[0].runs.is_empty());
}

#[test]
fn each_call_adds_its_own_paragraph() {
    let mut builder = AndroidDocBuilder::new();
    builder.add_text("{\"ops\": [{\"insert\": \"one\"}]}").unwrap();
    builder.add_text("{\"ops\": [{\"insert\": \"two\"}]}").unwrap();
    builder.add_image(vec![1, 2, 3], 10, 20);
    let doc = builder.document();
    assert_eq!(doc.paragraphs.len(), 3);
    assert_eq!(doc.paragraphs[0].runs, vec![text_run("one", false, false)]);
    assert_eq!(doc.paragraphs[1].runs, vec![text_run("two", false, false)]);
    assert_eq!(doc.paragraphs[2].runs, vec![DocRun::Image { bytes: vec![1, 2, 3], width: 10, height: 20 }]);
}

#[test]
fn add_text_with_malformed_text_changes_nothing_and_reports() {
    let mut builder = AndroidDocBuilder::new();
    builder.add_text("{\"ops\": [{\"insert\": \"kept\"}]}").unwrap();
    let before = builder.document().clone();
    let error = builder.add_text("{\"ops\": [{\"insert\": \"a\"}").unwrap_err();
    assert!(matches!(error, ParseError::Syntax { .. }));
    assert_eq!(*builder.document(), before);
    let error = builder.add_text("{\"ops\": [{\"insert\": \"a\"}, {\"insert\": 3}]}").unwrap_err();
    assert_eq!(error, ParseError::Op { index: 1, fault: OpFault::InsertNotText });
    assert_eq!(*builder.document(), before);
    assert_eq!(builder.document().paragraphs.len(), 1);
}

#[test]
fn builder_goes_on_after_an_error() {
    let mut builder = AndroidDocBuilder::new();
    assert!(builder.add_text("nonsense").is_err());
    assert_eq!(builder.document().paragraphs.len(), 0);
    builder.add_text("{\"ops\": [{\"insert\": \"a\"}]}").unwrap();
    assert_eq!(builder.document().paragraphs.len(), 1);
}

#[test]
fn add_image_appends_a_paragraph_with_the_image_alone() {
    let mut builder = AndroidDocBuilder::new();
    let bytes: Vec<u8> = (0..=255).collect();
    builder.add_image(bytes.clone(), 640, 480);
    let doc = builder.document();
    assert_eq!(doc.paragraphs.len(), 1);
    assert_eq!(doc.paragraphs[0].runs, vec![DocRun::Image { bytes, width: 640, height: 480 }]);
}

#[test]
fn add_image_takes_empty_bytes_and_extreme_sizes() {
    let mut builder = AndroidDocBuilder::new();
    builder.add_image(Vec::new(), 0, u32::MAX);
    assert_eq!(
        builder.document().paragraphs[0].runs,
        vec![DocRun::Image { bytes: Vec::new(), width: 0, height: u32::MAX }]
    );
    assert!(builder.generate_docx().is_ok());
}

#[test]
fn paragraph_from_ops_keeps_order_and_flags() {
    let ops = vec![
        DeltaOp { insert: String::from("x"), bold: false, italic: true },
        DeltaOp { insert: String::from("y"), bold: true, italic: false },
    ];
    assert_eq!(
        DocParagraph::from_ops(&ops).runs,
        vec![text_run("x", false, true), text_run("y", true, false)]
    );
    assert!(DocParagraph::from_ops(&Vec::new()).runs.is_empty());
}

#[test]
fn paragraph_from_image_holds_one_run() {
    assert_eq!(
        DocParagraph::from_image(vec![9], 1, 2).runs,
        vec![DocRun::Image { bytes: vec![9], width: 1, height: 2 }]
    );
}

#[test]
fn document_push_appends_below() {
    let mut doc = Document::new();
    doc.push(DocParagraph { runs: vec![text_run("a", false, false)] });
    doc.push(DocParagraph { runs: Vec::new() });
    assert_eq!(doc.paragraphs.len(), 2);
    assert_eq!(doc.paragraphs[0].runs, vec![text_run("a", false, false)]);
    assert!(doc.paragraphs[1].runs.is_empty());
}

#[test]
fn generate_leaves_the_builder_usable() {
    let mut builder = AndroidDocBuilder::new();
    builder.add_text("{\"ops\": [{\"insert\": \"a\"}]}").unwrap();
    let first = builder.generate_docx().unwrap();
    let before = builder.document().clone();
    let again = builder.generate_docx().unwrap();
    assert_eq!(*builder.document(), before);
    assert_eq!(first, again);
    builder.add_text("{\"ops\": [{\"insert\": \"b\"}]}").unwrap();
    let longer = builder.generate_docx().unwrap();
    assert_ne!(first, longer);
}

#[test]
fn builder_counts_its_paragraphs() {
    let mut builder = AndroidDocBuilder::new();
    assert!(builder.is_empty());
    assert_eq!(builder.paragraph_count(), 0);
    builder.add_image(vec![0], 1, 1);
    assert!(!builder.is_empty());
    assert_eq!(builder.paragraph_count(), 1);
    assert!(builder.add_text("[").is_err());
    assert_eq!(builder.paragraph_count(), 1);
    builder.add_text("{\"ops\": []}").unwrap();
    assert_eq!(builder.paragraph_count(), 2);
}

#[test]
fn builder_is_reachable_from_the_crate_root() {
    let builder = docx_lib::AndroidDocBuilder::new();
    assert!(builder.is_empty());
}
