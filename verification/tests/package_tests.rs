use docx_lib::builder::AndroidDocBuilder;
use docx_lib::document::{DocParagraph, DocRun, Document};
use docx_lib::package::{image_id_text, pack, paragraph_id_text};

const RED: [u8; 69] = [
    137, 80, 78, 71, 13, 10, 26, 10, 0, 0, 0, 13, 73, 72, 68, 82, 0, 0, 0, 1, 0, 0, 0, 1, 8, 2, 0,
    0, 0, 144, 119, 83, 222, 0, 0, 0, 12, 73, 68, 65, 84, 120, 156, 99, 248, 207, 192, 0, 0, 3, 1,
    1, 0, 201, 254, 146, 239, 0, 0, 0, 0, 73, 69, 78, 68, 174, 66, 96, 130,
];

const BLUE: [u8; 69] = [
    137, 80, 78, 71, 13, 10, 26, 10, 0, 0, 0, 13, 73, 72, 68, 82, 0, 0, 0, 1, 0, 0, 0, 1, 8, 2, 0,
    0, 0, 144, 119, 83, 222, 0, 0, 0, 12, 73, 68, 65, 84, 120, 156, 99, 96, 96, 248, 15, 0, 1, 3,
    1, 0, 8, 137, 194, 236, 0, 0, 0, 0, 73, 69, 78, 68, 174, 66, 96, 130,
];

fn holds(bytes: &[u8], part: &str) -> bool {
    let part = part.as_bytes();
    bytes.windows(part.len()).any(|window| window == part)
}

fn sample() -> AndroidDocBuilder {
    let mut builder = AndroidDocBuilder::new();
    builder
        .add_text("{\"ops\": [{\"insert\": \"Hello \"}, {\"insert\": \"bold\", \"attributes\": {\"bold\": true}}, {\"insert\": \"slanted\", \"attributes\": {\"italic\": true}}]}")
        .unwrap();
    builder.add_image(RED.to_vec(), 952500, 476250);
    builder.add_text("{\"ops\": [{\"insert\": \"both\", \"attributes\": {\"bold\": true, \"italic\": true}}]}").unwrap();
    builder.add_image(BLUE.to_vec(), 9525, 9525);
    builder
}

fn read_runs(bytes: &[u8]) -> Vec<Vec<(String, bool, bool, Option<(String, (u32, u32))>)>> {
    let docx = docx_rs::read_docx(bytes).unwrap();
    let mut paragraphs = Vec::new();
    for child in docx.document.children.iter() {
        if let docx_rs::DocumentChild::Paragraph(paragraph) = child {
            let mut runs = Vec::new();
            for child in paragraph.children.iter() {
                if let docx_rs::ParagraphChild::Run(run) = child {
                    let mut text = String::new();
                    let mut picture = None;
                    for child in run.children.iter() {
                        match child {
                            docx_rs::RunChild::Text(t) => text.push_str(&t.text),
                            docx_rs::RunChild::Drawing(drawing) => {
                                if let Some(docx_rs::DrawingData::Pic(pic)) = &drawing.data {
                                    picture = Some((pic.id.clone(), pic.size));
                                }
                            }
                            _ => {}
                        }
                    }
                    runs.push((
                        text,
                        run.run_property.bold.is_some(),
                        run.run_property.italic.is_some(),
                        picture,
                    ));
                }
            }
            paragraphs.push(runs);
        }
    }
    paragraphs
}

#[test]
fn package_is_a_zip_archive_with_the_parts_of_a_document() {
    let bytes = sample().generate_docx().unwrap();
    assert_eq!(&bytes[0..4], b"PK\x03\x04");
    assert!(holds(&bytes, "[Content_Types].xml"));
    assert!(holds(&bytes, "_rels/.rels"));
    assert!(holds(&bytes, "word/document.xml"));
    assert!(holds(&bytes, "word/_rels/document.xml.rels"));
}

#[test]
fn package_of_an_empty_document() {
    let bytes = AndroidDocBuilder::new().generate_docx().unwrap();
    assert!(holds(&bytes, "word/document.xml"));
    assert!(!holds(&bytes, "word/media/"));
    assert_eq!(read_runs(&bytes), Vec::<Vec<(String, bool, bool, Option<(String, (u32, u32))>)>>::new());
}

#[test]
fn generate_twice_gives_the_same_bytes() {
    let builder = sample();
    let first = builder.generate_docx().unwrap();
    let second = builder.generate_docx().unwrap();
    assert_eq!(first, second);
}

#[test]
fn same_calls_give_the_same_bytes() {
    let first = sample().generate_docx().unwrap();
    let second = sample().generate_docx().unwrap();
    assert_eq!(first, second);
}

#[test]
fn bytes_do_not_depend_on_what_was_packed_before() {
    let alone = sample().generate_docx().unwrap();
    let mut other = AndroidDocBuilder::new();
    other.add_image(vec![7, 7, 7], 1, 1);
    other.add_image(vec![8, 8, 8], 1, 1);
    other.add_text("{\"ops\": [{\"insert\": \"x\"}]}").unwrap();
    other.generate_docx().unwrap();
    assert_eq!(sample().generate_docx().unwrap(), alone);
}

#[test]
fn images_are_numbered_in_the_order_they_are_met() {
    let bytes = sample().generate_docx().unwrap();
    assert!(holds(&bytes, "word/media/rIdImage1.png"));
    assert!(holds(&bytes, "word/media/rIdImage2.png"));
    assert!(!holds(&bytes, "word/media/rIdImage3.png"));
    assert!(!holds(&bytes, "word/media/rIdImage0.png"));
    assert!(holds(&bytes, "Id=\"rIdImage1\""));
    assert!(holds(&bytes, "Id=\"rIdImage2\""));
    let red = bytes.windows(RED.len()).position(|w| w == RED).unwrap();
    let blue = bytes.windows(BLUE.len()).position(|w| w == BLUE).unwrap();
    let first = bytes.windows(24).position(|w| w == b"word/media/rIdImage1.png").unwrap();
    let second = bytes.windows(24).position(|w| w == b"word/media/rIdImage2.png").unwrap();
    assert!(first < red && red < second && second < blue);
}

#[test]
fn image_bytes_are_stored_as_given() {
    let mut builder = AndroidDocBuilder::new();
    let odd: Vec<u8> = b"not an image at all, just bytes \x00\x01\x02\xff".to_vec();
    builder.add_image(odd.clone(), 5, 6);
    let bytes = builder.generate_docx().unwrap();
    assert!(bytes.windows(odd.len()).any(|w| w == &odd[..]));
}

#[test]
fn paragraphs_are_numbered_from_one() {
    let bytes = sample().generate_docx().unwrap();
    assert!(holds(&bytes, "w14:paraId=\"00000001\""));
    assert!(holds(&bytes, "w14:paraId=\"00000004\""));
    assert!(!holds(&bytes, "w14:paraId=\"00000005\""));
    assert!(!holds(&bytes, "w14:paraId=\"00000000\""));
}

#[test]
fn package_reads_back_as_the_document() {
    let bytes = sample().generate_docx().unwrap();
    let read = read_runs(&bytes);
    assert_eq!(read.len(), 4);
    assert_eq!(
        read[0],
        vec![
            (String::from("Hello "), false, false, None),
            (String::from("bold"), true, false, None),
            (String::from("slanted"), false, true, None),
        ]
    );
    assert_eq!(read[1], vec![(String::new(), false, false, Some((String::from("rIdImage1"), (952500, 476250))))]);
    assert_eq!(read[2], vec![(String::from("both"), true, true, None)]);
    assert_eq!(read[3], vec![(String::new(), false, false, Some((String::from("rIdImage2"), (9525, 9525))))]);
}

#[test]
fn markup_characters_in_text_read_back_as_text() {
    let mut builder = AndroidDocBuilder::new();
    builder.add_text("{\"ops\": [{\"insert\": \"a < b & c > d\"}]}").unwrap();
    let bytes = builder.generate_docx().unwrap();
    assert!(holds(&bytes, "a &lt; b &amp; c &gt; d"));
    let read = read_runs(&bytes);
    assert_eq!(read[0][0].0, "a < b & c > d");
}

#[test]
fn pack_takes_a_hand_made_document() {
    let doc = Document {
        paragraphs: vec![
            DocParagraph {
                runs: vec![
                    DocRun::Image { bytes: RED.to_vec(), width: 1, height: 2 },
                    DocRun::Text { content: String::from("between"), bold: false, italic: true },
                    DocRun::Image { bytes: BLUE.to_vec(), width: 3, height: 4 },
                ],
            },
            DocParagraph { runs: Vec::new() },
        ],
    };
    let bytes = pack(&doc).unwrap();
    let read = read_runs(&bytes);
    assert_eq!(read.len(), 2);
    assert_eq!(
        read[0],
        vec![
            (String::new(), false, false, Some((String::from("rIdImage1"), (1, 2)))),
            (String::from("between"), false, true, None),
            (String::new(), false, false, Some((String::from("rIdImage2"), (3, 4)))),
        ]
    );
    assert!(read[1].is_empty());
    assert_eq!(pack(&doc).unwrap(), bytes);
}

#[test]
fn identifiers_written_out() {
    assert_eq!(image_id_text(1), "rIdImage1");
    assert_eq!(image_id_text(10), "rIdImage10");
    assert_eq!(image_id_text(0), "rIdImage0");
    assert_eq!(paragraph_id_text(1), "00000001");
    assert_eq!(paragraph_id_text(255), "000000ff");
    assert_eq!(paragraph_id_text(0x1234abcd), "1234abcd");
}

#[test]
fn equal_images_share_one_part_of_the_package() {
    let mut builder = AndroidDocBuilder::new();
    builder.add_image(RED.to_vec(), 1, 1);
    builder.add_image(RED.to_vec(), 2, 2);
    builder.add_image(BLUE.to_vec(), 3, 3);
    let bytes = builder.generate_docx().unwrap();
    assert!(holds(&bytes, "word/media/rIdImage1.png"));
    assert!(!holds(&bytes, "word/media/rIdImage2.png"));
    assert!(holds(&bytes, "word/media/rIdImage3.png"));
    let read = read_runs(&bytes);
    assert_eq!(read[0][0].3, Some((String::from("rIdImage1"), (1, 1))));
    assert_eq!(read[1][0].3, Some((String::from("rIdImage1"), (2, 2))));
    assert_eq!(read[2][0].3, Some((String::from("rIdImage3"), (3, 3))));
}

#[test]
fn line_feeds_in_text_are_left_out_of_the_package() {
    let mut builder = AndroidDocBuilder::new();
    builder.add_text("{\"ops\": [{\"insert\": \"one\\ntwo\"}]}").unwrap();
    let bytes = builder.generate_docx().unwrap();
    assert_eq!(read_runs(&bytes)[0][0].0, "onetwo");
}
