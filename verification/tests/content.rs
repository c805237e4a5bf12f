use openab_core::content::{gate_document_blocks, gate_image_blocks, ContentBlock};
use openab_core::json::{Json, JsonObject};

fn text(t: &str) -> ContentBlock {
    ContentBlock::Text {
        text: t.to_string(),
    }
}

fn image(mime: &str, data: &str) -> ContentBlock {
    ContentBlock::Image {
        media_type: mime.to_string(),
        data: data.to_string(),
    }
}

fn document(mime: &str, data: &str, name: &str) -> ContentBlock {
    ContentBlock::Document {
        media_type: mime.to_string(),
        data: data.to_string(),
        name: name.to_string(),
    }
}

fn to_json(blocks: &[ContentBlock]) -> Vec<Json> {
    blocks.iter().map(|b| b.to_json()).collect()
}

#[test]
fn text_block_serializes_to_canonical_acp_shape() {
    assert_eq!(
        text("hello").to_json(),
        Json::Object(
            JsonObject::new()
                .with("type", Json::text("text"))
                .with("text", Json::text("hello"))
        )
    );
}

#[test]
fn image_block_serializes_to_canonical_acp_shape() {
    let block = image("image/png", "QUJD");
    assert_eq!(
        block.to_json(),
        Json::Object(
            JsonObject::new()
                .with("type", Json::text("image"))
                .with("data", Json::text("QUJD"))
                .with("mimeType", Json::text("image/png"))
        )
    );
}

#[test]
fn gate_strips_images_when_capability_absent_and_preserves_text_order() {
    let blocks = vec![
        text("first"),
        image("image/png", "AAA"),
        text("second"),
        image("image/jpeg", "BBB"),
        text("third"),
    ];

    let gated = gate_image_blocks(blocks, false);

    let texts: Vec<String> = gated
        .iter()
        .map(|b| match b {
            ContentBlock::Text { text } => text.clone(),
            ContentBlock::Image { .. } => panic!("image block survived"),
            ContentBlock::Document { .. } => panic!("document block present unexpectedly"),
        })
        .collect();
    assert_eq!(texts, vec!["first", "second", "third"]);
}

#[test]
fn gate_is_noop_for_text_only_blocks() {
    // Same blocks, same order, regardless of the capability flag.
    let make = || vec![text("a"), text("b"), text("c")];
    let off = to_json(&gate_image_blocks(make(), false));
    let on = to_json(&gate_image_blocks(make(), true));
    let expected = to_json(&make());
    assert_eq!(off, expected);
    assert_eq!(on, expected);
}

#[test]
fn gate_passes_images_through_when_capability_present() {
    let blocks = vec![text("hi"), image("image/png", "AAA")];
    let gated = gate_image_blocks(blocks, true);
    assert_eq!(gated.len(), 2);
    assert!(matches!(gated[1], ContentBlock::Image { .. }));
}

#[test]
fn document_block_serializes_to_canonical_acp_shape() {
    let block = document("application/pdf", "QUJD", "report.pdf");
    assert_eq!(
        block.to_json(),
        Json::Object(
            JsonObject::new()
                .with("type", Json::text("document"))
                .with("data", Json::text("QUJD"))
                .with("mimeType", Json::text("application/pdf"))
                .with("name", Json::text("report.pdf"))
        )
    );
}

#[test]
fn gate_strips_documents_when_capability_absent_and_preserves_text_order() {
    let blocks = vec![
        text("first"),
        document("application/pdf", "AAA", "a.pdf"),
        text("second"),
        document("application/zip", "BBB", "b.zip"),
        text("third"),
    ];

    let gated = gate_document_blocks(blocks, false);

    let texts: Vec<String> = gated
        .iter()
        .map(|b| match b {
            ContentBlock::Text { text } => text.clone(),
            _ => panic!("document block survived"),
        })
        .collect();
    assert_eq!(texts, vec!["first", "second", "third"]);
}

#[test]
fn gate_document_is_noop_for_text_only_blocks() {
    // Same blocks, same order, regardless of the capability flag.
    let make = || vec![text("a"), text("b"), text("c")];
    let off = to_json(&gate_document_blocks(make(), false));
    let on = to_json(&gate_document_blocks(make(), true));
    let expected = to_json(&make());
    assert_eq!(off, expected);
    assert_eq!(on, expected);
}

#[test]
fn gate_document_preserves_image_blocks() {
    // Stripping documents must not disturb image blocks.
    let blocks = vec![
        text("hi"),
        image("image/png", "AAA"),
        document("application/pdf", "BBB", "d.pdf"),
    ];
    let gated = gate_document_blocks(blocks, false);
    assert_eq!(gated.len(), 2);
    assert!(matches!(gated[0], ContentBlock::Text { .. }));
    assert!(matches!(gated[1], ContentBlock::Image { .. }));
}

#[test]
fn gate_passes_documents_through_when_capability_present() {
    let blocks = vec![text("hi"), document("application/pdf", "AAA", "d.pdf")];
    let gated = gate_document_blocks(blocks, true);
    assert_eq!(gated.len(), 2);
    assert!(matches!(gated[1], ContentBlock::Document { .. }));
}

#[test]
fn image_gate_keeps_documents() {
    let blocks = vec![
        image("image/png", "AAA"),
        document("application/pdf", "BBB", "d.pdf"),
        text("hi"),
    ];
    let gated = to_json(&gate_image_blocks(blocks, false));
    assert_eq!(
        gated,
        to_json(&[document("application/pdf", "BBB", "d.pdf"), text("hi")])
    );
}

#[test]
fn gates_commute_and_are_idempotent() {
    let make = || {
        vec![
            image("image/png", "AAA"),
            text("a"),
            document("application/pdf", "BBB", "d.pdf"),
            text("b"),
        ]
    };
    let image_first = gate_document_blocks(gate_image_blocks(make(), false), false);
    let document_first = gate_image_blocks(gate_document_blocks(make(), false), false);
    assert_eq!(to_json(&image_first), to_json(&[text("a"), text("b")]));
    assert_eq!(to_json(&document_first), to_json(&image_first));
    let again = gate_image_blocks(gate_image_blocks(make(), false), false);
    assert_eq!(to_json(&again), to_json(&gate_image_blocks(make(), false)));
}

#[test]
fn different_blocks_have_different_forms() {
    let blocks = [
        text("a"),
        text("b"),
        image("a", "b"),
        image("b", "a"),
        document("a", "b", "c"),
        document("a", "c", "b"),
        document("b", "a", "c"),
    ];
    for (i, first) in blocks.iter().enumerate() {
        for (j, second) in blocks.iter().enumerate() {
            assert_eq!(first.to_json() == second.to_json(), i == j);
        }
    }
}
