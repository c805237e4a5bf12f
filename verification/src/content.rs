//! Content blocks of a prompt, and the gates that keep from an agent what it
//! did not say it can take.
use crate::filter::{
    lemma_filter_all, lemma_filter_filter, lemma_filter_has, lemma_filter_len, lemma_filter_none,
    lemma_filter_same, lemma_filter_step,
};
use crate::json::{
    elements_view, has_exactly, has_text, lemma_elements_view, Json, JsonObject, JsonView,
};
use vstd::prelude::*;

verus! {

broadcast use vstd::string::group_string_axioms;

/// A content block of a prompt: a text, an image, or a raw file.
#[derive(Debug)]
pub enum ContentBlock {
    Text { text: String },
    Image { media_type: String, data: String },
    Document { media_type: String, data: String, name: String },
}

/// What a content block holds.
pub enum BlockView {
    Text { text: Seq<char> },
    Image { media_type: Seq<char>, data: Seq<char> },
    Document { media_type: Seq<char>, data: Seq<char>, name: Seq<char> },
}

impl View for ContentBlock {
    type V = BlockView;

    open spec fn view(&self) -> BlockView {
        match self {
            ContentBlock::Text { text } => BlockView::Text { text: text@ },
            ContentBlock::Image { media_type, data } => BlockView::Image {
                media_type: media_type@,
                data: data@,
            },
            ContentBlock::Document { media_type, data, name } => BlockView::Document {
                media_type: media_type@,
                data: data@,
                name: name@,
            },
        }
    }
}

impl Clone for ContentBlock {
    /// The same block.
    fn clone(&self) -> (copy: ContentBlock)
        ensures
            copy == *self,
    {
        match self {
            ContentBlock::Text { text } => ContentBlock::Text { text: text.clone() },
            ContentBlock::Image { media_type, data } => ContentBlock::Image {
                media_type: media_type.clone(),
                data: data.clone(),
            },
            ContentBlock::Document { media_type, data, name } => ContentBlock::Document {
                media_type: media_type.clone(),
                data: data.clone(),
                name: name.clone(),
            },
        }
    }
}

/// The form in which a text is sent to the agent.
pub open spec fn text_block_json(text: Seq<char>) -> JsonView {
    JsonView::Object(map!["type"@ => JsonView::Text("text"@), "text"@ => JsonView::Text(text)])
}

/// The form in which a content block is sent to the agent.
pub open spec fn block_json(block: ContentBlock) -> JsonView {
    match block {
        ContentBlock::Text { text } => text_block_json(text@),
        ContentBlock::Image { media_type, data } => JsonView::Object(
            map![
                "type"@ => JsonView::Text("image"@),
                "data"@ => JsonView::Text(data@),
                "mimeType"@ => JsonView::Text(media_type@),
            ],
        ),
        ContentBlock::Document { media_type, data, name } => JsonView::Object(
            map![
                "type"@ => JsonView::Text("document"@),
                "data"@ => JsonView::Text(data@),
                "mimeType"@ => JsonView::Text(media_type@),
                "name"@ => JsonView::Text(name@),
            ],
        ),
    }
}

impl ContentBlock {
    /// The block in the form in which it is sent to the agent.
    pub fn to_json(&self) -> (doc: Json)
        ensures
            doc@ == block_json(*self),
    {
        match self {
            ContentBlock::Text { text } => Json::Object(
                JsonObject::new().with("type", Json::text("text")).with(
                    "text",
                    Json::text(text.as_str()),
                ),
            ),
            ContentBlock::Image { media_type, data } => Json::Object(
                JsonObject::new().with("type", Json::text("image")).with(
                    "data",
                    Json::text(data.as_str()),
                ).with("mimeType", Json::text(media_type.as_str())),
            ),
            ContentBlock::Document { media_type, data, name } => Json::Object(
                JsonObject::new().with("type", Json::text("document")).with(
                    "data",
                    Json::text(data.as_str()),
                ).with("mimeType", Json::text(media_type.as_str())).with(
                    "name",
                    Json::text(name.as_str()),
                ),
            ),
        }
    }
}

/// The form in which the blocks of a prompt are sent to the agent.
pub open spec fn blocks_json(blocks: Seq<ContentBlock>) -> Seq<JsonView> {
    blocks.map_values(|block: ContentBlock| block_json(block))
}

/// The blocks of a prompt in the form in which they are sent to the agent.
pub fn blocks_to_json(blocks: &Vec<ContentBlock>) -> (docs: Vec<Json>)
    ensures
        elements_view(docs@) == blocks_json(blocks@),
{
    let mut docs: Vec<Json> = Vec::new();
    let mut i: usize = 0;
    while i < blocks.len()
        invariant
            0 <= i <= blocks.len(),
            docs@.len() == i,
            forall|j: int| 0 <= j < i ==> (#[trigger] docs@[j])@ == block_json(blocks@[j]),
        decreases blocks.len() - i,
    {
        docs.push(blocks[i].to_json());
        i = i + 1;
    }
    proof {
        lemma_elements_view(docs@);
        assert(elements_view(docs@) =~= blocks_json(blocks@));
    }
    docs
}

/// What the image gate lets through.
pub open spec fn images_gated(blocks: Seq<ContentBlock>, allow_image: bool) -> Seq<ContentBlock> {
    if allow_image {
        blocks
    } else {
        blocks.filter(|block: ContentBlock| !(block is Image))
    }
}

/// What the document gate lets through.
pub open spec fn documents_gated(blocks: Seq<ContentBlock>, allow_document: bool) -> Seq<
    ContentBlock,
> {
    if allow_document {
        blocks
    } else {
        blocks.filter(|block: ContentBlock| !(block is Document))
    }
}

/// The image gate. Where the agent takes no images, every image block is removed
/// and the others are kept in their order; else the blocks are returned as they
/// are.
pub fn gate_image_blocks(blocks: Vec<ContentBlock>, allow_image: bool) -> (gated: Vec<ContentBlock>)
    ensures
        gated@ == images_gated(blocks@, allow_image),
{
    if allow_image {
        return blocks;
    }
    let ghost keep = |block: ContentBlock| !(block is Image);
    let mut gated: Vec<ContentBlock> = Vec::new();
    proof {
        lemma_filter_none(blocks@, keep);
    }
    for block in it: blocks.into_iter()
        invariant
            it.seq() == blocks@,
            keep == (|block: ContentBlock| !(block is Image)),
            gated@ == blocks@.take(it.index() as int).filter(keep),
    {
        proof {
            lemma_filter_step(blocks@, it.index() as int, keep);
        }
        let is_image = matches!(block, ContentBlock::Image { .. });
        if !is_image {
            gated.push(block);
        }
    }
    proof {
        assert(blocks@.take(blocks@.len() as int) =~= blocks@);
    }
    gated
}

/// The document gate. Where the agent takes no documents, every document block is
/// removed and the others are kept in their order; else the blocks are returned
/// as they are.
pub fn gate_document_blocks(blocks: Vec<ContentBlock>, allow_document: bool) -> (gated: Vec<
    ContentBlock,
>)
    ensures
        gated@ == documents_gated(blocks@, allow_document),
{
    if allow_document {
        return blocks;
    }
    let ghost keep = |block: ContentBlock| !(block is Document);
    let mut gated: Vec<ContentBlock> = Vec::new();
    proof {
        lemma_filter_none(blocks@, keep);
    }
    for block in it: blocks.into_iter()
        invariant
            it.seq() == blocks@,
            keep == (|block: ContentBlock| !(block is Document)),
            gated@ == blocks@.take(it.index() as int).filter(keep),
    {
        proof {
            lemma_filter_step(blocks@, it.index() as int, keep);
        }
        let is_document = matches!(block, ContentBlock::Document { .. });
        if !is_document {
            gated.push(block);
        }
    }
    proof {
        assert(blocks@.take(blocks@.len() as int) =~= blocks@);
    }
    gated
}

/// The text blocks of a prompt, in their order.
pub open spec fn text_blocks(blocks: Seq<ContentBlock>) -> Seq<ContentBlock> {
    blocks.filter(|block: ContentBlock| block is Text)
}

/// The image blocks of a prompt, in their order.
pub open spec fn image_blocks(blocks: Seq<ContentBlock>) -> Seq<ContentBlock> {
    blocks.filter(|block: ContentBlock| block is Image)
}

/// The document blocks of a prompt, in their order.
pub open spec fn document_blocks(blocks: Seq<ContentBlock>) -> Seq<ContentBlock> {
    blocks.filter(|block: ContentBlock| block is Document)
}

/// A gate lets no more blocks through than there were.
pub proof fn gates_do_not_add(blocks: Seq<ContentBlock>, allow: bool)
    ensures
        images_gated(blocks, allow).len() <= blocks.len(),
        documents_gated(blocks, allow).len() <= blocks.len(),
{
    lemma_filter_len(blocks, |block: ContentBlock| !(block is Image));
    lemma_filter_len(blocks, |block: ContentBlock| !(block is Document));
}

/// A prompt without images passes the image gate untouched, whatever the agent
/// advertised.
pub proof fn image_gate_is_noop_without_images(blocks: Seq<ContentBlock>, allow_image: bool)
    requires
        forall|i: int| 0 <= i < blocks.len() ==> !((#[trigger] blocks[i]) is Image),
    ensures
        images_gated(blocks, allow_image) == blocks,
{
    lemma_filter_all(blocks, |block: ContentBlock| !(block is Image));
}

/// A prompt without documents passes the document gate untouched, whatever the
/// agent advertised.
pub proof fn document_gate_is_noop_without_documents(
    blocks: Seq<ContentBlock>,
    allow_document: bool,
)
    requires
        forall|i: int| 0 <= i < blocks.len() ==> !((#[trigger] blocks[i]) is Document),
    ensures
        documents_gated(blocks, allow_document) == blocks,
{
    lemma_filter_all(blocks, |block: ContentBlock| !(block is Document));
}

/// Without the capability no image passes the image gate, and the texts and
/// documents pass it in their order.
pub proof fn image_gate_strips_images_only(blocks: Seq<ContentBlock>)
    ensures
        forall|i: int|
            0 <= i < images_gated(blocks, false).len() ==> !((#[trigger] images_gated(
                blocks,
                false,
            )[i]) is Image),
        text_blocks(images_gated(blocks, false)) == text_blocks(blocks),
        document_blocks(images_gated(blocks, false)) == document_blocks(blocks),
{
    let keep = |block: ContentBlock| !(block is Image);
    lemma_filter_has(blocks, keep);
    assert(images_gated(blocks, false) == blocks.filter(keep));
    let is_text = |block: ContentBlock| block is Text;
    lemma_filter_filter(blocks, keep, is_text, is_text);
    let is_document = |block: ContentBlock| block is Document;
    lemma_filter_filter(blocks, keep, is_document, is_document);
}

/// Without the capability no document passes the document gate, and the texts and
/// images pass it in their order.
pub proof fn document_gate_strips_documents_only(blocks: Seq<ContentBlock>)
    ensures
        forall|i: int|
            0 <= i < documents_gated(blocks, false).len() ==> !((#[trigger] documents_gated(
                blocks,
                false,
            )[i]) is Document),
        text_blocks(documents_gated(blocks, false)) == text_blocks(blocks),
        image_blocks(documents_gated(blocks, false)) == image_blocks(blocks),
{
    let keep = |block: ContentBlock| !(block is Document);
    lemma_filter_has(blocks, keep);
    assert(documents_gated(blocks, false) == blocks.filter(keep));
    let is_text = |block: ContentBlock| block is Text;
    lemma_filter_filter(blocks, keep, is_text, is_text);
    let is_image = |block: ContentBlock| block is Image;
    lemma_filter_filter(blocks, keep, is_image, is_image);
}

/// The order of the two gates does not matter.
pub proof fn gates_commute(blocks: Seq<ContentBlock>, allow_image: bool, allow_document: bool)
    ensures
        documents_gated(images_gated(blocks, allow_image), allow_document) == images_gated(
            documents_gated(blocks, allow_document),
            allow_image,
        ),
{
    let no_image = |block: ContentBlock| !(block is Image);
    let no_document = |block: ContentBlock| !(block is Document);
    let both = |block: ContentBlock| !(block is Image) && !(block is Document);
    lemma_filter_filter(blocks, no_image, no_document, both);
    lemma_filter_filter(blocks, no_document, no_image, both);
}

/// A gated prompt passes the same gate untouched.
pub proof fn gates_are_idempotent(blocks: Seq<ContentBlock>, allow: bool)
    ensures
        images_gated(images_gated(blocks, allow), allow) == images_gated(blocks, allow),
        documents_gated(documents_gated(blocks, allow), allow) == documents_gated(blocks, allow),
{
    let no_image = |block: ContentBlock| !(block is Image);
    lemma_filter_filter(blocks, no_image, no_image, no_image);
    let no_document = |block: ContentBlock| !(block is Document);
    lemma_filter_filter(blocks, no_document, no_document, no_document);
}

/// Two different blocks are never sent in the same form.
pub proof fn different_blocks_are_sent_differently(first: ContentBlock, second: ContentBlock)
    requires
        first@ != second@,
    ensures
        block_json(first) != block_json(second),
{
    reveal_strlit("text");
    reveal_strlit("image");
    reveal_strlit("document");
    assert("text"@.len() == 4 && "image"@.len() == 5 && "document"@.len() == 8);
    lemma_block_members(first);
    lemma_block_members(second);
}

/// Prompts that are sent in the same form hold the same blocks in the same order.
pub proof fn prompts_sent_alike_are_alike(
    first: Seq<ContentBlock>,
    second: Seq<ContentBlock>,
)
    requires
        blocks_json(first) == blocks_json(second),
    ensures
        first.len() == second.len(),
        forall|i: int| 0 <= i < first.len() ==> (#[trigger] first[i])@ == second[i]@,
{
    assert(blocks_json(first).len() == first.len());
    assert(blocks_json(second).len() == second.len());
    assert forall|i: int| 0 <= i < first.len() implies (#[trigger] first[i])@ == second[i]@ by {
        assert(blocks_json(first)[i] == block_json(first[i]));
        assert(blocks_json(second)[i] == block_json(second[i]));
        if first[i]@ != second[i]@ {
            different_blocks_are_sent_differently(first[i], second[i]);
        }
    }
}

/// The members of the form in which a block is sent.
proof fn lemma_block_members(block: ContentBlock)
    ensures
        (match block@ {
            BlockView::Text { text } => {
                &&& block_json(block).get_str("type"@) == Some("text"@)
                &&& block_json(block).get_str("text"@) == Some(text)
            },
            BlockView::Image { media_type, data } => {
                &&& block_json(block).get_str("type"@) == Some("image"@)
                &&& block_json(block).get_str("data"@) == Some(data)
                &&& block_json(block).get_str("mimeType"@) == Some(media_type)
            },
            BlockView::Document { media_type, data, name } => {
                &&& block_json(block).get_str("type"@) == Some("document"@)
                &&& block_json(block).get_str("data"@) == Some(data)
                &&& block_json(block).get_str("mimeType"@) == Some(media_type)
                &&& block_json(block).get_str("name"@) == Some(name)
            },
        }),
{
    reveal_strlit("type");
    reveal_strlit("text");
    reveal_strlit("data");
    reveal_strlit("mimeType");
    reveal_strlit("name");
    assert("type"@[1] == 'y' && "text"@[1] == 'e' && "data"@[0] == 'd' && "name"@[0] == 'n');
    assert("type"@[0] == 't' && "text"@[0] == 't');
    assert("mimeType"@.len() == 8 && "type"@.len() == 4 && "data"@.len() == 4 && "name"@.len()
        == 4);
}

/// Without either capability the texts pass both gates, in their order, and nothing
/// else does.
pub proof fn both_gates_leave_texts(blocks: Seq<ContentBlock>)
    ensures
        documents_gated(images_gated(blocks, false), false) == text_blocks(blocks),
{
    let no_image = |block: ContentBlock| !(block is Image);
    let no_document = |block: ContentBlock| !(block is Document);
    let is_text = |block: ContentBlock| block is Text;
    lemma_filter_filter(blocks, no_image, no_document, is_text);
}

/// The forms of blocks: a text has the members `type` and `text`; an image `type`,
/// `data` and `mimeType`; and a document these and `name`. No form has other members.
pub proof fn blocks_have_the_forms_of_the_protocol(block: ContentBlock)
    ensures
        (match block {
            ContentBlock::Text { text } => {
                &&& has_exactly(block_json(block), set!["type"@, "text"@])
                &&& has_text(block_json(block), "type"@, "text"@)
                &&& has_text(block_json(block), "text"@, text@)
                &&& text_block_json(text@) == block_json(block)
                &&& block@ == (BlockView::Text { text: text@ })
            },
            ContentBlock::Image { media_type, data } => {
                &&& has_exactly(block_json(block), set!["type"@, "data"@, "mimeType"@])
                &&& has_text(block_json(block), "type"@, "image"@)
                &&& has_text(block_json(block), "data"@, data@)
                &&& has_text(block_json(block), "mimeType"@, media_type@)
                &&& block@ == (BlockView::Image { media_type: media_type@, data: data@ })
            },
            ContentBlock::Document { media_type, data, name } => {
                &&& has_exactly(block_json(block), set!["type"@, "data"@, "mimeType"@, "name"@])
                &&& has_text(block_json(block), "type"@, "document"@)
                &&& has_text(block_json(block), "data"@, data@)
                &&& has_text(block_json(block), "mimeType"@, media_type@)
                &&& has_text(block_json(block), "name"@, name@)
                &&& block@ == (BlockView::Document {
                    media_type: media_type@,
                    data: data@,
                    name: name@,
                })
            },
        }),
{
    lemma_block_members(block);
    let members = block_json(block)->Object_0;
    match block {
        ContentBlock::Text { text } => {
            assert(members.dom() =~= set!["type"@, "text"@]);
        },
        ContentBlock::Image { media_type, data } => {
            assert(members.dom() =~= set!["type"@, "data"@, "mimeType"@]);
        },
        ContentBlock::Document { media_type, data, name } => {
            assert(members.dom() =~= set!["type"@, "data"@, "mimeType"@, "name"@]);
        },
    }
}

/// The blocks of a prompt are sent one for one, each in its own form.
pub proof fn blocks_are_sent_one_for_one(blocks: Seq<ContentBlock>)
    ensures
        blocks_json(blocks).len() == blocks.len(),
        forall|i: int|
            0 <= i < blocks.len() ==> #[trigger] blocks_json(blocks)[i] == block_json(blocks[i]),
{
}

/// Each gate decides about its own kind of block alone: an image passes the image gate
/// exactly where images are allowed, a document passes the document gate exactly where
/// documents are allowed, everything else passes, and the order stays.
pub proof fn gates_decide_about_their_own_kind(blocks: Seq<ContentBlock>, allow: bool)
    ensures
        images_gated(blocks, allow) == blocks.filter(
            |block: ContentBlock| allow || block is Text || block is Document,
        ),
        documents_gated(blocks, allow) == blocks.filter(
            |block: ContentBlock| allow || block is Text || block is Image,
        ),
        images_gated(blocks, true) == blocks,
        documents_gated(blocks, true) == blocks,
{
    let image_passes = |block: ContentBlock| allow || block is Text || block is Document;
    let document_passes = |block: ContentBlock| allow || block is Text || block is Image;
    if allow {
        lemma_filter_all(blocks, image_passes);
        lemma_filter_all(blocks, document_passes);
    } else {
        lemma_filter_same(blocks, image_passes, |block: ContentBlock| !(block is Image));
        lemma_filter_same(blocks, document_passes, |block: ContentBlock| !(block is Document));
    }
}

} // verus!
